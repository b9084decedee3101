//! Starting the daemon as a process of its own.
//!
//! The program binds the daemon's socket, opens the Nix store, and forks. The
//! child becomes the daemon, and the parent waits until the child is ready.

use std::path::PathBuf;

use vstd::prelude::*;

use crate::readiness::{MessageStep, StartupMessage};
use crate::sub60_cache::Sub60CacheConnectError;
use crate::{readiness, text};

verus! {

/// A path in the file system, which is only carried along.
#[verifier::external_type_specification]
#[verifier::external_body]
pub struct ExPathBuf(std::path::PathBuf);

/// What the daemon is started with.
pub struct StartArgs {
    pub socket: PathBuf,
    pub user: String,
    pub cache: String,
    pub auth_token: String,
}

/// Why the daemon could not be started.
#[derive(Debug)]
pub enum StartError {
    BindSocket(String),
    CanonicalizeSocketPath(String, String),
    ConnectToCache(Sub60CacheConnectError),
    CreatePipe(String),
    DaemonDidntStart,
    DaemonStartupError(String),
    ForkProcess(String),
    OpenNixStore(String),
}

impl StartError {
    /// The written form.
    pub open spec fn text(self) -> Seq<char> {
        match self {
            StartError::BindSocket(error) => "Couldn't bind to Unix domain socket: "@ + error@,
            StartError::CanonicalizeSocketPath(path, error) => "Couldn't canonicalize '"@ + path@
                + "': "@ + error@,
            StartError::ConnectToCache(error) => error.text(),
            StartError::CreatePipe(error) => "Couldn't create pipe: "@ + error@,
            StartError::DaemonDidntStart => "Couldn't start daemon"@,
            StartError::DaemonStartupError(message) => message@,
            StartError::ForkProcess(error) => "Couldn't fork process: "@ + error@,
            StartError::OpenNixStore(error) => "Couldn't open Nix store: "@ + error@,
        }
    }

    /// Returns the written form.
    pub fn to_text(&self) -> (text: String)
        ensures
            text@ == self.text(),
    {
        match self {
            StartError::BindSocket(error) => text::concat2(
                "Couldn't bind to Unix domain socket: ",
                error.as_str(),
            ),
            StartError::CanonicalizeSocketPath(path, error) => {
                let mut text: String = text::concat3("Couldn't canonicalize '", path.as_str(), "': ");
                text.append(error.as_str());
                text
            },
            StartError::ConnectToCache(error) => error.to_text(),
            StartError::CreatePipe(error) => text::concat2("Couldn't create pipe: ", error.as_str()),
            StartError::DaemonDidntStart => "Couldn't start daemon".to_owned(),
            StartError::DaemonStartupError(message) => message.clone(),
            StartError::ForkProcess(error) => text::concat2(
                "Couldn't fork process: ",
                error.as_str(),
            ),
            StartError::OpenNixStore(error) => text::concat2(
                "Couldn't open Nix store: ",
                error.as_str(),
            ),
        }
    }
}

/// What is done before there are two processes, in this order.
#[derive(Clone, Copy, Debug, PartialEq, Eq, Structural)]
pub enum Setup {
    BindSocket,
    OpenNixStore,
    CreatePipe,
    Fork,
}

impl Setup {
    /// What is done next, if anything is.
    pub open spec fn next(self) -> Option<Setup> {
        match self {
            Setup::BindSocket => Some(Setup::OpenNixStore),
            Setup::OpenNixStore => Some(Setup::CreatePipe),
            Setup::CreatePipe => Some(Setup::Fork),
            Setup::Fork => None,
        }
    }

    /// What is wrong if this fails.
    pub open spec fn error(self, error: String) -> StartError {
        match self {
            Setup::BindSocket => StartError::BindSocket(error),
            Setup::OpenNixStore => StartError::OpenNixStore(error),
            Setup::CreatePipe => StartError::CreatePipe(error),
            Setup::Fork => StartError::ForkProcess(error),
        }
    }

    /// Takes whether this was done, and decides what is done next, if anything
    /// is.
    pub fn on_done(self, done: Result<(), String>) -> (next: Result<Option<Setup>, StartError>)
        ensures
            next == match done {
                Ok(()) => Ok::<Option<Setup>, StartError>(self.next()),
                Err(error) => Err::<Option<Setup>, StartError>(self.error(error)),
            },
    {
        match (self, done) {
            (Setup::BindSocket, Ok(())) => Ok(Some(Setup::OpenNixStore)),
            (Setup::OpenNixStore, Ok(())) => Ok(Some(Setup::CreatePipe)),
            (Setup::CreatePipe, Ok(())) => Ok(Some(Setup::Fork)),
            (Setup::Fork, Ok(())) => Ok(None),
            (Setup::BindSocket, Err(error)) => Err(StartError::BindSocket(error)),
            (Setup::OpenNixStore, Err(error)) => Err(StartError::OpenNixStore(error)),
            (Setup::CreatePipe, Err(error)) => Err(StartError::CreatePipe(error)),
            (Setup::Fork, Err(error)) => Err(StartError::ForkProcess(error)),
        }
    }
}

/// What the parent does next.
pub enum Parent {
    /// Reads more of the text of an error.
    ReadMessage(StartupMessage),
    /// Turns the socket's path into the one that it tells about.
    CanonicalizeSocket,
}

/// Takes the first byte that the child writes, if it writes any, or why it could
/// not be read.
pub fn on_status(read: Result<Option<u8>, String>) -> (next: Result<Parent, StartError>)
    requires
        read matches Ok(Some(byte)) ==> byte == readiness::READY || byte == readiness::FAILED,
    ensures
        match read {
            Ok(Some(byte)) => if byte == readiness::READY {
                next == Ok::<Parent, StartError>(Parent::CanonicalizeSocket)
            } else {
                next matches Ok(Parent::ReadMessage(message)) && message@ == Seq::<u8>::empty()
            },
            Ok(None) => next == Err::<Parent, StartError>(StartError::DaemonDidntStart),
            Err(_) => next == Err::<Parent, StartError>(StartError::DaemonDidntStart),
        },
{
    match read {
        Ok(Some(byte)) => if byte == readiness::READY {
            Ok(Parent::CanonicalizeSocket)
        } else {
            Ok(Parent::ReadMessage(StartupMessage::new()))
        },
        Ok(None) => Err(StartError::DaemonDidntStart),
        Err(_) => Err(StartError::DaemonDidntStart),
    }
}

/// Takes the next bytes of the text of an error, of which there are none at its
/// end, or why they could not be read. There is more to read, or the daemon
/// could not be started.
pub fn on_message_read(message: StartupMessage, read: Result<Vec<u8>, String>) -> (next: Result<
    StartupMessage,
    StartError,
>)
    ensures
        match read {
            Ok(bytes) => if bytes@.len() == 0 {
                next matches Err(StartError::DaemonStartupError(error)) && error@ == text::lossy(
                    message@,
                )
            } else {
                next matches Ok(longer) && longer@ == message@ + bytes@
            },
            Err(_) => next == Err::<StartupMessage, StartError>(StartError::DaemonDidntStart),
        },
{
    let mut message: StartupMessage = message;
    match message.on_read(read) {
        MessageStep::ReadMore => Ok(message),
        MessageStep::Complete(error) => Err(StartError::DaemonStartupError(error)),
        MessageStep::Unknown => Err(StartError::DaemonDidntStart),
    }
}

/// What the parent says in the end.
pub open spec fn started_text(child: nat, socket: Seq<char>) -> Seq<char> {
    "Started daemon with process ID "@ + text::decimal_text(child) + ", listening on "@ + socket
}

/// Takes the canonical form of the path of the daemon's socket, or why it has
/// none, and returns what the parent says in the end.
pub fn on_canonicalized(child: u32, socket: String, canonical: Result<String, String>) -> (said:
    Result<String, StartError>)
    ensures
        match canonical {
            Ok(path) => said matches Ok(text) && text@ == started_text(child as nat, path@),
            Err(error) => said == Err::<String, StartError>(
                StartError::CanonicalizeSocketPath(socket, error),
            ),
        },
{
    match canonical {
        Ok(path) => {
            let mut text: String = text::concat3(
                "Started daemon with process ID ",
                text::decimal(child as u128).as_str(),
                ", listening on ",
            );
            text.append(path.as_str());
            Ok(text)
        },
        Err(error) => Err(StartError::CanonicalizeSocketPath(socket, error)),
    }
}

/// Takes whether the child is connected to the cache. If it is not, it writes
/// these byte strings, one after the other, for the parent to read, and ends.
pub fn on_cache_connected(connected: Result<(), Sub60CacheConnectError>) -> (writes: Option<
    Vec<Vec<u8>>,
>)
    ensures
        match connected {
            Ok(()) => writes is None,
            Err(error) => writes matches Some(writes) && writes@.len() == 2 && writes@[0]@
                + writes@[1]@ == readiness::signal_bytes(
                Some(StartError::ConnectToCache(error).text()),
            ),
        },
{
    match connected {
        Ok(()) => None,
        Err(error) => Some(
            readiness::signal(Some(StartError::ConnectToCache(error).to_text().as_str())),
        ),
    }
}

/// What is timed while the daemon starts.
#[derive(Clone, Copy, Debug, PartialEq, Eq, Structural)]
pub enum TimedStep {
    BindSocket,
    OpenNixStore,
    CreatePipe,
    Fork,
    WaitForReadiness,
    CanonicalizeSocket,
    Total,
    CreateCacheClient,
    CreateRuntime,
    CreateContext,
    CreateListener,
    SignalReadiness,
}

impl TimedStep {
    /// The written form.
    pub open spec fn text(self) -> Seq<char> {
        match self {
            TimedStep::BindSocket => "bind socket"@,
            TimedStep::OpenNixStore => "open Nix store"@,
            TimedStep::CreatePipe => "create startup pipe"@,
            TimedStep::Fork => "fork"@,
            TimedStep::WaitForReadiness => "wait for daemon readiness"@,
            TimedStep::CanonicalizeSocket => "canonicalize socket path"@,
            TimedStep::Total => "start command total"@,
            TimedStep::CreateCacheClient => "child create cache client"@,
            TimedStep::CreateRuntime => "child create Tokio runtime"@,
            TimedStep::CreateContext => "child create context"@,
            TimedStep::CreateListener => "child create async listener"@,
            TimedStep::SignalReadiness => "child signal readiness"@,
        }
    }

    /// Returns the written form.
    pub fn as_str(&self) -> (text: &'static str)
        ensures
            text@ == self.text(),
    {
        match self {
            TimedStep::BindSocket => "bind socket",
            TimedStep::OpenNixStore => "open Nix store",
            TimedStep::CreatePipe => "create startup pipe",
            TimedStep::Fork => "fork",
            TimedStep::WaitForReadiness => "wait for daemon readiness",
            TimedStep::CanonicalizeSocket => "canonicalize socket path",
            TimedStep::Total => "start command total",
            TimedStep::CreateCacheClient => "child create cache client",
            TimedStep::CreateRuntime => "child create Tokio runtime",
            TimedStep::CreateContext => "child create context",
            TimedStep::CreateListener => "child create async listener",
            TimedStep::SignalReadiness => "child signal readiness",
        }
    }
}

/// Returns what is said about how long a step took, in milliseconds, if anything
/// is.
pub fn log_start_timing(enabled: bool, step: TimedStep, elapsed_ms: u128) -> (line: Option<String>)
    ensures
        match line {
            Some(line) => enabled && line@ == "cache-action start timing: "@ + step.text() + ": "@
                + text::decimal_text(elapsed_ms as nat) + "ms"@,
            None => !enabled,
        },
{
    if !enabled {
        return None;
    }
    let mut line: String = text::concat3("cache-action start timing: ", step.as_str(), ": ");
    line.append(text::decimal(elapsed_ms).as_str());
    line.append("ms");
    Some(line)
}

/// Whether the value of an environment variable switches something on.
pub open spec fn switches_on(value: Seq<char>) -> bool {
    let word = text::ascii_lowercase_text(text::trimmed(value));
    word == "1"@ || word == "true"@ || word == "yes"@ || word == "on"@
}

/// Returns whether to time the start of the daemon, given the values of the
/// environment variable for it, and of the one that stands in for it.
pub fn timing_enabled(variable: Option<&str>, fallback: Option<&str>) -> (enabled: bool)
    ensures
        enabled == match (variable, fallback) {
            (Some(value), _) => switches_on(value@),
            (None, Some(value)) => switches_on(value@),
            (None, None) => false,
        },
{
    let value: &str = match variable {
        Some(value) => value,
        None => match fallback {
            Some(value) => value,
            None => return false,
        },
    };
    let word: String = text::to_ascii_lowercase(text::trim(value).as_str());
    word == "1".to_owned() || word == "true".to_owned() || word == "yes".to_owned() || word
        == "on".to_owned()
}

/// The socket is bound first, then the Nix store is opened, a pipe is created, and
/// the process forks last; what went wrong is told about the thing that did, with
/// the whole error.
pub proof fn law_setup_goes_in_order(error: String)
    ensures
        Setup::BindSocket.next() == Some(Setup::OpenNixStore),
        Setup::OpenNixStore.next() == Some(Setup::CreatePipe),
        Setup::CreatePipe.next() == Some(Setup::Fork),
        Setup::Fork.next() is None,
        Setup::BindSocket.error(error).text() == "Couldn't bind to Unix domain socket: "@ + error@,
        Setup::OpenNixStore.error(error).text() == "Couldn't open Nix store: "@ + error@,
        Setup::CreatePipe.error(error).text() == "Couldn't create pipe: "@ + error@,
        Setup::Fork.error(error).text() == "Couldn't fork process: "@ + error@,
{
}

/// What the program says names the process and the socket of the daemon, or the
/// path that is wrong, or is the very text that the daemon gave.
pub proof fn law_start_is_told_in_full(child: nat, path: String, error: String)
    ensures
        started_text(child, path@) == "Started daemon with process ID "@ + text::decimal_text(child)
            + ", listening on "@ + path@,
        StartError::CanonicalizeSocketPath(path, error).text() == "Couldn't canonicalize '"@ + path@
            + "': "@ + error@,
        StartError::DaemonStartupError(error).text() == error@,
        StartError::DaemonDidntStart.text() == "Couldn't start daemon"@,
        StartError::ConnectToCache(Sub60CacheConnectError::BuildHttpClient(error)).text()
            == "couldn't build HTTP client: "@ + error@,
{
}

/// No two steps that are timed have the same name.
pub proof fn law_timed_steps_are_told_apart(a: TimedStep, b: TimedStep)
    requires
        a.text() == b.text(),
    ensures
        a == b,
{
    reveal_strlit("bind socket");
    reveal_strlit("open Nix store");
    reveal_strlit("create startup pipe");
    reveal_strlit("fork");
    reveal_strlit("wait for daemon readiness");
    reveal_strlit("canonicalize socket path");
    reveal_strlit("start command total");
    reveal_strlit("child create cache client");
    reveal_strlit("child create Tokio runtime");
    reveal_strlit("child create context");
    reveal_strlit("child create async listener");
    reveal_strlit("child signal readiness");
    assert("bind socket"@.len() == 11 && "bind socket"@[0] == 'b');
    assert("open Nix store"@.len() == 14 && "open Nix store"@[0] == 'o');
    assert("create startup pipe"@.len() == 19 && "create startup pipe"@[0] == 'c');
    assert("fork"@.len() == 4 && "fork"@[0] == 'f');
    assert("wait for daemon readiness"@.len() == 25 && "wait for daemon readiness"@[0] == 'w');
    assert("canonicalize socket path"@.len() == 24 && "canonicalize socket path"@[0] == 'c');
    assert("start command total"@.len() == 19 && "start command total"@[0] == 's');
    assert("child create cache client"@.len() == 25 && "child create cache client"@[0] == 'c');
    assert("child create Tokio runtime"@.len() == 26 && "child create Tokio runtime"@[0] == 'c');
    assert("child create context"@.len() == 20 && "child create context"@[0] == 'c');
    assert("child create async listener"@.len() == 27 && "child create async listener"@[0] == 'c');
    assert("child signal readiness"@.len() == 22 && "child signal readiness"@[0] == 'c');
    assert(a.text().len() == b.text().len() && a.text()[0] == b.text()[0]);
}

/// Whether a character is a letter, in lower or in upper case.
pub open spec fn is_letter(c: char, lower: char, upper: char) -> bool {
    c == lower || c == upper
}

/// A value switches something on exactly if, apart from the white space around it,
/// it is one of `1`, `true`, `yes` and `on`, in whatever case.
pub proof fn law_words_that_switch_on(before: Seq<char>, word: Seq<char>, after: Seq<char>)
    requires
        forall|i: int| 0 <= i < before.len() ==> text::is_white_space(#[trigger] before[i]),
        forall|i: int| 0 <= i < after.len() ==> text::is_white_space(#[trigger] after[i]),
        word.len() > 0 ==> !text::is_white_space(word[0]) && !text::is_white_space(word.last()),
    ensures
        switches_on(before + word + after) <==> {
            ||| word.len() == 1 && word[0] == '1'
            ||| word.len() == 4 && is_letter(word[0], 't', 'T') && is_letter(word[1], 'r', 'R')
                && is_letter(word[2], 'u', 'U') && is_letter(word[3], 'e', 'E')
            ||| word.len() == 3 && is_letter(word[0], 'y', 'Y') && is_letter(word[1], 'e', 'E')
                && is_letter(word[2], 's', 'S')
            ||| word.len() == 2 && is_letter(word[0], 'o', 'O') && is_letter(word[1], 'n', 'N')
        },
{
    text::law_trimming_leaves_the_text(before, word, after);
    reveal_strlit("1");
    reveal_strlit("true");
    reveal_strlit("yes");
    reveal_strlit("on");
    let lower = text::ascii_lowercase_text(word);
    assert(lower.len() == word.len());
    assert forall|i: int| 0 <= i < word.len() implies lower[i] == text::ascii_lowercase(
        #[trigger] word[i],
    ) by {}
    if lower == "1"@ {
        assert(lower[0] == '1');
        assert(text::ascii_lowercase(word[0]) == '1');
    }
    if lower == "true"@ {
        assert(lower[0] == 't' && lower[1] == 'r' && lower[2] == 'u' && lower[3] == 'e');
        assert(text::ascii_lowercase(word[0]) == 't' && text::ascii_lowercase(word[1]) == 'r');
        assert(text::ascii_lowercase(word[2]) == 'u' && text::ascii_lowercase(word[3]) == 'e');
    }
    if lower == "yes"@ {
        assert(lower[0] == 'y' && lower[1] == 'e' && lower[2] == 's');
        assert(text::ascii_lowercase(word[0]) == 'y' && text::ascii_lowercase(word[1]) == 'e');
        assert(text::ascii_lowercase(word[2]) == 's');
    }
    if lower == "on"@ {
        assert(lower[0] == 'o' && lower[1] == 'n');
        assert(text::ascii_lowercase(word[0]) == 'o' && text::ascii_lowercase(word[1]) == 'n');
    }
    if word.len() == 1 && word[0] == '1' {
        assert(text::ascii_lowercase(word[0]) == '1');
        assert(lower =~= "1"@);
    }
    if word.len() == 4 && is_letter(word[0], 't', 'T') && is_letter(word[1], 'r', 'R') && is_letter(
        word[2],
        'u',
        'U',
    ) && is_letter(word[3], 'e', 'E') {
        assert(text::ascii_lowercase(word[0]) == 't' && text::ascii_lowercase(word[1]) == 'r');
        assert(text::ascii_lowercase(word[2]) == 'u' && text::ascii_lowercase(word[3]) == 'e');
        assert(lower =~= "true"@);
    }
    if word.len() == 3 && is_letter(word[0], 'y', 'Y') && is_letter(word[1], 'e', 'E') && is_letter(
        word[2],
        's',
        'S',
    ) {
        assert(text::ascii_lowercase(word[0]) == 'y' && text::ascii_lowercase(word[1]) == 'e');
        assert(text::ascii_lowercase(word[2]) == 's');
        assert(lower =~= "yes"@);
    }
    if word.len() == 2 && is_letter(word[0], 'o', 'O') && is_letter(word[1], 'n', 'N') {
        assert(text::ascii_lowercase(word[0]) == 'o' && text::ascii_lowercase(word[1]) == 'n');
        assert(lower =~= "on"@);
    }
}

} // verus!
