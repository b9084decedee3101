use std::path::PathBuf;

use cache_action::any_cache::AnyCacheKind;
use cache_action::drain::{describe_copy_error, DrainArgs, DrainError};
use cache_action::protocol::{Sender, StoreDir};
use cache_action::push::{PushArgs, PushError};
use cache_action::readiness::{signal, MessageStep, StartupMessage};
use cache_action::run::{
    describe_write_error, on_started, parse_upstream_caches, split_list, RunArgs,
    Start, Sub60CacheRunArgs,
};
use cache_action::start::{
    log_start_timing, on_cache_connected, on_canonicalized, on_message_read, on_status,
    timing_enabled, Parent, Setup, StartArgs, StartError, TimedStep,
};
use cache_action::store_path::{NarInfoFileName, StoreBasename, StorePath};
use cache_action::sub60_cache::Sub60CacheConnectError;
use cache_action::text::{decimal, signed_decimal, to_ascii_lowercase, trim};
use cache_action::{run, Command, Invocation};

#[test]
fn command_to_push() {
    let command = Command::Push(PushArgs {
        socket: PathBuf::from("/run/socket"),
        store_paths: vec![path("a", "foo"), path("b", "bar")],
    });
    match run(command) {
        Invocation::Push { socket, sender } => {
            assert_eq!(socket, PathBuf::from("/run/socket"));
            assert_eq!(
                written(sender),
                b"/nix/store/a-foo\n/nix/store/b-bar\n"
            );
        },
        _ => panic!("expected to push"),
    }
}

#[test]
fn command_to_stop() {
    let command =
        Command::Stop(DrainArgs { socket: PathBuf::from("/run/socket") });
    match run(command) {
        Invocation::Drain { socket, sender } => {
            assert_eq!(socket, PathBuf::from("/run/socket"));
            assert_eq!(written(sender), b"\0");
        },
        _ => panic!("expected to drain"),
    }
}

#[test]
fn command_to_run() {
    let command = Command::Run(RunArgs {
        socket: PathBuf::from("/run/socket"),
        ready_fd: Some(3),
        upstream_caches: parse_upstream_caches("").unwrap(),
        sub60_cache_args: Sub60CacheRunArgs {
            user: "someone".to_owned(),
            cache: "main".to_owned(),
            auth_token: "token".to_owned(),
        },
        cache: AnyCacheKind::Noop,
    });
    match run(command) {
        Invocation::Serve(args) => {
            assert_eq!(args.socket, PathBuf::from("/run/socket"));
            assert_eq!(args.ready_fd, Some(3));
            assert_eq!(args.cache, AnyCacheKind::Noop);
        },
        _ => panic!("expected to serve"),
    }
}

#[test]
fn texts_of_client_errors() {
    assert_eq!(
        PushError::ConnectToSocket("refused".to_owned()).to_text(),
        "Couldn't connect to Unix domain socket: refused"
    );
    assert_eq!(
        PushError::WriteMessage("broken".to_owned()).to_text(),
        "Couldn't write message to Unix domain socket: broken"
    );
    assert_eq!(
        DrainError::ConnectToSocket("refused".to_owned()).to_text(),
        "Couldn't connect to Unix domain socket: refused"
    );
    assert_eq!(
        DrainError::WriteMessage("broken".to_owned()).to_text(),
        "Couldn't write message to Unix domain socket: broken"
    );
    assert_eq!(
        describe_copy_error("closed"),
        "Couldn't copy bytes to stdout: closed"
    );
}

#[test]
fn upstream_caches_are_parsed() {
    let caches = |value| parse_upstream_caches(value).map(|caches| caches.to_vec());
    assert!(caches("").unwrap().is_empty());
    assert!(caches(",,").unwrap().is_empty());
    assert_eq!(
        caches("https://cache.nixos.org,,https://B.example/x,").unwrap(),
        ["https://cache.nixos.org/", "https://b.example/x"]
    );
    assert_eq!(
        caches("https://cache.nixos.org,nothing,https://").unwrap_err(),
        "relative URL without a base"
    );
}

#[test]
fn lists_are_split() {
    assert!(split_list("").is_empty());
    assert!(split_list(",").is_empty());
    assert_eq!(split_list("a"), ["a"]);
    assert_eq!(split_list(",a,,b c,\u{e4},"), ["a", "b c", "\u{e4}"]);
}

#[test]
fn upstream_caches_have_narinfo_urls() {
    let name = NarInfoFileName::of(&path("a", "foo"));
    let caches =
        parse_upstream_caches("https://x.example,https://y.example/z").unwrap();
    assert_eq!(
        caches.narinfo_urls(&name).unwrap(),
        ["https://x.example/a.narinfo", "https://y.example/z/a.narinfo"]
    );
    let caches = parse_upstream_caches("https://x.example,data:none").unwrap();
    assert!(caches.narinfo_urls(&name).is_none());
}

#[test]
fn daemon_is_started_in_steps() {
    assert!(matches!(
        Start::BindSocket.on_done(Ok(())),
        Ok(Some(Start::OpenNixStore))
    ));
    assert!(matches!(
        Start::OpenNixStore.on_done(Ok(())),
        Ok(Some(Start::ConnectToCache))
    ));
    assert!(matches!(Start::ConnectToCache.on_done(Ok(())), Ok(None)));
    let text = |start: Start| start.on_done(Err("why".to_owned())).unwrap_err().to_text();
    assert_eq!(text(Start::BindSocket), "Couldn't bind to Unix domain socket: why");
    assert_eq!(text(Start::OpenNixStore), "Couldn't open Nix store: why");
    assert_eq!(text(Start::ConnectToCache), "couldn't build HTTP client: why");
}

#[test]
fn daemon_tells_whether_it_has_started() {
    let error = || Err(run::StartError::OpenNixStore("why".to_owned()));
    let ready = on_started(Some(3), &Ok(()));
    assert_eq!(ready.writes, [[0]]);
    assert!(ready.said.is_none() && ready.goes_on);
    let failed = on_started(Some(3), &error());
    assert_eq!(failed.writes.concat(), b"\x01Couldn't open Nix store: why");
    assert!(failed.said.is_none() && !failed.goes_on);
    let ready = on_started(None, &Ok(()));
    assert!(ready.writes.is_empty() && ready.said.is_none() && ready.goes_on);
    let failed = on_started(None, &error());
    assert!(failed.writes.is_empty() && !failed.goes_on);
    assert_eq!(failed.said.unwrap(), "Couldn't open Nix store: why");
    assert_eq!(
        describe_write_error(-1, "bad"),
        "Couldn't write to file descriptor -1: bad"
    );
}

#[test]
fn daemon_process_is_set_up_in_steps() {
    let mut step = Setup::BindSocket;
    let mut steps = vec![step];
    while let Ok(Some(next)) = step.on_done(Ok(())) {
        step = next;
        steps.push(step);
    }
    assert_eq!(
        steps,
        [Setup::BindSocket, Setup::OpenNixStore, Setup::CreatePipe, Setup::Fork]
    );
    let texts = steps
        .iter()
        .map(|step| step.on_done(Err("why".to_owned())).unwrap_err().to_text())
        .collect::<Vec<_>>();
    assert_eq!(
        texts,
        [
            "Couldn't bind to Unix domain socket: why",
            "Couldn't open Nix store: why",
            "Couldn't create pipe: why",
            "Couldn't fork process: why",
        ]
    );
}

#[test]
fn parent_learns_the_error_of_the_child() {
    let error = Sub60CacheConnectError::BuildHttpClient("n\u{f6} TLS".to_owned());
    let bytes = on_cache_connected(Err(error)).unwrap().concat();
    assert!(on_cache_connected(Ok(())).is_none());
    for size in [1, 2, 5, 1024] {
        let mut message = match on_status(Ok(Some(bytes[0]))) {
            Ok(Parent::ReadMessage(message)) => message,
            _ => panic!("expected a message"),
        };
        for piece in bytes[1..].chunks(size) {
            message = match on_message_read(message, Ok(piece.to_vec())) {
                Ok(message) => message,
                Err(_) => panic!("expected more of the message"),
            };
        }
        match on_message_read(message, Ok(vec![])) {
            Err(error) => {
                assert!(matches!(error, StartError::DaemonStartupError(_)));
                assert_eq!(
                    error.to_text(),
                    "couldn't build HTTP client: n\u{f6} TLS"
                );
            },
            Ok(_) => panic!("expected an error"),
        }
    }
}

#[test]
fn parent_learns_that_the_child_is_ready() {
    let bytes = signal(None).concat();
    assert_eq!(bytes, [0]);
    assert!(matches!(
        on_status(Ok(Some(bytes[0]))),
        Ok(Parent::CanonicalizeSocket)
    ));
}

#[test]
fn parent_learns_nothing() {
    assert!(matches!(on_status(Ok(None)), Err(StartError::DaemonDidntStart)));
    assert!(matches!(
        on_status(Err("gone".to_owned())),
        Err(StartError::DaemonDidntStart)
    ));
    match on_message_read(StartupMessage::new(), Err("gone".to_owned())) {
        Err(error) => assert_eq!(error.to_text(), "Couldn't start daemon"),
        Ok(_) => panic!("expected an error"),
    }
}

#[test]
fn message_that_is_not_utf8() {
    let mut message = StartupMessage::new();
    assert!(matches!(
        message.on_read(Ok(b"a\xffb".to_vec())),
        MessageStep::ReadMore
    ));
    match message.on_read(Ok(vec![])) {
        MessageStep::Complete(text) => assert_eq!(text, "a\u{fffd}b"),
        _ => panic!("expected the message"),
    }
}

#[test]
fn parent_tells_about_the_daemon() {
    let args = StartArgs {
        socket: PathBuf::from("socket"),
        user: "someone".to_owned(),
        cache: "main".to_owned(),
        auth_token: "token".to_owned(),
    };
    let socket = args.socket.display().to_string();
    assert_eq!(
        on_canonicalized(123, socket.clone(), Ok("/run/socket".to_owned())).unwrap(),
        "Started daemon with process ID 123, listening on /run/socket"
    );
    assert_eq!(
        on_canonicalized(123, socket, Err("missing".to_owned()))
            .unwrap_err()
            .to_text(),
        "Couldn't canonicalize 'socket': missing"
    );
}

#[test]
fn start_is_timed() {
    assert!(log_start_timing(false, TimedStep::Fork, 12).is_none());
    assert_eq!(
        log_start_timing(true, TimedStep::CreatePipe, 12).unwrap(),
        "cache-action start timing: create startup pipe: 12ms"
    );
    let labels = [
        (TimedStep::BindSocket, "bind socket"),
        (TimedStep::OpenNixStore, "open Nix store"),
        (TimedStep::Fork, "fork"),
        (TimedStep::WaitForReadiness, "wait for daemon readiness"),
        (TimedStep::CanonicalizeSocket, "canonicalize socket path"),
        (TimedStep::Total, "start command total"),
        (TimedStep::CreateCacheClient, "child create cache client"),
        (TimedStep::CreateRuntime, "child create Tokio runtime"),
        (TimedStep::CreateContext, "child create context"),
        (TimedStep::CreateListener, "child create async listener"),
        (TimedStep::SignalReadiness, "child signal readiness"),
    ];
    for (step, label) in labels {
        assert_eq!(step.as_str(), label);
    }
}

#[test]
fn timing_is_switched_on() {
    for value in ["1", "true", "YES", " on\n", "\u{a0}True\u{3000}"] {
        assert!(timing_enabled(Some(value), None));
        assert!(timing_enabled(None, Some(value)));
    }
    for value in ["", "0", "false", "o n", "yes!", "\u{200b}on"] {
        assert!(!timing_enabled(Some(value), Some("1")));
    }
    assert!(!timing_enabled(None, None));
}

#[test]
fn texts_are_trimmed_like_in_std() {
    for c in '\0'..='\u{ffff}' {
        let s = format!("{c}x{c}");
        assert_eq!(trim(&s), s.trim());
    }
    assert_eq!(trim(" \t "), "");
    assert_eq!(to_ascii_lowercase("AZaz[@\u{c4}"), "azaz[@\u{c4}");
}

#[test]
fn numbers_are_written_like_in_std() {
    for n in [0, 9, 10, 100, 12345678901234567890, u128::MAX] {
        assert_eq!(decimal(n), n.to_string());
    }
    for n in [0, 7, -7, i32::MIN, i32::MAX] {
        assert_eq!(signed_decimal(n), n.to_string());
    }
}

fn written(mut sender: Sender) -> Vec<u8> {
    let bytes = sender.next_write().unwrap();
    sender.on_written(bytes.len()).unwrap();
    assert!(sender.next_write().is_none());
    bytes
}

fn path(hash: &str, name: &str) -> StorePath {
    StorePath {
        store_dir: StoreDir::NixStore,
        basename: StoreBasename { hash: hash.to_owned(), name: name.to_owned() },
    }
}
