//! The wire protocol spoken on the Unix domain socket between the daemon and
//! the `push`/`drain` subcommands.
//!
//! Store paths are separated by newlines, and a null byte signals the daemon to
//! drain and shut down.
//!
//! ```text
//! push:  /nix/store/abc-foo\n/nix/store/def-bar\n
//! drain: \0
//! ```

use vstd::prelude::*;
use vstd::utf8::*;

use crate::io_error::{IoError, IoErrorKind, IoErrorView};
use crate::store_path::{StorePath, StorePathView};
use crate::text;

verus! {

/// The store paths separator in the wire format.
pub const PATH_SEPARATOR: u8 = 10;

/// The sentinel byte which signals the daemon to drain pending uploads and shut
/// down.
pub const DRAIN_SENTINEL: u8 = 0;

/// The number of bytes that a [`Receiver`] holds at most.
pub const RECEIVE_BUFFER_SIZE: usize = 1024;

/// `memchr::memchr` returns the first position at which a byte occurs in a
/// slice, or `None` if it does not occur in it.
pub assume_specification[ memchr::memchr ](needle: u8, haystack: &[u8]) -> (position: Option<usize>)
    ensures
        match position {
            Some(i) => first_position(haystack@, needle, i as int),
            None => !haystack@.contains(needle),
        },
;

/// Whether `i` is the first position at which `needle` occurs in `bytes`.
pub open spec fn first_position(bytes: Seq<u8>, needle: u8, i: int) -> bool {
    &&& 0 <= i < bytes.len()
    &&& bytes[i] == needle
    &&& forall|j: int| 0 <= j < i ==> bytes[j] != needle
}

/// A store directory.
#[derive(Debug)]
pub enum StoreDir {
    /// The `/nix/store` directory.
    NixStore,
    /// Any other store directory, guaranteed to not contain the `NUL` byte.
    Other(String),
}

/// The contents of a [`StoreDir`].
#[verifier::ext_equal]
pub enum StoreDirView {
    NixStore,
    Other(Seq<char>),
}

/// A store directory holds a `NUL` byte before its end.
#[derive(Clone, Copy, Debug, PartialEq, Eq, Structural)]
pub struct InteriorNulError {
    /// Where the first `NUL` byte stands.
    pub position: usize,
}

impl View for StoreDir {
    type V = StoreDirView;

    open spec fn view(&self) -> StoreDirView {
        match self {
            StoreDir::NixStore => StoreDirView::NixStore,
            StoreDir::Other(dir) => StoreDirView::Other(dir@),
        }
    }
}

impl StoreDirView {
    /// The written form.
    pub open spec fn text(self) -> Seq<char> {
        match self {
            StoreDirView::NixStore => "/nix/store"@,
            StoreDirView::Other(dir) => dir,
        }
    }

    /// Whether a directory other than `/nix/store` holds no `NUL`.
    pub open spec fn wf(self) -> bool {
        self matches StoreDirView::Other(dir) ==> !dir.contains('\0')
    }
}

/// The store directory with the given written form.
pub open spec fn store_dir_of(s: Seq<char>) -> StoreDirView {
    if s == "/nix/store"@ {
        StoreDirView::NixStore
    } else {
        StoreDirView::Other(s)
    }
}

/// A store directory that was read is written as it was, and one that is written
/// is read as it was, unless it is `/nix/store` under another guise.
pub proof fn law_store_dir_round_trip(s: Seq<char>, dir: StoreDirView)
    requires
        dir != StoreDirView::Other("/nix/store"@),
    ensures
        store_dir_of(s).text() == s,
        store_dir_of(dir.text()) == dir,
{
}

impl Clone for StoreDir {
    fn clone(&self) -> (copy: Self)
        ensures
            copy@ == self@,
    {
        match self {
            StoreDir::NixStore => StoreDir::NixStore,
            StoreDir::Other(dir) => StoreDir::Other(dir.clone()),
        }
    }
}

impl StoreDir {
    /// Reads a store directory.
    ///
    /// Turns down exactly the texts that hold a `NUL`.
    pub fn from_str(s: &str) -> (dir: Result<Self, InteriorNulError>)
        ensures
            match dir {
                Ok(dir) => {
                    &&& dir@.wf()
                    &&& !s@.contains('\0')
                    &&& dir@ == store_dir_of(s@)
                },
                Err(error) => {
                    &&& s@.contains('\0')
                    &&& first_position(encode_utf8(s@), 0, error.position as int)
                },
            },
    {
        proof {
            reveal_strlit("/nix/store");
            text::lemma_encode_ascii(s@, 0);
            assert(0u8 as char == '\0');
        }
        let text: String = s.to_owned();
        if text == "/nix/store".to_owned() {
            Ok(StoreDir::NixStore)
        } else {
            match memchr::memchr(0, s.as_bytes()) {
                Some(position) => {
                    assert(encode_utf8(s@)[position as int] == 0);
                    Err(InteriorNulError { position })
                },
                None => Ok(StoreDir::Other(text)),
            }
        }
    }

    /// Returns the written form.
    pub fn to_text(&self) -> (text: String)
        ensures
            text@ == self@.text(),
    {
        match self {
            StoreDir::NixStore => "/nix/store".to_owned(),
            StoreDir::Other(dir) => dir.clone(),
        }
    }
}

/// A message from a client to the daemon.
#[derive(Debug)]
pub enum Message {
    PushStorePath(StorePath),
    DrainDaemon,
}

/// The contents of a [`Message`].
#[verifier::ext_equal]
pub enum MessageView {
    PushStorePath(StorePathView),
    DrainDaemon,
}

impl View for Message {
    type V = MessageView;

    open spec fn view(&self) -> MessageView {
        match self {
            Message::PushStorePath(path) => MessageView::PushStorePath(path@),
            Message::DrainDaemon => MessageView::DrainDaemon,
        }
    }
}

impl MessageView {
    /// The bytes that stand for the message on the wire.
    pub open spec fn wire(self) -> Seq<u8> {
        match self {
            MessageView::PushStorePath(path) => encode_utf8(path.text()).push(PATH_SEPARATOR),
            MessageView::DrainDaemon => seq![DRAIN_SENTINEL],
        }
    }
}

/// The bytes that stand for a sequence of messages on the wire.
pub open spec fn wire_all(messages: Seq<MessageView>) -> Seq<u8>
    decreases messages.len(),
{
    if messages.len() == 0 {
        seq![]
    } else {
        wire_all(messages.drop_last()) + messages.last().wire()
    }
}

/// Why a client's bytes could not be turned into messages.
#[derive(Debug)]
pub enum ReceiveError {
    Io(IoError),
    InvalidStorePath(String),
}

/// The contents of a [`ReceiveError`].
#[verifier::ext_equal]
pub enum ReceiveErrorView {
    Io(IoErrorView),
    InvalidStorePath(Seq<char>),
}

impl View for ReceiveError {
    type V = ReceiveErrorView;

    open spec fn view(&self) -> ReceiveErrorView {
        match self {
            ReceiveError::Io(error) => ReceiveErrorView::Io(error@),
            ReceiveError::InvalidStorePath(error) => ReceiveErrorView::InvalidStorePath(error@),
        }
    }
}

/// The contents of an item of the stream of messages.
pub open spec fn item_view(item: Result<Message, ReceiveError>) -> Result<
    MessageView,
    ReceiveErrorView,
> {
    match item {
        Ok(message) => Ok(message@),
        Err(error) => Err(error@),
    }
}

impl ReceiveError {
    /// The written form.
    pub open spec fn text(self) -> Seq<char> {
        match self {
            ReceiveError::Io(error) => "I/O error: "@ + error.message@,
            ReceiveError::InvalidStorePath(error) => "invalid store path: "@ + error@,
        }
    }

    /// Returns the written form.
    pub fn to_text(&self) -> (text: String)
        ensures
            text@ == self.text(),
    {
        match self {
            ReceiveError::Io(error) => text::concat2("I/O error: ", error.message.as_str()),
            ReceiveError::InvalidStorePath(error) => text::concat2(
                "invalid store path: ",
                error.as_str(),
            ),
        }
    }
}

/// The bytes that a client has yet to write to the daemon's socket.
///
/// Messages are buffered in memory and written on flush or close.
pub struct Sender {
    buf: Vec<u8>,
    /// The number of bytes in `buf` that were already written.
    num_written: usize,
}

/// A writer took no byte of those that it was given.
#[derive(Clone, Copy, Debug, PartialEq, Eq, Structural)]
pub struct WriteZeroError;

impl WriteZeroError {
    /// Returns the kind of the error.
    pub fn kind(&self) -> (kind: IoErrorKind)
        ensures
            kind == IoErrorKind::WriteZero,
    {
        IoErrorKind::WriteZero
    }

    /// Returns the written form.
    pub fn to_text(&self) -> (text: String)
        ensures
            text@ == "write returned 0"@,
    {
        "write returned 0".to_owned()
    }
}

impl Sender {
    /// Whether no more bytes were written than there were.
    pub closed spec fn wf(self) -> bool {
        self.num_written <= self.buf@.len()
    }

    /// The bytes that are yet to be written.
    pub closed spec fn unwritten(self) -> Seq<u8> {
        self.buf@.skip(self.num_written as int)
    }

    /// A sender without any bytes to write.
    pub fn new() -> (sender: Self)
        ensures
            sender.wf(),
            sender.unwritten() == Seq::<u8>::empty(),
    {
        let sender = Sender { buf: Vec::new(), num_written: 0 };
        assert(sender.unwritten() =~= Seq::<u8>::empty());
        sender
    }

    /// Buffers a message.
    pub fn start_send(&mut self, message: &Message)
        requires
            old(self).wf(),
        ensures
            final(self).wf(),
            final(self).unwritten() == old(self).unwritten() + message@.wire(),
    {
        let ghost before = self.buf@;
        match message {
            Message::PushStorePath(path) => {
                let text: String = path.to_text();
                self.buf.extend_from_slice(text.as_str().as_bytes());
                assert(self.buf@ =~= before + encode_utf8(path@.text()));
                self.buf.push(PATH_SEPARATOR);
            },
            Message::DrainDaemon => {
                self.buf.push(DRAIN_SENTINEL);
            },
        }
        assert(self.buf@ =~= before + message@.wire());
        assert(self.unwritten() =~= before.skip(self.num_written as int) + message@.wire());
    }

    /// Returns the bytes to hand to the underlying writer next, or `None`, with
    /// the buffer cleared, once all of them are written.
    pub fn next_write(&mut self) -> (bytes: Option<Vec<u8>>)
        requires
            old(self).wf(),
        ensures
            final(self).wf(),
            final(self).unwritten() == old(self).unwritten(),
            match bytes {
                Some(bytes) => bytes@.len() > 0 && bytes@ == old(self).unwritten(),
                None => old(self).unwritten().len() == 0,
            },
    {
        if self.num_written < self.buf.len() {
            let bytes: &[u8] = vstd::slice::slice_subrange(
                self.buf.as_slice(),
                self.num_written,
                self.buf.len(),
            );
            assert(bytes@ =~= self.unwritten());
            Some(vstd::slice::slice_to_vec(bytes))
        } else {
            assert(self.unwritten() =~= Seq::<u8>::empty());
            self.buf.clear();
            self.num_written = 0;
            assert(self.unwritten() =~= Seq::<u8>::empty());
            None
        }
    }

    /// Records that the underlying writer took the first `num_written` of the
    /// bytes that it was given. A writer that takes none is an error.
    pub fn on_written(&mut self, num_written: usize) -> (res: Result<(), WriteZeroError>)
        requires
            old(self).wf(),
            num_written <= old(self).unwritten().len(),
        ensures
            final(self).wf(),
            res is Ok <==> num_written > 0,
            final(self).unwritten() == old(self).unwritten().skip(num_written as int),
    {
        if num_written == 0 {
            assert(self.unwritten().skip(0) =~= self.unwritten());
            return Err(WriteZeroError);
        }
        let ghost before = *self;
        let len: usize = self.buf.len();
        assert(num_written <= len - self.num_written);
        self.num_written = self.num_written + num_written;
        assert(self.unwritten() =~= before.unwritten().skip(num_written as int));
        Ok(())
    }
}

/// The number of bytes that precede the first separator, or the number of all
/// bytes if there is no separator.
pub open spec fn line_len(bytes: Seq<u8>) -> nat
    decreases bytes.len(),
{
    if bytes.len() == 0 || bytes[0] == PATH_SEPARATOR {
        0
    } else {
        1 + line_len(bytes.drop_first())
    }
}

/// What a daemon can make out in a client's bytes before it reads any path.
#[verifier::ext_equal]
pub enum Frame {
    /// The bytes of a store path, without the separator.
    Line(Seq<u8>),
    Drain,
}

/// The first frame in `bytes`, or `None` if more bytes are needed to tell.
pub open spec fn first_frame(bytes: Seq<u8>) -> Option<Frame> {
    if bytes.len() > 0 && bytes[0] == DRAIN_SENTINEL {
        Some(Frame::Drain)
    } else if line_len(bytes) < bytes.len() {
        Some(Frame::Line(bytes.take(line_len(bytes) as int)))
    } else {
        None
    }
}

/// The bytes that follow the first line and its separator.
pub open spec fn after_line(bytes: Seq<u8>) -> Seq<u8> {
    bytes.skip(line_len(bytes) as int + 1)
}

/// What comes of a line, given what comes of parsing a text as a store path.
pub open spec fn item_of(
    parse: spec_fn(Seq<char>) -> Result<StorePathView, Seq<char>>,
    line: Seq<u8>,
) -> Result<MessageView, ReceiveErrorView> {
    if valid_utf8(line) {
        match parse(decode_utf8(line)) {
            Ok(path) => Ok(MessageView::PushStorePath(path)),
            Err(error) => Err(ReceiveErrorView::InvalidStorePath(error)),
        }
    } else {
        Err(not_utf8(line))
    }
}

/// The stream of messages in all of a client's bytes. It ends with a request to
/// drain, with a line of which no message comes, and before a line that is too
/// long for the daemon to hold.
pub open spec fn messages_in(
    parse: spec_fn(Seq<char>) -> Result<StorePathView, Seq<char>>,
    bytes: Seq<u8>,
) -> Seq<Result<MessageView, ReceiveErrorView>>
    decreases bytes.len(),
{
    match first_frame(bytes) {
        None => seq![],
        Some(Frame::Drain) => seq![Ok(MessageView::DrainDaemon)],
        Some(Frame::Line(line)) => if line.len() >= RECEIVE_BUFFER_SIZE {
            seq![]
        } else if item_of(parse, line) is Err {
            seq![item_of(parse, line)]
        } else {
            seq![item_of(parse, line)] + messages_in(parse, after_line(bytes))
        },
    }
}

/// What a receiver does next.
#[derive(Debug)]
pub enum Next {
    /// The stream of messages is over.
    End,
    /// Read at most `room` bytes from the client, and hand them to
    /// [`Receiver::on_read`].
    ReadMore { room: usize },
    /// Parse this text as a store path, and hand the outcome to
    /// [`Receiver::on_parsed`].
    ParsePath(String),
    /// The next item of the stream.
    Item(Result<Message, ReceiveError>),
}

/// Turns the bytes that the daemon reads from a client into messages.
pub struct Receiver {
    is_done: bool,
    /// The bytes read so far, of which those before `start` are handled.
    buf: Vec<u8>,
    start: usize,
}

impl Receiver {
    /// Whether the receiver holds no more bytes than it has room for.
    pub closed spec fn wf(self) -> bool {
        self.start <= self.buf@.len() <= RECEIVE_BUFFER_SIZE
    }

    /// Whether the stream of messages is over, whatever the client still sends.
    pub closed spec fn is_done(self) -> bool {
        self.is_done
    }

    /// The bytes that were read and are yet to be handled.
    pub closed spec fn unhandled(self) -> Seq<u8> {
        self.buf@.skip(self.start as int)
    }

    /// A receiver that has read nothing yet.
    pub fn new() -> (receiver: Self)
        ensures
            receiver.wf(),
            !receiver.is_done(),
            receiver.unhandled() == Seq::<u8>::empty(),
    {
        let receiver = Receiver { is_done: false, buf: Vec::new(), start: 0 };
        assert(receiver.unhandled() =~= Seq::<u8>::empty());
        receiver
    }

    /// Decides what to do next with the bytes read so far.
    ///
    /// A request to drain, and a line that is not valid UTF-8, end the stream.
    pub fn poll_next(&mut self) -> (next: Next)
        requires
            old(self).wf(),
        ensures
            final(self).wf(),
            final(self).unhandled().len() <= RECEIVE_BUFFER_SIZE,
            next_spec(
                old(self).is_done(),
                old(self).unhandled(),
                next,
                final(self).is_done(),
                final(self).unhandled(),
            ),
    {
        if self.is_done {
            return Next::End;
        }
        let ghost before = self.unhandled();
        let bytes: &[u8] = vstd::slice::slice_subrange(
            self.buf.as_slice(),
            self.start,
            self.buf.len(),
        );
        assert(bytes@ =~= before);
        if bytes.len() > 0 && bytes[0] == DRAIN_SENTINEL {
            self.is_done = true;
            return Next::Item(Ok(Message::DrainDaemon));
        }
        match memchr::memchr(PATH_SEPARATOR, bytes) {
            None => {
                proof {
                    lemma_line_len_without_separator(before);
                }
                let rest: Vec<u8> = vstd::slice::slice_to_vec(bytes);
                self.buf = rest;
                self.start = 0;
                assert(self.unhandled() =~= before);
                Next::ReadMore { room: RECEIVE_BUFFER_SIZE - self.buf.len() }
            },
            Some(offset) => {
                proof {
                    lemma_line_len_first(before, offset as int);
                }
                let line: &[u8] = vstd::slice::slice_subrange(bytes, 0, offset);
                assert(line@ =~= before.take(offset as int));
                let parsed: Result<String, String> = text::from_utf8(line);
                self.start = self.start + offset + 1;
                assert(self.unhandled() =~= before.skip(offset + 1));
                match parsed {
                    Ok(text) => Next::ParsePath(text),
                    Err(message) => {
                        self.is_done = true;
                        let error = IoError { kind: IoErrorKind::InvalidData, message };
                        Next::Item(Err(ReceiveError::Io(error)))
                    },
                }
            },
        }
    }

    /// Takes the bytes that were read from the client, and decides what to do
    /// next. Having read no bytes ends the stream, and so does a failure to
    /// read, which is handed on.
    pub fn on_read(&mut self, read: Result<Vec<u8>, IoError>) -> (next: Next)
        requires
            old(self).wf(),
            read matches Ok(bytes) ==> old(self).unhandled().len() + bytes@.len()
                <= RECEIVE_BUFFER_SIZE,
        ensures
            final(self).wf(),
            match read {
                Ok(bytes) => if bytes@.len() == 0 {
                    &&& next is End
                    &&& final(self).is_done() == old(self).is_done()
                    &&& final(self).unhandled() == old(self).unhandled()
                } else {
                    next_spec(
                        old(self).is_done(),
                        old(self).unhandled() + bytes@,
                        next,
                        final(self).is_done(),
                        final(self).unhandled(),
                    )
                },
                Err(error) => {
                    &&& next == Next::Item(Err(ReceiveError::Io(error)))
                    &&& final(self).is_done()
                    &&& final(self).unhandled() == old(self).unhandled()
                },
            },
    {
        match read {
            Ok(bytes) => {
                if bytes.len() == 0 {
                    return Next::End;
                }
                let ghost before = self.unhandled();
                let mut buf: Vec<u8> = vstd::slice::slice_to_vec(
                    vstd::slice::slice_subrange(self.buf.as_slice(), self.start, self.buf.len()),
                );
                assert(buf@ =~= before);
                buf.extend_from_slice(bytes.as_slice());
                assert(buf@ =~= before + bytes@);
                self.buf = buf;
                self.start = 0;
                assert(self.unhandled() =~= before + bytes@);
                self.poll_next()
            },
            Err(error) => {
                self.is_done = true;
                Next::Item(Err(ReceiveError::Io(error)))
            },
        }
    }

    /// Takes the outcome of parsing a store path. A failure to parse ends the
    /// stream.
    pub fn on_parsed(&mut self, parsed: Result<StorePath, String>) -> (item: Result<
        Message,
        ReceiveError,
    >)
        requires
            old(self).wf(),
        ensures
            final(self).wf(),
            final(self).unhandled() == old(self).unhandled(),
            match parsed {
                Ok(path) => {
                    &&& item matches Ok(message)
                    &&& message@ == MessageView::PushStorePath(path@)
                    &&& final(self).is_done() == old(self).is_done()
                },
                Err(error) => {
                    &&& item matches Err(ReceiveError::InvalidStorePath(message))
                    &&& message@ == error@
                    &&& final(self).is_done()
                },
            },
    {
        match parsed {
            Ok(path) => Ok(Message::PushStorePath(path)),
            Err(error) => {
                self.is_done = true;
                Err(ReceiveError::InvalidStorePath(error))
            },
        }
    }
}

/// The error about a line that is not valid UTF-8.
pub open spec fn not_utf8(line: Seq<u8>) -> ReceiveErrorView {
    ReceiveErrorView::Io(
        IoErrorView { kind: IoErrorKind::InvalidData, message: text::utf8_error_text(line) },
    )
}

/// What a receiver does next, given whether its stream was over and which bytes
/// it had to handle, and whether its stream is over and which bytes it has to
/// handle afterwards.
pub open spec fn next_spec(
    was_done: bool,
    bytes: Seq<u8>,
    next: Next,
    is_done: bool,
    rest: Seq<u8>,
) -> bool {
    if was_done {
        &&& next is End
        &&& is_done
        &&& rest == bytes
    } else {
        match first_frame(bytes) {
            None => {
                &&& next matches Next::ReadMore { room }
                &&& room == RECEIVE_BUFFER_SIZE - bytes.len()
                &&& !is_done
                &&& rest == bytes
            },
            Some(Frame::Drain) => {
                &&& next matches Next::Item(Ok(message))
                &&& message@ == MessageView::DrainDaemon
                &&& is_done
                &&& rest == bytes
            },
            Some(Frame::Line(line)) => {
                &&& rest == after_line(bytes)
                &&& if valid_utf8(line) {
                    &&& next matches Next::ParsePath(text)
                    &&& text@ == decode_utf8(line)
                    &&& !is_done
                } else {
                    &&& next matches Next::Item(Err(error))
                    &&& error@ == not_utf8(line)
                    &&& is_done
                }
            },
        }
    }
}

/// The first separator ends the first line.
proof fn lemma_line_len_first(bytes: Seq<u8>, i: int)
    requires
        first_position(bytes, PATH_SEPARATOR, i),
    ensures
        line_len(bytes) == i,
    decreases bytes.len(),
{
    if i > 0 {
        assert(bytes[0] != PATH_SEPARATOR);
        assert(first_position(bytes.drop_first(), PATH_SEPARATOR, i - 1));
        lemma_line_len_first(bytes.drop_first(), i - 1);
    }
}

/// Without a separator there is no end of the first line.
proof fn lemma_line_len_without_separator(bytes: Seq<u8>)
    requires
        !bytes.contains(PATH_SEPARATOR),
    ensures
        line_len(bytes) == bytes.len(),
    decreases bytes.len(),
{
    if bytes.len() > 0 {
        assert(bytes[0] != PATH_SEPARATOR);
        assert forall|i: int| 0 <= i < bytes.drop_first().len() implies bytes.drop_first()[i]
            != PATH_SEPARATOR by {
            assert(bytes[i + 1] != PATH_SEPARATOR);
        }
        lemma_line_len_without_separator(bytes.drop_first());
    }
}

/// Bytes that follow a complete line do not change it.
proof fn lemma_line_len_prefix(bytes: Seq<u8>, more: Seq<u8>)
    requires
        line_len(bytes) < bytes.len(),
    ensures
        line_len(bytes + more) == line_len(bytes),
    decreases bytes.len(),
{
    assert((bytes + more)[0] == bytes[0]);
    if bytes[0] != PATH_SEPARATOR {
        assert((bytes + more).drop_first() =~= bytes.drop_first() + more);
        lemma_line_len_prefix(bytes.drop_first(), more);
    }
}

/// The first line is no longer than the bytes.
proof fn lemma_line_len_bound(bytes: Seq<u8>)
    ensures
        line_len(bytes) <= bytes.len(),
    decreases bytes.len(),
{
    if bytes.len() > 0 {
        lemma_line_len_bound(bytes.drop_first());
    }
}

/// Bytes that follow a complete frame do not change it.
pub proof fn lemma_first_frame_prefix(bytes: Seq<u8>, more: Seq<u8>)
    requires
        first_frame(bytes) is Some,
    ensures
        first_frame(bytes + more) == first_frame(bytes),
        first_frame(bytes) matches Some(Frame::Line(_)) ==> after_line(bytes + more) == after_line(
            bytes,
        ) + more,
{
    assert((bytes + more)[0] == bytes[0]);
    if bytes[0] != DRAIN_SENTINEL {
        lemma_line_len_prefix(bytes, more);
        assert((bytes + more).take(line_len(bytes) as int) =~= bytes.take(line_len(bytes) as int));
        assert(after_line(bytes + more) =~= after_line(bytes) + more);
    }
}

/// All bytes of a sequence of chunks.
pub open spec fn joined(chunks: Seq<Seq<u8>>) -> Seq<u8>
    decreases chunks.len(),
{
    if chunks.len() == 0 {
        seq![]
    } else {
        chunks[0] + joined(chunks.drop_first())
    }
}

/// The stream of messages that a receiver gives when it holds `bytes`, and the
/// given chunks are on their way to it. It reads only once no frame is left in
/// what it holds, never more than it has room for, and ends when it reads
/// nothing.
pub open spec fn received(
    parse: spec_fn(Seq<char>) -> Result<StorePathView, Seq<char>>,
    bytes: Seq<u8>,
    chunks: Seq<Seq<u8>>,
) -> Seq<Result<MessageView, ReceiveErrorView>>
    decreases joined(chunks).len(), bytes.len(),
{
    match first_frame(bytes) {
        Some(Frame::Drain) => seq![Ok(MessageView::DrainDaemon)],
        Some(Frame::Line(line)) => if item_of(parse, line) is Err {
            seq![item_of(parse, line)]
        } else {
            seq![item_of(parse, line)] + received(parse, after_line(bytes), chunks)
        },
        None => {
            let room = RECEIVE_BUFFER_SIZE - bytes.len();
            if chunks.len() == 0 || chunks[0].len() == 0 || room <= 0 {
                seq![]
            } else if chunks[0].len() <= room {
                received(parse, bytes + chunks[0], chunks.drop_first())
            } else {
                proof {
                    assert(chunks.update(0, chunks[0].skip(room)).drop_first()
                        =~= chunks.drop_first());
                }
                received(
                    parse,
                    bytes + chunks[0].take(room),
                    chunks.update(0, chunks[0].skip(room)),
                )
            }
        },
    }
}

/// The stream of messages that a receiver gives does not depend on how the
/// client's bytes are cut into chunks on their way. Only a chunk without bytes
/// would end it.
pub proof fn law_chunks_do_not_matter(
    parse: spec_fn(Seq<char>) -> Result<StorePathView, Seq<char>>,
    bytes: Seq<u8>,
    chunks: Seq<Seq<u8>>,
)
    requires
        bytes.len() <= RECEIVE_BUFFER_SIZE,
        forall|i: int| 0 <= i < chunks.len() ==> (#[trigger] chunks[i]).len() > 0,
    ensures
        received(parse, bytes, chunks) == messages_in(parse, bytes + joined(chunks)),
    decreases joined(chunks).len(), bytes.len(),
{
    let unread = joined(chunks);
    match first_frame(bytes) {
        Some(Frame::Drain) => {
            lemma_first_frame_prefix(bytes, unread);
        },
        Some(Frame::Line(line)) => {
            lemma_first_frame_prefix(bytes, unread);
            if item_of(parse, line) is Ok {
                law_chunks_do_not_matter(parse, after_line(bytes), chunks);
            }
        },
        None => {
            let room = RECEIVE_BUFFER_SIZE - bytes.len();
            if chunks.len() == 0 {
                assert(bytes + unread =~= bytes);
            } else if room == 0 {
                lemma_too_long(parse, bytes, unread);
            } else if chunks[0].len() <= room {
                let rest = chunks.drop_first();
                law_chunks_do_not_matter(parse, bytes + chunks[0], rest);
                assert(bytes + unread =~= bytes + chunks[0] + joined(rest));
            } else {
                let rest = chunks.update(0, chunks[0].skip(room));
                assert(rest.drop_first() =~= chunks.drop_first());
                assert forall|i: int| 0 <= i < rest.len() implies (#[trigger] rest[i]).len() > 0 by {
                    assert(chunks[i].len() > 0);
                }
                law_chunks_do_not_matter(parse, bytes + chunks[0].take(room), rest);
                assert(bytes + unread =~= bytes + chunks[0].take(room) + joined(rest));
            }
        },
    }
}

/// Nothing comes of a line that is too long to hold.
proof fn lemma_too_long(
    parse: spec_fn(Seq<char>) -> Result<StorePathView, Seq<char>>,
    bytes: Seq<u8>,
    unread: Seq<u8>,
)
    requires
        first_frame(bytes) is None,
        bytes.len() == RECEIVE_BUFFER_SIZE,
    ensures
        messages_in(parse, bytes + unread) == Seq::<Result<MessageView, ReceiveErrorView>>::empty(),
{
    assert((bytes + unread)[0] == bytes[0]);
    lemma_line_len_bound(bytes);
    lemma_line_len_at_least(bytes, unread);
}

/// What a receiver does next is what is next in the stream of messages,
/// whatever the client still sends: the item that it gives is the only one
/// left, the text that it hands out to be parsed is that of the next one, and
/// where it has no room to read more nothing is left.
pub proof fn law_each_step_gives_the_next_message(
    parse: spec_fn(Seq<char>) -> Result<StorePathView, Seq<char>>,
    bytes: Seq<u8>,
    next: Next,
    is_done: bool,
    rest: Seq<u8>,
    unread: Seq<u8>,
)
    requires
        bytes.len() <= RECEIVE_BUFFER_SIZE,
        next_spec(false, bytes, next, is_done, rest),
    ensures
        ({
            let all = messages_in(parse, bytes + unread);
            match next {
                Next::End => false,
                Next::ReadMore { room } => {
                    &&& rest == bytes
                    &&& room == 0 ==> all == Seq::<Result<MessageView, ReceiveErrorView>>::empty()
                },
                Next::ParsePath(text) => all == match parse(text@) {
                    Ok(path) => seq![Ok(MessageView::PushStorePath(path))] + messages_in(
                        parse,
                        rest + unread,
                    ),
                    Err(error) => seq![Err(ReceiveErrorView::InvalidStorePath(error))],
                },
                Next::Item(item) => is_done && all == seq![item_view(item)],
            }
        }),
{
    if first_frame(bytes) is Some {
        lemma_first_frame_prefix(bytes, unread);
    } else if bytes.len() == RECEIVE_BUFFER_SIZE {
        lemma_too_long(parse, bytes, unread);
    }
}

/// The messages that push the given store paths.
pub open spec fn push_messages(paths: Seq<StorePathView>) -> Seq<MessageView> {
    paths.map_values(|path: StorePathView| MessageView::PushStorePath(path))
}

/// The items of the stream of messages that push the given store paths.
pub open spec fn push_items(paths: Seq<StorePathView>) -> Seq<
    Result<MessageView, ReceiveErrorView>,
> {
    paths.map_values(
        |path: StorePathView| Ok::<MessageView, ReceiveErrorView>(MessageView::PushStorePath(path)),
    )
}

/// Whether a store path survives the wire format: nothing in it separates store
/// paths, its store directory is valid, the daemon can hold its text, and
/// parsing its text gives it back.
pub open spec fn sendable(
    parse: spec_fn(Seq<char>) -> Result<StorePathView, Seq<char>>,
    path: StorePathView,
) -> bool {
    &&& path.store_dir.wf()
    &&& !path.text().contains('\n')
    &&& encode_utf8(path.text()).len() < RECEIVE_BUFFER_SIZE
    &&& parse(path.text()) == Ok::<StorePathView, Seq<char>>(path)
}

/// The wire form of one store path is one line, of which its message comes.
proof fn lemma_push_is_one_line(
    parse: spec_fn(Seq<char>) -> Result<StorePathView, Seq<char>>,
    path: StorePathView,
    tail: Seq<u8>,
)
    requires
        sendable(parse, path),
    ensures
        messages_in(parse, MessageView::PushStorePath(path).wire() + tail) == seq![
            Ok::<MessageView, ReceiveErrorView>(MessageView::PushStorePath(path)),
        ] + messages_in(parse, tail),
{
    law_line_text_round_trip(path);
    let line = encode_utf8(path.text());
    let bytes = MessageView::PushStorePath(path).wire() + tail;
    text::lemma_encode_ascii(path.text(), PATH_SEPARATOR);
    assert(PATH_SEPARATOR as char == '\n');
    assert(first_position(bytes, PATH_SEPARATOR, line.len() as int)) by {
        assert forall|j: int| 0 <= j < line.len() implies bytes[j] != PATH_SEPARATOR by {
            assert(bytes[j] == line[j]);
            assert(line.contains(line[j]));
        }
    }
    lemma_line_len_first(bytes, line.len() as int);
    assert(bytes.take(line.len() as int) =~= line);
    assert(after_line(bytes) =~= tail);
    assert(bytes[0] != DRAIN_SENTINEL) by {
        reveal_strlit("/nix/store");
        reveal_strlit("/");
        let dir = path.store_dir.text();
        let first = path.text()[0];
        let rest = path.text().drop_first();
        assert(path.text() =~= seq![first] + rest);
        text::lemma_encode_concat(seq![first], rest);
        text::lemma_encode_ascii(seq![first], DRAIN_SENTINEL);
        assert(DRAIN_SENTINEL as char == '\0');
        if dir.len() > 0 {
            assert(first == dir[0]);
            assert(dir.contains(dir[0]));
        } else {
            assert(first == "/"@[0]);
        }
        assert(seq![first][0] != '\0');
        let head = encode_utf8(seq![first]);
        encode_utf8_first_scalar(seq![first]);
        assert(head.len() > 0);
        assert(head.contains(head[0]));
        assert(bytes[0] == head[0]);
    }
}

/// What a client sends is what the daemon receives: in the wire form of some
/// store paths there are the messages that push these store paths, in their
/// order, and they do not disturb what follows them.
pub proof fn law_paths_round_trip(
    parse: spec_fn(Seq<char>) -> Result<StorePathView, Seq<char>>,
    paths: Seq<StorePathView>,
    tail: Seq<u8>,
)
    requires
        forall|i: int| 0 <= i < paths.len() ==> sendable(parse, #[trigger] paths[i]),
    ensures
        messages_in(parse, wire_all(push_messages(paths)) + tail) == push_items(paths)
            + messages_in(parse, tail),
    decreases paths.len(),
{
    if paths.len() == 0 {
        assert(wire_all(push_messages(paths)) + tail =~= tail);
        assert(push_items(paths) + messages_in(parse, tail) =~= messages_in(parse, tail));
    } else {
        let init = paths.drop_last();
        let last = MessageView::PushStorePath(paths.last());
        assert forall|i: int| 0 <= i < init.len() implies sendable(parse, #[trigger] init[i]) by {
            assert(init[i] == paths[i]);
        }
        law_paths_round_trip(parse, init, last.wire() + tail);
        assert(push_messages(paths).drop_last() =~= push_messages(init));
        assert(wire_all(push_messages(paths)) + tail =~= wire_all(push_messages(init)) + (
        last.wire() + tail));
        lemma_push_is_one_line(parse, paths.last(), tail);
        let item = Ok::<MessageView, ReceiveErrorView>(last);
        assert(push_items(paths) =~= push_items(init).push(item));
        assert(push_items(init) + (seq![item] + messages_in(parse, tail)) =~= push_items(paths)
            + messages_in(parse, tail));
    }
}

/// A request to drain is received after the store paths that precede it.
pub proof fn law_drain_follows_paths(
    parse: spec_fn(Seq<char>) -> Result<StorePathView, Seq<char>>,
    paths: Seq<StorePathView>,
)
    requires
        forall|i: int| 0 <= i < paths.len() ==> sendable(parse, #[trigger] paths[i]),
    ensures
        messages_in(parse, wire_all(push_messages(paths).push(MessageView::DrainDaemon)))
            == push_items(paths).push(Ok::<MessageView, ReceiveErrorView>(MessageView::DrainDaemon)),
{
    let messages = push_messages(paths).push(MessageView::DrainDaemon);
    assert(messages.drop_last() =~= push_messages(paths));
    let drain = MessageView::DrainDaemon.wire();
    law_paths_round_trip(parse, paths, drain);
    assert(first_frame(drain) == Some(Frame::Drain));
    assert(push_items(paths) + messages_in(parse, drain) =~= push_items(paths).push(
        Ok::<MessageView, ReceiveErrorView>(MessageView::DrainDaemon),
    ));
}

/// The text that the daemon reads from a line is the text that was sent.
pub proof fn law_line_text_round_trip(path: StorePathView)
    ensures
        valid_utf8(encode_utf8(path.text())),
        decode_utf8(encode_utf8(path.text())) == path.text(),
{
    encode_utf8_valid_utf8(path.text());
    encode_utf8_decode_utf8(path.text());
}

/// As long as the next frame fits into the receiver's buffer, a receiver that
/// has yet to make it out has room to read more bytes of it.
pub proof fn law_room_for_frames_that_fit(unhandled: Seq<u8>, unread: Seq<u8>)
    requires
        first_frame(unhandled) is None,
        match first_frame(unhandled + unread) {
            Some(Frame::Line(line)) => line.len() < RECEIVE_BUFFER_SIZE,
            Some(Frame::Drain) => true,
            None => false,
        },
    ensures
        unhandled.len() < RECEIVE_BUFFER_SIZE,
{
    let all = unhandled + unread;
    if unhandled.len() >= RECEIVE_BUFFER_SIZE {
        assert(all[0] == unhandled[0]);
        lemma_line_len_bound(unhandled);
        assert(line_len(unhandled) == unhandled.len());
        lemma_line_len_at_least(unhandled, unread);
    }
}

/// Bytes without a separator are part of the first line.
proof fn lemma_line_len_at_least(bytes: Seq<u8>, more: Seq<u8>)
    requires
        line_len(bytes) == bytes.len(),
    ensures
        line_len(bytes + more) >= bytes.len(),
    decreases bytes.len(),
{
    if bytes.len() > 0 {
        assert((bytes + more)[0] == bytes[0]);
        assert((bytes + more).drop_first() =~= bytes.drop_first() + more);
        lemma_line_len_at_least(bytes.drop_first(), more);
    }
}

/// On the wire a store path is its written form in UTF-8 and a newline, and a
/// request to drain is a zero byte. Messages follow each other without anything
/// between them.
pub proof fn law_wire_format(path: StorePathView, messages: Seq<MessageView>)
    ensures
        MessageView::PushStorePath(path).wire() == encode_utf8(path.text()) + seq![0x0au8],
        MessageView::DrainDaemon.wire() == seq![0u8],
        wire_all(messages) == messages.map_values(|message: MessageView| message.wire()).flatten(),
        StoreDirView::NixStore.text() == "/nix/store"@,
    decreases messages.len(),
{
    assert(MessageView::PushStorePath(path).wire() =~= encode_utf8(path.text()) + seq![0x0au8]);
    let wires = messages.map_values(|message: MessageView| message.wire());
    if messages.len() > 0 {
        let init = messages.drop_last();
        law_wire_format(path, init);
        let init_wires = init.map_values(|message: MessageView| message.wire());
        init_wires.lemma_flatten_push(messages.last().wire());
        assert(wires =~= init_wires.push(messages.last().wire()));
    } else {
        assert(wires =~= seq![]);
    }
}

/// The bytes that come in chunks are those of the first, then those of the second,
/// and so on.
pub proof fn law_chunks_follow_each_other(chunks: Seq<Seq<u8>>)
    ensures
        joined(chunks) == chunks.flatten(),
    decreases chunks.len(),
{
    if chunks.len() > 0 {
        law_chunks_follow_each_other(chunks.drop_first());
    }
}

/// The daemon makes out a request to drain by a zero byte at the beginning, and
/// otherwise a line by the newline that ends it, which is the first; without
/// either it needs more bytes. What follows the newline is left as it is.
pub proof fn law_frames_are_made_out(bytes: Seq<u8>)
    ensures
        first_frame(bytes) == Some(Frame::Drain) <==> bytes.len() > 0 && bytes[0] == 0,
        first_frame(bytes) is None <==> (bytes.len() > 0 ==> bytes[0] != 0) && !bytes.contains(
            0x0a,
        ),
        first_frame(bytes) matches Some(Frame::Line(line)) ==> !line.contains(0x0a) && bytes == line
            + seq![0x0au8] + after_line(bytes),
{
    if bytes.contains(0x0a) {
        lemma_first_separator(bytes);
        let n = line_len(bytes) as int;
        assert(bytes =~= bytes.take(n) + seq![0x0au8] + bytes.skip(n + 1));
    } else {
        lemma_line_len_without_separator(bytes);
    }
}

proof fn lemma_first_separator(bytes: Seq<u8>)
    requires
        bytes.contains(PATH_SEPARATOR),
    ensures
        line_len(bytes) < bytes.len(),
        bytes[line_len(bytes) as int] == PATH_SEPARATOR,
        !bytes.take(line_len(bytes) as int).contains(PATH_SEPARATOR),
    decreases bytes.len(),
{
    if bytes[0] != PATH_SEPARATOR {
        let rest = bytes.drop_first();
        let i = choose|i: int| 0 <= i < bytes.len() && bytes[i] == PATH_SEPARATOR;
        assert(rest[i - 1] == PATH_SEPARATOR);
        lemma_first_separator(rest);
        let line = bytes.take(line_len(bytes) as int);
        assert forall|k: int| 0 <= k < line.len() implies line[k] != PATH_SEPARATOR by {
            if k > 0 {
                assert(line[k] == rest.take(line_len(rest) as int)[k - 1]);
            }
        }
    }
}

/// A line of fewer than 1024 bytes is a message that pushes the store path for
/// which its text stands, and what follows it comes after. Where its text stands
/// for none, or it has none, that is the last thing that comes. Nothing comes of a
/// longer line, or after it.
pub proof fn law_line_gives_its_message(
    parse: spec_fn(Seq<char>) -> Result<StorePathView, Seq<char>>,
    line: Seq<u8>,
    tail: Seq<u8>,
)
    requires
        !line.contains(0x0a),
        line.len() > 0 ==> line[0] != 0,
    ensures
        messages_in(parse, line + seq![0x0au8] + tail) == if line.len() >= 1024 {
            seq![]
        } else if !valid_utf8(line) {
            seq![
                Err::<MessageView, ReceiveErrorView>(
                    ReceiveErrorView::Io(
                        IoErrorView {
                            kind: IoErrorKind::InvalidData,
                            message: text::utf8_error_text(line),
                        },
                    ),
                ),
            ]
        } else {
            match parse(decode_utf8(line)) {
                Ok(path) => seq![
                    Ok::<MessageView, ReceiveErrorView>(MessageView::PushStorePath(path)),
                ] + messages_in(parse, tail),
                Err(error) => seq![
                    Err::<MessageView, ReceiveErrorView>(ReceiveErrorView::InvalidStorePath(error)),
                ],
            }
        },
        messages_in(parse, seq![0u8] + tail) == seq![
            Ok::<MessageView, ReceiveErrorView>(MessageView::DrainDaemon),
        ],
{
    let bytes = line + seq![0x0au8] + tail;
    let n = line.len() as int;
    assert(bytes[n] == 0x0a);
    assert forall|j: int| 0 <= j < n implies bytes[j] != PATH_SEPARATOR by {
        assert(bytes[j] == line[j]);
        assert(line.contains(line[j]));
    }
    assert(first_position(bytes, PATH_SEPARATOR, n));
    lemma_line_len_first(bytes, n);
    assert(bytes.take(n) =~= line);
    assert(after_line(bytes) =~= tail);
    if n > 0 {
        assert(bytes[0] == line[0]);
    }
    assert((seq![0u8] + tail)[0] == 0);
}

/// A receiver never holds more than 1024 bytes: what it asks for are those that
/// are missing from as many, and only where no frame is left in what it holds.
pub proof fn law_receiver_reads_what_it_has_room_for(
    bytes: Seq<u8>,
    next: Next,
    is_done: bool,
    rest: Seq<u8>,
)
    requires
        bytes.len() <= RECEIVE_BUFFER_SIZE,
        next_spec(false, bytes, next, is_done, rest),
    ensures
        next matches Next::ReadMore { room } ==> room + rest.len() == 1024 && rest == bytes
            && !is_done,
        next is ReadMore <==> (bytes.len() > 0 ==> bytes[0] != 0) && !bytes.contains(0x0a),
        next is ParsePath ==> !is_done,
{
    law_frames_are_made_out(bytes);
}

/// A receiver whose stream is over gives nothing more.
pub proof fn law_stream_stays_over(bytes: Seq<u8>, next: Next, is_done: bool, rest: Seq<u8>)
    requires
        next_spec(true, bytes, next, is_done, rest),
    ensures
        next is End,
        is_done,
{
}

/// There is a message, and an item of the stream, for each store path to push, at
/// its place.
pub proof fn law_each_path_has_its_message(paths: Seq<StorePathView>)
    ensures
        push_messages(paths).len() == paths.len(),
        push_items(paths).len() == paths.len(),
        forall|i: int|
            0 <= i < paths.len() ==> #[trigger] push_messages(paths)[i]
                == MessageView::PushStorePath(paths[i]),
        forall|i: int|
            0 <= i < paths.len() ==> #[trigger] push_items(paths)[i] == Ok::<
                MessageView,
                ReceiveErrorView,
            >(MessageView::PushStorePath(paths[i])),
{
}

/// What is said about bytes that are no messages names what is wrong with them.
pub proof fn law_receive_errors_are_told_in_full(error: IoError, reason: String)
    ensures
        ReceiveError::Io(error).text() == "I/O error: "@ + error.message@,
        ReceiveError::InvalidStorePath(reason).text() == "invalid store path: "@ + reason@,
        item_view(Err(ReceiveError::Io(error))) == Err::<MessageView, ReceiveErrorView>(
            ReceiveErrorView::Io(IoErrorView { kind: error.kind, message: error.message@ }),
        ),
        item_view(Err(ReceiveError::InvalidStorePath(reason))) == Err::<
            MessageView,
            ReceiveErrorView,
        >(ReceiveErrorView::InvalidStorePath(reason@)),
{
}

/// What is known of a message is the store path that it pushes, if it pushes one,
/// and what is known of a store path is its store directory, its hash and its
/// name.
pub proof fn law_messages_are_what_they_hold(path: StorePath, dir: String)
    ensures
        Message::PushStorePath(path)@ == MessageView::PushStorePath(path@),
        Message::DrainDaemon@ == MessageView::DrainDaemon,
        path@.store_dir == path.store_dir@,
        path@.basename.hash == path.basename.hash@,
        path@.basename.name == path.basename.name@,
        StoreDir::Other(dir)@ == StoreDirView::Other(dir@),
        StoreDir::Other(dir)@.text() == dir@,
        StoreDir::NixStore@ == StoreDirView::NixStore,
{
}

} // verus!
