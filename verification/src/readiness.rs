//! How the daemon tells the process that waits for it whether it has started.
//!
//! The daemon writes a zero byte once it is ready. If it cannot start it writes
//! a one byte, and after it the text of the error.

use vstd::prelude::*;
use vstd::utf8::*;

use crate::{protocol, text};

verus! {

/// The byte that says that the daemon is ready.
pub const READY: u8 = 0;

/// The byte that says that the daemon could not start.
pub const FAILED: u8 = 1;

/// The bytes that the daemon writes: that it is ready, or why it is not.
pub open spec fn signal_bytes(error: Option<Seq<char>>) -> Seq<u8> {
    match error {
        None => seq![READY],
        Some(error) => seq![FAILED] + encode_utf8(error),
    }
}

/// The bytes that are written when the given byte strings are, one after the
/// other.
pub open spec fn written(writes: Seq<Vec<u8>>) -> Seq<u8> {
    protocol::joined(writes.map_values(|bytes: Vec<u8>| bytes@))
}

/// Returns the byte strings that the daemon writes, one after the other: that it
/// is ready, or why it is not.
pub fn signal(error: Option<&str>) -> (writes: Vec<Vec<u8>>)
    ensures
        match error {
            None => writes@.len() == 1 && writes@[0]@ == seq![READY],
            Some(error) => writes@.len() == 2 && writes@[0]@ == seq![FAILED] && writes@[1]@
                == encode_utf8(error@),
        },
        written(writes@) == signal_bytes(
            match error {
                None => None,
                Some(error) => Some(error@),
            },
        ),
{
    let mut writes: Vec<Vec<u8>> = Vec::new();
    match error {
        None => writes.push(vec![READY]),
        Some(error) => {
            writes.push(vec![FAILED]);
            writes.push(vstd::slice::slice_to_vec(error.as_bytes()));
        },
    }
    proof {
        let pieces = writes@.map_values(|bytes: Vec<u8>| bytes@);
        reveal_with_fuel(protocol::joined, 3);
        assert(pieces[0] == writes@[0]@);
        assert(pieces.drop_first().len() > 0 ==> pieces.drop_first()[0] == writes@[1]@);
        assert(written(writes@) =~= signal_bytes(
            match error {
                None => None,
                Some(error) => Some(error@),
            },
        ));
    }
    writes
}

/// What has been read of the text of an error.
pub struct StartupMessage {
    bytes: Vec<u8>,
}

/// What becomes of the text of an error.
pub enum MessageStep {
    /// Read more of it.
    ReadMore,
    /// This is all of it.
    Complete(String),
    /// It could not be read.
    Unknown,
}

impl View for StartupMessage {
    type V = Seq<u8>;

    closed spec fn view(&self) -> Seq<u8> {
        self.bytes@
    }
}

impl StartupMessage {
    /// The message before any of it was read.
    pub fn new() -> (message: Self)
        ensures
            message@ == Seq::<u8>::empty(),
    {
        StartupMessage { bytes: Vec::new() }
    }

    /// Takes the next bytes of the text, of which there are none at its end, or
    /// why they could not be read.
    pub fn on_read(&mut self, read: Result<Vec<u8>, String>) -> (step: MessageStep)
        ensures
            match read {
                Ok(bytes) => {
                    &&& final(self)@ == old(self)@ + bytes@
                    &&& if bytes@.len() == 0 {
                        step matches MessageStep::Complete(message) && message@ == text::lossy(
                            old(self)@,
                        )
                    } else {
                        step is ReadMore
                    }
                },
                Err(_) => final(self)@ == old(self)@ && step is Unknown,
            },
    {
        match read {
            Ok(mut bytes) => if bytes.len() == 0 {
                assert(self@ + bytes@ =~= self@);
                MessageStep::Complete(text::from_utf8_lossy(self.bytes.as_slice()))
            } else {
                self.bytes.append(&mut bytes);
                MessageStep::ReadMore
            },
            Err(_) => MessageStep::Unknown,
        }
    }
}

/// The text that comes of reading a message in pieces, when the given bytes
/// were read before.
pub open spec fn message_read(bytes: Seq<u8>, pieces: Seq<Seq<u8>>) -> Seq<char>
    decreases pieces.len(),
{
    if pieces.len() == 0 {
        text::lossy(bytes)
    } else {
        message_read(bytes + pieces[0], pieces.drop_first())
    }
}

/// The text depends on the bytes alone, not on the pieces in which they come.
proof fn lemma_message_read(bytes: Seq<u8>, pieces: Seq<Seq<u8>>)
    ensures
        message_read(bytes, pieces) == text::lossy(bytes + protocol::joined(pieces)),
    decreases pieces.len(),
{
    if pieces.len() == 0 {
        assert(bytes + protocol::joined(pieces) =~= bytes);
    } else {
        lemma_message_read(bytes + pieces[0], pieces.drop_first());
        assert(bytes + pieces[0] + protocol::joined(pieces.drop_first()) =~= bytes
            + protocol::joined(pieces));
    }
}

/// The process that waits for the daemon learns what the daemon says: from the
/// first byte that it writes whether it is ready, and from the others, in
/// whatever pieces they come, the very text of the error.
pub proof fn law_waiting_process_learns_the_error(error: Seq<char>, pieces: Seq<Seq<u8>>)
    requires
        protocol::joined(pieces) == signal_bytes(Some(error)).skip(1),
    ensures
        signal_bytes(None)[0] == READY,
        signal_bytes(Some(error))[0] == FAILED,
        message_read(seq![], pieces) == error,
{
    assert(signal_bytes(Some(error)).skip(1) =~= encode_utf8(error));
    lemma_message_read(seq![], pieces);
    assert(Seq::<u8>::empty() + protocol::joined(pieces) =~= encode_utf8(error));
    encode_utf8_valid_utf8(error);
    encode_utf8_decode_utf8(error);
}

/// The daemon says that it is ready with a zero byte and nothing else, and that it
/// is not with a one byte and the whole text of the error in UTF-8; so it never
/// says the same of two errors, or of an error and of none.
pub proof fn law_signals_are_told_apart(a: Option<Seq<char>>, b: Option<Seq<char>>)
    ensures
        signal_bytes(None) == seq![0u8],
        a matches Some(error) ==> signal_bytes(a) == seq![1u8] + encode_utf8(error),
        signal_bytes(a) == signal_bytes(b) ==> a == b,
{
    if signal_bytes(a) == signal_bytes(b) {
        assert(signal_bytes(a)[0] == signal_bytes(b)[0]);
        if let (Some(a), Some(b)) = (a, b) {
            assert(signal_bytes(Some(a)).skip(1) =~= encode_utf8(a));
            assert(signal_bytes(Some(b)).skip(1) =~= encode_utf8(b));
            text::lemma_encode_injective(a, b);
        }
    }
}

/// What is read of a text in pieces is the text of all of their bytes, one after
/// the other.
pub proof fn law_message_is_read_piece_by_piece(pieces: Seq<Seq<u8>>)
    ensures
        valid_utf8(pieces.flatten()) ==> message_read(seq![], pieces) == decode_utf8(
            pieces.flatten(),
        ),
{
    lemma_message_read(seq![], pieces);
    protocol::law_chunks_follow_each_other(pieces);
    assert(Seq::<u8>::empty() + protocol::joined(pieces) =~= pieces.flatten());
}

/// The bytes that are written are those of the first byte string, then those of the
/// second, and so on.
pub proof fn law_writes_follow_each_other(writes: Seq<Vec<u8>>)
    ensures
        written(writes) == writes.map_values(|bytes: Vec<u8>| bytes@).flatten(),
{
    protocol::law_chunks_follow_each_other(writes.map_values(|bytes: Vec<u8>| bytes@));
}

} // verus!
