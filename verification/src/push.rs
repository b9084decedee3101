//! Asking the daemon to push store paths.

use std::path::PathBuf;

use vstd::prelude::*;

use crate::protocol::{Message, Sender};
use crate::store_path::StorePath;
use crate::{protocol, store_path, text};

verus! {

/// The daemon's socket, and the store paths to push.
pub struct PushArgs {
    pub socket: PathBuf,
    pub store_paths: Vec<StorePath>,
}

/// Returns the messages that push the given store paths, ready to be written.
pub fn messages(store_paths: Vec<StorePath>) -> (sender: Sender)
    ensures
        sender.wf(),
        sender.unwritten() == protocol::wire_all(
            protocol::push_messages(store_path::path_views(store_paths@)),
        ),
{
    let mut sender: Sender = Sender::new();
    let ghost all = protocol::push_messages(store_path::path_views(store_paths@));
    assert(all.take(0) =~= seq![]);
    for path in iter: store_paths
        invariant
            iter.seq() == store_paths@,
            all == protocol::push_messages(store_path::path_views(store_paths@)),
            sender.wf(),
            sender.unwritten() == protocol::wire_all(all.take(iter.index() as int)),
    {
        let ghost n = iter.index() as int;
        sender.start_send(&Message::PushStorePath(path));
        assert(all.take(n + 1).drop_last() =~= all.take(n));
        assert(all.take(n + 1).last() == protocol::MessageView::PushStorePath(store_paths@[n]@));
    }
    assert(all.take(all.len() as int) =~= all);
    sender
}

/// Why store paths could not be pushed.
#[derive(Debug)]
pub enum PushError {
    ConnectToSocket(String),
    WriteMessage(String),
}

impl PushError {
    /// The written form.
    pub open spec fn text(self) -> Seq<char> {
        match self {
            PushError::ConnectToSocket(error) => "Couldn't connect to Unix domain socket: "@
                + error@,
            PushError::WriteMessage(error) => "Couldn't write message to Unix domain socket: "@
                + error@,
        }
    }

    /// Returns the written form.
    pub fn to_text(&self) -> (text: String)
        ensures
            text@ == self.text(),
    {
        match self {
            PushError::ConnectToSocket(error) => text::concat2(
                "Couldn't connect to Unix domain socket: ",
                error.as_str(),
            ),
            PushError::WriteMessage(error) => text::concat2(
                "Couldn't write message to Unix domain socket: ",
                error.as_str(),
            ),
        }
    }
}

/// What is said if the daemon could not be pushed to names the thing that failed, and
/// ends in the whole error.
pub proof fn law_errors_are_told_in_full(error: String)
    ensures
        PushError::ConnectToSocket(error).text() == "Couldn't connect to Unix domain socket: "@
            + error@,
        PushError::WriteMessage(error).text() == "Couldn't write message to Unix domain socket: "@
            + error@,
{
}

} // verus!
