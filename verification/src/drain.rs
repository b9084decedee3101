//! Asking the daemon to finish its work, and to tell about it.

use std::path::PathBuf;

use vstd::prelude::*;

use crate::protocol::{Message, Sender};
use crate::{protocol, text};

verus! {

/// The daemon's socket.
pub struct DrainArgs {
    pub socket: PathBuf,
}

/// Returns the message that drains the daemon, ready to be written.
pub fn message() -> (sender: Sender)
    ensures
        sender.wf(),
        sender.unwritten() == protocol::MessageView::DrainDaemon.wire(),
{
    let mut sender: Sender = Sender::new();
    sender.start_send(&Message::DrainDaemon);
    assert(sender.unwritten() =~= protocol::MessageView::DrainDaemon.wire());
    sender
}

/// Why the daemon could not be drained.
#[derive(Debug)]
pub enum DrainError {
    ConnectToSocket(String),
    WriteMessage(String),
}

impl DrainError {
    /// The written form.
    pub open spec fn text(self) -> Seq<char> {
        match self {
            DrainError::ConnectToSocket(error) => "Couldn't connect to Unix domain socket: "@
                + error@,
            DrainError::WriteMessage(error) => "Couldn't write message to Unix domain socket: "@
                + error@,
        }
    }

    /// Returns the written form.
    pub fn to_text(&self) -> (text: String)
        ensures
            text@ == self.text(),
    {
        match self {
            DrainError::ConnectToSocket(error) => text::concat2(
                "Couldn't connect to Unix domain socket: ",
                error.as_str(),
            ),
            DrainError::WriteMessage(error) => text::concat2(
                "Couldn't write message to Unix domain socket: ",
                error.as_str(),
            ),
        }
    }
}

/// Returns what is said if what the daemon tells cannot be passed on.
pub fn describe_copy_error(error: &str) -> (said: String)
    ensures
        said@ == "Couldn't copy bytes to stdout: "@ + error@,
{
    text::concat2("Couldn't copy bytes to stdout: ", error)
}

/// What is said if the daemon could not be drained names the thing that failed, and
/// ends in the whole error.
pub proof fn law_errors_are_told_in_full(error: String)
    ensures
        DrainError::ConnectToSocket(error).text() == "Couldn't connect to Unix domain socket: "@
            + error@,
        DrainError::WriteMessage(error).text() == "Couldn't write message to Unix domain socket: "@
            + error@,
{
}

} // verus!
