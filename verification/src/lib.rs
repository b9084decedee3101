//! The cache action: a daemon that pushes store paths to a binary cache, and the
//! commands with which it is run, given work, and drained.

pub mod any_cache;
pub mod async_read_ext;
pub mod byte_size;
pub mod bytes_order;
pub mod drain;
pub mod draining;
pub mod event_loop;
pub mod handle_store_path;
pub mod hash;
pub mod http_reply;
pub mod io_error;
pub mod nar_walk;
pub mod nix_cli;
pub mod nix_store;
pub mod noop_cache;
pub mod protocol;
pub mod push;
pub mod readiness;
pub mod real_cache;
pub mod real_drain_progress_reporter;
pub mod run;
pub mod small_list;
pub mod start;
pub mod store_path;
pub mod sub60_cache;
pub mod text;
pub mod upload_nar;
pub mod url_text;

use std::path::PathBuf;

use vstd::prelude::*;

use crate::drain::DrainArgs;
use crate::protocol::Sender;
use crate::push::PushArgs;
use crate::run::RunArgs;

verus! {

/// A command of the program.
pub enum Command {
    Run(RunArgs),
    Push(PushArgs),
    Stop(DrainArgs),
}

/// What a command comes down to.
pub enum Invocation {
    /// Become the daemon.
    Serve(RunArgs),
    /// Write these messages to the daemon's socket.
    Push { socket: PathBuf, sender: Sender },
    /// Write this message to the daemon's socket, and pass on what the daemon
    /// tells.
    Drain { socket: PathBuf, sender: Sender },
}

/// Decides what a command comes down to.
pub fn run(command: Command) -> (invocation: Invocation)
    ensures
        match command {
            Command::Run(args) => invocation == Invocation::Serve(args),
            Command::Push(args) => invocation matches Invocation::Push { socket, sender } && socket
                == args.socket && sender.wf() && sender.unwritten() == protocol::wire_all(
                protocol::push_messages(store_path::path_views(args.store_paths@)),
            ),
            Command::Stop(args) => invocation matches Invocation::Drain { socket, sender } && socket
                == args.socket && sender.wf() && sender.unwritten()
                == protocol::MessageView::DrainDaemon.wire(),
        },
{
    match command {
        Command::Run(args) => Invocation::Serve(args),
        Command::Push(args) => {
            let sender: Sender = push::messages(args.store_paths);
            Invocation::Push { socket: args.socket, sender }
        },
        Command::Stop(args) => {
            let sender: Sender = drain::message();
            Invocation::Drain { socket: args.socket, sender }
        },
    }
}

} // verus!
