//! The decisions of the pages that show a snapshot: what a message or a key
//! changes, and where a click leads.

pub mod connection_state;
pub mod resources_index;
pub mod table_view_keybinds;
pub mod tasks_index;
pub mod watcher;

use crate::addr::ConsoleAddr;
use vstd::prelude::*;

verus! {

/// What a page asks the browser to do.
#[derive(Debug, PartialEq, Eq)]
pub enum Command {
    /// Go to the page at this path.
    NavigateTo(String),
}

/// What a `Command` holds, as plain values.
pub enum CommandView {
    NavigateTo(Seq<char>),
}

impl View for Command {
    type V = CommandView;

    open spec fn view(&self) -> CommandView {
        match self {
            Command::NavigateTo(path) => CommandView::NavigateTo(path@),
        }
    }
}

/// The views of a list of commands.
pub open spec fn command_views(commands: Seq<Command>) -> Seq<CommandView> {
    commands.map_values(|c: Command| c@)
}

/// Why a page ends.
#[derive(Debug, Clone, Copy, PartialEq, Eq)]
pub enum ViewError {
    /// The subscription behind the page is gone.
    Disconnected,
    /// A key message came without its key.
    MissingKey,
    /// The page never had a connection and can only be opened anew.
    Reconnecting,
}

/// The page that stands in for a server that could not be reached.
#[derive(Debug)]
pub struct ConnectionFailed {
    pub addr: ConsoleAddr,
    pub err: String,
}

impl ConnectionFailed {
    /// Any message to this page ends it, so that the next request opens
    /// the connection anew.
    pub fn update(self) -> (r: Result<ConnectionFailed, ViewError>)
        ensures
            r == Err::<ConnectionFailed, ViewError>(ViewError::Reconnecting),
    {
        Err(ViewError::Reconnecting)
    }
}

} // verus!
