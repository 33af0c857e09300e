//! The line that tells how the connection to a server stands.

use crate::addr::ConsoleAddr;
use vstd::prelude::*;

verus! {

/// What can happen to the connection.
#[derive(Debug, PartialEq)]
pub enum Msg {
    Connected,
    StreamEnded,
    Error { code: i32, message: String },
}

/// How the connection stands.
#[derive(Debug, PartialEq)]
pub enum State {
    Connecting,
    Connected,
    StreamEnded,
    Error { code: i32, message: String },
}

/// What a `State` holds, as plain values.
pub enum StateView {
    Connecting,
    Connected,
    StreamEnded,
    Error { code: i32, message: Seq<char> },
}

impl View for State {
    type V = StateView;

    open spec fn view(&self) -> StateView {
        match self {
            State::Connecting => StateView::Connecting,
            State::Connected => StateView::Connected,
            State::StreamEnded => StateView::StreamEnded,
            State::Error { code, message } => StateView::Error { code: *code, message: message@ },
        }
    }
}

/// How the connection stands after what `msg` tells: the message alone
/// decides, whatever stood before.
pub open spec fn state_after(msg: Msg) -> StateView {
    match msg {
        Msg::Connected => StateView::Connected,
        Msg::StreamEnded => StateView::StreamEnded,
        Msg::Error { code, message } => StateView::Error { code, message: message@ },
    }
}

/// The line that tells how the connection to the server at `addr` stands.
#[derive(Debug)]
pub struct ConnectionState {
    pub state: State,
    pub addr: ConsoleAddr,
}

impl ConnectionState {
    /// The line for a connection that is being opened.
    pub fn new(addr: ConsoleAddr) -> (r: Self)
        ensures
            r.state@ == StateView::Connecting,
            r.addr == addr,
    {
        ConnectionState { state: State::Connecting, addr }
    }

    /// Takes the message `msg`.
    pub fn update(self, msg: Msg) -> (r: Self)
        ensures
            r.state@ == state_after(msg),
            r.addr == self.addr,
    {
        let state = match msg {
            Msg::Connected => State::Connected,
            Msg::StreamEnded => State::StreamEnded,
            Msg::Error { code, message } => State::Error { code, message },
        };
        ConnectionState { state, addr: self.addr }
    }
}

} // verus!
