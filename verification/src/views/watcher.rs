//! The watcher of a page: it waits for the snapshot to change and tells the
//! page, and once it cannot go on it tells the page that the connection is
//! gone and then ends the page.

use vstd::prelude::*;

verus! {

/// What the watcher tells the page.
#[derive(Debug, Clone, Copy, PartialEq, Eq)]
pub enum Notice {
    /// The snapshot changed.
    Update,
    /// The subscription is gone.
    Disconnected,
    /// The page is to end.
    Error,
}

/// Where the watcher stands.
#[derive(Debug, Clone, Copy, PartialEq, Eq)]
pub enum Watcher {
    /// It waits for the snapshot to change.
    Waiting,
    /// It is telling the page of a change.
    Notifying,
    /// It is telling the page that the subscription is gone.
    Disconnecting,
    /// It is telling the page to end.
    Failing,
    /// It has ended.
    Done,
}

/// What came of the watcher's last step.
#[derive(Debug, Clone, Copy, PartialEq, Eq)]
pub enum Outcome {
    /// The snapshot changed.
    Changed,
    /// The publisher of the snapshot is gone.
    Closed,
    /// The page took the notice.
    Sent,
    /// The page did not take the notice.
    NotSent,
    /// The page was dropped.
    Cancelled,
}

/// What the watcher does next.
#[derive(Debug, Clone, Copy, PartialEq, Eq)]
pub enum Step {
    /// Wait for the snapshot to change.
    Wait,
    /// Tell the page.
    Emit(Notice),
    /// End.
    Stop,
}

/// Where the watcher stands after `outcome`, and what it does next. It
/// tells of every change until the publisher is gone or the page takes no
/// more; then it tells `Disconnected` and, whether or not that was taken,
/// `Error`, and ends. A dropped page ends it at once, and so does an
/// outcome that cannot follow its last step.
pub open spec fn watcher_after(watcher: Watcher, outcome: Outcome) -> (Watcher, Step) {
    match (watcher, outcome) {
        (_, Outcome::Cancelled) => (Watcher::Done, Step::Stop),
        (Watcher::Waiting, Outcome::Changed) => (Watcher::Notifying, Step::Emit(Notice::Update)),
        (Watcher::Waiting, Outcome::Closed) => (
            Watcher::Disconnecting,
            Step::Emit(Notice::Disconnected),
        ),
        (Watcher::Notifying, Outcome::Sent) => (Watcher::Waiting, Step::Wait),
        (Watcher::Notifying, Outcome::NotSent) => (
            Watcher::Disconnecting,
            Step::Emit(Notice::Disconnected),
        ),
        (Watcher::Disconnecting, Outcome::Sent) => (Watcher::Failing, Step::Emit(Notice::Error)),
        (Watcher::Disconnecting, Outcome::NotSent) => (Watcher::Failing, Step::Emit(Notice::Error)),
        _ => (Watcher::Done, Step::Stop),
    }
}

impl Watcher {
    /// The watcher of a page that was just mounted, and its first step.
    pub fn start() -> (r: (Watcher, Step))
        ensures
            r == (Watcher::Waiting, Step::Wait),
    {
        (Watcher::Waiting, Step::Wait)
    }

    /// Takes what came of the last step.
    pub fn next(self, outcome: Outcome) -> (r: (Watcher, Step))
        ensures
            r == watcher_after(self, outcome),
    {
        match (self, outcome) {
            (_, Outcome::Cancelled) => (Watcher::Done, Step::Stop),
            (Watcher::Waiting, Outcome::Changed) => (
                Watcher::Notifying,
                Step::Emit(Notice::Update),
            ),
            (Watcher::Waiting, Outcome::Closed) => (
                Watcher::Disconnecting,
                Step::Emit(Notice::Disconnected),
            ),
            (Watcher::Notifying, Outcome::Sent) => (Watcher::Waiting, Step::Wait),
            (Watcher::Notifying, Outcome::NotSent) => (
                Watcher::Disconnecting,
                Step::Emit(Notice::Disconnected),
            ),
            (Watcher::Disconnecting, Outcome::Sent) => (
                Watcher::Failing,
                Step::Emit(Notice::Error),
            ),
            (Watcher::Disconnecting, Outcome::NotSent) => (
                Watcher::Failing,
                Step::Emit(Notice::Error),
            ),
            _ => (Watcher::Done, Step::Stop),
        }
    }
}

/// Once the watcher tells that the subscription is gone, it tells the page
/// to end and then ends, whether or not the page takes what it is told.
pub proof fn lemma_watcher_closes(first: Outcome, second: Outcome)
    requires
        first == Outcome::Sent || first == Outcome::NotSent,
    ensures
        watcher_after(Watcher::Disconnecting, first) == (
            Watcher::Failing,
            Step::Emit(Notice::Error),
        ),
        watcher_after(Watcher::Failing, second) == (Watcher::Done, Step::Stop),
        watcher_after(Watcher::Done, second) == (Watcher::Done, Step::Stop),
{
}

} // verus!
