//! The deltas of the upstream stream, as they arrive: every part that the
//! sender may leave out is an `Option`.

use crate::fields::FieldValue;
use crate::time::Timestamp;
use vstd::prelude::*;

verus! {

/// An instant as the stream carries it, once decoded for the clock of this
/// machine.
#[derive(Debug, Clone, Copy, PartialEq)]
pub enum Time {
    /// An instant that the clock of this machine can express.
    At(Timestamp),
    /// An instant beyond what the clock of this machine can express. The
    /// four earliest seconds that a timestamp can name always count as
    /// such, also on a clock that could express three of them: the bound is
    /// the simple one that keeps the decoding from overflowing.
    OutOfRange,
}

impl Time {
    /// The instant that the stream carries as the protobuf timestamp of
    /// `seconds` and `nanos`.
    pub fn decode(seconds: i64, nanos: i32) -> (r: Time)
        ensures
            seconds < i64::MIN + 4 ==> r == Time::OutOfRange,
    {
        Time::from_decoded(Timestamp::decode(seconds, nanos))
    }

    /// The instant of the stream for what decoding a protobuf timestamp
    /// gave: the instant that came back, or the mark that none did.
    pub fn from_decoded(decoded: Option<Timestamp>) -> (r: Time)
        ensures
            r == time_of_decoded(decoded),
    {
        match decoded {
            Some(t) => Time::At(t),
            None => Time::OutOfRange,
        }
    }
}

/// The instant of the stream for what decoding a protobuf timestamp gave.
pub open spec fn time_of_decoded(decoded: Option<Timestamp>) -> Time {
    match decoded {
        Some(t) => Time::At(t),
        None => Time::OutOfRange,
    }
}

/// A span as the stream carries it: signed seconds and signed nanoseconds.
#[derive(Debug, Clone, Copy, PartialEq)]
pub struct Span {
    pub seconds: i64,
    pub nanos: i32,
}

/// The name of a field: given in full, or as an index into a table of
/// names that the sender keeps.
#[derive(Debug, Clone, PartialEq)]
pub enum FieldName {
    Str(String),
    Index(u64),
}

/// One field of a task.
#[derive(Debug, Clone, PartialEq)]
pub struct Field {
    pub name: Option<FieldName>,
    pub value: Option<FieldValue>,
}

/// A place in the source.
#[derive(Debug, Clone, PartialEq)]
pub struct Location {
    pub file: Option<String>,
    pub module: Option<String>,
    pub line: Option<u32>,
    pub column: Option<u32>,
}

/// A new task.
#[derive(Debug, Clone, PartialEq)]
pub struct Task {
    pub id: Option<u64>,
    pub metadata: Option<u64>,
    pub fields: Vec<Field>,
    pub location: Option<Location>,
}

/// The poll counters and times of a task.
#[derive(Debug, Clone, Copy, PartialEq)]
pub struct PollStats {
    pub polls: u64,
    pub busy_time: Option<Span>,
    pub last_poll_started: Option<Span>,
    pub last_poll_ended: Option<Span>,
}

/// The statistics of a task.
#[derive(Debug, Clone, Copy, PartialEq)]
pub struct TaskStats {
    pub created_at: Option<Time>,
    pub dropped_at: Option<Time>,
    pub poll_stats: Option<PollStats>,
}

/// What changed among the tasks.
#[derive(Debug, Clone, PartialEq)]
pub struct TaskUpdate {
    pub new_tasks: Vec<Task>,
    pub stats_update: Vec<(u64, TaskStats)>,
}

/// The kind of a resource: one of the kinds known by number, or named.
#[derive(Debug, Clone, PartialEq)]
pub enum Kind {
    Known(i32),
    Other(String),
}

/// The message that wraps the kind of a resource.
#[derive(Debug, Clone, PartialEq)]
pub struct KindMessage {
    pub kind: Option<Kind>,
}

/// A new resource.
#[derive(Debug, Clone, PartialEq)]
pub struct Resource {
    pub id: Option<u64>,
    pub metadata: Option<u64>,
    pub kind: Option<KindMessage>,
    pub is_internal: bool,
    pub parent_resource_id: Option<u64>,
    pub concrete_type: String,
    pub location: Option<Location>,
}

/// The statistics of a resource.
#[derive(Debug, Clone, Copy, PartialEq)]
pub struct ResourceStats {
    pub created_at: Option<Time>,
    pub dropped_at: Option<Time>,
}

/// What changed among the resources.
#[derive(Debug, Clone, PartialEq)]
pub struct ResourceUpdate {
    pub new_resources: Vec<Resource>,
    pub stats_update: Vec<(u64, ResourceStats)>,
}

/// The name and target of a piece of metadata.
#[derive(Debug, Clone, PartialEq)]
pub struct MetaDescription {
    pub name: String,
    pub target: String,
}

/// A new piece of metadata.
#[derive(Debug, Clone, PartialEq)]
pub struct NewMetadata {
    pub id: Option<u64>,
    pub metadata: Option<MetaDescription>,
}

/// One delta of the stream.
#[derive(Debug, Clone, PartialEq)]
pub struct Update {
    pub new_metadata: Option<Vec<NewMetadata>>,
    pub task_update: Option<TaskUpdate>,
    pub resource_update: Option<ResourceUpdate>,
}

} // verus!
