//! From the parts of a delta to the entities of the snapshot. A part that a
//! conversion needs and the sender left out is an error, and so is a time
//! that cannot be expressed.

use crate::fields::{FieldMap, FieldValue, FieldValueView};
use crate::path::{registry_truncated, text_of, truncate_registry_path};
use crate::state::{
    instant, span, Location, LocationView, MetaId, Metadata, MetadataView, Resource, ResourceId,
    ResourceStats, ResourceStatsView, ResourceView, Task, TaskId, TaskStats, TaskStatsView,
    TaskView, TypeVisibility,
};
use crate::time::{Duration, Timestamp};
use crate::wire;
use vstd::prelude::*;

verus! {

/// Why a part of a delta could not be taken into the snapshot.
#[derive(Debug, Clone, Copy, PartialEq, Eq)]
pub enum ConvertError {
    /// An entity or a piece of metadata without an id.
    MissingId,
    /// An entity without the id of its metadata.
    MissingMetadata,
    /// A piece of metadata without its description.
    MissingMeta,
    /// A field without a name.
    MissingFieldName,
    /// A field without a value.
    MissingFieldValue,
    /// A task without a location.
    MissingLocation,
    /// A location without a file.
    MissingFile,
    /// A location without a line.
    MissingLine,
    /// A location without a column.
    MissingColumn,
    /// A resource without the message that holds its kind.
    MissingKind,
    /// A kind message that holds no kind.
    MissingKindKind,
    /// A kind given by a number that stands for no known kind.
    UnknownKind,
    /// Task statistics without poll statistics.
    MissingPollStats,
    /// An instant that this machine's clock cannot express.
    TimestampOutOfRange,
    /// A span whose seconds do not fit once its nanoseconds are carried over.
    DurationOutOfRange,
    /// A delta without its task update.
    MissingTaskUpdate,
    /// A delta without its resource update.
    MissingResourceUpdate,
}

/// What an error says.
pub open spec fn message_text(e: ConvertError) -> Seq<char> {
    match e {
        ConvertError::MissingId => "Missing `id` field"@,
        ConvertError::MissingMetadata => "Missing `metadata` field"@,
        ConvertError::MissingMeta => "Missing `meta` field"@,
        ConvertError::MissingFieldName => "Missing `name` field"@,
        ConvertError::MissingFieldValue => "Missing `value` field"@,
        ConvertError::MissingLocation => "Missing `location` field"@,
        ConvertError::MissingFile => "Missing `file` field"@,
        ConvertError::MissingLine => "Missing `line` field"@,
        ConvertError::MissingColumn => "Missing `column` field"@,
        ConvertError::MissingKind => "Missing `kind` field"@,
        ConvertError::MissingKindKind => "Missing `kind.kind`"@,
        ConvertError::UnknownKind => "Unknown resource kind"@,
        ConvertError::MissingPollStats => "Missing `poll_stats` field"@,
        ConvertError::TimestampOutOfRange => "Timestamp out of range"@,
        ConvertError::DurationOutOfRange => "Duration out of range"@,
        ConvertError::MissingTaskUpdate => "Missing `task_update` field"@,
        ConvertError::MissingResourceUpdate => "Missing `resource_update` field"@,
    }
}

impl ConvertError {
    /// What the error says.
    pub fn message(&self) -> (r: String)
        ensures
            r@ == message_text(*self),
    {
        match self {
            ConvertError::MissingId => "Missing `id` field".to_owned(),
            ConvertError::MissingMetadata => "Missing `metadata` field".to_owned(),
            ConvertError::MissingMeta => "Missing `meta` field".to_owned(),
            ConvertError::MissingFieldName => "Missing `name` field".to_owned(),
            ConvertError::MissingFieldValue => "Missing `value` field".to_owned(),
            ConvertError::MissingLocation => "Missing `location` field".to_owned(),
            ConvertError::MissingFile => "Missing `file` field".to_owned(),
            ConvertError::MissingLine => "Missing `line` field".to_owned(),
            ConvertError::MissingColumn => "Missing `column` field".to_owned(),
            ConvertError::MissingKind => "Missing `kind` field".to_owned(),
            ConvertError::MissingKindKind => "Missing `kind.kind`".to_owned(),
            ConvertError::UnknownKind => "Unknown resource kind".to_owned(),
            ConvertError::MissingPollStats => "Missing `poll_stats` field".to_owned(),
            ConvertError::TimestampOutOfRange => "Timestamp out of range".to_owned(),
            ConvertError::DurationOutOfRange => "Duration out of range".to_owned(),
            ConvertError::MissingTaskUpdate => "Missing `task_update` field".to_owned(),
            ConvertError::MissingResourceUpdate => "Missing `resource_update` field".to_owned(),
        }
    }
}

/// The result of a conversion with its value replaced by the value's view.
pub open spec fn viewed<T: View>(r: Result<T, ConvertError>) -> Result<T::V, ConvertError> {
    match r {
        Ok(t) => Ok(t@),
        Err(e) => Err(e),
    }
}

/// The number of the only kind that is known by number.
pub const KIND_TIMER: i32 = 0;

/// The name of the kind that is known by number.
pub const TIMER: &'static str = "Timer";

/// Signed seconds read as unsigned: a negative count wraps around.
pub open spec fn wrapped_seconds(seconds: i64) -> int {
    if seconds >= 0 {
        seconds as int
    } else {
        seconds + 0x1_0000_0000_0000_0000
    }
}

/// Signed nanoseconds read as unsigned: a negative count wraps around.
pub open spec fn wrapped_nanos(nanos: i32) -> int {
    if nanos >= 0 {
        nanos as int
    } else {
        nanos + 0x1_0000_0000
    }
}

/// The length in nanoseconds of a span of the stream, its two counts read as
/// unsigned: `None` where the seconds no longer fit once the nanoseconds
/// beyond one second are carried over.
pub open spec fn span_of(d: wire::Span) -> Option<nat> {
    let secs = wrapped_seconds(d.seconds);
    let nanos = wrapped_nanos(d.nanos);
    if secs + nanos / 1_000_000_000 <= u64::MAX {
        Some((secs * 1_000_000_000 + nanos) as nat)
    } else {
        None
    }
}

/// The span that may be absent.
pub open spec fn optional_span_of(d: Option<wire::Span>) -> Result<Option<nat>, ConvertError> {
    match d {
        None => Ok(None),
        Some(d) => match span_of(d) {
            Some(n) => Ok(Some(n)),
            None => Err(ConvertError::DurationOutOfRange),
        },
    }
}

/// The instant that may be absent.
pub open spec fn optional_time_of(t: Option<wire::Time>) -> Result<Option<int>, ConvertError> {
    match t {
        None => Ok(None),
        Some(wire::Time::At(t)) => Ok(Some(t@)),
        Some(wire::Time::OutOfRange) => Err(ConvertError::TimestampOutOfRange),
    }
}

/// The statistics of a task: both instants, then the poll statistics, then
/// its three spans, the first failure deciding.
pub open spec fn task_stats_of(w: wire::TaskStats) -> Result<TaskStatsView, ConvertError> {
    match optional_time_of(w.created_at) {
        Err(e) => Err(e),
        Ok(created_at) => match optional_time_of(w.dropped_at) {
            Err(e) => Err(e),
            Ok(dropped_at) => match w.poll_stats {
                None => Err(ConvertError::MissingPollStats),
                Some(p) => match optional_span_of(p.busy_time) {
                    Err(e) => Err(e),
                    Ok(busy_time) => match optional_span_of(p.last_poll_started) {
                        Err(e) => Err(e),
                        Ok(last_poll_started) => match optional_span_of(p.last_poll_ended) {
                            Err(e) => Err(e),
                            Ok(last_poll_ended) => Ok(
                                TaskStatsView {
                                    dropped_at,
                                    created_at,
                                    busy_time,
                                    last_poll_started,
                                    last_poll_ended,
                                    polls: p.polls,
                                },
                            ),
                        },
                    },
                },
            },
        },
    }
}

/// The statistics of a resource: both instants, the first failure deciding.
pub open spec fn resource_stats_of(
    w: wire::ResourceStats,
) -> Result<ResourceStatsView, ConvertError> {
    match optional_time_of(w.created_at) {
        Err(e) => Err(e),
        Ok(created_at) => match optional_time_of(w.dropped_at) {
            Err(e) => Err(e),
            Ok(dropped_at) => Ok(ResourceStatsView { dropped_at, created_at }),
        },
    }
}

/// A location: it needs its file, its line and its column, and its file is
/// shortened where it lies under cargo's directories.
pub open spec fn location_of(w: wire::Location) -> Result<LocationView, ConvertError> {
    match w.file {
        None => Err(ConvertError::MissingFile),
        Some(file) => match w.line {
            None => Err(ConvertError::MissingLine),
            Some(line) => match w.column {
                None => Err(ConvertError::MissingColumn),
                Some(column) => Ok(
                    LocationView {
                        file: registry_truncated(file@),
                        module: text_of(w.module),
                        line,
                        column,
                    },
                ),
            },
        },
    }
}

/// One field: its name and value, or nothing where the name is an index.
/// Name and value are both needed, also where the field is then left out.
pub open spec fn field_of(
    f: wire::Field,
) -> Result<Option<(Seq<char>, FieldValueView)>, ConvertError> {
    match f.name {
        None => Err(ConvertError::MissingFieldName),
        Some(name) => match f.value {
            None => Err(ConvertError::MissingFieldValue),
            Some(value) => match name {
                wire::FieldName::Str(s) => Ok(Some((s@, value@))),
                wire::FieldName::Index(_) => Ok(None),
            },
        },
    }
}

/// The fields of a task, taken in the order given: a later field replaces
/// an earlier one of the same name, and the first failure ends it.
pub open spec fn fields_of(
    fs: Seq<wire::Field>,
) -> Result<Map<Seq<char>, FieldValueView>, ConvertError>
    decreases fs.len(),
{
    if fs.len() == 0 {
        Ok(Map::empty())
    } else {
        match fields_of(fs.drop_last()) {
            Err(e) => Err(e),
            Ok(m) => match field_of(fs.last()) {
                Err(e) => Err(e),
                Ok(None) => Ok(m),
                Ok(Some((name, value))) => Ok(m.insert(name, value)),
            },
        }
    }
}

/// A new task: it needs its id, the id of its metadata, its fields and its
/// location, in this order. It has no statistics and no target yet.
pub open spec fn task_of(w: wire::Task) -> Result<TaskView, ConvertError> {
    match w.id {
        None => Err(ConvertError::MissingId),
        Some(id) => match w.metadata {
            None => Err(ConvertError::MissingMetadata),
            Some(metadata_id) => match fields_of(w.fields@) {
                Err(e) => Err(e),
                Ok(fields) => match w.location {
                    None => Err(ConvertError::MissingLocation),
                    Some(l) => match location_of(l) {
                        Err(e) => Err(e),
                        Ok(location) => Ok(
                            TaskView {
                                id,
                                fields,
                                location,
                                stats: None,
                                metadata_id,
                                target: None,
                            },
                        ),
                    },
                },
            },
        },
    }
}

/// The name of a kind: `Timer` for the kind numbered 0, the name itself
/// for a named kind; no other number stands for a kind.
pub open spec fn kind_of(k: wire::Kind) -> Result<Seq<char>, ConvertError> {
    match k {
        wire::Kind::Known(n) => if n == KIND_TIMER {
            Ok(TIMER@)
        } else {
            Err(ConvertError::UnknownKind)
        },
        wire::Kind::Other(s) => Ok(s@),
    }
}

/// The location that may be absent.
pub open spec fn optional_location_of(
    l: Option<wire::Location>,
) -> Result<Option<LocationView>, ConvertError> {
    match l {
        None => Ok(None),
        Some(l) => match location_of(l) {
            Err(e) => Err(e),
            Ok(l) => Ok(Some(l)),
        },
    }
}

/// A new resource: it needs its id, the id of its metadata and its kind, in
/// this order; its location may be absent. It has no statistics and no
/// target yet.
pub open spec fn resource_of(w: wire::Resource) -> Result<ResourceView, ConvertError> {
    match w.id {
        None => Err(ConvertError::MissingId),
        Some(id) => match w.metadata {
            None => Err(ConvertError::MissingMetadata),
            Some(metadata_id) => match w.kind {
                None => Err(ConvertError::MissingKind),
                Some(message) => match message.kind {
                    None => Err(ConvertError::MissingKindKind),
                    Some(k) => match kind_of(k) {
                        Err(e) => Err(e),
                        Ok(kind) => match optional_location_of(w.location) {
                            Err(e) => Err(e),
                            Ok(location) => Ok(
                                ResourceView {
                                    id,
                                    vis: if w.is_internal {
                                        TypeVisibility::Internal
                                    } else {
                                        TypeVisibility::Public
                                    },
                                    parent_id: w.parent_resource_id,
                                    kind,
                                    concrete_type: w.concrete_type@,
                                    location,
                                    metadata_id,
                                    target: None,
                                    stats: None,
                                },
                            ),
                        },
                    },
                },
            },
        },
    }
}

/// A new piece of metadata: it needs its id and its description.
pub open spec fn metadata_of(w: wire::NewMetadata) -> Result<MetadataView, ConvertError> {
    match w.id {
        None => Err(ConvertError::MissingId),
        Some(id) => match w.metadata {
            None => Err(ConvertError::MissingMeta),
            Some(d) => Ok(MetadataView { id, name: d.name@, target: d.target@ }),
        },
    }
}

/// Reads signed seconds as unsigned.
fn wrap_seconds(seconds: i64) -> (r: u64)
    ensures
        r == wrapped_seconds(seconds),
{
    if seconds >= 0 {
        seconds as u64
    } else {
        u64::MAX - ((-(seconds + 1)) as u64)
    }
}

/// Reads signed nanoseconds as unsigned.
fn wrap_nanos(nanos: i32) -> (r: u32)
    ensures
        r == wrapped_nanos(nanos),
{
    if nanos >= 0 {
        nanos as u32
    } else {
        u32::MAX - ((-(nanos + 1)) as u32)
    }
}

/// The span that the stream carries in `d`.
pub fn span_from_wire(d: wire::Span) -> (r: Option<Duration>)
    ensures
        span(r) == span_of(d),
{
    Duration::new(wrap_seconds(d.seconds), wrap_nanos(d.nanos))
}

fn optional_span_from_wire(d: Option<wire::Span>) -> (r: Result<Option<Duration>, ConvertError>)
    ensures
        match r {
            Ok(d) => Ok::<Option<nat>, ConvertError>(span(d)),
            Err(e) => Err(e),
        } == optional_span_of(d),
{
    match d {
        None => Ok(None),
        Some(d) => match span_from_wire(d) {
            Some(d) => Ok(Some(d)),
            None => Err(ConvertError::DurationOutOfRange),
        },
    }
}

fn optional_time_from_wire(t: Option<wire::Time>) -> (r: Result<Option<Timestamp>, ConvertError>)
    ensures
        match r {
            Ok(t) => Ok::<Option<int>, ConvertError>(instant(t)),
            Err(e) => Err(e),
        } == optional_time_of(t),
{
    match t {
        None => Ok(None),
        Some(wire::Time::At(t)) => Ok(Some(t)),
        Some(wire::Time::OutOfRange) => Err(ConvertError::TimestampOutOfRange),
    }
}

impl TaskStats {
    /// The statistics of a task that the stream carries in `stats`.
    pub fn try_from(stats: wire::TaskStats) -> (r: Result<TaskStats, ConvertError>)
        ensures
            viewed(r) == task_stats_of(stats),
    {
        let created_at = optional_time_from_wire(stats.created_at)?;
        let dropped_at = optional_time_from_wire(stats.dropped_at)?;
        let poll_stats = match stats.poll_stats {
            Some(p) => p,
            None => {
                return Err(ConvertError::MissingPollStats);
            },
        };
        let busy_time = optional_span_from_wire(poll_stats.busy_time)?;
        let last_poll_started = optional_span_from_wire(poll_stats.last_poll_started)?;
        let last_poll_ended = optional_span_from_wire(poll_stats.last_poll_ended)?;
        Ok(
            TaskStats {
                dropped_at,
                created_at,
                busy_time,
                last_poll_started,
                last_poll_ended,
                polls: poll_stats.polls,
            },
        )
    }
}

impl ResourceStats {
    /// The statistics of a resource that the stream carries in `stats`.
    pub fn try_from(stats: wire::ResourceStats) -> (r: Result<ResourceStats, ConvertError>)
        ensures
            viewed(r) == resource_stats_of(stats),
    {
        let created_at = optional_time_from_wire(stats.created_at)?;
        let dropped_at = optional_time_from_wire(stats.dropped_at)?;
        Ok(ResourceStats { dropped_at, created_at })
    }
}

impl Location {
    /// The location that the stream carries in `location`.
    pub fn try_from(location: wire::Location) -> (r: Result<Location, ConvertError>)
        ensures
            viewed(r) == location_of(location),
    {
        let file = match location.file {
            Some(f) => truncate_registry_path(f),
            None => {
                return Err(ConvertError::MissingFile);
            },
        };
        let line = match location.line {
            Some(l) => l,
            None => {
                return Err(ConvertError::MissingLine);
            },
        };
        let column = match location.column {
            Some(c) => c,
            None => {
                return Err(ConvertError::MissingColumn);
            },
        };
        Ok(Location { file, module: location.module, line, column })
    }
}

impl Metadata {
    /// The piece of metadata that the stream carries in `meta`.
    pub fn try_from(meta: wire::NewMetadata) -> (r: Result<Metadata, ConvertError>)
        ensures
            viewed(r) == metadata_of(meta),
    {
        let id = match meta.id {
            Some(id) => MetaId(id),
            None => {
                return Err(ConvertError::MissingId);
            },
        };
        let description = match meta.metadata {
            Some(d) => d,
            None => {
                return Err(ConvertError::MissingMeta);
            },
        };
        Ok(Metadata { id, name: description.name, target: description.target })
    }
}

/// The name and value of one field, or nothing where its name is an index.
fn field_from_wire(f: &wire::Field) -> (r: Result<Option<(String, FieldValue)>, ConvertError>)
    ensures
        match r {
            Ok(Some((name, value))) => field_of(*f) == Ok::<
                Option<(Seq<char>, FieldValueView)>,
                ConvertError,
            >(Some((name@, value@))),
            Ok(None) => field_of(*f) == Ok::<Option<(Seq<char>, FieldValueView)>, ConvertError>(
                None,
            ),
            Err(e) => field_of(*f) == Err::<Option<(Seq<char>, FieldValueView)>, ConvertError>(e),
        },
{
    let name = match &f.name {
        Some(n) => n,
        None => {
            return Err(ConvertError::MissingFieldName);
        },
    };
    let value = match &f.value {
        Some(v) => v,
        None => {
            return Err(ConvertError::MissingFieldValue);
        },
    };
    match name {
        wire::FieldName::Str(s) => Ok(Some((s.clone(), value.clone()))),
        wire::FieldName::Index(_) => Ok(None),
    }
}

/// The fields of a task, taken in the order given.
fn fields_from_wire(fs: &Vec<wire::Field>) -> (r: Result<FieldMap, ConvertError>)
    ensures
        viewed(r) == fields_of(fs@),
{
    let mut fields = FieldMap::new();
    let mut i: usize = 0;
    assert(fs@.take(0) =~= Seq::<wire::Field>::empty());
    while i < fs.len()
        invariant
            i <= fs.len(),
            fields_of(fs@.take(i as int)) == Ok::<Map<Seq<char>, FieldValueView>, ConvertError>(
                fields@,
            ),
        decreases fs.len() - i,
    {
        let ghost next = fs@.take(i + 1);
        assert(next.drop_last() =~= fs@.take(i as int));
        assert(next.last() == fs@[i as int]);
        match field_from_wire(&fs[i]) {
            Err(e) => {
                proof {
                    lemma_fields_of_fails(fs@, i + 1);
                }
                return Err(e);
            },
            Ok(None) => {},
            Ok(Some((name, value))) => {
                fields.insert(name, value);
            },
        }
        i += 1;
    }
    assert(fs@.take(i as int) =~= fs@);
    Ok(fields)
}

/// Once a prefix of the fields fails, the whole fails in the same way.
pub proof fn lemma_fields_of_fails(fs: Seq<wire::Field>, n: int)
    requires
        0 <= n <= fs.len(),
        fields_of(fs.take(n)) is Err,
    ensures
        fields_of(fs) == fields_of(fs.take(n)),
    decreases fs.len() - n,
{
    if n == fs.len() {
        assert(fs.take(n) =~= fs);
    } else {
        assert(fs.take(n + 1).drop_last() =~= fs.take(n));
        lemma_fields_of_fails(fs, n + 1);
    }
}

impl Task {
    /// The task that the stream carries in `task`.
    pub fn try_from(task: wire::Task) -> (r: Result<Task, ConvertError>)
        ensures
            viewed(r) == task_of(task),
    {
        let id = match task.id {
            Some(id) => TaskId(id),
            None => {
                return Err(ConvertError::MissingId);
            },
        };
        let metadata_id = match task.metadata {
            Some(id) => MetaId(id),
            None => {
                return Err(ConvertError::MissingMetadata);
            },
        };
        let fields = fields_from_wire(&task.fields)?;
        let location = match task.location {
            Some(l) => Location::try_from(l)?,
            None => {
                return Err(ConvertError::MissingLocation);
            },
        };
        Ok(Task { id, fields, location, stats: None, metadata_id, target: None })
    }
}

/// The name of the kind that the stream carries in `kind`.
pub fn kind_from_wire(kind: wire::Kind) -> (r: Result<String, ConvertError>)
    ensures
        viewed(r) == kind_of(kind),
{
    match kind {
        wire::Kind::Known(n) => {
            if n == KIND_TIMER {
                Ok(TIMER.to_owned())
            } else {
                Err(ConvertError::UnknownKind)
            }
        },
        wire::Kind::Other(s) => Ok(s),
    }
}

impl Resource {
    /// The resource that the stream carries in `resource`.
    pub fn try_from(resource: wire::Resource) -> (r: Result<Resource, ConvertError>)
        ensures
            viewed(r) == resource_of(resource),
    {
        let id = match resource.id {
            Some(id) => ResourceId(id),
            None => {
                return Err(ConvertError::MissingId);
            },
        };
        let metadata_id = match resource.metadata {
            Some(id) => MetaId(id),
            None => {
                return Err(ConvertError::MissingMetadata);
            },
        };
        let message = match resource.kind {
            Some(m) => m,
            None => {
                return Err(ConvertError::MissingKind);
            },
        };
        let kind = match message.kind {
            Some(k) => kind_from_wire(k)?,
            None => {
                return Err(ConvertError::MissingKindKind);
            },
        };
        let vis = if resource.is_internal {
            TypeVisibility::Internal
        } else {
            TypeVisibility::Public
        };
        let parent_id = match resource.parent_resource_id {
            Some(p) => Some(ResourceId(p)),
            None => None,
        };
        let location = match resource.location {
            Some(l) => Some(Location::try_from(l)?),
            None => None,
        };
        Ok(
            Resource {
                id,
                vis,
                parent_id,
                kind,
                concrete_type: resource.concrete_type,
                location,
                metadata_id,
                target: None,
                stats: None,
            },
        )
    }
}

} // verus!
