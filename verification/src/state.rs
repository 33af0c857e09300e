//! The snapshot of one upstream server: its tasks, its resources and the
//! metadata that describes them.

use crate::fields::{
    compare_names, value_text, FieldMap, FieldValue, FieldValueView, NameOrder,
};
use crate::path::text_of;
use crate::time::{Duration, Timestamp};
use std::collections::{BTreeMap, HashMap};
use vstd::prelude::*;
use vstd::string::StringExecFns;

verus! {

/// The id of a task.
#[derive(Debug, Clone, Copy, PartialEq, Eq, PartialOrd, Ord, Hash)]
pub struct TaskId(pub u64);

/// The id of a resource.
#[derive(Debug, Clone, Copy, PartialEq, Eq, PartialOrd, Ord, Hash)]
pub struct ResourceId(pub u64);

/// The id of a piece of metadata.
#[derive(Debug, Clone, Copy, PartialEq, Eq, PartialOrd, Ord, Hash)]
pub struct MetaId(pub u64);

/// The instant that may be absent, in nanoseconds since the epoch.
pub open spec fn instant(t: Option<Timestamp>) -> Option<int> {
    match t {
        Some(t) => Some(t@),
        None => None,
    }
}

/// The span that may be absent, in nanoseconds.
pub open spec fn span(d: Option<Duration>) -> Option<nat> {
    match d {
        Some(d) => Some(d@),
        None => None,
    }
}

/// Where in the source an entity was created.
#[derive(Debug, PartialEq)]
pub struct Location {
    pub file: String,
    pub module: Option<String>,
    pub line: u32,
    pub column: u32,
}

/// What a `Location` holds, as plain values.
pub struct LocationView {
    pub file: Seq<char>,
    pub module: Option<Seq<char>>,
    pub line: u32,
    pub column: u32,
}

impl View for Location {
    type V = LocationView;

    open spec fn view(&self) -> LocationView {
        LocationView {
            file: self.file@,
            module: text_of(self.module),
            line: self.line,
            column: self.column,
        }
    }
}

impl Clone for Location {
    fn clone(&self) -> (r: Self)
        ensures
            r == *self,
    {
        let module = match &self.module {
            Some(s) => Some(s.clone()),
            None => None,
        };
        Location { file: self.file.clone(), module, line: self.line, column: self.column }
    }
}

/// The counters and times of a task.
#[derive(Debug, Clone, Copy, PartialEq)]
pub struct TaskStats {
    pub dropped_at: Option<Timestamp>,
    pub created_at: Option<Timestamp>,
    pub busy_time: Option<Duration>,
    pub last_poll_started: Option<Duration>,
    pub last_poll_ended: Option<Duration>,
    pub polls: u64,
}

/// What a `TaskStats` holds: instants in nanoseconds since the epoch,
/// spans in nanoseconds.
pub struct TaskStatsView {
    pub dropped_at: Option<int>,
    pub created_at: Option<int>,
    pub busy_time: Option<nat>,
    pub last_poll_started: Option<nat>,
    pub last_poll_ended: Option<nat>,
    pub polls: u64,
}

impl View for TaskStats {
    type V = TaskStatsView;

    open spec fn view(&self) -> TaskStatsView {
        TaskStatsView {
            dropped_at: instant(self.dropped_at),
            created_at: instant(self.created_at),
            busy_time: span(self.busy_time),
            last_poll_started: span(self.last_poll_started),
            last_poll_ended: span(self.last_poll_ended),
            polls: self.polls,
        }
    }
}

/// What a task is doing.
#[derive(Debug, Clone, Copy, PartialEq, Eq)]
pub enum TaskState {
    Running,
    Idle,
    Completed,
}

/// The times of a resource.
#[derive(Debug, Clone, Copy, PartialEq)]
pub struct ResourceStats {
    pub dropped_at: Option<Timestamp>,
    pub created_at: Option<Timestamp>,
}

/// What a `ResourceStats` holds, in nanoseconds since the epoch.
pub struct ResourceStatsView {
    pub dropped_at: Option<int>,
    pub created_at: Option<int>,
}

impl View for ResourceStats {
    type V = ResourceStatsView;

    open spec fn view(&self) -> ResourceStatsView {
        ResourceStatsView {
            dropped_at: instant(self.dropped_at),
            created_at: instant(self.created_at),
        }
    }
}

/// Whether a resource's type is part of a public interface.
#[derive(Debug, Clone, Copy, PartialEq, Eq)]
pub enum TypeVisibility {
    Public,
    Internal,
}

/// The description that tasks and resources refer to by id.
#[derive(Debug, PartialEq)]
pub struct Metadata {
    pub id: MetaId,
    pub name: String,
    pub target: String,
}

/// What a `Metadata` holds, as plain values.
pub struct MetadataView {
    pub id: u64,
    pub name: Seq<char>,
    pub target: Seq<char>,
}

impl View for Metadata {
    type V = MetadataView;

    open spec fn view(&self) -> MetadataView {
        MetadataView { id: self.id.0, name: self.name@, target: self.target@ }
    }
}

impl Clone for Metadata {
    fn clone(&self) -> (r: Self)
        ensures
            r == *self,
    {
        Metadata { id: self.id, name: self.name.clone(), target: self.target.clone() }
    }
}

/// One task of the upstream server.
#[derive(Debug, PartialEq)]
pub struct Task {
    pub id: TaskId,
    pub fields: FieldMap,
    pub location: Location,
    pub stats: Option<TaskStats>,
    pub metadata_id: MetaId,
    pub target: Option<String>,
}

/// What a `Task` holds, as plain values.
pub struct TaskView {
    pub id: u64,
    pub fields: Map<Seq<char>, FieldValueView>,
    pub location: LocationView,
    pub stats: Option<TaskStatsView>,
    pub metadata_id: u64,
    pub target: Option<Seq<char>>,
}

impl View for Task {
    type V = TaskView;

    open spec fn view(&self) -> TaskView {
        TaskView {
            id: self.id.0,
            fields: self.fields@,
            location: self.location@,
            stats: match self.stats {
                Some(s) => Some(s@),
                None => None,
            },
            metadata_id: self.metadata_id.0,
            target: text_of(self.target),
        }
    }
}

impl Clone for Task {
    fn clone(&self) -> (r: Self)
        ensures
            r@ == self@,
    {
        let target = match &self.target {
            Some(s) => Some(s.clone()),
            None => None,
        };
        Task {
            id: self.id,
            fields: self.fields.clone(),
            location: self.location.clone(),
            stats: self.stats,
            metadata_id: self.metadata_id,
            target,
        }
    }
}

/// One resource of the upstream server.
#[derive(Debug, PartialEq)]
pub struct Resource {
    pub id: ResourceId,
    pub vis: TypeVisibility,
    pub parent_id: Option<ResourceId>,
    pub kind: String,
    pub concrete_type: String,
    pub location: Option<Location>,
    pub metadata_id: MetaId,
    pub target: Option<String>,
    pub stats: Option<ResourceStats>,
}

/// What a `Resource` holds, as plain values.
pub struct ResourceView {
    pub id: u64,
    pub vis: TypeVisibility,
    pub parent_id: Option<u64>,
    pub kind: Seq<char>,
    pub concrete_type: Seq<char>,
    pub location: Option<LocationView>,
    pub metadata_id: u64,
    pub target: Option<Seq<char>>,
    pub stats: Option<ResourceStatsView>,
}

impl View for Resource {
    type V = ResourceView;

    open spec fn view(&self) -> ResourceView {
        ResourceView {
            id: self.id.0,
            vis: self.vis,
            parent_id: match self.parent_id {
                Some(p) => Some(p.0),
                None => None,
            },
            kind: self.kind@,
            concrete_type: self.concrete_type@,
            location: match self.location {
                Some(l) => Some(l@),
                None => None,
            },
            metadata_id: self.metadata_id.0,
            target: text_of(self.target),
            stats: match self.stats {
                Some(s) => Some(s@),
                None => None,
            },
        }
    }
}

impl Clone for Resource {
    fn clone(&self) -> (r: Self)
        ensures
            r == *self,
    {
        let location = match &self.location {
            Some(l) => Some(l.clone()),
            None => None,
        };
        let target = match &self.target {
            Some(s) => Some(s.clone()),
            None => None,
        };
        Resource {
            id: self.id,
            vis: self.vis,
            parent_id: self.parent_id,
            kind: self.kind.clone(),
            concrete_type: self.concrete_type.clone(),
            location,
            metadata_id: self.metadata_id,
            target,
            stats: self.stats,
        }
    }
}

/// The complete current view of one upstream server. Tasks and resources
/// are kept by id, in the order of their ids; metadata is kept by id.
#[derive(Debug, PartialEq)]
pub struct ConsoleState {
    pub tasks: BTreeMap<u64, Task>,
    pub resources: BTreeMap<u64, Resource>,
    pub metadata: HashMap<u64, Metadata>,
}

/// What a `ConsoleState` holds, as plain values.
pub struct ConsoleStateView {
    pub tasks: Map<u64, TaskView>,
    pub resources: Map<u64, ResourceView>,
    pub metadata: Map<u64, MetadataView>,
}

impl View for ConsoleState {
    type V = ConsoleStateView;

    open spec fn view(&self) -> ConsoleStateView {
        ConsoleStateView {
            tasks: self.tasks@.map_values(|t: Task| t@),
            resources: self.resources@.map_values(|r: Resource| r@),
            metadata: self.metadata@.map_values(|m: Metadata| m@),
        }
    }
}

impl ConsoleStateView {
    /// The snapshot before any delta: nothing in it.
    pub open spec fn empty() -> ConsoleStateView {
        ConsoleStateView { tasks: Map::empty(), resources: Map::empty(), metadata: Map::empty() }
    }
}

impl ConsoleState {
    /// The snapshot before any delta: nothing in it.
    pub fn new() -> (s: ConsoleState)
        ensures
            s@ == ConsoleStateView::empty(),
    {
        let s = ConsoleState {
            tasks: BTreeMap::new(),
            resources: BTreeMap::new(),
            metadata: HashMap::new(),
        };
        assert(s@.tasks =~= Map::empty());
        assert(s@.resources =~= Map::empty());
        assert(s@.metadata =~= Map::empty());
        s
    }
}

impl Default for ConsoleState {
    fn default() -> (s: Self)
        ensures
            s@ == ConsoleStateView::empty(),
    {
        ConsoleState::new()
    }
}

impl Clone for ConsoleState {
    fn clone(&self) -> (r: Self)
        ensures
            r@ == self@,
    {
        let tasks = self.tasks.clone();
        let resources = self.resources.clone();
        let metadata = self.metadata.clone();
        let r = ConsoleState { tasks, resources, metadata };
        assert(r@.tasks =~= self@.tasks);
        assert(r@.resources =~= self@.resources);
        assert(r@.metadata =~= self@.metadata);
        r
    }
}

/// The name of the field that holds the name of a task.
pub const TASK_NAME: &'static str = "task.name";

/// The name of a task: the text of its field `task.name`, where it has that
/// field and the field holds text.
pub open spec fn task_name(task: TaskView) -> Option<Seq<char>> {
    if task.fields.contains_key(TASK_NAME@) {
        match task.fields[TASK_NAME@] {
            FieldValueView::Debug(s) => Some(s),
            FieldValueView::Str(s) => Some(s),
            _ => None,
        }
    } else {
        None
    }
}

/// Whether a task has been dropped.
pub open spec fn task_completed(task: TaskView) -> bool {
    task.stats matches Some(s) && s.dropped_at is Some
}

/// Whether a task is being polled: its last poll started after its last
/// poll ended. A task with either time missing is not running.
pub open spec fn task_running(task: TaskView) -> bool {
    &&& task.stats matches Some(s)
    &&& s.last_poll_started matches Some(started)
    &&& s.last_poll_ended matches Some(ended)
    &&& started > ended
}

/// What a task is doing: completed once dropped, else running while it is
/// polled, else idle.
pub open spec fn task_state(task: TaskView) -> TaskState {
    if task_completed(task) {
        TaskState::Completed
    } else if task_running(task) {
        TaskState::Running
    } else {
        TaskState::Idle
    }
}

/// The time, in nanoseconds, that a task has lived at the instant `now`
/// without being polled: its age less its busy time. There is none where
/// the time of creation or the busy time is missing, where the task was
/// created after `now`, or where it was busy for longer than it has lived.
pub open spec fn idle_nanos(stats: TaskStatsView, now: int) -> Option<nat> {
    match (stats.created_at, stats.busy_time) {
        (Some(created_at), Some(busy)) => if created_at <= now && busy <= now - created_at {
            Some((now - created_at - busy) as nat)
        } else {
            None
        },
        _ => None,
    }
}

impl TaskStats {
    /// The time that the task has lived at the instant `now` without being
    /// polled.
    pub fn idle_time(&self, now: Timestamp) -> (r: Option<Duration>)
        ensures
            span(r) == idle_nanos(self@, now@),
    {
        let created_at = match self.created_at {
            Some(t) => t,
            None => {
                return None;
            },
        };
        let busy = match self.busy_time {
            Some(d) => d,
            None => {
                return None;
            },
        };
        match created_at.elapsed_at(now) {
            Some(age) => age.checked_sub(busy),
            None => None,
        }
    }
}

impl Task {
    /// The name of the task, if it has one.
    pub fn name(&self) -> (r: Option<&str>)
        ensures
            match r {
                Some(s) => task_name(self@) == Some(s@),
                None => task_name(self@) is None,
            },
    {
        match self.fields.get(TASK_NAME) {
            Some(FieldValue::Debug(name)) => Some(name.as_str()),
            Some(FieldValue::Str(name)) => Some(name.as_str()),
            _ => None,
        }
    }

    /// What the task is doing.
    pub fn state(&self) -> (r: TaskState)
        ensures
            r == task_state(self@),
    {
        if self.is_completed() {
            return TaskState::Completed;
        }
        if self.is_running() {
            return TaskState::Running;
        }
        TaskState::Idle
    }

    /// Whether the task has been dropped.
    pub fn is_completed(&self) -> (r: bool)
        ensures
            r == task_completed(self@),
    {
        match &self.stats {
            Some(stats) => stats.dropped_at.is_some(),
            None => false,
        }
    }

    /// Whether the task is being polled.
    pub fn is_running(&self) -> (r: bool)
        ensures
            r == task_running(self@),
    {
        match &self.stats {
            Some(stats) => match (stats.last_poll_started, stats.last_poll_ended) {
                (Some(started), Some(ended)) => started.as_nanos() > ended.as_nanos(),
                _ => false,
            },
            None => false,
        }
    }
}

/// The line that shows one field: its name, an equals sign and the text of
/// its value.
pub open spec fn field_line(name: Seq<char>, value: FieldValueView) -> Seq<char> {
    name + "="@ + value_text(value)
}

/// The lines that show the fields of a task beside its name: one for every
/// name of `names` but `task.name`, in the order of `names`, each with the
/// value that `fields` holds under it.
pub open spec fn shown_lines(
    names: Seq<Seq<char>>,
    fields: Map<Seq<char>, FieldValueView>,
) -> Seq<Seq<char>>
    decreases names.len(),
{
    if names.len() == 0 {
        Seq::empty()
    } else if names.last() == TASK_NAME@ {
        shown_lines(names.drop_last(), fields)
    } else {
        shown_lines(names.drop_last(), fields).push(field_line(names.last(), fields[names.last()]))
    }
}

/// What a list of texts holds.
pub open spec fn texts(lines: Seq<String>) -> Seq<Seq<char>> {
    lines.map_values(|line: String| line@)
}

/// The lines that show the fields of a task beside its name: every field
/// but `task.name` as `name=value`, in the order of the names.
pub fn shown_fields(fields: &FieldMap) -> (r: Vec<String>)
    ensures
        texts(r@) == shown_lines(fields.names(), fields@),
        r@.len() <= fields.names().len(),
{
    let n: usize = fields.len();
    let mut lines: Vec<String> = Vec::new();
    let mut i: usize = 0;
    assert(fields.names().take(0) =~= Seq::<Seq<char>>::empty());
    assert(texts(lines@) =~= Seq::<Seq<char>>::empty());
    while i < n
        invariant
            i <= n,
            n == fields.names().len(),
            lines@.len() <= i,
            texts(lines@) == shown_lines(fields.names().take(i as int), fields@),
        decreases n - i,
    {
        let ghost front = fields.names().take(i + 1);
        assert(front.drop_last() =~= fields.names().take(i as int));
        assert(front.last() == fields.names()[i as int]);
        let (name, value) = fields.entry(i);
        match compare_names(name.as_str(), TASK_NAME) {
            NameOrder::Same => {},
            _ => {
                let mut line = name.clone();
                line.append("=");
                line.append(value.to_text().as_str());
                let ghost before = lines@;
                lines.push(line);
                assert(texts(lines@) =~= texts(before).push(line@));
            },
        }
        i += 1;
    }
    assert(fields.names().take(n as int) =~= fields.names());
    lines
}

} // verus!
