//! The page that lists the tasks of a server.

use crate::addr::{resources_path, task_path, ConsoleAddr};
use crate::keys::{id_at, key_at, keys_in_order, lists_in_order};
use crate::reduce::tasks::task_views;
use crate::state::{
    idle_nanos, span, task_state, ConsoleState, ConsoleStateView, Task, TaskId, TaskState,
    TaskView,
};
use crate::time::{Duration, Timestamp};
use crate::views::table_view_keybinds::{
    after_key, asked_by_key, clamped, KeybindsView, TableViewKeybinds, TableViewKeybindsUpdate,
};
use crate::views::{command_views, Command, CommandView, ViewError};
use std::collections::{BTreeMap, HashMap};
use vstd::prelude::*;

verus! {

/// What can happen to the page.
#[derive(Debug, Clone, Copy, PartialEq, Eq)]
pub enum Msg {
    TogglePlayPause,
    RowClick(TaskId),
    Update,
    Disconnected,
    Error,
    Key,
}

/// How many tasks there are, and how many in each state.
#[derive(Debug, Clone, Copy, PartialEq, Eq)]
pub struct Tally {
    pub total: usize,
    pub running: usize,
    pub idle: usize,
    pub completed: usize,
}

/// What a `Tally` holds.
pub struct TallyView {
    pub total: nat,
    pub running: nat,
    pub idle: nat,
    pub completed: nat,
}

impl View for Tally {
    type V = TallyView;

    open spec fn view(&self) -> TallyView {
        TallyView {
            total: self.total as nat,
            running: self.running as nat,
            idle: self.idle as nat,
            completed: self.completed as nat,
        }
    }
}

impl Default for Tally {
    fn default() -> (r: Self)
        ensures
            r@ == (TallyView { total: 0, running: 0, idle: 0, completed: 0 }),
    {
        Tally { total: 0, running: 0, idle: 0, completed: 0 }
    }
}

/// The times of a task as they were when the page last looked.
#[derive(Debug, Clone, Copy, PartialEq)]
pub struct TaskRuntimeStats {
    pub total: Option<Duration>,
    pub busy: Option<Duration>,
    pub idle: Option<Duration>,
}

/// What a `TaskRuntimeStats` holds, in nanoseconds.
pub struct RuntimeView {
    pub total: Option<nat>,
    pub busy: Option<nat>,
    pub idle: Option<nat>,
}

impl View for TaskRuntimeStats {
    type V = RuntimeView;

    open spec fn view(&self) -> RuntimeView {
        RuntimeView { total: span(self.total), busy: span(self.busy), idle: span(self.idle) }
    }
}

/// The views of the remembered times.
pub open spec fn runtime_views(m: Map<u64, TaskRuntimeStats>) -> Map<u64, RuntimeView> {
    m.map_values(|r: TaskRuntimeStats| r@)
}

/// The page that lists the tasks of the server at `addr`.
#[derive(Debug)]
pub struct TasksIndex {
    pub paused_state: Option<ConsoleState>,
    pub addr: ConsoleAddr,
    pub connected: bool,
    pub runtime_stats: HashMap<u64, TaskRuntimeStats>,
    pub tally: Tally,
    pub table_keybinds: TableViewKeybinds,
}

/// What a `TasksIndex` holds, as plain values.
pub struct TasksIndexView {
    pub paused: Option<ConsoleStateView>,
    pub addr: (Seq<char>, Seq<char>),
    pub connected: bool,
    pub runtime_stats: Map<u64, RuntimeView>,
    pub tally: TallyView,
    pub keybinds: KeybindsView,
}

impl View for TasksIndex {
    type V = TasksIndexView;

    open spec fn view(&self) -> TasksIndexView {
        TasksIndexView {
            paused: match self.paused_state {
                Some(s) => Some(s@),
                None => None,
            },
            addr: self.addr@,
            connected: self.connected,
            runtime_stats: runtime_views(self.runtime_stats@),
            tally: self.tally@,
            keybinds: self.table_keybinds@,
        }
    }
}

/// The age of a task at the instant `now`, in nanoseconds, where the time
/// of its creation is known and not after `now`.
pub open spec fn age_nanos(task: TaskView, now: int) -> Option<nat> {
    match task.stats {
        Some(s) => match s.created_at {
            Some(created_at) => if created_at <= now {
                Some((now - created_at) as nat)
            } else {
                None
            },
            None => None,
        },
        None => None,
    }
}

/// The times of a task at the instant `now`.
pub open spec fn runtime_of(task: TaskView, now: int) -> RuntimeView {
    RuntimeView {
        total: age_nanos(task, now),
        busy: match task.stats {
            Some(s) => s.busy_time,
            None => None,
        },
        idle: match task.stats {
            Some(s) => idle_nanos(s, now),
            None => None,
        },
    }
}

/// The remembered times after a look at `tasks` at the instant `now`: the
/// times of every task of `tasks`, and what was remembered of the others.
pub open spec fn runtimes_over(
    remembered: Map<u64, RuntimeView>,
    tasks: Map<u64, TaskView>,
    ids: Set<u64>,
    now: int,
) -> Map<u64, RuntimeView> {
    Map::new(
        |id: u64| remembered.contains_key(id) || ids.contains(id),
        |id: u64|
            if ids.contains(id) {
                runtime_of(tasks[id], now)
            } else {
                remembered[id]
            },
    )
}

/// How many of the tasks under `ids` are in the state `state`.
pub open spec fn count_in(tasks: Map<u64, TaskView>, ids: Set<u64>, state: TaskState) -> nat {
    ids.filter(|id: u64| task_state(tasks[id]) == state).len()
}

/// The tally of the tasks under `ids`.
pub open spec fn tally_over(tasks: Map<u64, TaskView>, ids: Set<u64>) -> TallyView {
    TallyView {
        total: ids.len(),
        running: count_in(tasks, ids, TaskState::Running),
        idle: count_in(tasks, ids, TaskState::Idle),
        completed: count_in(tasks, ids, TaskState::Completed),
    }
}

/// The snapshot that the page shows: the one it paused on, else the
/// current one.
pub open spec fn shown(view: TasksIndexView, current: ConsoleStateView) -> ConsoleStateView {
    match view.paused {
        Some(paused) => paused,
        None => current,
    }
}

/// The page after pause or play: a paused page resumes, a running page
/// pauses on the current snapshot.
pub open spec fn toggled(view: TasksIndexView, current: ConsoleStateView) -> TasksIndexView {
    TasksIndexView {
        paused: if view.paused is Some {
            None
        } else {
            Some(current)
        },
        ..view
    }
}

/// The page after a look at the current snapshot: a paused page does not
/// look.
pub open spec fn refreshed(
    view: TasksIndexView,
    current: ConsoleStateView,
    now: int,
) -> TasksIndexView {
    if view.paused is Some {
        view
    } else {
        TasksIndexView {
            tally: tally_over(current.tasks, current.tasks.dom()),
            runtime_stats: runtimes_over(
                view.runtime_stats,
                current.tasks,
                current.tasks.dom(),
                now,
            ),
            ..view
        }
    }
}

/// Where opening the row at place `idx` leads: to the page of the task
/// that the shown snapshot lists at that place, if it lists that many.
pub open spec fn opened(
    view: TasksIndexView,
    current: ConsoleStateView,
    idx: usize,
) -> Seq<CommandView> {
    let tasks = shown(view, current).tasks;
    match id_at(tasks.dom(), idx as int) {
        Some(key) => seq![CommandView::NavigateTo(task_path(view.addr, tasks[key].id))],
        None => seq![],
    }
}

/// The page and what it asks of the browser after a message, before the
/// selection is brought back into the table.
pub open spec fn after_message(
    view: TasksIndexView,
    msg: Msg,
    key: Option<Seq<char>>,
    current: ConsoleStateView,
    now: int,
) -> Result<(TasksIndexView, Seq<CommandView>), ViewError> {
    match msg {
        Msg::TogglePlayPause => Ok((toggled(view, current), seq![])),
        Msg::RowClick(id) => Ok((view, seq![CommandView::NavigateTo(task_path(view.addr, id.0))])),
        Msg::Key => match key {
            None => Err(ViewError::MissingKey),
            Some(key) => {
                let pressed = TasksIndexView { keybinds: after_key(view.keybinds, key), ..view };
                match asked_by_key(view.keybinds, key) {
                    Some(TableViewKeybindsUpdate::Selected(idx)) => Ok(
                        (pressed, opened(pressed, current, idx)),
                    ),
                    Some(TableViewKeybindsUpdate::GotoTasks) => Ok((pressed, seq![])),
                    Some(TableViewKeybindsUpdate::GotoResources) => Ok(
                        (pressed, seq![CommandView::NavigateTo(resources_path(view.addr))]),
                    ),
                    Some(TableViewKeybindsUpdate::TogglePlayPause) => Ok(
                        (toggled(pressed, current), seq![]),
                    ),
                    None => Ok((pressed, seq![])),
                }
            },
        },
        Msg::Update => Ok((refreshed(view, current, now), seq![])),
        Msg::Disconnected => Ok((TasksIndexView { connected: false, ..view }, seq![])),
        Msg::Error => Err(ViewError::Disconnected),
    }
}

/// The page and what it asks of the browser after a message: as
/// `after_message`, with the selection kept within the rows of the shown
/// snapshot.
pub open spec fn updated(
    view: TasksIndexView,
    msg: Msg,
    key: Option<Seq<char>>,
    current: ConsoleStateView,
    now: int,
) -> Result<(TasksIndexView, Seq<CommandView>), ViewError> {
    match after_message(view, msg, key, current, now) {
        Err(e) => Err(e),
        Ok((after, commands)) => Ok(
            (
                TasksIndexView {
                    keybinds: KeybindsView {
                        selected: clamped(
                            after.keybinds.selected,
                            shown(after, current).tasks.len() as int,
                        ),
                        ..after.keybinds
                    },
                    ..after
                },
                commands,
            ),
        ),
    }
}

/// The times of `task` at the instant `now`.
pub fn runtime_stats_of(task: &Task, now: Timestamp) -> (r: TaskRuntimeStats)
    ensures
        r@ == runtime_of(task@, now@),
{
    match &task.stats {
        Some(stats) => {
            let total = match stats.created_at {
                Some(created_at) => created_at.elapsed_at(now),
                None => None,
            };
            TaskRuntimeStats { total, busy: stats.busy_time, idle: stats.idle_time(now) }
        },
        None => TaskRuntimeStats { total: None, busy: None, idle: None },
    }
}

/// Counting one more id, which was not counted yet, changes the count of
/// one state by one and leaves the others.
proof fn lemma_count_one_more(tasks: Map<u64, TaskView>, ids: Set<u64>, id: u64, state: TaskState)
    requires
        ids.finite(),
        !ids.contains(id),
    ensures
        ids.insert(id).finite(),
        ids.insert(id).len() == ids.len() + 1,
        count_in(tasks, ids, state) <= ids.len(),
        count_in(tasks, ids.insert(id), state) == count_in(tasks, ids, state) + if task_state(
            tasks[id],
        ) == state {
            1nat
        } else {
            0nat
        },
{
    let f = |other: u64| task_state(tasks[other]) == state;
    vstd::set_lib::lemma_len_subset(ids.filter(f), ids);
    if task_state(tasks[id]) == state {
        assert(ids.insert(id).filter(f) =~= ids.filter(f).insert(id));
    } else {
        assert(ids.insert(id).filter(f) =~= ids.filter(f));
    }
}

/// Among no ids there is no task in any state.
proof fn lemma_count_none(tasks: Map<u64, TaskView>, state: TaskState)
    ensures
        count_in(tasks, Set::<u64>::empty(), state) == 0,
{
    assert(Set::<u64>::empty().filter(|id: u64| task_state(tasks[id]) == state) =~= Set::<
        u64,
    >::empty());
}

/// Looks at `tasks` at the instant `now`: counts them and remembers their
/// times.
pub fn look_at_tasks(
    tasks: &BTreeMap<u64, Task>,
    runtime_stats: &mut HashMap<u64, TaskRuntimeStats>,
    now: Timestamp,
) -> (tally: Tally)
    ensures
        tally@ == tally_over(task_views(tasks@), tasks@.dom()),
        runtime_views(final(runtime_stats)@) == runtimes_over(
            runtime_views(old(runtime_stats)@),
            task_views(tasks@),
            tasks@.dom(),
            now@,
        ),
{
    let ghost views = task_views(tasks@);
    let ghost remembered = runtime_views(runtime_stats@);
    let keys = keys_in_order(tasks);
    let mut tally = Tally { total: 0, running: 0, idle: 0, completed: 0 };
    let mut i: usize = 0;
    assert(keys@.take(0).to_set() =~= Set::<u64>::empty());
    proof {
        lemma_count_none(views, TaskState::Running);
        lemma_count_none(views, TaskState::Idle);
        lemma_count_none(views, TaskState::Completed);
    }
    assert(runtime_views(runtime_stats@) =~= runtimes_over(
        remembered,
        views,
        Set::<u64>::empty(),
        now@,
    ));
    while i < keys.len()
        invariant
            i <= keys.len(),
            lists_in_order(keys@, tasks@.dom()),
            views == task_views(tasks@),
            keys@.take(i as int).to_set().finite(),
            keys@.take(i as int).to_set().len() == i,
            tally@ == tally_over(views, keys@.take(i as int).to_set()),
            runtime_views(runtime_stats@) == runtimes_over(
                remembered,
                views,
                keys@.take(i as int).to_set(),
                now@,
            ),
        decreases keys.len() - i,
    {
        let id: u64 = keys[i];
        let ghost seen = keys@.take(i as int).to_set();
        proof {
            assert(keys@.to_set().contains(keys@[i as int]));
            assert(!seen.contains(id)) by {
                if seen.contains(id) {
                    let j = choose|j: int| 0 <= j < i && keys@.take(i as int)[j] == id;
                    assert(keys@[j] < keys@[i as int]);
                }
            }
            assert(keys@.take(i + 1).to_set() =~= seen.insert(id)) by {
                assert(keys@.take(i + 1) =~= keys@.take(i as int).push(id));
                assert forall|x: u64| seen.insert(id).contains(x) implies keys@.take(
                    i + 1,
                ).to_set().contains(x) by {
                    if x == id {
                        assert(keys@.take(i + 1)[i as int] == x);
                    } else {
                        let j = choose|j: int| 0 <= j < i && keys@.take(i as int)[j] == x;
                        assert(keys@.take(i + 1)[j] == x);
                    }
                }
            }
            lemma_count_one_more(views, seen, id, TaskState::Running);
            lemma_count_one_more(views, seen, id, TaskState::Idle);
            lemma_count_one_more(views, seen, id, TaskState::Completed);
        }
        match tasks.get(&id) {
            Some(task) => {
                let ghost prior = runtime_stats@;
                runtime_stats.insert(id, runtime_stats_of(task, now));
                assert(runtime_views(runtime_stats@) =~= runtime_views(prior).insert(
                    id,
                    runtime_of(views[id], now@),
                ));
                tally.total = tally.total + 1;
                match task.state() {
                    TaskState::Running => {
                        tally.running = tally.running + 1;
                    },
                    TaskState::Idle => {
                        tally.idle = tally.idle + 1;
                    },
                    TaskState::Completed => {
                        tally.completed = tally.completed + 1;
                    },
                }
            },
            None => {},
        }
        assert(runtime_views(runtime_stats@) =~= runtimes_over(
            remembered,
            views,
            seen.insert(id),
            now@,
        ));
        i += 1;
    }
    assert(keys@.take(i as int) =~= keys@);
    tally
}

impl TasksIndex {
    /// The page for the server at `addr`, before any message.
    pub fn new(addr: ConsoleAddr) -> (r: Self)
        ensures
            r@ == (TasksIndexView {
                paused: None,
                addr: addr@,
                connected: true,
                runtime_stats: Map::empty(),
                tally: TallyView { total: 0, running: 0, idle: 0, completed: 0 },
                keybinds: KeybindsView { selected: None, help_shown: false },
            }),
    {
        let r = TasksIndex {
            addr,
            paused_state: None,
            connected: true,
            runtime_stats: HashMap::new(),
            tally: Tally::default(),
            table_keybinds: TableViewKeybinds::default(),
        };
        assert(r@.runtime_stats =~= Map::empty());
        r
    }

    /// The task that the shown snapshot lists at place `idx`.
    pub fn selected_task(&self, current: &ConsoleState, idx: usize) -> (r: Option<TaskId>)
        ensures
            match id_at(shown(self@, current@).tasks.dom(), idx as int) {
                Some(key) => r matches Some(id) && id.0 == shown(self@, current@).tasks[key].id,
                None => r is None,
            },
    {
        let state = match &self.paused_state {
            Some(paused) => paused,
            None => current,
        };
        assert(task_views(state.tasks@).dom() =~= state.tasks@.dom());
        match key_at(&state.tasks, idx) {
            Some(key) => match state.tasks.get(&key) {
                Some(task) => Some(task.id),
                None => None,
            },
            None => None,
        }
    }

    /// The command that leads to the page of the task `id`.
    pub fn navigate_to_task_command(&self, id: TaskId) -> (r: Command)
        ensures
            r@ == CommandView::NavigateTo(task_path(self@.addr, id.0)),
    {
        Command::NavigateTo(self.addr.task_path(id.0))
    }

    /// Pauses on the current snapshot, or resumes.
    pub fn toggle_play_pause(&mut self, current: &ConsoleState)
        ensures
            final(self)@ == toggled(old(self)@, current@),
    {
        if self.paused_state.is_some() {
            self.paused_state = None;
        } else {
            self.paused_state = Some(current.clone());
        }
    }

    /// Takes the message `msg` at the instant `now`, with the key that came
    /// with it, if any, and the current snapshot. An error ends the page.
    pub fn do_update(
        self,
        msg: Msg,
        key: Option<&str>,
        current: &ConsoleState,
        now: Timestamp,
    ) -> (r: Result<(TasksIndex, Vec<Command>), ViewError>)
        ensures
            match updated(
                self@,
                msg,
                match key {
                    Some(k) => Some(k@),
                    None => None,
                },
                current@,
                now@,
            ) {
                Ok((view, commands)) => r matches Ok((page, asked)) && page@ == view
                    && command_views(asked@) == commands,
                Err(e) => r matches Err(f) && f == e,
            },
    {
        let mut this = self;
        let mut commands: Vec<Command> = Vec::new();
        assert(command_views(commands@) =~= Seq::<CommandView>::empty());
        match msg {
            Msg::TogglePlayPause => {
                this.toggle_play_pause(current);
            },
            Msg::RowClick(task_id) => {
                let command = this.navigate_to_task_command(task_id);
                commands.push(command);
                assert(command_views(commands@) =~= seq![command@]);
            },
            Msg::Key => {
                let key = match key {
                    Some(k) => k,
                    None => {
                        return Err(ViewError::MissingKey);
                    },
                };
                match this.table_keybinds.update(key) {
                    Some(TableViewKeybindsUpdate::Selected(idx)) => {
                        match this.selected_task(current, idx) {
                            Some(id) => {
                                let command = this.navigate_to_task_command(id);
                                commands.push(command);
                                assert(command_views(commands@) =~= seq![command@]);
                            },
                            None => {},
                        }
                    },
                    Some(TableViewKeybindsUpdate::GotoTasks) => {},
                    Some(TableViewKeybindsUpdate::GotoResources) => {
                        let command = Command::NavigateTo(this.addr.resources_path());
                        commands.push(command);
                        assert(command_views(commands@) =~= seq![command@]);
                    },
                    Some(TableViewKeybindsUpdate::TogglePlayPause) => {
                        this.toggle_play_pause(current);
                    },
                    None => {},
                }
            },
            Msg::Update => {
                if this.paused_state.is_none() {
                    assert(task_views(current.tasks@).dom() =~= current.tasks@.dom());
                    this.tally = look_at_tasks(&current.tasks, &mut this.runtime_stats, now);
                }
            },
            Msg::Disconnected => {
                this.connected = false;
            },
            Msg::Error => {
                return Err(ViewError::Disconnected);
            },
        }
        let rows: usize = match &this.paused_state {
            Some(paused) => {
                assert(task_views(paused.tasks@).dom() =~= paused.tasks@.dom());
                paused.tasks.len()
            },
            None => {
                assert(task_views(current.tasks@).dom() =~= current.tasks@.dom());
                current.tasks.len()
            },
        };
        this.table_keybinds.clamp_selected_idx(rows);
        Ok((this, commands))
    }
}

} // verus!
