use tokio_console_web::addr::ConsoleAddr;
use tokio_console_web::fields::FieldMap;
use tokio_console_web::keys::{key_at, keys_in_order};
use tokio_console_web::state::{
    ConsoleState, Location, MetaId, Resource, ResourceId, ResourceStats, Task, TaskId, TaskStats,
    TypeVisibility,
};
use tokio_console_web::time::{Duration, Timestamp};
use tokio_console_web::views::connection_state::{ConnectionState, Msg as ConnectionMsg, State};
use tokio_console_web::views::resources_index::{Msg as ResourceMsg, ResourcesIndex};
use tokio_console_web::views::table_view_keybinds::{TableViewKeybinds, TableViewKeybindsUpdate};
use tokio_console_web::views::tasks_index::{Msg, Tally, TasksIndex};
use tokio_console_web::views::watcher::{Notice, Outcome, Step, Watcher};
use tokio_console_web::views::{Command, ConnectionFailed, ViewError};

fn addr() -> ConsoleAddr {
    ConsoleAddr { ip: "127.0.0.1".to_string(), port: "6669".to_string() }
}

fn now() -> Timestamp {
    Timestamp::new(1_000, 0).unwrap()
}

fn task(id: u64, stats: Option<TaskStats>) -> Task {
    Task {
        id: TaskId(id),
        fields: FieldMap::new(),
        location: Location { file: "src/x.rs".to_string(), module: None, line: 1, column: 1 },
        stats,
        metadata_id: MetaId(7),
        target: None,
    }
}

fn stats(created: i64, dropped: bool, started: u64, ended: u64, busy: u64) -> TaskStats {
    TaskStats {
        dropped_at: if dropped { Timestamp::new(999, 0) } else { None },
        created_at: Timestamp::new(created, 0),
        busy_time: Duration::new(busy, 0),
        last_poll_started: Duration::new(started, 0),
        last_poll_ended: Duration::new(ended, 0),
        polls: 1,
    }
}

fn resource(id: u64, created: Option<i64>) -> Resource {
    Resource {
        id: ResourceId(id),
        vis: TypeVisibility::Public,
        parent_id: None,
        kind: "Timer".to_string(),
        concrete_type: "Sleep".to_string(),
        location: None,
        metadata_id: MetaId(7),
        target: None,
        stats: created.map(|c| ResourceStats { dropped_at: None, created_at: Timestamp::new(c, 0) }),
    }
}

fn snapshot() -> ConsoleState {
    let mut state = ConsoleState::new();
    state.tasks.insert(30, task(30, Some(stats(990, false, 5, 4, 2))));
    state.tasks.insert(10, task(10, Some(stats(900, true, 5, 4, 1))));
    state.tasks.insert(20, task(20, Some(stats(950, false, 4, 4, 3))));
    state.tasks.insert(40, task(40, None));
    state.resources.insert(8, resource(8, Some(400)));
    state.resources.insert(3, resource(3, None));
    state
}

#[test]
fn keys_come_in_order() {
    let state = snapshot();
    assert_eq!(keys_in_order(&state.tasks), vec![10, 20, 30, 40]);
    assert_eq!(key_at(&state.tasks, 0), Some(10));
    assert_eq!(key_at(&state.tasks, 3), Some(40));
    assert_eq!(key_at(&state.tasks, 4), None);
    assert_eq!(key_at(&ConsoleState::new().tasks, 0), None);
}

#[test]
fn keys_move_the_selection() {
    let mut k = TableViewKeybinds::default();
    assert_eq!(k.selected_idx(), None);
    assert_eq!(k.update("k"), None);
    assert_eq!(k.selected_idx(), None);
    assert_eq!(k.update("Enter"), None);
    assert_eq!(k.update("j"), None);
    assert_eq!(k.selected_idx(), Some(0));
    assert_eq!(k.update("j"), None);
    assert_eq!(k.update("j"), None);
    assert_eq!(k.selected_idx(), Some(2));
    assert_eq!(k.update("k"), None);
    assert_eq!(k.selected_idx(), Some(1));
    assert_eq!(k.update("Enter"), Some(TableViewKeybindsUpdate::Selected(1)));
    assert_eq!(k.update("k"), None);
    assert_eq!(k.update("k"), None);
    assert_eq!(k.selected_idx(), Some(0));
}

#[test]
fn keys_call_commands() {
    let mut k = TableViewKeybinds::default();
    assert_eq!(k.update(" "), Some(TableViewKeybindsUpdate::TogglePlayPause));
    assert_eq!(k.update("t"), Some(TableViewKeybindsUpdate::GotoTasks));
    assert_eq!(k.update("r"), Some(TableViewKeybindsUpdate::GotoResources));
    assert_eq!(k.update("x"), None);
    assert_eq!(k.update(""), None);
    assert_eq!(k.update("enter"), None);
    assert!(!k.help_shown());
    assert_eq!(k.update("?"), None);
    assert!(k.help_shown());
    assert_eq!(k.update("?"), None);
    assert!(!k.help_shown());
    assert_eq!(k.selected_idx(), None);
}

#[test]
fn selection_is_kept_within_the_table() {
    let mut k = TableViewKeybinds::default();
    k.clamp_selected_idx(3);
    assert_eq!(k.selected_idx(), None);
    for _ in 0..6 {
        k.update("j");
    }
    assert_eq!(k.selected_idx(), Some(5));
    k.clamp_selected_idx(10);
    assert_eq!(k.selected_idx(), Some(5));
    k.clamp_selected_idx(6);
    assert_eq!(k.selected_idx(), Some(5));
    k.clamp_selected_idx(3);
    assert_eq!(k.selected_idx(), Some(2));
    k.clamp_selected_idx(0);
    assert_eq!(k.selected_idx(), Some(2));
    k.clamp_selected_idx(1);
    assert_eq!(k.selected_idx(), Some(0));
}

#[test]
fn update_counts_the_tasks() {
    let state = snapshot();
    let page = TasksIndex::new(addr());
    assert!(page.connected);
    let (page, commands) = page.do_update(Msg::Update, None, &state, now()).unwrap();
    assert!(commands.is_empty());
    assert_eq!(page.tally, Tally { total: 4, running: 1, idle: 2, completed: 1 });
    assert_eq!(page.runtime_stats.len(), 4);
    let times = page.runtime_stats[&30];
    assert_eq!(times.total, Duration::new(10, 0));
    assert_eq!(times.busy, Duration::new(2, 0));
    assert_eq!(times.idle, Duration::new(8, 0));
    let times = page.runtime_stats[&40];
    assert_eq!((times.total, times.busy, times.idle), (None, None, None));
}

#[test]
fn update_remembers_the_times_of_tasks_that_are_gone() {
    let mut state = snapshot();
    let page = TasksIndex::new(addr());
    let (page, _) = page.do_update(Msg::Update, None, &state, now()).unwrap();
    state.tasks.remove(&10);
    let later = Timestamp::new(1_005, 0).unwrap();
    let (page, _) = page.do_update(Msg::Update, None, &state, later).unwrap();
    assert_eq!(page.tally, Tally { total: 3, running: 1, idle: 2, completed: 0 });
    assert_eq!(page.runtime_stats[&10].total, Duration::new(100, 0));
    assert_eq!(page.runtime_stats[&30].total, Duration::new(15, 0));
}

#[test]
fn paused_page_does_not_look() {
    let state = snapshot();
    let page = TasksIndex::new(addr());
    let (page, _) = page.do_update(Msg::TogglePlayPause, None, &state, now()).unwrap();
    assert_eq!(page.paused_state, Some(state.clone()));
    let mut changed = snapshot();
    changed.tasks.remove(&10);
    let (page, _) = page.do_update(Msg::Update, None, &changed, now()).unwrap();
    assert_eq!(page.tally, Tally::default());
    assert!(page.runtime_stats.is_empty());
    assert_eq!(page.paused_state, Some(state));
    let (page, _) = page.do_update(Msg::TogglePlayPause, None, &changed, now()).unwrap();
    assert_eq!(page.paused_state, None);
    let (page, _) = page.do_update(Msg::Update, None, &changed, now()).unwrap();
    assert_eq!(page.tally.total, 3);
}

#[test]
fn row_click_opens_the_task() {
    let page = TasksIndex::new(addr());
    let (_, commands) =
        page.do_update(Msg::RowClick(TaskId(77)), None, &snapshot(), now()).unwrap();
    assert_eq!(commands, vec![Command::NavigateTo("/console/127.0.0.1/6669/tasks/77".to_string())]);
}

#[test]
fn enter_opens_the_selected_task() {
    let state = snapshot();
    let page = TasksIndex::new(addr());
    let (page, commands) = page.do_update(Msg::Key, Some("Enter"), &state, now()).unwrap();
    assert!(commands.is_empty());
    let (page, _) = page.do_update(Msg::Key, Some("j"), &state, now()).unwrap();
    let (page, _) = page.do_update(Msg::Key, Some("j"), &state, now()).unwrap();
    assert_eq!(page.table_keybinds.selected_idx(), Some(1));
    assert_eq!(page.selected_task(&state, 1), Some(TaskId(20)));
    assert_eq!(page.selected_task(&state, 4), None);
    let (_, commands) = page.do_update(Msg::Key, Some("Enter"), &state, now()).unwrap();
    assert_eq!(commands, vec![Command::NavigateTo("/console/127.0.0.1/6669/tasks/20".to_string())]);
}

#[test]
fn selection_follows_a_shrinking_table() {
    let mut state = snapshot();
    let mut page = TasksIndex::new(addr());
    for _ in 0..9 {
        page = page.do_update(Msg::Key, Some("j"), &state, now()).unwrap().0;
    }
    assert_eq!(page.table_keybinds.selected_idx(), Some(3));
    state.tasks.remove(&40);
    state.tasks.remove(&30);
    let (page, _) = page.do_update(Msg::Update, None, &state, now()).unwrap();
    assert_eq!(page.table_keybinds.selected_idx(), Some(1));
}

#[test]
fn keys_of_the_tasks_page() {
    let state = snapshot();
    let page = TasksIndex::new(addr());
    let (page, commands) = page.do_update(Msg::Key, Some("r"), &state, now()).unwrap();
    assert_eq!(commands, vec![Command::NavigateTo("/console/127.0.0.1/6669/resources".to_string())]);
    let (page, commands) = page.do_update(Msg::Key, Some("t"), &state, now()).unwrap();
    assert!(commands.is_empty());
    let (page, commands) = page.do_update(Msg::Key, Some(" "), &state, now()).unwrap();
    assert!(commands.is_empty());
    assert!(page.paused_state.is_some());
    let (page, _) = page.do_update(Msg::Key, Some("?"), &state, now()).unwrap();
    assert!(page.table_keybinds.help_shown());
}

#[test]
fn tasks_page_ends_on_error() {
    let state = snapshot();
    let page = TasksIndex::new(addr());
    let (page, commands) = page.do_update(Msg::Disconnected, None, &state, now()).unwrap();
    assert!(!page.connected);
    assert!(commands.is_empty());
    assert_eq!(page.do_update(Msg::Error, None, &state, now()).err(), Some(ViewError::Disconnected));
    let page = TasksIndex::new(addr());
    assert_eq!(page.do_update(Msg::Key, None, &state, now()).err(), Some(ViewError::MissingKey));
}

#[test]
fn resources_page_looks_and_navigates() {
    let state = snapshot();
    let page = ResourcesIndex::new(addr());
    let (page, commands) = page.do_update(ResourceMsg::Update, None, &state, now()).unwrap();
    assert!(commands.is_empty());
    assert_eq!(page.runtime_stats[&8].total, Duration::new(600, 0));
    assert_eq!(page.runtime_stats[&3].total, None);
    let (page, commands) =
        page.do_update(ResourceMsg::RowClick(ResourceId(8)), None, &state, now()).unwrap();
    assert_eq!(
        commands,
        vec![Command::NavigateTo("/console/127.0.0.1/6669/resources/8".to_string())]
    );
    let (page, commands) = page.do_update(ResourceMsg::Key, Some("t"), &state, now()).unwrap();
    assert_eq!(commands, vec![Command::NavigateTo("/console/127.0.0.1/6669/tasks".to_string())]);
    let (page, commands) = page.do_update(ResourceMsg::Key, Some("r"), &state, now()).unwrap();
    assert!(commands.is_empty());
    let (page, _) = page.do_update(ResourceMsg::Key, Some("j"), &state, now()).unwrap();
    assert_eq!(page.selected_resource(&state, 0), Some(ResourceId(3)));
    let (page, commands) = page.do_update(ResourceMsg::Key, Some("Enter"), &state, now()).unwrap();
    assert_eq!(
        commands,
        vec![Command::NavigateTo("/console/127.0.0.1/6669/resources/3".to_string())]
    );
    let (page, _) = page.do_update(ResourceMsg::Key, Some(" "), &state, now()).unwrap();
    assert_eq!(page.paused_state, Some(state.clone()));
    let (page, _) = page.do_update(ResourceMsg::TogglePlayPause, None, &state, now()).unwrap();
    assert_eq!(page.paused_state, None);
    let (page, _) = page.do_update(ResourceMsg::Disconnected, None, &state, now()).unwrap();
    assert!(!page.connected);
    assert_eq!(
        page.do_update(ResourceMsg::Error, None, &state, now()).err(),
        Some(ViewError::Disconnected)
    );
    let page = ResourcesIndex::new(addr());
    assert_eq!(
        page.do_update(ResourceMsg::Key, None, &state, now()).err(),
        Some(ViewError::MissingKey)
    );
}

#[test]
fn connection_state_follows_the_messages() {
    let line = ConnectionState::new(addr());
    assert_eq!(line.state, State::Connecting);
    let line = line.update(ConnectionMsg::Connected);
    assert_eq!(line.state, State::Connected);
    let line = line.update(ConnectionMsg::Error { code: 14, message: "unavailable".to_string() });
    assert_eq!(line.state, State::Error { code: 14, message: "unavailable".to_string() });
    let line = line.update(ConnectionMsg::StreamEnded);
    assert_eq!(line.state, State::StreamEnded);
    assert_eq!(line.addr, addr());
}

#[test]
fn failed_connection_page_always_ends() {
    let page = ConnectionFailed { addr: addr(), err: "connection refused".to_string() };
    assert_eq!(page.update().err(), Some(ViewError::Reconnecting));
}

#[test]
fn watcher_tells_of_changes_and_then_closes() {
    let (w, step) = Watcher::start();
    assert_eq!(step, Step::Wait);
    let (w, step) = w.next(Outcome::Changed);
    assert_eq!(step, Step::Emit(Notice::Update));
    let (w, step) = w.next(Outcome::Sent);
    assert_eq!(step, Step::Wait);
    let (w, step) = w.next(Outcome::Changed);
    assert_eq!(step, Step::Emit(Notice::Update));
    let (w, step) = w.next(Outcome::Sent);
    assert_eq!((w, step), (Watcher::Waiting, Step::Wait));
    let (w, step) = w.next(Outcome::Closed);
    assert_eq!(step, Step::Emit(Notice::Disconnected));
    let (w, step) = w.next(Outcome::Sent);
    assert_eq!(step, Step::Emit(Notice::Error));
    let (w, step) = w.next(Outcome::Sent);
    assert_eq!((w, step), (Watcher::Done, Step::Stop));
}

#[test]
fn watcher_closes_when_the_page_takes_no_more() {
    let (w, _) = Watcher::start();
    let (w, _) = w.next(Outcome::Changed);
    let (w, step) = w.next(Outcome::NotSent);
    assert_eq!(step, Step::Emit(Notice::Disconnected));
    let (w, step) = w.next(Outcome::NotSent);
    assert_eq!(step, Step::Emit(Notice::Error));
    let (w, step) = w.next(Outcome::NotSent);
    assert_eq!((w, step), (Watcher::Done, Step::Stop));
    assert_eq!(w.next(Outcome::Changed), (Watcher::Done, Step::Stop));
}

#[test]
fn watcher_stops_when_cancelled() {
    let (w, _) = Watcher::start();
    assert_eq!(w.next(Outcome::Cancelled), (Watcher::Done, Step::Stop));
    let (w, _) = Watcher::start().0.next(Outcome::Changed);
    assert_eq!(w.next(Outcome::Cancelled), (Watcher::Done, Step::Stop));
    assert_eq!(Watcher::Waiting.next(Outcome::Sent), (Watcher::Done, Step::Stop));
}
