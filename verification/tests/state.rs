use tokio_console_web::fields::{FieldMap, FieldValue};
use tokio_console_web::state::{
    shown_fields, ConsoleState, Location, MetaId, Task, TaskId, TaskState, TaskStats,
};
use tokio_console_web::time::{Duration, Timestamp};

fn stats() -> TaskStats {
    TaskStats {
        dropped_at: None,
        created_at: None,
        busy_time: None,
        last_poll_started: None,
        last_poll_ended: None,
        polls: 0,
    }
}

fn task(fields: FieldMap, stats: Option<TaskStats>) -> Task {
    Task {
        id: TaskId(1),
        fields,
        location: Location { file: "src/x.rs".to_string(), module: None, line: 1, column: 1 },
        stats,
        metadata_id: MetaId(7),
        target: None,
    }
}

fn named(value: FieldValue) -> Task {
    let mut fields = FieldMap::new();
    fields.insert("kind".to_string(), FieldValue::Str("task".to_string()));
    fields.insert("task.name".to_string(), value);
    task(fields, None)
}

#[test]
fn name_is_the_text_of_the_name_field() {
    assert_eq!(named(FieldValue::Str("worker".to_string())).name(), Some("worker"));
    assert_eq!(named(FieldValue::Debug("\"worker\"".to_string())).name(), Some("\"worker\""));
    assert_eq!(named(FieldValue::U64(3)).name(), None);
    assert_eq!(named(FieldValue::I64(-3)).name(), None);
    assert_eq!(named(FieldValue::Bool(true)).name(), None);
    assert_eq!(task(FieldMap::new(), None).name(), None);
}

#[test]
fn task_without_stats_is_idle() {
    let t = task(FieldMap::new(), None);
    assert!(!t.is_completed());
    assert!(!t.is_running());
    assert_eq!(t.state(), TaskState::Idle);
}

#[test]
fn dropped_task_is_completed() {
    let mut s = stats();
    s.dropped_at = Timestamp::new(5, 0);
    s.last_poll_started = Duration::new(9, 0);
    s.last_poll_ended = Duration::new(1, 0);
    let t = task(FieldMap::new(), Some(s));
    assert!(t.is_completed());
    assert!(t.is_running());
    assert_eq!(t.state(), TaskState::Completed);
}

#[test]
fn task_polled_after_its_last_poll_ended_is_running() {
    let mut s = stats();
    s.last_poll_started = Duration::new(2, 1);
    s.last_poll_ended = Duration::new(2, 0);
    let t = task(FieldMap::new(), Some(s));
    assert!(t.is_running());
    assert_eq!(t.state(), TaskState::Running);
}

#[test]
fn task_whose_last_poll_ended_is_idle() {
    let mut s = stats();
    s.last_poll_started = Duration::new(2, 0);
    s.last_poll_ended = Duration::new(2, 0);
    assert_eq!(task(FieldMap::new(), Some(s)).state(), TaskState::Idle);
    s.last_poll_ended = Duration::new(3, 0);
    assert_eq!(task(FieldMap::new(), Some(s)).state(), TaskState::Idle);
}

#[test]
fn task_with_a_missing_poll_time_is_not_running() {
    let mut s = stats();
    s.last_poll_started = Duration::new(2, 0);
    assert!(!task(FieldMap::new(), Some(s)).is_running());
    let mut s = stats();
    s.last_poll_ended = Duration::new(2, 0);
    assert!(!task(FieldMap::new(), Some(s)).is_running());
    assert!(!task(FieldMap::new(), Some(stats())).is_running());
}

#[test]
fn idle_time_is_age_less_busy_time() {
    let mut s = stats();
    s.created_at = Timestamp::new(100, 0);
    s.busy_time = Duration::new(1, 500_000_000);
    let idle = s.idle_time(Timestamp::new(110, 250_000_000).unwrap()).unwrap();
    assert_eq!(idle.as_nanos(), 8_750_000_000);
    assert_eq!(s.idle_time(Timestamp::new(101, 500_000_000).unwrap()).unwrap().as_nanos(), 0);
}

#[test]
fn idle_time_needs_both_times() {
    let now = Timestamp::new(110, 0).unwrap();
    let mut s = stats();
    assert_eq!(s.idle_time(now), None);
    s.created_at = Timestamp::new(100, 0);
    assert_eq!(s.idle_time(now), None);
    s.created_at = None;
    s.busy_time = Duration::new(1, 0);
    assert_eq!(s.idle_time(now), None);
}

#[test]
fn idle_time_is_none_when_it_would_be_negative() {
    let mut s = stats();
    s.created_at = Timestamp::new(100, 0);
    s.busy_time = Duration::new(20, 0);
    assert_eq!(s.idle_time(Timestamp::new(110, 0).unwrap()), None);
    assert_eq!(s.idle_time(Timestamp::new(99, 0).unwrap()), None);
}

#[test]
fn clones_are_equal() {
    let mut state = ConsoleState::new();
    state.tasks.insert(1, named(FieldValue::Str("worker".to_string())));
    let copy = state.clone();
    assert_eq!(copy, state);
    assert_eq!(copy.tasks[&1].clone(), state.tasks[&1]);
}

#[test]
fn default_state_is_empty() {
    let state = ConsoleState::default();
    assert_eq!(state, ConsoleState::new());
    assert!(state.tasks.is_empty());
    assert!(state.resources.is_empty());
    assert!(state.metadata.is_empty());
}

#[test]
fn shown_fields_leave_out_the_name() {
    let mut fields = FieldMap::new();
    fields.insert("task.name".to_string(), FieldValue::Str("worker".to_string()));
    fields.insert("kind".to_string(), FieldValue::Str("task".to_string()));
    fields.insert("fn".to_string(), FieldValue::Debug("app::run".to_string()));
    fields.insert("task.id".to_string(), FieldValue::U64(7));
    fields.insert("delta".to_string(), FieldValue::I64(-3));
    fields.insert("zeta".to_string(), FieldValue::Bool(true));
    assert_eq!(
        shown_fields(&fields),
        vec!["delta=-3", "fn=app::run", "kind=task", "task.id=7", "zeta=true"]
    );
}

#[test]
fn shown_fields_of_few_fields() {
    assert!(shown_fields(&FieldMap::new()).is_empty());
    let mut fields = FieldMap::new();
    fields.insert("task.name".to_string(), FieldValue::Str("worker".to_string()));
    assert!(shown_fields(&fields).is_empty());
    fields.insert("task.names".to_string(), FieldValue::Str(String::new()));
    assert_eq!(shown_fields(&fields), vec!["task.names="]);
}
