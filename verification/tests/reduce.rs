use tokio_console_web::convert::ConvertError;
use tokio_console_web::fields::FieldValue;
use tokio_console_web::reduce::reduce;
use tokio_console_web::state::{ConsoleState, TaskState};
use tokio_console_web::time::{Duration, Timestamp};
use tokio_console_web::wire;

const T0: i64 = 1_650_000_000;

fn at(secs: i64, nanos: u32) -> Timestamp {
    Timestamp::new(secs, nanos).unwrap()
}

fn new_task(id: u64, metadata: u64, file: &str) -> wire::Task {
    wire::Task {
        id: Some(id),
        metadata: Some(metadata),
        fields: vec![wire::Field {
            name: Some(wire::FieldName::Str("task.name".to_string())),
            value: Some(FieldValue::Str("worker".to_string())),
        }],
        location: Some(wire::Location {
            file: Some(file.to_string()),
            module: None,
            line: Some(10),
            column: Some(2),
        }),
    }
}

fn new_resource(id: u64, metadata: u64) -> wire::Resource {
    wire::Resource {
        id: Some(id),
        metadata: Some(metadata),
        kind: Some(wire::KindMessage { kind: Some(wire::Kind::Other("Mutex".to_string())) }),
        is_internal: false,
        parent_resource_id: None,
        concrete_type: "Mutex".to_string(),
        location: None,
    }
}

fn new_meta(id: u64, name: &str, target: &str) -> wire::NewMetadata {
    wire::NewMetadata {
        id: Some(id),
        metadata: Some(wire::MetaDescription { name: name.to_string(), target: target.to_string() }),
    }
}

fn task_stats(
    created: Option<Timestamp>,
    dropped: Option<Timestamp>,
    polls: u64,
    busy: Option<wire::Span>,
) -> wire::TaskStats {
    wire::TaskStats {
        created_at: created.map(wire::Time::At),
        dropped_at: dropped.map(wire::Time::At),
        poll_stats: Some(wire::PollStats {
            polls,
            busy_time: busy,
            last_poll_started: None,
            last_poll_ended: None,
        }),
    }
}

fn delta(
    meta: Vec<wire::NewMetadata>,
    tasks: Vec<wire::Task>,
    stats: Vec<(u64, wire::TaskStats)>,
) -> wire::Update {
    wire::Update {
        new_metadata: Some(meta),
        task_update: Some(wire::TaskUpdate { new_tasks: tasks, stats_update: stats }),
        resource_update: Some(wire::ResourceUpdate { new_resources: vec![], stats_update: vec![] }),
    }
}

fn resource_delta(
    resources: Vec<wire::Resource>,
    stats: Vec<(u64, wire::ResourceStats)>,
) -> wire::Update {
    wire::Update {
        new_metadata: None,
        task_update: Some(wire::TaskUpdate { new_tasks: vec![], stats_update: vec![] }),
        resource_update: Some(wire::ResourceUpdate { new_resources: resources, stats_update: stats }),
    }
}

#[test]
fn empty_delta_leaves_the_empty_state() {
    let state = reduce(ConsoleState::new(), delta(vec![], vec![], vec![]), at(T0, 0)).unwrap();
    assert_eq!(state, ConsoleState::new());
    assert!(state.tasks.is_empty() && state.resources.is_empty() && state.metadata.is_empty());
}

#[test]
fn task_create_stats_drop() {
    let now = at(T0 + 100, 0);
    let created = at(T0, 0);
    let a = delta(vec![new_meta(7, "n", "t")], vec![new_task(1, 7, "src/x.rs")], vec![]);
    let state = reduce(ConsoleState::new(), a, now).unwrap();
    assert_eq!(state.tasks.len(), 1);
    let task = &state.tasks[&1];
    assert_eq!(task.name(), Some("worker"));
    assert_eq!(task.location.file, "src/x.rs");
    assert_eq!(task.location.line, 10);
    assert_eq!(task.location.column, 2);
    assert_eq!(task.stats, None);
    assert_eq!(task.target.as_deref(), Some("t"));
    assert_eq!(task.state(), TaskState::Idle);

    let b = delta(
        vec![],
        vec![],
        vec![(
            1,
            task_stats(Some(created), None, 3, Some(wire::Span { seconds: 0, nanos: 100_000_000 })),
        )],
    );
    let state = reduce(state, b, now).unwrap();
    let stats = state.tasks[&1].stats.unwrap();
    assert_eq!(stats.polls, 3);
    assert_eq!(stats.created_at, Some(created));
    assert_eq!(stats.busy_time, Duration::new(0, 100_000_000));
    assert_eq!(stats.dropped_at, None);

    let dropped = at(T0 + 100 - 6, 0);
    let c = delta(vec![], vec![], vec![(1, task_stats(Some(created), Some(dropped), 5, None))]);
    let state = reduce(state, c, now).unwrap();
    assert!(state.tasks.is_empty());
    assert_eq!(state.metadata.len(), 1);
}

#[test]
fn metadata_arrival_ordering() {
    let now = at(T0, 0);
    let first = delta(vec![], vec![new_task(1, 7, "src/x.rs")], vec![]);
    let state = reduce(ConsoleState::new(), first, now).unwrap();
    assert_eq!(state.tasks[&1].target, None);
    let second = delta(vec![new_meta(7, "n", "svc.a")], vec![], vec![]);
    let state = reduce(state, second, now).unwrap();
    assert_eq!(state.tasks[&1].target.as_deref(), Some("svc.a"));
}

#[test]
fn metadata_of_the_same_delta_is_used() {
    let d = wire::Update {
        new_metadata: Some(vec![new_meta(7, "old", "old.target"), new_meta(7, "new", "new.target")]),
        task_update: Some(wire::TaskUpdate {
            new_tasks: vec![new_task(1, 7, "a.rs"), new_task(2, 8, "b.rs")],
            stats_update: vec![],
        }),
        resource_update: Some(wire::ResourceUpdate {
            new_resources: vec![new_resource(5, 7)],
            stats_update: vec![],
        }),
    };
    let state = reduce(ConsoleState::new(), d, at(T0, 0)).unwrap();
    assert_eq!(state.metadata[&7].name, "new");
    assert_eq!(state.tasks[&1].target.as_deref(), Some("new.target"));
    assert_eq!(state.tasks[&2].target, None);
    assert_eq!(state.resources[&5].target.as_deref(), Some("new.target"));
    for task in state.tasks.values() {
        if let Some(meta) = state.metadata.get(&task.metadata_id.0) {
            assert_eq!(task.target.as_ref(), Some(&meta.target));
        }
    }
}

#[test]
fn delta_without_task_update_ends_the_stream() {
    let d = wire::Update {
        new_metadata: Some(vec![new_meta(7, "n", "t")]),
        task_update: None,
        resource_update: Some(wire::ResourceUpdate { new_resources: vec![], stats_update: vec![] }),
    };
    assert_eq!(reduce(ConsoleState::new(), d, at(T0, 0)), Err(ConvertError::MissingTaskUpdate));
}

#[test]
fn delta_without_resource_update_ends_the_stream() {
    let d = wire::Update {
        new_metadata: None,
        task_update: Some(wire::TaskUpdate { new_tasks: vec![], stats_update: vec![] }),
        resource_update: None,
    };
    assert_eq!(reduce(ConsoleState::new(), d, at(T0, 0)), Err(ConvertError::MissingResourceUpdate));
}

#[test]
fn metadata_errors_come_first() {
    let d = wire::Update {
        new_metadata: Some(vec![wire::NewMetadata { id: Some(1), metadata: None }]),
        task_update: None,
        resource_update: None,
    };
    assert_eq!(reduce(ConsoleState::new(), d, at(T0, 0)), Err(ConvertError::MissingMeta));
}

#[test]
fn task_that_cannot_be_converted_ends_the_stream() {
    let mut bad = new_task(2, 7, "src/y.rs");
    bad.id = None;
    let d = delta(vec![], vec![new_task(1, 7, "src/x.rs"), bad], vec![]);
    assert_eq!(reduce(ConsoleState::new(), d, at(T0, 0)), Err(ConvertError::MissingId));
}

#[test]
fn stats_that_cannot_be_converted_end_the_stream_also_for_an_unknown_id() {
    let bad = wire::TaskStats { created_at: None, dropped_at: None, poll_stats: None };
    let d = delta(vec![], vec![], vec![(99, bad)]);
    assert_eq!(reduce(ConsoleState::new(), d, at(T0, 0)), Err(ConvertError::MissingPollStats));
}

#[test]
fn dropped_exactly_five_seconds_ago_is_reaped() {
    let now = at(T0, 500);
    let d = delta(
        vec![],
        vec![new_task(1, 7, "a.rs"), new_task(2, 7, "b.rs"), new_task(3, 7, "c.rs")],
        vec![
            (1, task_stats(None, Some(at(T0 - 5, 500)), 1, None)),
            (2, task_stats(None, Some(at(T0 - 5, 501)), 1, None)),
            (3, task_stats(None, Some(at(T0 + 60, 0)), 1, None)),
        ],
    );
    let state = reduce(ConsoleState::new(), d, now).unwrap();
    let ids: Vec<u64> = state.tasks.keys().copied().collect();
    assert_eq!(ids, vec![2, 3]);
    assert_eq!(state.tasks[&2].state(), TaskState::Completed);
}

#[test]
fn retained_entities_were_dropped_less_than_five_seconds_ago() {
    let now = at(T0, 0);
    let mut stats = vec![];
    let mut tasks = vec![];
    for i in 0..12u64 {
        tasks.push(new_task(i, 7, "a.rs"));
        stats.push((i, task_stats(None, Some(at(T0 - i as i64, 0)), 1, None)));
    }
    let state = reduce(ConsoleState::new(), delta(vec![], tasks, stats), now).unwrap();
    assert_eq!(state.tasks.len(), 5);
    for task in state.tasks.values() {
        let age = task.stats.unwrap().dropped_at.unwrap().elapsed_at(now).unwrap();
        assert!(age.as_nanos() < 5_000_000_000);
    }
}

#[test]
fn resources_are_reduced_and_reaped() {
    let now = at(T0, 0);
    let d = resource_delta(
        vec![new_resource(1, 7), new_resource(2, 7)],
        vec![
            (
                1,
                wire::ResourceStats {
                    created_at: Some(wire::Time::At(at(T0 - 50, 0))),
                    dropped_at: Some(wire::Time::At(at(T0 - 5, 0))),
                },
            ),
            (
                2,
                wire::ResourceStats {
                    created_at: Some(wire::Time::At(at(T0 - 50, 0))),
                    dropped_at: Some(wire::Time::At(at(T0 - 4, 999_999_999))),
                },
            ),
        ],
    );
    let state = reduce(ConsoleState::new(), d, now).unwrap();
    assert_eq!(state.resources.len(), 1);
    assert_eq!(state.resources[&2].kind, "Mutex");
    assert_eq!(state.resources[&2].stats.unwrap().created_at, Some(at(T0 - 50, 0)));
}

#[test]
fn resource_that_cannot_be_converted_ends_the_stream() {
    let mut bad = new_resource(1, 7);
    bad.kind = None;
    assert_eq!(
        reduce(ConsoleState::new(), resource_delta(vec![bad], vec![]), at(T0, 0)),
        Err(ConvertError::MissingKind)
    );
}

#[test]
fn stats_for_an_unknown_id_change_nothing() {
    let now = at(T0, 0);
    let base = delta(vec![new_meta(7, "n", "t")], vec![new_task(1, 7, "src/x.rs")], vec![]);
    let state = reduce(ConsoleState::new(), base, now).unwrap();
    let before = state.clone();
    let d = delta(vec![], vec![], vec![(42, task_stats(None, None, 9, None))]);
    let state = reduce(state, d, now).unwrap();
    assert_eq!(state, before);
    let d = resource_delta(vec![], vec![(42, wire::ResourceStats { created_at: None, dropped_at: None })]);
    let state = reduce(state, d, now).unwrap();
    assert_eq!(state, before);
}

#[test]
fn same_delta_twice_changes_nothing_more() {
    let now = at(T0, 0);
    let make = || wire::Update {
        new_metadata: Some(vec![new_meta(7, "n", "t")]),
        task_update: Some(wire::TaskUpdate {
            new_tasks: vec![new_task(1, 7, "src/x.rs"), new_task(1, 7, "src/y.rs")],
            stats_update: vec![],
        }),
        resource_update: Some(wire::ResourceUpdate {
            new_resources: vec![new_resource(4, 7)],
            stats_update: vec![],
        }),
    };
    let once = reduce(ConsoleState::new(), make(), now).unwrap();
    assert_eq!(once.tasks.len(), 1);
    assert_eq!(once.tasks[&1].location.file, "src/y.rs");
    let twice = reduce(once.clone(), make(), now).unwrap();
    assert_eq!(twice, once);
}

#[test]
fn new_task_replaces_task_and_its_stats() {
    let now = at(T0, 0);
    let d = delta(vec![], vec![new_task(1, 7, "a.rs")], vec![(1, task_stats(None, None, 4, None))]);
    let state = reduce(ConsoleState::new(), d, now).unwrap();
    assert_eq!(state.tasks[&1].stats.unwrap().polls, 4);
    let state = reduce(state, delta(vec![], vec![new_task(1, 8, "b.rs")], vec![]), now).unwrap();
    assert_eq!(state.tasks[&1].stats, None);
    assert_eq!(state.tasks[&1].location.file, "b.rs");
    assert_eq!(state.tasks[&1].metadata_id.0, 8);
}

#[test]
fn stats_are_overwritten() {
    let now = at(T0, 0);
    let d = delta(
        vec![],
        vec![new_task(1, 7, "a.rs")],
        vec![(1, task_stats(None, None, 4, None)), (1, task_stats(None, None, 6, None))],
    );
    let state = reduce(ConsoleState::new(), d, now).unwrap();
    assert_eq!(state.tasks[&1].stats.unwrap().polls, 6);
}

#[test]
fn registry_file_stays_rewritten_in_later_snapshots() {
    let now = at(T0, 0);
    let file = "/home/u/.cargo/registry/src/github.com-1ecc6299db9ec823/tokio-1.17.0/src/time/sleep.rs";
    let state = reduce(ConsoleState::new(), delta(vec![], vec![new_task(1, 7, file)], vec![]), now).unwrap();
    assert_eq!(state.tasks[&1].location.file, "{cargo}/tokio-1.17.0/src/time/sleep.rs");
    let state = reduce(state, delta(vec![new_meta(7, "n", "t")], vec![], vec![]), now).unwrap();
    assert_eq!(state.tasks[&1].location.file, "{cargo}/tokio-1.17.0/src/time/sleep.rs");
    let state = reduce(state, delta(vec![], vec![], vec![(1, task_stats(None, None, 1, None))]), now).unwrap();
    assert_eq!(state.tasks[&1].location.file, "{cargo}/tokio-1.17.0/src/time/sleep.rs");
}

#[test]
fn missing_metadata_list_is_no_metadata() {
    let d = wire::Update {
        new_metadata: None,
        task_update: Some(wire::TaskUpdate { new_tasks: vec![new_task(1, 7, "a.rs")], stats_update: vec![] }),
        resource_update: Some(wire::ResourceUpdate { new_resources: vec![], stats_update: vec![] }),
    };
    let state = reduce(ConsoleState::new(), d, at(T0, 0)).unwrap();
    assert!(state.metadata.is_empty());
    assert_eq!(state.tasks.len(), 1);
}

#[test]
fn deltas_are_folded_one_after_the_other() {
    let now = at(T0, 0);
    let first = wire::Update {
        new_metadata: Some(vec![new_meta(7, "n", "first.target")]),
        task_update: Some(wire::TaskUpdate {
            new_tasks: vec![new_task(1, 7, "a.rs"), new_task(2, 8, "b.rs")],
            stats_update: vec![(1, task_stats(None, None, 1, None))],
        }),
        resource_update: Some(wire::ResourceUpdate {
            new_resources: vec![new_resource(5, 8)],
            stats_update: vec![],
        }),
    };
    let second = wire::Update {
        new_metadata: Some(vec![new_meta(8, "m", "second.target")]),
        task_update: Some(wire::TaskUpdate {
            new_tasks: vec![new_task(1, 8, "c.rs")],
            stats_update: vec![(2, task_stats(None, None, 2, None))],
        }),
        resource_update: Some(wire::ResourceUpdate {
            new_resources: vec![],
            stats_update: vec![(5, wire::ResourceStats { created_at: None, dropped_at: None })],
        }),
    };
    let between = reduce(ConsoleState::new(), first, now).unwrap();
    assert_eq!(between.tasks[&1].target.as_deref(), Some("first.target"));
    assert_eq!(between.tasks[&1].stats.unwrap().polls, 1);
    assert_eq!(between.tasks[&2].target, None);
    assert_eq!(between.tasks[&2].stats, None);
    assert_eq!(between.resources[&5].target, None);
    assert_eq!(between.resources[&5].stats, None);
    assert_eq!(between.metadata.len(), 1);

    let after = reduce(between, second, now).unwrap();
    assert_eq!(after.tasks[&1].location.file, "c.rs");
    assert_eq!(after.tasks[&1].stats, None);
    assert_eq!(after.tasks[&1].target.as_deref(), Some("second.target"));
    assert_eq!(after.tasks[&2].stats.unwrap().polls, 2);
    assert_eq!(after.tasks[&2].target.as_deref(), Some("second.target"));
    assert_eq!(after.resources[&5].target.as_deref(), Some("second.target"));
    assert!(after.resources[&5].stats.is_some());
    assert_eq!(after.metadata.len(), 2);
}
