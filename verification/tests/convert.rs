use tokio_console_web::convert::{kind_from_wire, span_from_wire, ConvertError};
use tokio_console_web::fields::FieldValue;
use tokio_console_web::state::{
    Location, MetaId, Metadata, Resource, ResourceId, ResourceStats, Task, TaskId, TaskStats,
    TypeVisibility,
};
use tokio_console_web::time::{Duration, Timestamp};
use tokio_console_web::wire;

fn wire_location() -> wire::Location {
    wire::Location {
        file: Some("src/x.rs".to_string()),
        module: Some("app::x".to_string()),
        line: Some(10),
        column: Some(2),
    }
}

fn wire_task() -> wire::Task {
    wire::Task {
        id: Some(1),
        metadata: Some(7),
        fields: vec![wire::Field {
            name: Some(wire::FieldName::Str("task.name".to_string())),
            value: Some(FieldValue::Str("worker".to_string())),
        }],
        location: Some(wire_location()),
    }
}

fn wire_resource() -> wire::Resource {
    wire::Resource {
        id: Some(3),
        metadata: Some(7),
        kind: Some(wire::KindMessage { kind: Some(wire::Kind::Known(0)) }),
        is_internal: false,
        parent_resource_id: Some(2),
        concrete_type: "Sleep".to_string(),
        location: None,
    }
}

fn poll_stats() -> wire::PollStats {
    wire::PollStats { polls: 3, busy_time: None, last_poll_started: None, last_poll_ended: None }
}

#[test]
fn task_is_converted() {
    let task = Task::try_from(wire_task()).unwrap();
    assert_eq!(task.id, TaskId(1));
    assert_eq!(task.metadata_id, MetaId(7));
    assert_eq!(task.fields.len(), 1);
    assert_eq!(task.fields.get("task.name"), Some(&FieldValue::Str("worker".to_string())));
    assert_eq!(
        task.location,
        Location {
            file: "src/x.rs".to_string(),
            module: Some("app::x".to_string()),
            line: 10,
            column: 2
        }
    );
    assert_eq!(task.stats, None);
    assert_eq!(task.target, None);
}

#[test]
fn task_without_id() {
    let mut w = wire_task();
    w.id = None;
    assert_eq!(Task::try_from(w), Err(ConvertError::MissingId));
}

#[test]
fn task_without_metadata() {
    let mut w = wire_task();
    w.metadata = None;
    assert_eq!(Task::try_from(w), Err(ConvertError::MissingMetadata));
}

#[test]
fn task_without_location() {
    let mut w = wire_task();
    w.location = None;
    assert_eq!(Task::try_from(w), Err(ConvertError::MissingLocation));
}

#[test]
fn field_without_name() {
    let mut w = wire_task();
    w.fields.push(wire::Field { name: None, value: Some(FieldValue::U64(1)) });
    assert_eq!(Task::try_from(w), Err(ConvertError::MissingFieldName));
}

#[test]
fn field_without_value() {
    let mut w = wire_task();
    w.fields.push(wire::Field { name: Some(wire::FieldName::Index(4)), value: None });
    assert_eq!(Task::try_from(w), Err(ConvertError::MissingFieldValue));
}

#[test]
fn field_errors_come_before_location_errors() {
    let mut w = wire_task();
    w.location = None;
    w.fields.push(wire::Field { name: None, value: None });
    assert_eq!(Task::try_from(w), Err(ConvertError::MissingFieldName));
}

#[test]
fn field_named_by_index_is_left_out() {
    let mut w = wire_task();
    w.fields.push(wire::Field {
        name: Some(wire::FieldName::Index(4)),
        value: Some(FieldValue::U64(1)),
    });
    w.fields.push(wire::Field {
        name: Some(wire::FieldName::Str("spawn.location".to_string())),
        value: Some(FieldValue::Debug("src/x.rs:10:2".to_string())),
    });
    let task = Task::try_from(w).unwrap();
    assert_eq!(task.fields.len(), 2);
    assert_eq!(task.fields.entry(0).0, "spawn.location");
    assert_eq!(task.fields.entry(1).0, "task.name");
}

#[test]
fn later_field_replaces_earlier_field() {
    let mut w = wire_task();
    w.fields.push(wire::Field {
        name: Some(wire::FieldName::Str("task.name".to_string())),
        value: Some(FieldValue::Str("other".to_string())),
    });
    let task = Task::try_from(w).unwrap();
    assert_eq!(task.fields.len(), 1);
    assert_eq!(task.name(), Some("other"));
}

#[test]
fn location_without_file() {
    let mut l = wire_location();
    l.file = None;
    l.line = None;
    assert_eq!(Location::try_from(l), Err(ConvertError::MissingFile));
}

#[test]
fn location_without_line() {
    let mut l = wire_location();
    l.line = None;
    l.column = None;
    assert_eq!(Location::try_from(l), Err(ConvertError::MissingLine));
}

#[test]
fn location_without_column() {
    let mut l = wire_location();
    l.column = None;
    assert_eq!(Location::try_from(l), Err(ConvertError::MissingColumn));
}

#[test]
fn location_file_in_registry_is_rewritten() {
    let mut l = wire_location();
    l.file = Some(
        "/home/u/.cargo/registry/src/github.com-1ecc6299db9ec823/tokio-1.17.0/src/runtime/mod.rs"
            .to_string(),
    );
    l.module = None;
    let location = Location::try_from(l).unwrap();
    assert_eq!(location.file, "{cargo}/tokio-1.17.0/src/runtime/mod.rs");
    assert_eq!(location.module, None);
}

#[test]
fn metadata_is_converted() {
    let w = wire::NewMetadata {
        id: Some(7),
        metadata: Some(wire::MetaDescription { name: "n".to_string(), target: "t".to_string() }),
    };
    assert_eq!(
        Metadata::try_from(w),
        Ok(Metadata { id: MetaId(7), name: "n".to_string(), target: "t".to_string() })
    );
}

#[test]
fn metadata_without_id() {
    let w = wire::NewMetadata {
        id: None,
        metadata: Some(wire::MetaDescription { name: "n".to_string(), target: "t".to_string() }),
    };
    assert_eq!(Metadata::try_from(w), Err(ConvertError::MissingId));
}

#[test]
fn metadata_without_description() {
    let w = wire::NewMetadata { id: Some(7), metadata: None };
    assert_eq!(Metadata::try_from(w), Err(ConvertError::MissingMeta));
}

#[test]
fn kind_decoding() {
    let timer = Resource::try_from(wire_resource()).unwrap();
    assert_eq!(timer.kind, "Timer");
    let mut w = wire_resource();
    w.kind = Some(wire::KindMessage { kind: Some(wire::Kind::Other("Mutex".to_string())) });
    let mutex = Resource::try_from(w).unwrap();
    assert_eq!(mutex.kind, "Mutex");
}

#[test]
fn kind_names() {
    assert_eq!(kind_from_wire(wire::Kind::Known(0)), Ok("Timer".to_string()));
    assert_eq!(kind_from_wire(wire::Kind::Known(1)), Err(ConvertError::UnknownKind));
    assert_eq!(kind_from_wire(wire::Kind::Known(-1)), Err(ConvertError::UnknownKind));
    assert_eq!(kind_from_wire(wire::Kind::Other(String::new())), Ok(String::new()));
}

#[test]
fn resource_is_converted() {
    let mut w = wire_resource();
    w.is_internal = true;
    w.location = Some(wire_location());
    let r = Resource::try_from(w).unwrap();
    assert_eq!(r.id, ResourceId(3));
    assert_eq!(r.metadata_id, MetaId(7));
    assert_eq!(r.vis, TypeVisibility::Internal);
    assert_eq!(r.parent_id, Some(ResourceId(2)));
    assert_eq!(r.concrete_type, "Sleep");
    assert_eq!(r.location.unwrap().line, 10);
    assert_eq!(r.target, None);
    assert_eq!(r.stats, None);
    assert_eq!(Resource::try_from(wire_resource()).unwrap().vis, TypeVisibility::Public);
}

#[test]
fn resource_without_id() {
    let mut w = wire_resource();
    w.id = None;
    w.metadata = None;
    assert_eq!(Resource::try_from(w), Err(ConvertError::MissingId));
}

#[test]
fn resource_without_metadata() {
    let mut w = wire_resource();
    w.metadata = None;
    w.kind = None;
    assert_eq!(Resource::try_from(w), Err(ConvertError::MissingMetadata));
}

#[test]
fn resource_without_kind_message() {
    let mut w = wire_resource();
    w.kind = None;
    assert_eq!(Resource::try_from(w), Err(ConvertError::MissingKind));
}

#[test]
fn resource_without_kind() {
    let mut w = wire_resource();
    w.kind = Some(wire::KindMessage { kind: None });
    assert_eq!(Resource::try_from(w), Err(ConvertError::MissingKindKind));
}

#[test]
fn resource_with_unknown_kind_number() {
    let mut w = wire_resource();
    w.kind = Some(wire::KindMessage { kind: Some(wire::Kind::Known(5)) });
    assert_eq!(Resource::try_from(w), Err(ConvertError::UnknownKind));
}

#[test]
fn resource_with_bad_location() {
    let mut w = wire_resource();
    let mut l = wire_location();
    l.column = None;
    w.location = Some(l);
    assert_eq!(Resource::try_from(w), Err(ConvertError::MissingColumn));
}

#[test]
fn task_stats_are_converted() {
    let t0 = Timestamp::new(1_650_000_000, 5).unwrap();
    let w = wire::TaskStats {
        created_at: Some(wire::Time::At(t0)),
        dropped_at: None,
        poll_stats: Some(wire::PollStats {
            polls: 3,
            busy_time: Some(wire::Span { seconds: 0, nanos: 100_000_000 }),
            last_poll_started: Some(wire::Span { seconds: 2, nanos: 1_500_000_000 }),
            last_poll_ended: None,
        }),
    };
    let stats = TaskStats::try_from(w).unwrap();
    assert_eq!(stats.created_at, Some(t0));
    assert_eq!(stats.dropped_at, None);
    assert_eq!(stats.polls, 3);
    assert_eq!(stats.busy_time, Duration::new(0, 100_000_000));
    assert_eq!(stats.last_poll_started.unwrap().as_nanos(), 3_500_000_000);
    assert_eq!(stats.last_poll_ended, None);
}

#[test]
fn task_stats_without_poll_stats() {
    let w = wire::TaskStats { created_at: None, dropped_at: None, poll_stats: None };
    assert_eq!(TaskStats::try_from(w), Err(ConvertError::MissingPollStats));
}

#[test]
fn task_stats_with_time_out_of_range() {
    let w = wire::TaskStats {
        created_at: Some(wire::Time::OutOfRange),
        dropped_at: None,
        poll_stats: None,
    };
    assert_eq!(TaskStats::try_from(w), Err(ConvertError::TimestampOutOfRange));
    let w = wire::TaskStats {
        created_at: None,
        dropped_at: Some(wire::Time::OutOfRange),
        poll_stats: Some(poll_stats()),
    };
    assert_eq!(TaskStats::try_from(w), Err(ConvertError::TimestampOutOfRange));
}

#[test]
fn task_stats_with_span_out_of_range() {
    let mut p = poll_stats();
    p.last_poll_ended = Some(wire::Span { seconds: -1, nanos: 1_000_000_000 });
    let w = wire::TaskStats { created_at: None, dropped_at: None, poll_stats: Some(p) };
    assert_eq!(TaskStats::try_from(w), Err(ConvertError::DurationOutOfRange));
}

#[test]
fn resource_stats_are_converted() {
    let t0 = Timestamp::new(5, 0).unwrap();
    let t1 = Timestamp::new(6, 0).unwrap();
    let w = wire::ResourceStats {
        created_at: Some(wire::Time::At(t0)),
        dropped_at: Some(wire::Time::At(t1)),
    };
    assert_eq!(
        ResourceStats::try_from(w),
        Ok(ResourceStats { dropped_at: Some(t1), created_at: Some(t0) })
    );
    let w = wire::ResourceStats { created_at: None, dropped_at: Some(wire::Time::OutOfRange) };
    assert_eq!(ResourceStats::try_from(w), Err(ConvertError::TimestampOutOfRange));
}

#[test]
fn spans_read_their_counts_as_unsigned() {
    assert_eq!(span_from_wire(wire::Span { seconds: 3, nanos: 7 }), Duration::new(3, 7));
    let d = span_from_wire(wire::Span { seconds: -1, nanos: 0 }).unwrap();
    assert_eq!(d.as_secs(), u64::MAX);
    assert_eq!(d.subsec_nanos(), 0);
    let d = span_from_wire(wire::Span { seconds: 0, nanos: -1 }).unwrap();
    assert_eq!(d.as_secs(), 4);
    assert_eq!(d.subsec_nanos(), 294_967_295);
    let d = span_from_wire(wire::Span { seconds: i64::MIN, nanos: i32::MIN }).unwrap();
    assert_eq!(d.as_secs(), 9_223_372_036_854_775_810);
    assert_eq!(d.subsec_nanos(), 147_483_648);
    assert_eq!(span_from_wire(wire::Span { seconds: -1, nanos: -1 }), None);
}

#[test]
fn error_messages() {
    assert_eq!(ConvertError::MissingId.message(), "Missing `id` field");
    assert_eq!(ConvertError::MissingMetadata.message(), "Missing `metadata` field");
    assert_eq!(ConvertError::MissingMeta.message(), "Missing `meta` field");
    assert_eq!(ConvertError::MissingFieldName.message(), "Missing `name` field");
    assert_eq!(ConvertError::MissingFieldValue.message(), "Missing `value` field");
    assert_eq!(ConvertError::MissingLocation.message(), "Missing `location` field");
    assert_eq!(ConvertError::MissingFile.message(), "Missing `file` field");
    assert_eq!(ConvertError::MissingLine.message(), "Missing `line` field");
    assert_eq!(ConvertError::MissingColumn.message(), "Missing `column` field");
    assert_eq!(ConvertError::MissingKind.message(), "Missing `kind` field");
    assert_eq!(ConvertError::MissingKindKind.message(), "Missing `kind.kind`");
    assert_eq!(ConvertError::UnknownKind.message(), "Unknown resource kind");
    assert_eq!(ConvertError::MissingPollStats.message(), "Missing `poll_stats` field");
    assert_eq!(ConvertError::TimestampOutOfRange.message(), "Timestamp out of range");
    assert_eq!(ConvertError::DurationOutOfRange.message(), "Duration out of range");
    assert_eq!(ConvertError::MissingTaskUpdate.message(), "Missing `task_update` field");
    assert_eq!(ConvertError::MissingResourceUpdate.message(), "Missing `resource_update` field");
}
