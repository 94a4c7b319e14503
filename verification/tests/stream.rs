use grants_indexer::change_set::{ChangeKind, ChangeSet, SqlValue, Table};
use grants_indexer::event_handling::{Event, EventPayload, MetaPtr, PayloadTag};
use grants_indexer::event_log::{EventLog, InMemoryEventLog};
use grants_indexer::indexer::{process_window, TranslationFailure, DEFAULT_WINDOW};
use grants_indexer::stream::{stream_changes, ChangeStream, StreamState};

fn project_created(project_id: &str) -> Event {
    Event {
        chain_id: 1,
        address: "0x123".to_string(),
        block_number: 4242,
        payload: EventPayload::ProjectCreated {
            project_id: project_id.to_string(),
        },
    }
}

fn metadata_updated(project_id: &str, pointer: &str) -> Event {
    Event {
        chain_id: 1,
        address: "0x123".to_string(),
        block_number: 4242,
        payload: EventPayload::MetadataUpdated {
            project_id: project_id.to_string(),
            meta_ptr: MetaPtr {
                pointer: pointer.to_string(),
            },
        },
    }
}

fn owner_added(project_id: &str, owner: &str) -> Event {
    Event {
        chain_id: 1,
        address: "0x123".to_string(),
        block_number: 4242,
        payload: EventPayload::OwnerAdded {
            project_id: project_id.to_string(),
            owner: owner.to_string(),
        },
    }
}

fn owner_removed(project_id: &str, owner: &str) -> Event {
    Event {
        chain_id: 1,
        address: "0x123".to_string(),
        block_number: 4242,
        payload: EventPayload::OwnerRemoved {
            project_id: project_id.to_string(),
            owner: owner.to_string(),
        },
    }
}

fn log_of(events: Vec<Event>) -> InMemoryEventLog {
    let mut log = InMemoryEventLog::new();
    for event in events {
        log.append(event);
    }
    log
}

fn foo_bar(_cid: String) -> Result<String, String> {
    Ok(r#"{"foo":"bar"}"#.to_string())
}

fn unreachable_store(cid: String) -> Result<String, String> {
    Err(format!("cannot resolve {cid}"))
}

fn kinds(changes: &[ChangeSet]) -> Vec<ChangeKind> {
    changes.iter().map(|change| change.kind).collect()
}

#[test]
fn the_default_window_holds_two_events() {
    assert_eq!(DEFAULT_WINDOW, 2);
}

#[test]
fn an_appended_project_created_becomes_an_insert_into_project() {
    let mut log = InMemoryEventLog::new();
    log.append(project_created("proj-123"));

    let (changes, next) = process_window(&log, 0, DEFAULT_WINDOW, &foo_bar).unwrap();

    assert_eq!(next, 1);
    assert_eq!(changes.len(), 1);
    assert_eq!(changes[0].kind, ChangeKind::InsertProject);
    assert_eq!(changes[0].kind.table(), Table::Project);
    assert_eq!(
        changes[0].params,
        vec![
            SqlValue::Int(1),
            SqlValue::Text("proj-123".to_string()),
            SqlValue::Int(4242),
        ]
    );
}

#[test]
fn created_then_metadata_streams_as_two_changes_in_that_order() {
    let log = log_of(vec![
        project_created("proj-123"),
        metadata_updated("proj-123", "123"),
    ]);

    let (changes, failure) = stream_changes(&log, 2, &foo_bar);

    assert_eq!(failure, None);
    assert_eq!(changes.len(), 2);
    assert_eq!(changes[0].kind, ChangeKind::InsertProject);
    assert_eq!(
        changes[0].params,
        vec![
            SqlValue::Int(1),
            SqlValue::Text("proj-123".to_string()),
            SqlValue::Int(4242),
        ]
    );
    assert_eq!(changes[1].kind, ChangeKind::SetProjectMetadata);
    assert_eq!(
        changes[1].params,
        vec![
            SqlValue::Json(r#"{"foo":"bar"}"#.to_string()),
            SqlValue::Int(1),
            SqlValue::Text("proj-123".to_string()),
        ]
    );
}

#[test]
fn three_events_in_windows_of_two_make_batches_of_two_and_one() {
    let log = log_of(vec![
        project_created("a"),
        project_created("b"),
        project_created("c"),
    ]);

    let (first, cursor) = process_window(&log, 0, 2, &foo_bar).unwrap();
    assert_eq!(first.len(), 2);
    assert_eq!(cursor, 2);

    let (second, cursor) = process_window(&log, cursor, 2, &foo_bar).unwrap();
    assert_eq!(second.len(), 1);
    assert_eq!(cursor, 3);

    let (third, cursor) = process_window(&log, cursor, 2, &foo_bar).unwrap();
    assert!(third.is_empty());
    assert_eq!(cursor, 3);
}

#[test]
fn the_stream_walks_fetching_and_draining_to_done() {
    let log = log_of(vec![
        project_created("a"),
        project_created("b"),
        project_created("c"),
    ]);
    let mut stream = ChangeStream::new(2);
    assert!(matches!(stream.state, StreamState::Fetching { cursor: 0 }));

    let first = stream.next(&log, &foo_bar).unwrap().unwrap();
    assert_eq!(first.params[1], SqlValue::Text("a".to_string()));
    match &stream.state {
        StreamState::Draining { batch, cursor } => {
            assert_eq!(batch.len(), 1);
            assert_eq!(*cursor, 2);
        }
        _ => panic!("the rest of the first window is still to hand out"),
    }

    let second = stream.next(&log, &foo_bar).unwrap().unwrap();
    assert_eq!(second.params[1], SqlValue::Text("b".to_string()));
    assert!(matches!(stream.state, StreamState::Fetching { cursor: 2 }));

    let third = stream.next(&log, &foo_bar).unwrap().unwrap();
    assert_eq!(third.params[1], SqlValue::Text("c".to_string()));
    assert!(matches!(stream.state, StreamState::Fetching { cursor: 3 }));

    assert_eq!(stream.next(&log, &foo_bar), Ok(None));
    assert!(matches!(stream.state, StreamState::Done));

    assert_eq!(stream.next(&log, &foo_bar), Ok(None));
    assert!(matches!(stream.state, StreamState::Done));
}

#[test]
fn a_stream_that_is_done_does_not_start_again() {
    let mut log = log_of(vec![project_created("a")]);
    let mut stream = ChangeStream::new(DEFAULT_WINDOW);
    assert!(stream.next(&log, &foo_bar).unwrap().is_some());
    assert_eq!(stream.next(&log, &foo_bar), Ok(None));

    log.append(project_created("b"));
    assert_eq!(stream.next(&log, &foo_bar), Ok(None));
}

#[test]
fn events_appended_between_windows_are_streamed() {
    let mut log = log_of(vec![project_created("a")]);
    let mut stream = ChangeStream::new(1);
    assert!(stream.next(&log, &foo_bar).unwrap().is_some());

    log.append(project_created("b"));
    let change = stream.next(&log, &foo_bar).unwrap().unwrap();
    assert_eq!(change.params[1], SqlValue::Text("b".to_string()));
    assert_eq!(stream.next(&log, &foo_bar), Ok(None));
}

#[test]
fn streaming_visits_every_event_once_for_any_window() {
    let events: Vec<Event> = (0..7)
        .map(|number| project_created(&format!("proj-{number}")))
        .collect();
    let log = log_of(events);
    let expected: Vec<SqlValue> = (0..7)
        .map(|number| SqlValue::Text(format!("proj-{number}")))
        .collect();

    for window in [1usize, 2, 3, 7, 8, usize::MAX] {
        let (changes, failure) = stream_changes(&log, window, &foo_bar);
        assert_eq!(failure, None);
        let seen: Vec<SqlValue> = changes
            .iter()
            .map(|change| change.params[1].clone())
            .collect();
        assert_eq!(seen, expected);
    }
}

#[test]
fn a_window_of_zero_streams_nothing() {
    let log = log_of(vec![project_created("a")]);
    let (changes, failure) = stream_changes(&log, 0, &foo_bar);
    assert!(changes.is_empty());
    assert_eq!(failure, None);
}

#[test]
fn an_empty_log_streams_nothing() {
    let log = InMemoryEventLog::new();
    let (changes, failure) = stream_changes(&log, 2, &foo_bar);
    assert!(changes.is_empty());
    assert_eq!(failure, None);
}

#[test]
fn changes_keep_the_order_of_the_log() {
    let in_order = log_of(vec![
        project_created("proj-123"),
        owner_added("proj-123", "0xabc"),
        owner_removed("proj-123", "0xabc"),
    ]);
    let (changes, failure) = stream_changes(&in_order, 2, &foo_bar);
    assert_eq!(failure, None);
    assert_eq!(
        kinds(&changes),
        vec![
            ChangeKind::InsertProject,
            ChangeKind::AddProjectOwner,
            ChangeKind::RemoveProjectOwner,
        ]
    );

    let reversed = log_of(vec![
        project_created("proj-123"),
        owner_removed("proj-123", "0xabc"),
        owner_added("proj-123", "0xabc"),
    ]);
    let (swapped, failure) = stream_changes(&reversed, 2, &foo_bar);
    assert_eq!(failure, None);
    assert_eq!(
        kinds(&swapped),
        vec![
            ChangeKind::InsertProject,
            ChangeKind::RemoveProjectOwner,
            ChangeKind::AddProjectOwner,
        ]
    );
    assert_ne!(changes, swapped);
    assert_eq!(changes[1], swapped[2]);
    assert_eq!(changes[2], swapped[1]);
}

#[test]
fn a_failed_window_yields_no_change_and_names_the_event() {
    let log = log_of(vec![
        project_created("a"),
        project_created("b"),
        project_created("c"),
        metadata_updated("c", "bafy"),
        project_created("d"),
    ]);

    let outcome = process_window(&log, 2, 3, &unreachable_store);

    assert_eq!(
        outcome,
        Err(TranslationFailure {
            position: 3,
            payload_tag: PayloadTag::MetadataUpdated,
            cause: "cannot resolve bafy".to_string(),
        })
    );
}

#[test]
fn a_failure_ends_the_stream_after_the_whole_windows_before_it() {
    let log = log_of(vec![
        project_created("a"),
        project_created("b"),
        project_created("c"),
        metadata_updated("c", "bafy"),
        project_created("d"),
    ]);

    let (changes, failure) = stream_changes(&log, 2, &unreachable_store);

    assert_eq!(
        kinds(&changes),
        vec![ChangeKind::InsertProject, ChangeKind::InsertProject]
    );
    assert_eq!(
        failure,
        Some(TranslationFailure {
            position: 3,
            payload_tag: PayloadTag::MetadataUpdated,
            cause: "cannot resolve bafy".to_string(),
        })
    );
}

#[test]
fn a_failure_leaves_the_stream_done() {
    let log = log_of(vec![
        metadata_updated("a", "bafy"),
        project_created("b"),
    ]);
    let mut stream = ChangeStream::new(2);

    assert_eq!(
        stream.next(&log, &unreachable_store),
        Err(TranslationFailure {
            position: 0,
            payload_tag: PayloadTag::MetadataUpdated,
            cause: "cannot resolve bafy".to_string(),
        })
    );
    assert!(matches!(stream.state, StreamState::Done));
    assert_eq!(stream.next(&log, &foo_bar), Ok(None));
}
