use grants_indexer::event_handling::{Event, EventPayload, MetaPtr};
use grants_indexer::event_log::{EventLog, InMemoryEventLog};

fn project_created(block_number: i32) -> Event {
    Event {
        chain_id: 1,
        address: "0x123".to_string(),
        block_number,
        payload: EventPayload::ProjectCreated {
            project_id: "proj-123".to_string(),
        },
    }
}

#[test]
fn test_requesting_range_from_empty_log_returns_zero_index_and_empty_event_vector() {
    let event_log = InMemoryEventLog { events: Vec::new() };

    let start = 0;
    let (events, next_event_index) = event_log.range(start, 2);

    assert_eq!(next_event_index, 0);
    assert!(events.is_empty());
}

#[test]
fn test_requesting_range_past_end_returns_last_index_plus_one_and_empty_event_vector() {
    let mut event_log = InMemoryEventLog { events: Vec::new() };
    event_log.append(Event {
        chain_id: 1,
        address: "0x123".to_string(),
        block_number: 4242,
        payload: EventPayload::ProjectCreated {
            project_id: "proj-123".to_string(),
        },
    });

    let (_, next_event_index) = event_log.range(0, 999);

    assert_eq!(next_event_index, 1);
}

#[test]
fn test_requesting_range_returns_chunk_of_events_and_start_of_next_chunk() {
    let mut event_log = InMemoryEventLog::new();
    event_log.append(Event {
        chain_id: 1,
        address: "0x123".to_string(),
        block_number: 4242,
        payload: EventPayload::ProjectCreated {
            project_id: "proj-123".to_string(),
        },
    });
    event_log.append(Event {
        chain_id: 1,
        address: "0x123".to_string(),
        block_number: 10,
        payload: EventPayload::MetadataUpdated {
            project_id: "proj-123".to_string(),
            meta_ptr: MetaPtr {
                pointer: "123".to_string(),
            },
        },
    });
    event_log.append(Event {
        chain_id: 1,
        address: "0x123".to_string(),
        block_number: 20,
        payload: EventPayload::OwnerAdded {
            project_id: "proj-123".to_string(),
            owner: "0x123".to_string(),
        },
    });

    let (events, next_event_index) = event_log.range(1, 2);

    assert_eq!(next_event_index, 3);
    assert_eq!(events[0].block_number, 10);
    assert_eq!(events[1].block_number, 20);
}

#[test]
fn range_on_an_empty_log_is_empty_for_any_length() {
    let log = InMemoryEventLog::new();
    for length in [0usize, 1, 2, 999, usize::MAX] {
        let (events, next) = log.range(0, length);
        assert!(events.is_empty());
        assert_eq!(next, 0);
    }
}

#[test]
fn range_clamps_a_start_beyond_the_end() {
    let mut log = InMemoryEventLog::new();
    log.append(project_created(1));
    log.append(project_created(2));

    let (events, next) = log.range(2, 5);
    assert!(events.is_empty());
    assert_eq!(next, 2);

    let (events, next) = log.range(7, 5);
    assert!(events.is_empty());
    assert_eq!(next, 2);

    let (events, next) = log.range(usize::MAX, usize::MAX);
    assert!(events.is_empty());
    assert_eq!(next, 2);
}

#[test]
fn range_of_length_zero_reads_nothing_and_stays_in_place() {
    let mut log = InMemoryEventLog::new();
    log.append(project_created(1));
    log.append(project_created(2));

    let (events, next) = log.range(1, 0);
    assert!(events.is_empty());
    assert_eq!(next, 1);
}

#[test]
fn range_does_not_overflow_on_a_huge_length() {
    let mut log = InMemoryEventLog::new();
    log.append(project_created(1));
    log.append(project_created(2));
    log.append(project_created(3));

    let (events, next) = log.range(1, usize::MAX);
    assert_eq!(events.len(), 2);
    assert_eq!(events[0].block_number, 2);
    assert_eq!(events[1].block_number, 3);
    assert_eq!(next, 3);
}

#[test]
fn append_places_the_event_at_the_old_length() {
    let mut log = InMemoryEventLog::new();
    for block in 0..5 {
        let position = log.events.len();
        log.append(project_created(block));
        assert_eq!(log.events.len(), position + 1);
        let (events, _) = log.range(position, 1);
        assert_eq!(events[0].block_number, block);
    }
}

#[test]
fn paging_visits_every_event_once_and_ends_at_the_length() {
    for total in 0..7 {
        let mut log = InMemoryEventLog::new();
        for block in 0..total {
            log.append(project_created(block));
        }
        for width in 1..5usize {
            let mut seen = Vec::new();
            let mut cursor = 0;
            loop {
                let (events, next) = log.range(cursor, width);
                if events.is_empty() {
                    assert_eq!(next, total as usize);
                    break;
                }
                seen.extend(events.iter().map(|event| event.block_number));
                cursor = next;
            }
            assert_eq!(seen, (0..total).collect::<Vec<i32>>());
        }
    }
}
