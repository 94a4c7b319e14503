use grants_indexer::change_set::{ChangeKind, SqlValue};
use grants_indexer::handle_event::{handle_event, Event, EventPayload, MetaPtr};

fn dummy_ipfs_getter(_cid: String) -> Result<String, String> {
    return Ok("".to_string());
}

#[test]
fn handle_event_test_handle_project_created() {
    let event = Event {
        chain_id: 1,
        address: "0x123".to_string(),
        block_number: 4242,
        payload: EventPayload::ProjectCreated {
            project_id: "proj-123".to_string(),
        },
    };

    assert_eq!(
        handle_event(event, dummy_ipfs_getter)
            .unwrap()
            .sql
            .as_deref(),
        Some(
            r#"INSERT INTO "project" ("chain_id", "project_id", "created_at_block") VALUES (1, 'proj-123', 4242)"#
        )
    );
}

#[test]
fn handle_event_test_handle_metadata_updated() {
    let event = Event {
        chain_id: 1,
        address: "0x123".to_string(),
        block_number: 4242,
        payload: EventPayload::MetadataUpdated {
            project_id: "proj-123".to_string(),
            meta_ptr: MetaPtr {
                pointer: "123".to_string(),
            },
        },
    };

    assert_eq!(
        handle_event(event, |_cid: String| -> Result<String, String> {
            Ok(r#"{ "foo": "bar" }"#.to_string())
        })
        .unwrap()
        .sql
        .as_deref(),
        Some(
            r#"UPDATE "project" SET "metadata" = E'{ \"foo\": \"bar\" }' WHERE "chain_id" = 1 AND "project_id" = 'proj-123'"#
        )
    );
}

#[test]
fn handle_event_test_handle_owner_added() {
    let event = Event {
        chain_id: 1,
        address: "0x123".to_string(),
        block_number: 4242,
        payload: EventPayload::OwnerAdded {
            project_id: "proj-123".to_string(),
            owner: "0x123".to_string(),
        },
    };

    let change = handle_event(event, dummy_ipfs_getter).unwrap();

    assert_eq!(change.kind, ChangeKind::AddProjectOwner);
    assert_eq!(
        change.statement,
        r#"UPDATE "project" SET "owners" = ("owners" || $1) WHERE "chain_id" = $2 AND "project_id" = $3"#
    );
    assert_eq!(
        change.params,
        vec![
            SqlValue::Json(r#"["0x123"]"#.to_string()),
            SqlValue::Int(1),
            SqlValue::Text("proj-123".to_string()),
        ]
    );
    assert_eq!(change.sql, None);
}

#[test]
fn handle_event_test_handle_owner_removed() {
    let event = Event {
        chain_id: 1,
        address: "0x123".to_string(),
        block_number: 4242,
        payload: EventPayload::OwnerRemoved {
            project_id: "proj-123".to_string(),
            owner: "0x123".to_string(),
        },
    };

    let change = handle_event(event, dummy_ipfs_getter).unwrap();

    assert_eq!(change.kind, ChangeKind::RemoveProjectOwner);
    assert_eq!(
        change.statement,
        r#"UPDATE "project" SET "owners" = ("owners" - $1) WHERE "chain_id" = $2 AND "project_id" = $3"#
    );
    assert_eq!(
        change.params,
        vec![
            SqlValue::Text("0x123".to_string()),
            SqlValue::Int(1),
            SqlValue::Text("proj-123".to_string()),
        ]
    );
    assert_eq!(change.sql, None);
}

#[test]
fn handle_event_hands_on_the_failure_of_the_resolver() {
    let event = Event {
        chain_id: 1,
        address: "0x123".to_string(),
        block_number: 4242,
        payload: EventPayload::MetadataUpdated {
            project_id: "proj-123".to_string(),
            meta_ptr: MetaPtr {
                pointer: "123".to_string(),
            },
        },
    };

    assert_eq!(
        handle_event(event, |_cid: String| -> Result<String, u32> { Err(504) }),
        Err(504)
    );
}

#[test]
fn handle_event_binds_an_owner_with_a_quote_and_keeps_the_statement() {
    let removed = |owner: &str| Event {
        chain_id: 1,
        address: "0x123".to_string(),
        block_number: 4242,
        payload: EventPayload::OwnerRemoved {
            project_id: "proj-123".to_string(),
            owner: owner.to_string(),
        },
    };

    let plain = handle_event(removed("0x123"), dummy_ipfs_getter).unwrap();
    let change = handle_event(removed("a' || 'b"), dummy_ipfs_getter).unwrap();

    assert_eq!(
        change.params,
        vec![
            SqlValue::Text("a' || 'b".to_string()),
            SqlValue::Int(1),
            SqlValue::Text("proj-123".to_string()),
        ]
    );
    assert_eq!(change.statement, plain.statement);
    assert!(!change.statement.contains("||"));
    assert_eq!(change.sql, None);
}
