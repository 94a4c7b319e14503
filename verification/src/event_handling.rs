//! Domain events, and the translator from one event to one state change.

pub use crate::change_set::ChangeSet;

use crate::change_set::{ChangeKind, ChangeSetView, Column, SqlValue, SqlValueView, Table};
use crate::sql::{
    insert_literal, insert_statement, lemma_plain_identifier, render_insert_literal,
    render_insert_statement, render_update_literal, render_update_statement, update_literal,
    update_statement,
};
use crate::text::{json_array_element, json_array_of, json_array_text, lemma_json_array_holds};
use vstd::prelude::*;

verus! {

/// Opaque locator of a metadata document, resolved only when a
/// `MetadataUpdated` event is translated.
#[derive(Clone, Debug, PartialEq, Eq)]
pub struct MetaPtr {
    pub pointer: String,
}

/// What happened on chain. Exactly one variant per event.
#[derive(Clone, Debug, PartialEq, Eq)]
pub enum EventPayload {
    ProjectCreated { project_id: String },
    MetadataUpdated { project_id: String, meta_ptr: MetaPtr },
    OwnerAdded { project_id: String, owner: String },
    OwnerRemoved { project_id: String, owner: String },
    RoundCreated { round_address: String },
}

/// An immutable record of one on-chain occurrence.
#[derive(Clone, Debug, PartialEq, Eq)]
pub struct Event {
    pub chain_id: i32,
    pub address: String,
    pub block_number: i32,
    pub payload: EventPayload,
}

/// The variant of a payload, without its fields.
#[derive(Clone, Copy, Debug, PartialEq, Eq, Structural)]
pub enum PayloadTag {
    ProjectCreated,
    MetadataUpdated,
    OwnerAdded,
    OwnerRemoved,
    RoundCreated,
}

/// Mathematical counterpart of [`EventPayload`].
pub enum PayloadView {
    ProjectCreated { project_id: Seq<char> },
    MetadataUpdated { project_id: Seq<char>, pointer: Seq<char> },
    OwnerAdded { project_id: Seq<char>, owner: Seq<char> },
    OwnerRemoved { project_id: Seq<char>, owner: Seq<char> },
    RoundCreated { round_address: Seq<char> },
}

/// Mathematical counterpart of [`Event`].
pub struct EventView {
    pub chain_id: int,
    pub address: Seq<char>,
    pub block_number: int,
    pub payload: PayloadView,
}

impl PayloadView {
    /// Which variant this payload is.
    pub open spec fn tag(self) -> PayloadTag {
        match self {
            PayloadView::ProjectCreated { .. } => PayloadTag::ProjectCreated,
            PayloadView::MetadataUpdated { .. } => PayloadTag::MetadataUpdated,
            PayloadView::OwnerAdded { .. } => PayloadTag::OwnerAdded,
            PayloadView::OwnerRemoved { .. } => PayloadTag::OwnerRemoved,
            PayloadView::RoundCreated { .. } => PayloadTag::RoundCreated,
        }
    }
}

impl View for MetaPtr {
    type V = Seq<char>;

    open spec fn view(&self) -> Seq<char> {
        self.pointer@
    }
}

impl View for EventPayload {
    type V = PayloadView;

    open spec fn view(&self) -> PayloadView {
        match *self {
            EventPayload::ProjectCreated { project_id } => PayloadView::ProjectCreated {
                project_id: project_id@,
            },
            EventPayload::MetadataUpdated { project_id, meta_ptr } => PayloadView::MetadataUpdated {
                project_id: project_id@,
                pointer: meta_ptr@,
            },
            EventPayload::OwnerAdded { project_id, owner } => PayloadView::OwnerAdded {
                project_id: project_id@,
                owner: owner@,
            },
            EventPayload::OwnerRemoved { project_id, owner } => PayloadView::OwnerRemoved {
                project_id: project_id@,
                owner: owner@,
            },
            EventPayload::RoundCreated { round_address } => PayloadView::RoundCreated {
                round_address: round_address@,
            },
        }
    }
}

impl View for Event {
    type V = EventView;

    open spec fn view(&self) -> EventView {
        EventView {
            chain_id: self.chain_id as int,
            address: self.address@,
            block_number: self.block_number as int,
            payload: self.payload@,
        }
    }
}

/// The views of `events`, one for one.
pub open spec fn event_views(events: Seq<Event>) -> Seq<EventView> {
    Seq::new(events.len(), |i: int| events[i]@)
}

impl EventPayload {
    /// Which variant this payload is.
    pub fn tag(&self) -> (tag: PayloadTag)
        ensures
            tag == self@.tag(),
    {
        match self {
            EventPayload::ProjectCreated { .. } => PayloadTag::ProjectCreated,
            EventPayload::MetadataUpdated { .. } => PayloadTag::MetadataUpdated,
            EventPayload::OwnerAdded { .. } => PayloadTag::OwnerAdded,
            EventPayload::OwnerRemoved { .. } => PayloadTag::OwnerRemoved,
            EventPayload::RoundCreated { .. } => PayloadTag::RoundCreated,
        }
    }
}

/// The insert of `(chain_id, id, block)` into `table`, keyed by
/// `id_column`.
pub open spec fn insert_change(
    kind: ChangeKind,
    id_column: Column,
    chain_id: int,
    id: Seq<char>,
    block: int,
) -> ChangeSetView {
    ChangeSetView {
        kind,
        params: seq![SqlValueView::Int(chain_id), SqlValueView::Text(id), SqlValueView::Int(block)],
        statement: insert_statement(
            kind.spec_table().spec_name(),
            Column::ChainId.spec_name(),
            id_column.spec_name(),
            Column::CreatedAtBlock.spec_name(),
        ),
        sql: Some(
            insert_literal(
                kind.spec_table().spec_name(),
                Column::ChainId.spec_name(),
                id_column.spec_name(),
                Column::CreatedAtBlock.spec_name(),
                chain_id,
                id,
                block,
            ),
        ),
    }
}

/// The update that sets `project.metadata` to `document` for the key
/// `(chain_id, project_id)`.
pub open spec fn metadata_change(
    chain_id: int,
    project_id: Seq<char>,
    document: Seq<char>,
) -> ChangeSetView {
    ChangeSetView {
        kind: ChangeKind::SetProjectMetadata,
        params: seq![
            SqlValueView::Json(document),
            SqlValueView::Int(chain_id),
            SqlValueView::Text(project_id),
        ],
        statement: update_statement(
            Table::Project.spec_name(),
            Column::Metadata.spec_name(),
            Column::ChainId.spec_name(),
            Column::ProjectId.spec_name(),
        ),
        sql: Some(
            update_literal(
                Table::Project.spec_name(),
                Column::Metadata.spec_name(),
                document,
                Column::ChainId.spec_name(),
                chain_id,
                Column::ProjectId.spec_name(),
                project_id,
            ),
        ),
    }
}

/// Text of the statement that adds an owner: the owners column joined
/// with a bound one-element JSON array.
pub open spec fn add_owner_statement() -> Seq<char> {
    "UPDATE \"project\" SET \"owners\" = (\"owners\" || $1) WHERE \"chain_id\" = $2 AND \"project_id\" = $3"@
}

/// Text of the statement that removes an owner: the owners column less
/// a bound string.
pub open spec fn remove_owner_statement() -> Seq<char> {
    "UPDATE \"project\" SET \"owners\" = (\"owners\" - $1) WHERE \"chain_id\" = $2 AND \"project_id\" = $3"@
}

/// The update that adds `owner` to `project.owners` for the key
/// `(chain_id, project_id)`. The owner travels as a bound parameter,
/// inside a one-element JSON array; the statement text is fixed, and
/// no text holds the values.
pub open spec fn add_owner_change(
    chain_id: int,
    project_id: Seq<char>,
    owner: Seq<char>,
) -> ChangeSetView {
    ChangeSetView {
        kind: ChangeKind::AddProjectOwner,
        params: seq![
            SqlValueView::Json(json_array_of(owner)),
            SqlValueView::Int(chain_id),
            SqlValueView::Text(project_id),
        ],
        statement: add_owner_statement(),
        sql: None,
    }
}

/// The update that takes `owner` out of `project.owners` for the key
/// `(chain_id, project_id)`. The owner travels unchanged as a bound
/// parameter; the statement text is fixed, and no text holds the
/// values.
pub open spec fn remove_owner_change(
    chain_id: int,
    project_id: Seq<char>,
    owner: Seq<char>,
) -> ChangeSetView {
    ChangeSetView {
        kind: ChangeKind::RemoveProjectOwner,
        params: seq![
            SqlValueView::Text(owner),
            SqlValueView::Int(chain_id),
            SqlValueView::Text(project_id),
        ],
        statement: remove_owner_statement(),
        sql: None,
    }
}

/// The state change that `event` stands for, given the `document` that
/// its metadata pointer resolved to. Only `MetadataUpdated` reads the
/// document.
pub open spec fn translation(event: EventView, document: Seq<char>) -> ChangeSetView {
    match event.payload {
        PayloadView::ProjectCreated { project_id } => insert_change(
            ChangeKind::InsertProject,
            Column::ProjectId,
            event.chain_id,
            project_id,
            event.block_number,
        ),
        PayloadView::MetadataUpdated { project_id, .. } => metadata_change(
            event.chain_id,
            project_id,
            document,
        ),
        PayloadView::OwnerAdded { project_id, owner } => add_owner_change(
            event.chain_id,
            project_id,
            owner,
        ),
        PayloadView::OwnerRemoved { project_id, owner } => remove_owner_change(
            event.chain_id,
            project_id,
            owner,
        ),
        PayloadView::RoundCreated { round_address } => insert_change(
            ChangeKind::InsertRound,
            Column::RoundAddress,
            event.chain_id,
            round_address,
            event.block_number,
        ),
    }
}

fn insert_row(kind: ChangeKind, id_column: Column, chain_id: i32, id: &String, block: i32) -> (change:
    ChangeSet)
    ensures
        change@ == insert_change(kind, id_column, chain_id as int, id@, block as int),
{
    let table = kind.table().name();
    let statement = render_insert_statement(
        table,
        Column::ChainId.name(),
        id_column.name(),
        Column::CreatedAtBlock.name(),
        chain_id,
        id.as_str(),
        block,
    );
    let sql = render_insert_literal(
        table,
        Column::ChainId.name(),
        id_column.name(),
        Column::CreatedAtBlock.name(),
        chain_id,
        id.as_str(),
        block,
    );
    let mut params: Vec<SqlValue> = Vec::new();
    params.push(SqlValue::Int(chain_id));
    params.push(SqlValue::Text(id.clone()));
    params.push(SqlValue::Int(block));
    let change = ChangeSet { kind, params, statement, sql: Some(sql) };
    assert(change@.params =~= insert_change(
        kind,
        id_column,
        chain_id as int,
        id@,
        block as int,
    ).params);
    change
}

fn set_metadata(chain_id: i32, project_id: &String, document: &str) -> (change: ChangeSet)
    ensures
        change@ == metadata_change(chain_id as int, project_id@, document@),
{
    let statement = render_update_statement(
        Table::Project.name(),
        Column::Metadata.name(),
        document,
        Column::ChainId.name(),
        chain_id,
        Column::ProjectId.name(),
        project_id.as_str(),
    );
    let sql = render_update_literal(
        Table::Project.name(),
        Column::Metadata.name(),
        document,
        Column::ChainId.name(),
        chain_id,
        Column::ProjectId.name(),
        project_id.as_str(),
    );
    let mut params: Vec<SqlValue> = Vec::new();
    params.push(SqlValue::Json(document.to_owned()));
    params.push(SqlValue::Int(chain_id));
    params.push(SqlValue::Text(project_id.clone()));
    let change = ChangeSet { kind: ChangeKind::SetProjectMetadata, params, statement, sql: Some(sql) };
    assert(change@.params =~= metadata_change(chain_id as int, project_id@, document@).params);
    change
}

fn add_owner(chain_id: i32, project_id: &String, owner: &String) -> (change: ChangeSet)
    ensures
        change@ == add_owner_change(chain_id as int, project_id@, owner@),
{
    let element = json_array_text(owner.as_str());
    let statement =
        "UPDATE \"project\" SET \"owners\" = (\"owners\" || $1) WHERE \"chain_id\" = $2 AND \"project_id\" = $3".to_owned();
    let mut params: Vec<SqlValue> = Vec::new();
    params.push(SqlValue::Json(element));
    params.push(SqlValue::Int(chain_id));
    params.push(SqlValue::Text(project_id.clone()));
    let change = ChangeSet { kind: ChangeKind::AddProjectOwner, params, statement, sql: None };
    assert(change@.params =~= add_owner_change(chain_id as int, project_id@, owner@).params);
    change
}

fn remove_owner(chain_id: i32, project_id: &String, owner: &String) -> (change: ChangeSet)
    ensures
        change@ == remove_owner_change(chain_id as int, project_id@, owner@),
{
    let statement =
        "UPDATE \"project\" SET \"owners\" = (\"owners\" - $1) WHERE \"chain_id\" = $2 AND \"project_id\" = $3".to_owned();
    let mut params: Vec<SqlValue> = Vec::new();
    params.push(SqlValue::Text(owner.clone()));
    params.push(SqlValue::Int(chain_id));
    params.push(SqlValue::Text(project_id.clone()));
    let change = ChangeSet { kind: ChangeKind::RemoveProjectOwner, params, statement, sql: None };
    assert(change@.params =~= remove_owner_change(chain_id as int, project_id@, owner@).params);
    change
}

/// Translates `event`, whose metadata pointer (if it has one) has
/// already been resolved to `document`. Identifiers are passed through
/// as they are; nothing is looked up and nothing can fail.
pub fn translate_resolved(event: &Event, document: &str) -> (change: ChangeSet)
    ensures
        change@ == translation(event@, document@),
{
    match &event.payload {
        EventPayload::ProjectCreated { project_id } => insert_row(
            ChangeKind::InsertProject,
            Column::ProjectId,
            event.chain_id,
            project_id,
            event.block_number,
        ),
        EventPayload::MetadataUpdated { project_id, .. } => set_metadata(
            event.chain_id,
            project_id,
            document,
        ),
        EventPayload::OwnerAdded { project_id, owner } => add_owner(
            event.chain_id,
            project_id,
            owner,
        ),
        EventPayload::OwnerRemoved { project_id, owner } => remove_owner(
            event.chain_id,
            project_id,
            owner,
        ),
        EventPayload::RoundCreated { round_address } => insert_row(
            ChangeKind::InsertRound,
            Column::RoundAddress,
            event.chain_id,
            round_address,
            event.block_number,
        ),
    }
}

/// Whether `outcome` is a possible result of translating `event` with
/// `resolver`. For every event but `MetadataUpdated` that is the one
/// translation of the event. For `MetadataUpdated` the resolver was
/// asked for the event's pointer: a document it answered with went into
/// the translation, a failure it answered with is the outcome.
pub open spec fn translated<E, F: Fn(String) -> Result<String, E>>(
    resolver: &F,
    event: EventView,
    outcome: Result<ChangeSet, E>,
) -> bool {
    match event.payload {
        PayloadView::MetadataUpdated { pointer, .. } => exists|
            asked: String,
            answer: Result<String, E>,
        |
            {
                &&& asked@ == pointer
                &&& #[trigger] call_ensures(*resolver, (asked,), answer)
                &&& match answer {
                    Ok(document) => outcome is Ok && outcome->Ok_0@ == translation(
                        event,
                        document@,
                    ),
                    Err(failure) => outcome == Err::<ChangeSet, E>(failure),
                }
            },
        _ => outcome is Ok && outcome->Ok_0@ == translation(event, Seq::empty()),
    }
}

/// Whether `resolver` may be asked for the metadata pointer of `event`.
/// An event without a pointer asks nothing of the resolver.
pub open spec fn can_resolve<E, F: Fn(String) -> Result<String, E>>(
    resolver: &F,
    event: EventView,
) -> bool {
    event.payload matches PayloadView::MetadataUpdated { pointer, .. } ==> forall|asked: String|
        asked@ == pointer ==> #[trigger] call_requires(*resolver, (asked,))
}

/// Whether `resolver` may be asked for the metadata pointer of each of
/// `events`.
pub open spec fn can_resolve_all<E, F: Fn(String) -> Result<String, E>>(
    resolver: &F,
    events: Seq<Event>,
) -> bool {
    forall|i: int| 0 <= i < events.len() ==> can_resolve(resolver, (#[trigger] events[i])@)
}

/// Translates one event into one state change. A `MetadataUpdated`
/// event has its pointer resolved first, by one call of `resolver`; a
/// failure of that call is handed on unchanged. No other event calls
/// the resolver or can fail.
pub fn translate<E, F: Fn(String) -> Result<String, E>>(event: &Event, resolver: &F) -> (outcome:
    Result<ChangeSet, E>)
    requires
        can_resolve(resolver, event@),
    ensures
        translated(resolver, event@, outcome),
{
    match &event.payload {
        EventPayload::MetadataUpdated { meta_ptr, .. } => {
            match resolver(meta_ptr.pointer.clone()) {
                Ok(document) => Ok(translate_resolved(event, document.as_str())),
                Err(failure) => Err(failure),
            }
        },
        _ => Ok(translate_resolved(event, "")),
    }
}

/// Translates one event into one state change, resolving a metadata
/// pointer through `ipfs`. See [`translate`].
pub fn event_to_changeset<E, F: Fn(String) -> Result<String, E>>(event: Event, ipfs: F) -> (outcome:
    Result<ChangeSet, E>)
    requires
        can_resolve(&ipfs, event@),
    ensures
        translated(&ipfs, event@, outcome),
{
    translate(&event, &ipfs)
}

/// Whether two answers of a resolver are the same: the same document,
/// or the same failure.
pub open spec fn same_answer<E>(first: Result<String, E>, second: Result<String, E>) -> bool {
    match (first, second) {
        (Ok(one), Ok(other)) => one@ == other@,
        (Err(one), Err(other)) => one == other,
        _ => false,
    }
}

/// Whether `resolver` always answers the same when asked for the same
/// pointer.
pub open spec fn answers_alike<E, F: Fn(String) -> Result<String, E>>(resolver: &F) -> bool {
    forall|asked: String, again: String, first: Result<String, E>, second: Result<String, E>|
        asked@ == again@ && #[trigger] call_ensures(*resolver, (asked,), first)
            && #[trigger] call_ensures(*resolver, (again,), second) ==> same_answer(first, second)
}

/// Idempotent translation: with a resolver that answers alike when
/// asked alike, translating the same event twice gives the same state
/// change, character for character, or the same failure.
pub proof fn lemma_translation_is_repeatable<E, F: Fn(String) -> Result<String, E>>(
    resolver: &F,
    event: EventView,
    first: Result<ChangeSet, E>,
    second: Result<ChangeSet, E>,
)
    requires
        answers_alike(resolver),
        translated(resolver, event, first),
        translated(resolver, event, second),
    ensures
        match (first, second) {
            (Ok(one), Ok(other)) => one@ == other@,
            (Err(one), Err(other)) => one == other,
            _ => false,
        },
{
    match event.payload {
        PayloadView::MetadataUpdated { pointer, .. } => {
            let (asked, answer) = choose|asked: String, answer: Result<String, E>|
                {
                    &&& asked@ == pointer
                    &&& #[trigger] call_ensures(*resolver, (asked,), answer)
                    &&& match answer {
                        Ok(document) => first is Ok && first->Ok_0@ == translation(
                            event,
                            document@,
                        ),
                        Err(failure) => first == Err::<ChangeSet, E>(failure),
                    }
                };
            let (again, reply) = choose|asked: String, answer: Result<String, E>|
                {
                    &&& asked@ == pointer
                    &&& #[trigger] call_ensures(*resolver, (asked,), answer)
                    &&& match answer {
                        Ok(document) => second is Ok && second->Ok_0@ == translation(
                            event,
                            document@,
                        ),
                        Err(failure) => second == Err::<ChangeSet, E>(failure),
                    }
                };
            assert(same_answer(answer, reply));
        },
        _ => {},
    }
}

/// The statement of each kind of change, as text.
pub open spec fn statement_of(kind: ChangeKind) -> Seq<char> {
    match kind {
        ChangeKind::InsertProject => "INSERT INTO \"project\" (\"chain_id\", \"project_id\", \"created_at_block\") VALUES ($1, $2, $3)"@,
        ChangeKind::SetProjectMetadata => "UPDATE \"project\" SET \"metadata\" = $1 WHERE \"chain_id\" = $2 AND \"project_id\" = $3"@,
        ChangeKind::AddProjectOwner => add_owner_statement(),
        ChangeKind::RemoveProjectOwner => remove_owner_statement(),
        ChangeKind::InsertRound => "INSERT INTO \"round\" (\"chain_id\", \"round_address\", \"created_at_block\") VALUES ($1, $2, $3)"@,
    }
}

/// The statement of a state change is the fixed text of its kind,
/// whatever the event holds and whatever the resolver answered.
pub proof fn lemma_statement_is_fixed(event: EventView, document: Seq<char>)
    ensures
        translation(event, document).statement == statement_of(translation(event, document).kind),
{
    reveal_strlit("project");
    reveal_strlit("round");
    reveal_strlit("chain_id");
    reveal_strlit("project_id");
    reveal_strlit("round_address");
    reveal_strlit("created_at_block");
    reveal_strlit("metadata");
    lemma_plain_identifier("project"@);
    lemma_plain_identifier("round"@);
    lemma_plain_identifier("chain_id"@);
    lemma_plain_identifier("project_id"@);
    lemma_plain_identifier("round_address"@);
    lemma_plain_identifier("created_at_block"@);
    lemma_plain_identifier("metadata"@);
    reveal_strlit("INSERT INTO ");
    reveal_strlit(" (");
    reveal_strlit(", ");
    reveal_strlit(") VALUES ($1, $2, $3)");
    reveal_strlit("UPDATE ");
    reveal_strlit(" SET ");
    reveal_strlit(" = $1 WHERE ");
    reveal_strlit(" = $2 AND ");
    reveal_strlit(" = $3");
    match event.payload {
        PayloadView::ProjectCreated { .. } => {
            reveal_strlit(
                "INSERT INTO \"project\" (\"chain_id\", \"project_id\", \"created_at_block\") VALUES ($1, $2, $3)",
            );
            assert(translation(event, document).statement =~= statement_of(
                ChangeKind::InsertProject,
            ));
        },
        PayloadView::RoundCreated { .. } => {
            reveal_strlit(
                "INSERT INTO \"round\" (\"chain_id\", \"round_address\", \"created_at_block\") VALUES ($1, $2, $3)",
            );
            assert(translation(event, document).statement =~= statement_of(
                ChangeKind::InsertRound,
            ));
        },
        PayloadView::MetadataUpdated { .. } => {
            reveal_strlit(
                "UPDATE \"project\" SET \"metadata\" = $1 WHERE \"chain_id\" = $2 AND \"project_id\" = $3",
            );
            assert(translation(event, document).statement =~= statement_of(
                ChangeKind::SetProjectMetadata,
            ));
        },
        _ => {},
    }
}

/// The statement shape is fixed by the kind of change: no value of an
/// event, and no document, has any part in the statement text or in
/// the number of parameters.
pub proof fn lemma_statement_depends_on_kind_alone(
    event: EventView,
    document: Seq<char>,
    other: EventView,
    other_document: Seq<char>,
)
    requires
        translation(event, document).kind == translation(other, other_document).kind,
    ensures
        translation(event, document).statement == translation(other, other_document).statement,
        translation(event, document).params.len() == 3,
        translation(other, other_document).params.len() == 3,
{
}

/// Injection safety: an owner, whatever characters it is made of, is
/// handed over as a bound parameter and is no part of any text of the
/// change: the statement is the fixed text of its kind, and there is no
/// text with the values written out. A removed owner is the first
/// parameter, unchanged. An added owner is the one element of the JSON
/// array that is the first parameter, and is read back from it
/// unchanged.
pub proof fn lemma_owner_is_bound(event: EventView, document: Seq<char>)
    ensures
        match event.payload {
            PayloadView::OwnerAdded { project_id, owner } => {
                let change = translation(event, document);
                &&& change.kind == ChangeKind::AddProjectOwner
                &&& change.statement == add_owner_statement()
                &&& change.sql is None
                &&& change.params == seq![
                    SqlValueView::Json(json_array_of(owner)),
                    SqlValueView::Int(event.chain_id),
                    SqlValueView::Text(project_id),
                ]
                &&& json_array_element(json_array_of(owner)) == owner
            },
            PayloadView::OwnerRemoved { project_id, owner } => {
                let change = translation(event, document);
                &&& change.kind == ChangeKind::RemoveProjectOwner
                &&& change.statement == remove_owner_statement()
                &&& change.sql is None
                &&& change.params == seq![
                    SqlValueView::Text(owner),
                    SqlValueView::Int(event.chain_id),
                    SqlValueView::Text(project_id),
                ]
            },
            _ => true,
        },
{
    match event.payload {
        PayloadView::OwnerAdded { owner, .. } => {
            lemma_json_array_holds(owner);
        },
        _ => {},
    }
}

} // verus!
