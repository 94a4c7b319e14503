//! The read model as mathematics: what the projection holds after
//! events, or their state changes, have been applied in order.
//!
//! Nothing here runs. The store that executes state changes is outside
//! this library; this module says what executing them means, so that
//! the translator can be held to it.

use crate::change_set::{ChangeKind, ChangeSet, ChangeSetView, SqlValueView};
use crate::event_handling::{
    event_views, translated, translation, Event, EventView, PayloadView,
};
use crate::indexer::translated_in_order;
use crate::text::{json_array_element, lemma_json_array_holds};
use vstd::prelude::*;

verus! {

/// A key of either table: the chain and the identifier.
pub type Key = (int, Seq<char>);

/// One row of `project`.
pub struct ProjectRow {
    pub created_at_block: int,
    pub metadata: Option<Seq<char>>,
    pub owners: Set<Seq<char>>,
}

/// The two tables of the read model.
pub struct Projection {
    /// `project`, keyed by `(chain, project_id)`.
    pub projects: Map<Key, ProjectRow>,
    /// `round`, keyed by `(chain, round_address)`, holding the block of
    /// creation.
    pub rounds: Map<Key, int>,
}

impl Projection {
    /// The projection before any event.
    pub open spec fn empty() -> Projection {
        Projection { projects: Map::empty(), rounds: Map::empty() }
    }

    /// Inserts a project. The store refuses a key that is taken.
    pub open spec fn insert_project(self, key: Key, block: int) -> Option<Projection> {
        if self.projects.dom().contains(key) {
            None
        } else {
            Some(
                Projection {
                    projects: self.projects.insert(
                        key,
                        ProjectRow { created_at_block: block, metadata: None, owners: Set::empty() },
                    ),
                    ..self
                },
            )
        }
    }

    /// Inserts a round. The store refuses a key that is taken.
    pub open spec fn insert_round(self, key: Key, block: int) -> Option<Projection> {
        if self.rounds.dom().contains(key) {
            None
        } else {
            Some(Projection { rounds: self.rounds.insert(key, block), ..self })
        }
    }

    /// Sets the metadata of the project at `key`, if there is one.
    pub open spec fn set_metadata(self, key: Key, document: Seq<char>) -> Option<Projection> {
        if self.projects.dom().contains(key) {
            Some(
                Projection {
                    projects: self.projects.insert(
                        key,
                        ProjectRow { metadata: Some(document), ..self.projects[key] },
                    ),
                    ..self
                },
            )
        } else {
            Some(self)
        }
    }

    /// Adds `owner` to the owners of the project at `key`, if there is
    /// one.
    pub open spec fn add_owner(self, key: Key, owner: Seq<char>) -> Option<Projection> {
        if self.projects.dom().contains(key) {
            Some(
                Projection {
                    projects: self.projects.insert(
                        key,
                        ProjectRow {
                            owners: self.projects[key].owners.insert(owner),
                            ..self.projects[key]
                        },
                    ),
                    ..self
                },
            )
        } else {
            Some(self)
        }
    }

    /// Takes `owner` out of the owners of the project at `key`, if there
    /// is one.
    pub open spec fn remove_owner(self, key: Key, owner: Seq<char>) -> Option<Projection> {
        if self.projects.dom().contains(key) {
            Some(
                Projection {
                    projects: self.projects.insert(
                        key,
                        ProjectRow {
                            owners: self.projects[key].owners.remove(owner),
                            ..self.projects[key]
                        },
                    ),
                    ..self
                },
            )
        } else {
            Some(self)
        }
    }

    /// Applies one event directly, `document` being what its metadata
    /// pointer resolves to. `None` when the store refuses it.
    pub open spec fn apply_event(self, event: EventView, document: Seq<char>) -> Option<
        Projection,
    > {
        match event.payload {
            PayloadView::ProjectCreated { project_id } => self.insert_project(
                (event.chain_id, project_id),
                event.block_number,
            ),
            PayloadView::MetadataUpdated { project_id, .. } => self.set_metadata(
                (event.chain_id, project_id),
                document,
            ),
            PayloadView::OwnerAdded { project_id, owner } => self.add_owner(
                (event.chain_id, project_id),
                owner,
            ),
            PayloadView::OwnerRemoved { project_id, owner } => self.remove_owner(
                (event.chain_id, project_id),
                owner,
            ),
            PayloadView::RoundCreated { round_address } => self.insert_round(
                (event.chain_id, round_address),
                event.block_number,
            ),
        }
    }

    /// Executes one state change: the statement named by its kind, on
    /// its bound parameters. `None` when the store refuses it, or when
    /// the parameters are not those of the statement.
    pub open spec fn apply_change(self, change: ChangeSetView) -> Option<Projection> {
        let p = change.params;
        if p.len() != 3 {
            None
        } else {
            match (change.kind, p[0], p[1], p[2]) {
                (
                    ChangeKind::InsertProject,
                    SqlValueView::Int(chain),
                    SqlValueView::Text(id),
                    SqlValueView::Int(block),
                ) => self.insert_project((chain, id), block),
                (
                    ChangeKind::InsertRound,
                    SqlValueView::Int(chain),
                    SqlValueView::Text(id),
                    SqlValueView::Int(block),
                ) => self.insert_round((chain, id), block),
                (
                    ChangeKind::SetProjectMetadata,
                    SqlValueView::Json(document),
                    SqlValueView::Int(chain),
                    SqlValueView::Text(id),
                ) => self.set_metadata((chain, id), document),
                (
                    ChangeKind::AddProjectOwner,
                    SqlValueView::Json(array),
                    SqlValueView::Int(chain),
                    SqlValueView::Text(id),
                ) => self.add_owner((chain, id), json_array_element(array)),
                (
                    ChangeKind::RemoveProjectOwner,
                    SqlValueView::Text(owner),
                    SqlValueView::Int(chain),
                    SqlValueView::Text(id),
                ) => self.remove_owner((chain, id), owner),
                _ => None,
            }
        }
    }

    /// Applies `events` directly, oldest first, each with its resolved
    /// document. `None` as soon as the store refuses one.
    pub open spec fn replay_events(self, events: Seq<EventView>, documents: Seq<Seq<char>>) -> Option<
        Projection,
    >
        decreases events.len(),
    {
        if events.len() == 0 {
            Some(self)
        } else {
            match self.replay_events(events.drop_last(), documents.drop_last()) {
                Some(before) => before.apply_event(events.last(), documents.last()),
                None => None,
            }
        }
    }

    /// Executes `changes`, oldest first. `None` as soon as the store
    /// refuses one.
    pub open spec fn replay_changes(self, changes: Seq<ChangeSetView>) -> Option<Projection>
        decreases changes.len(),
    {
        if changes.len() == 0 {
            Some(self)
        } else {
            match self.replay_changes(changes.drop_last()) {
                Some(before) => before.apply_change(changes.last()),
                None => None,
            }
        }
    }
}

/// The translations of `events`, one for one, each with its document.
pub open spec fn translations(events: Seq<EventView>, documents: Seq<Seq<char>>) -> Seq<
    ChangeSetView,
> {
    Seq::new(events.len(), |i: int| translation(events[i], documents[i]))
}

/// Executing the translation of an event does to the projection what
/// the event itself does.
pub proof fn lemma_change_acts_as_event(before: Projection, event: EventView, document: Seq<char>)
    ensures
        before.apply_change(translation(event, document)) == before.apply_event(event, document),
{
    match event.payload {
        PayloadView::OwnerAdded { owner, .. } => {
            lemma_json_array_holds(owner);
        },
        _ => {},
    }
}

/// Ordering invariant: executing the translated state changes in log
/// order leaves the projection that applying the events directly, in
/// the same order, leaves.
pub proof fn lemma_replay_agrees(
    before: Projection,
    events: Seq<EventView>,
    documents: Seq<Seq<char>>,
)
    requires
        documents.len() == events.len(),
    ensures
        before.replay_changes(translations(events, documents)) == before.replay_events(
            events,
            documents,
        ),
    decreases events.len(),
{
    if events.len() > 0 {
        lemma_replay_agrees(before, events.drop_last(), documents.drop_last());
        assert(translations(events, documents).drop_last() =~= translations(
            events.drop_last(),
            documents.drop_last(),
        ));
        match before.replay_events(events.drop_last(), documents.drop_last()) {
            Some(middle) => {
                lemma_change_acts_as_event(middle, events.last(), documents.last());
            },
            None => {},
        }
    }
}

/// Order matters: adding an owner and then removing it leaves a project
/// without that owner, while removing it and then adding it leaves the
/// project with it. So the two orders never leave the same projection
/// where the project exists.
pub proof fn lemma_reordering_changes_outcome(
    before: Projection,
    chain_id: int,
    project_id: Seq<char>,
    owner: Seq<char>,
    added: EventView,
    removed: EventView,
)
    requires
        before.projects.dom().contains((chain_id, project_id)),
        added.chain_id == chain_id,
        added.payload == (PayloadView::OwnerAdded { project_id, owner }),
        removed.chain_id == chain_id,
        removed.payload == (PayloadView::OwnerRemoved { project_id, owner }),
    ensures
        ({
            let nothing = Seq::<char>::empty();
            let in_order = before.replay_changes(
                seq![translation(added, nothing), translation(removed, nothing)],
            );
            let reversed = before.replay_changes(
                seq![translation(removed, nothing), translation(added, nothing)],
            );
            &&& in_order is Some
            &&& reversed is Some
            &&& !in_order->Some_0.projects[(chain_id, project_id)].owners.contains(owner)
            &&& reversed->Some_0.projects[(chain_id, project_id)].owners.contains(owner)
            &&& in_order != reversed
        }),
{
    let nothing = Seq::<char>::empty();
    let add = translation(added, nothing);
    let remove = translation(removed, nothing);
    lemma_change_acts_as_event(before, added, nothing);
    lemma_change_acts_as_event(before, removed, nothing);
    let with_owner = before.apply_change(add)->Some_0;
    let without_owner = before.apply_change(remove)->Some_0;
    lemma_change_acts_as_event(with_owner, removed, nothing);
    lemma_change_acts_as_event(without_owner, added, nothing);
    lemma_replay_of_two(before, add, remove);
    lemma_replay_of_two(before, remove, add);
}

/// Replaying two changes is executing the first, then the second.
pub proof fn lemma_replay_of_two(before: Projection, first: ChangeSetView, second: ChangeSetView)
    ensures
        before.replay_changes(seq![first, second]) == match before.apply_change(first) {
            Some(middle) => middle.apply_change(second),
            None => None,
        },
{
    let both = seq![first, second];
    assert(both.drop_last() =~= seq![first]);
    assert(seq![first].drop_last() =~= Seq::<ChangeSetView>::empty());
    assert(before.replay_changes(Seq::<ChangeSetView>::empty()) == Some(before));
    assert(before.replay_changes(seq![first]) == before.apply_change(first));
}

/// Whether `resolver` may answer `document` when asked for `pointer`.
pub open spec fn may_answer<E, F: Fn(String) -> Result<String, E>>(
    resolver: &F,
    pointer: Seq<char>,
    document: Seq<char>,
) -> bool {
    exists|asked: String, reply: String|
        asked@ == pointer && reply@ == document && #[trigger] call_ensures(
            *resolver,
            (asked,),
            Ok::<String, E>(reply),
        )
}

/// Whether `document` accounts for `change` as the translation of
/// `event`: the change is the event's translation with that document,
/// and for a `MetadataUpdated` event the document is one that the
/// resolver may answer for the event's pointer.
pub open spec fn accounts_for<E, F: Fn(String) -> Result<String, E>>(
    resolver: &F,
    event: EventView,
    change: ChangeSetView,
    document: Seq<char>,
) -> bool {
    &&& change == translation(event, document)
    &&& event.payload matches PayloadView::MetadataUpdated { pointer, .. } ==> may_answer(
        resolver,
        pointer,
        document,
    )
}

/// Every successful translation is accounted for by some document.
pub proof fn lemma_translation_has_document<E, F: Fn(String) -> Result<String, E>>(
    resolver: &F,
    event: EventView,
    change: ChangeSet,
)
    requires
        translated(resolver, event, Ok::<ChangeSet, E>(change)),
    ensures
        exists|document: Seq<char>| #[trigger] accounts_for(resolver, event, change@, document),
{
    match event.payload {
        PayloadView::MetadataUpdated { pointer, .. } => {
            let outcome = Ok::<ChangeSet, E>(change);
            let (asked, answer) = choose|asked: String, answer: Result<String, E>|
                {
                    &&& asked@ == pointer
                    &&& #[trigger] call_ensures(*resolver, (asked,), answer)
                    &&& match answer {
                        Ok(document) => outcome is Ok && outcome->Ok_0@ == translation(
                            event,
                            document@,
                        ),
                        Err(failure) => outcome == Err::<ChangeSet, E>(failure),
                    }
                };
            let reply = answer->Ok_0;
            assert(call_ensures(*resolver, (asked,), Ok::<String, E>(reply)));
            assert(accounts_for(resolver, event, change@, reply@));
        },
        _ => {
            assert(accounts_for(resolver, event, change@, Seq::<char>::empty()));
        },
    }
}

/// The views of `changes`, one for one.
pub open spec fn change_views(changes: Seq<ChangeSet>) -> Seq<ChangeSetView> {
    Seq::new(changes.len(), |i: int| changes[i]@)
}

/// Ordering invariant, for what the drivers return: state changes that
/// are the translations of a log, in log order, leave the projection
/// that applying the log's events directly leaves, each
/// `MetadataUpdated` event with a document that the resolver answered
/// for its pointer.
pub proof fn lemma_translated_log_replays<E, F: Fn(String) -> Result<String, E>>(
    resolver: &F,
    before: Projection,
    log: Seq<Event>,
    changes: Seq<ChangeSet>,
)
    requires
        translated_in_order(resolver, log, changes),
    ensures
        exists|documents: Seq<Seq<char>>|
            {
                &&& documents.len() == log.len()
                &&& forall|i: int|
                    0 <= i < log.len() ==> #[trigger] accounts_for(
                        resolver,
                        log[i]@,
                        changes[i]@,
                        documents[i],
                    )
                &&& #[trigger] before.replay_events(event_views(log), documents)
                    == before.replay_changes(change_views(changes))
            },
{
    let documents = Seq::new(
        log.len(),
        |i: int|
            choose|document: Seq<char>| #[trigger]
                accounts_for(resolver, log[i]@, changes[i]@, document),
    );
    assert forall|i: int| 0 <= i < log.len() implies #[trigger] accounts_for(
        resolver,
        log[i]@,
        changes[i]@,
        documents[i],
    ) by {
        lemma_translation_has_document(resolver, log[i]@, changes[i]);
    }
    let views = change_views(changes);
    let expected = translations(event_views(log), documents);
    assert forall|i: int| 0 <= i < views.len() implies views[i] == expected[i] by {
        assert(accounts_for(resolver, log[i]@, changes[i]@, documents[i]));
    }
    assert(views =~= expected);
    lemma_replay_agrees(before, event_views(log), documents);
}

} // verus!
