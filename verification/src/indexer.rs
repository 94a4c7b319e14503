//! The batch driver: one bounded window of the log, translated in order.

use crate::change_set::ChangeSet;
use crate::event_handling::{can_resolve_all, translate, translated, Event, PayloadTag};
use crate::event_log::{window, window_end, window_start, EventLog};
use vstd::prelude::*;

verus! {

/// Window size used when the caller names none.
pub const DEFAULT_WINDOW: usize = 2;

/// A translation that failed, with what an operator needs to find the
/// event: its position in the log and the variant of its payload.
#[derive(Clone, Debug, PartialEq, Eq)]
pub struct TranslationFailure<E> {
    /// Position in the log of the event that could not be translated.
    pub position: usize,
    /// Variant of that event's payload.
    pub payload_tag: PayloadTag,
    /// What the resolver reported.
    pub cause: E,
}

/// Whether `changes` are translations of `events`, one for one and in
/// the same order.
pub open spec fn translated_in_order<E, F: Fn(String) -> Result<String, E>>(
    resolver: &F,
    events: Seq<Event>,
    changes: Seq<ChangeSet>,
) -> bool {
    &&& changes.len() == events.len()
    &&& forall|i: int|
        0 <= i < events.len() ==> translated(
            resolver,
            (#[trigger] events[i])@,
            Ok::<ChangeSet, E>(changes[i]),
        )
}

/// Whether `failure` reports the first event of `events` that could not
/// be translated, `events` being the window that begins at position
/// `first` of the log: every event before it has a translation, and the
/// resolver's failure for it is the reported cause.
pub open spec fn failed_at<E, F: Fn(String) -> Result<String, E>>(
    resolver: &F,
    events: Seq<Event>,
    first: nat,
    failure: TranslationFailure<E>,
) -> bool {
    let at = failure.position - first;
    &&& 0 <= at < events.len()
    &&& failure.payload_tag == events[at]@.payload.tag()
    &&& translated(resolver, events[at]@, Err::<ChangeSet, E>(failure.cause))
    &&& exists|earlier: Seq<ChangeSet>| #[trigger]
        translated_in_order(resolver, events.take(at), earlier)
}

/// Whether `outcome` is a possible result of translating the window of
/// at most `length` events at `start` of `log`: either every event of
/// the window translated, in log order, with the position to go on
/// from, or the report of the first one that failed, and no change at
/// all.
pub open spec fn window_processed<E, F: Fn(String) -> Result<String, E>>(
    resolver: &F,
    log: Seq<Event>,
    start: nat,
    length: nat,
    outcome: Result<(Vec<ChangeSet>, usize), TranslationFailure<E>>,
) -> bool {
    match outcome {
        Ok((changes, next)) => {
            &&& next == window_end(log.len(), start, length)
            &&& translated_in_order(resolver, window(log, start, length), changes@)
        },
        Err(failure) => failed_at(
            resolver,
            window(log, start, length),
            window_start(log.len(), start),
            failure,
        ),
    }
}

/// Pulls at most `max_events` events from `log` beginning at `start`
/// and translates each, strictly in log order. Returns the state
/// changes with the cursor for the next window. The first translation
/// that fails ends the batch: its report is returned and no state
/// change of the batch is.
pub fn process_window<L: EventLog, E, F: Fn(String) -> Result<String, E>>(
    log: &L,
    start: usize,
    max_events: usize,
    resolver: &F,
) -> (outcome: Result<(Vec<ChangeSet>, usize), TranslationFailure<E>>)
    requires
        can_resolve_all(resolver, window(log.events(), start as nat, max_events as nat)),
    ensures
        window_processed(resolver, log.events(), start as nat, max_events as nat, outcome),
{
    let (events, next) = log.range(start, max_events);
    let first = next - events.len();
    let mut changes: Vec<ChangeSet> = Vec::new();
    let mut i: usize = 0;
    while i < events.len()
        invariant
            i <= events.len(),
            first + events.len() <= usize::MAX,
            first == window_start(log.events().len(), start as nat),
            events@ == window(log.events(), start as nat, max_events as nat),
            can_resolve_all(resolver, events@),
            translated_in_order(resolver, events@.take(i as int), changes@),
        decreases events.len() - i,
    {
        match translate(&events[i], resolver) {
            Ok(change) => {
                changes.push(change);
            },
            Err(cause) => {
                assert(translated_in_order(resolver, events@.take(i as int), changes@));
                return Err(
                    TranslationFailure {
                        position: first + i,
                        payload_tag: events[i].payload.tag(),
                        cause,
                    },
                );
            },
        }
        i += 1;
    }
    assert(events@.take(i as int) == events@);
    Ok((changes, next))
}

/// Translates one window of `log`, resolving metadata pointers through
/// `ipfs_getter`. See [`process_window`].
pub fn process_event_log_chunk<L: EventLog, E, F: Fn(String) -> Result<String, E>>(
    log: &L,
    start: usize,
    max_events_chunk_size: usize,
    ipfs_getter: F,
) -> (outcome: Result<(Vec<ChangeSet>, usize), TranslationFailure<E>>)
    requires
        can_resolve_all(
            &ipfs_getter,
            window(log.events(), start as nat, max_events_chunk_size as nat),
        ),
    ensures
        window_processed(
            &ipfs_getter,
            log.events(),
            start as nat,
            max_events_chunk_size as nat,
            outcome,
        ),
{
    process_window(log, start, max_events_chunk_size, &ipfs_getter)
}

} // verus!
