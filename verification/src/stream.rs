//! The streaming driver: the whole log, window by window, as a lazy
//! sequence of state changes.

use crate::change_set::ChangeSet;
use crate::event_handling::{can_resolve_all, translated, Event};
use crate::event_log::EventLog;
use crate::indexer::{
    failed_at, process_window, translated_in_order, window_processed, TranslationFailure,
};
use vstd::prelude::*;

verus! {

/// Where a stream stands.
pub enum StreamState {
    /// About to read the window that begins at `cursor`.
    Fetching { cursor: usize },
    /// Handing out the rest of a translated window, `batch`, oldest
    /// first; `cursor` is where the next window begins.
    Draining { batch: Vec<ChangeSet>, cursor: usize },
    /// Ended: the log was exhausted or a translation failed.
    Done,
}

/// A lazy sequence of state changes over a log, read in windows of a
/// fixed size. It cannot be restarted.
pub struct ChangeStream {
    /// How many events one window holds at most.
    pub window: usize,
    /// Where the stream stands.
    pub state: StreamState,
}

/// Whether `state` is what a stream is left in after it has handed out
/// one change of a window, `rest` being what remains of the window and
/// `cursor` the beginning of the next.
pub open spec fn left_with(rest: Seq<ChangeSet>, cursor: usize, state: StreamState) -> bool {
    if rest.len() == 0 {
        state == (StreamState::Fetching { cursor })
    } else {
        state matches StreamState::Draining { batch, cursor: next } && batch@ == rest && next
            == cursor
    }
}

/// Whether a stream that has just got hold of `changes`, with `cursor`
/// the beginning of the next window, may answer `outcome` and go to
/// `after`: an empty window ends the stream, any other yields its first
/// change.
pub open spec fn yielded<E>(
    changes: Seq<ChangeSet>,
    cursor: usize,
    after: StreamState,
    outcome: Result<Option<ChangeSet>, TranslationFailure<E>>,
) -> bool {
    if changes.len() == 0 {
        after is Done && outcome == Ok::<Option<ChangeSet>, TranslationFailure<E>>(None)
    } else {
        &&& outcome == Ok::<Option<ChangeSet>, TranslationFailure<E>>(Some(changes[0]))
        &&& left_with(changes.skip(1), cursor, after)
    }
}

/// One step of the stream over `log` with windows of `window` events:
/// from `before` to `after`, answering `outcome`.
///
/// * `Done` stays `Done` and yields nothing.
/// * `Draining` yields the oldest change of its batch; when that was
///   the last, the stream goes back to `Fetching`.
/// * `Fetching` translates the next window. An empty window ends the
///   stream. A failure ends the stream and is the answer. Otherwise
///   the window's first change is yielded and the rest is kept.
pub open spec fn stepped<E, F: Fn(String) -> Result<String, E>>(
    resolver: &F,
    log: Seq<Event>,
    window: usize,
    before: StreamState,
    after: StreamState,
    outcome: Result<Option<ChangeSet>, TranslationFailure<E>>,
) -> bool {
    match before {
        StreamState::Done => after is Done && outcome == Ok::<
            Option<ChangeSet>,
            TranslationFailure<E>,
        >(None),
        StreamState::Draining { batch, cursor } => batch@.len() > 0 && yielded(
            batch@,
            cursor,
            after,
            outcome,
        ),
        StreamState::Fetching { cursor } => exists|
            fetched: Result<(Vec<ChangeSet>, usize), TranslationFailure<E>>,
        |
            {
                &&& #[trigger] window_processed(
                    resolver,
                    log,
                    cursor as nat,
                    window as nat,
                    fetched,
                )
                &&& match fetched {
                    Err(failure) => after is Done && outcome == Err::<
                        Option<ChangeSet>,
                        TranslationFailure<E>,
                    >(failure),
                    Ok((changes, next)) => yielded(changes@, next, after, outcome),
                }
            },
    }
}

impl ChangeStream {
    /// A stream is well formed when a batch it is draining is not empty.
    pub open spec fn well_formed(&self) -> bool {
        self.state matches StreamState::Draining { batch, .. } ==> batch@.len() > 0
    }

    /// A stream at the beginning of the log, with windows of `window`
    /// events.
    pub fn new(window: usize) -> (stream: Self)
        ensures
            stream.window == window,
            stream.state == (StreamState::Fetching { cursor: 0 }),
            stream.well_formed(),
    {
        ChangeStream { window, state: StreamState::Fetching { cursor: 0 } }
    }

    /// Hands out the first change of `changes` and keeps the rest.
    fn hand_out<E>(&mut self, changes: Vec<ChangeSet>, cursor: usize) -> (outcome: Result<
        Option<ChangeSet>,
        TranslationFailure<E>,
    >)
        requires
            old(self).state is Done,
        ensures
            final(self).window == old(self).window,
            final(self).well_formed(),
            yielded(changes@, cursor, final(self).state, outcome),
    {
        let mut changes = changes;
        if changes.len() == 0 {
            Ok(None)
        } else {
            let change = changes.remove(0);
            if changes.len() == 0 {
                self.state = StreamState::Fetching { cursor };
            } else {
                self.state = StreamState::Draining { batch: changes, cursor };
            }
            Ok(Some(change))
        }
    }

    /// The next state change of the stream, `None` once the log is
    /// exhausted. A translation failure ends the stream and is
    /// returned; nothing is retried or skipped.
    pub fn next<L: EventLog, E, F: Fn(String) -> Result<String, E>>(
        &mut self,
        log: &L,
        resolver: &F,
    ) -> (outcome: Result<Option<ChangeSet>, TranslationFailure<E>>)
        requires
            old(self).well_formed(),
            can_resolve_all(resolver, log.events()),
        ensures
            final(self).well_formed(),
            final(self).window == old(self).window,
            stepped(
                resolver,
                log.events(),
                old(self).window,
                old(self).state,
                final(self).state,
                outcome,
            ),
    {
        let mut state = StreamState::Done;
        std::mem::swap(&mut self.state, &mut state);
        match state {
            StreamState::Done => Ok(None),
            StreamState::Draining { batch, cursor } => self.hand_out(batch, cursor),
            StreamState::Fetching { cursor } => {
                match process_window(log, cursor, self.window, resolver) {
                    Err(failure) => Err(failure),
                    Ok((changes, next)) => self.hand_out(changes, next),
                }
            },
        }
    }
}

/// Translations in order can be joined end to end.
pub proof fn lemma_translated_in_order_joins<E, F: Fn(String) -> Result<String, E>>(
    resolver: &F,
    head: Seq<Event>,
    head_changes: Seq<ChangeSet>,
    tail: Seq<Event>,
    tail_changes: Seq<ChangeSet>,
)
    requires
        translated_in_order(resolver, head, head_changes),
        translated_in_order(resolver, tail, tail_changes),
    ensures
        translated_in_order(resolver, head + tail, head_changes + tail_changes),
{
    let events = head + tail;
    let changes = head_changes + tail_changes;
    assert forall|i: int| 0 <= i < events.len() implies translated(
        resolver,
        (#[trigger] events[i])@,
        Ok::<ChangeSet, E>(changes[i]),
    ) by {
        if i < head.len() {
            assert(events[i] == head[i]);
            assert(changes[i] == head_changes[i]);
        } else {
            assert(events[i] == tail[i - head.len()]);
            assert(changes[i] == tail_changes[i - head.len()]);
        }
    }
}

/// Whether `cursor` is where a window of `window` events begins or
/// ends in a log of `len` events: a multiple of the window size, or
/// the end of the log.
spec fn on_a_window_edge(len: nat, window: usize, cursor: usize) -> bool {
    cursor as int % window as int == 0 || cursor == len
}

/// What a stream that is not done has achieved: `emitted`, followed by
/// what it still holds, are the translations of the log up to its
/// cursor.
spec fn on_track<E, F: Fn(String) -> Result<String, E>>(
    resolver: &F,
    log: Seq<Event>,
    window: usize,
    state: StreamState,
    emitted: Seq<ChangeSet>,
) -> bool {
    match state {
        StreamState::Fetching { cursor } => {
            &&& cursor <= log.len()
            &&& window == 0 ==> cursor == 0
            &&& window > 0 ==> on_a_window_edge(log.len(), window, cursor)
            &&& translated_in_order(resolver, log.take(cursor as int), emitted)
        },
        StreamState::Draining { batch, cursor } => {
            &&& cursor <= log.len()
            &&& window > 0
            &&& on_a_window_edge(log.len(), window, cursor)
            &&& batch@.len() > 0
            &&& translated_in_order(resolver, log.take(cursor as int), emitted + batch@)
        },
        StreamState::Done => false,
    }
}

/// An upper bound on the steps a stream has left over a log of `len`
/// events.
spec fn steps_left(state: StreamState, len: nat) -> nat {
    match state {
        StreamState::Fetching { cursor } => (2 * (len - cursor) + 1) as nat,
        StreamState::Draining { batch, cursor } => (2 * (len - cursor) + 1 + batch@.len()) as nat,
        StreamState::Done => 0,
    }
}

/// Whether `outcome` is a possible result of streaming `log` to its end
/// in windows of `window` events.
///
/// With no failure, the changes are the translations of every event of
/// the log, each once, in log order (of none, when `window` is zero).
/// With a failure, they are the translations of the events before the
/// window that failed, whole windows all of them and none from the
/// window that failed, and the failure reports the first event of the
/// log that could not be translated.
pub open spec fn streamed<E, F: Fn(String) -> Result<String, E>>(
    resolver: &F,
    log: Seq<Event>,
    window: usize,
    outcome: (Vec<ChangeSet>, Option<TranslationFailure<E>>),
) -> bool {
    let changes = outcome.0@;
    match outcome.1 {
        None => if window == 0 {
            changes.len() == 0
        } else {
            translated_in_order(resolver, log, changes)
        },
        Some(failure) => {
            &&& window > 0
            &&& changes.len() as int % window as int == 0
            &&& changes.len() <= failure.position < changes.len() + window
            &&& translated_in_order(resolver, log.take(changes.len() as int), changes)
            &&& failed_at(resolver, log, 0, failure)
        },
    }
}

/// Streams `log` from its beginning to its end in windows of `window`
/// events and collects the state changes, in log order. A translation
/// failure ends the stream: what whole windows had yielded before is
/// returned together with the failure.
pub fn stream_changes<L: EventLog, E, F: Fn(String) -> Result<String, E>>(
    log: &L,
    window: usize,
    resolver: &F,
) -> (outcome: (Vec<ChangeSet>, Option<TranslationFailure<E>>))
    requires
        can_resolve_all(resolver, log.events()),
    ensures
        streamed(resolver, log.events(), window, outcome),
{
    let mut stream = ChangeStream::new(window);
    let mut emitted: Vec<ChangeSet> = Vec::new();
    assert(log.events().take(0) =~= Seq::<Event>::empty());
    loop
        invariant
            can_resolve_all(resolver, log.events()),
            stream.well_formed(),
            stream.window == window,
            on_track(resolver, log.events(), window, stream.state, emitted@),
        decreases steps_left(stream.state, log.events().len()),
    {
        let ghost before = stream.state;
        let ghost all = log.events();
        match stream.next(log, resolver) {
            Ok(Some(change)) => {
                proof {
                    lemma_step_keeps_track(resolver, all, window, before, stream.state, emitted@, change);
                }
                emitted.push(change);
            },
            Ok(None) => {
                proof {
                    lemma_exhausted(resolver, all, window, before, stream.state, emitted@);
                }
                return (emitted, None);
            },
            Err(failure) => {
                proof {
                    lemma_failure_is_first(resolver, all, window, before, stream.state, emitted@, failure);
                }
                return (emitted, Some(failure));
            },
        }
    }
}

/// A step that yields a change keeps the stream on track and brings it
/// nearer to its end.
proof fn lemma_step_keeps_track<E, F: Fn(String) -> Result<String, E>>(
    resolver: &F,
    log: Seq<Event>,
    window: usize,
    before: StreamState,
    after: StreamState,
    emitted: Seq<ChangeSet>,
    change: ChangeSet,
)
    requires
        on_track(resolver, log, window, before, emitted),
        stepped(
            resolver,
            log,
            window,
            before,
            after,
            Ok::<Option<ChangeSet>, TranslationFailure<E>>(Some(change)),
        ),
    ensures
        on_track(resolver, log, window, after, emitted.push(change)),
        steps_left(after, log.len()) < steps_left(before, log.len()),
{
    match before {
        StreamState::Done => {},
        StreamState::Draining { batch, cursor } => {
            assert(emitted.push(change) + batch@.skip(1) =~= emitted + batch@);
            assert(emitted.push(change) =~= emitted + batch@.take(1));
        },
        StreamState::Fetching { cursor } => {
            let fetched = choose|fetched: Result<(Vec<ChangeSet>, usize), TranslationFailure<E>>|
                {
                    &&& #[trigger] window_processed(
                        resolver,
                        log,
                        cursor as nat,
                        window as nat,
                        fetched,
                    )
                    &&& match fetched {
                        Err(failure) => after is Done && Ok::<
                            Option<ChangeSet>,
                            TranslationFailure<E>,
                        >(Some(change)) == Err::<Option<ChangeSet>, TranslationFailure<E>>(
                            failure,
                        ),
                        Ok((changes, next)) => yielded(
                            changes@,
                            next,
                            after,
                            Ok::<Option<ChangeSet>, TranslationFailure<E>>(Some(change)),
                        ),
                    }
                };
            let (changes, next) = fetched->Ok_0;
            let events = crate::event_log::window(log, cursor as nat, window as nat);
            vstd::arithmetic::div_mod::lemma_mod_add_multiples_vanish(
                cursor as int,
                window as int,
            );
            assert(log.take(next as int) =~= log.take(cursor as int) + events);
            lemma_translated_in_order_joins(
                resolver,
                log.take(cursor as int),
                emitted,
                events,
                changes@,
            );
            assert(emitted.push(change) + changes@.skip(1) =~= emitted + changes@);
            assert(emitted.push(change) =~= emitted + changes@.take(1));
        },
    }
}

/// A stream that ends without a failure has translated the whole log.
proof fn lemma_exhausted<E, F: Fn(String) -> Result<String, E>>(
    resolver: &F,
    log: Seq<Event>,
    window: usize,
    before: StreamState,
    after: StreamState,
    emitted: Seq<ChangeSet>,
)
    requires
        on_track(resolver, log, window, before, emitted),
        stepped(
            resolver,
            log,
            window,
            before,
            after,
            Ok::<Option<ChangeSet>, TranslationFailure<E>>(None),
        ),
    ensures
        window == 0 ==> emitted.len() == 0,
        window > 0 ==> translated_in_order(resolver, log, emitted),
{
    match before {
        StreamState::Fetching { cursor } => {
            assert(log.take(log.len() as int) =~= log);
        },
        _ => {},
    }
}

/// A failure that ends the stream reports the first event of the log
/// that could not be translated, and lies in the window that follows
/// what was yielded.
proof fn lemma_failure_is_first<E, F: Fn(String) -> Result<String, E>>(
    resolver: &F,
    log: Seq<Event>,
    window: usize,
    before: StreamState,
    after: StreamState,
    emitted: Seq<ChangeSet>,
    failure: TranslationFailure<E>,
)
    requires
        on_track(resolver, log, window, before, emitted),
        stepped(
            resolver,
            log,
            window,
            before,
            after,
            Err::<Option<ChangeSet>, TranslationFailure<E>>(failure),
        ),
    ensures
        window > 0,
        emitted.len() as int % window as int == 0,
        emitted.len() <= failure.position < emitted.len() + window,
        translated_in_order(resolver, log.take(emitted.len() as int), emitted),
        failed_at(resolver, log, 0, failure),
{
    match before {
        StreamState::Fetching { cursor } => {
            let events = crate::event_log::window(log, cursor as nat, window as nat);
            let at = failure.position - cursor;
            let earlier = choose|earlier: Seq<ChangeSet>| #[trigger]
                translated_in_order(resolver, events.take(at), earlier);
            lemma_translated_in_order_joins(
                resolver,
                log.take(cursor as int),
                emitted,
                events.take(at),
                earlier,
            );
            assert(log.take(failure.position as int) =~= log.take(cursor as int) + events.take(
                at,
            ));
            assert(translated_in_order(
                resolver,
                log.take(failure.position as int),
                emitted + earlier,
            ));
            assert(events[at] == log[failure.position as int]);
        },
        _ => {},
    }
}

} // verus!
