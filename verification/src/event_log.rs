//! The event store: an append-only, ordered log read in bounded windows.

use crate::event_handling::Event;
use vstd::prelude::*;
use vstd::slice::slice_subrange;

verus! {

/// Position at which a window requested at `start` really begins in a
/// log of `len` events: `start`, clamped to the end of the log.
pub open spec fn window_start(len: nat, start: nat) -> nat {
    if start < len {
        start
    } else {
        len
    }
}

/// Position just past a window of at most `length` events requested at
/// `start` in a log of `len` events: `min(start + length, len)`.
pub open spec fn window_end(len: nat, start: nat, length: nat) -> nat {
    if start + length < len {
        start + length
    } else {
        len
    }
}

/// The events of `log` at positions `[start, min(start + length, len))`;
/// empty when `start` is at or past the end.
pub open spec fn window<T>(log: Seq<T>, start: nat, length: nat) -> Seq<T> {
    log.subrange(
        window_start(log.len(), start) as int,
        window_end(log.len(), start, length) as int,
    )
}

/// An ordered, append-only sequence of events with paginated reads.
pub trait EventLog {
    /// Everything appended so far, oldest first.
    spec fn events(&self) -> Seq<Event>;

    /// Adds `event` at the end; its position is the length before the call.
    fn append(&mut self, event: Event)
        ensures
            final(self).events() == old(self).events().push(event),
    ;

    /// Reads at most `length` events from position `start` and returns
    /// them with the position to continue from. Out-of-range requests
    /// are clamped, never refused.
    fn range(&self, start: usize, length: usize) -> (out: (&[Event], usize))
        ensures
            out.0@ == window(self.events(), start as nat, length as nat),
            out.1 == window_end(self.events().len(), start as nat, length as nat),
    ;
}

/// The log kept in memory, for a single writer and sequential readers.
pub struct InMemoryEventLog {
    pub events: Vec<Event>,
}

impl EventLog for InMemoryEventLog {
    open spec fn events(&self) -> Seq<Event> {
        self.events@
    }

    fn append(&mut self, event: Event) {
        self.events.push(event)
    }

    fn range(&self, start: usize, length: usize) -> (out: (&[Event], usize)) {
        slice_window(self.events.as_slice(), start, length)
    }
}

/// The window of at most `length` items at `start` of `items`, with the
/// position just past it. Nothing overflows and nothing is out of
/// range: the request is clamped to the slice.
pub fn slice_window<T>(items: &[T], start: usize, length: usize) -> (out: (&[T], usize))
    ensures
        out.0@ == window(items@, start as nat, length as nat),
        out.1 == window_end(items@.len(), start as nat, length as nat),
{
    let len = items.len();
    let begin = if start < len {
        start
    } else {
        len
    };
    let end = if length < len - begin {
        begin + length
    } else {
        len
    };
    (slice_subrange(items, begin, end), end)
}

impl InMemoryEventLog {
    /// A log with nothing in it.
    pub fn new() -> (log: Self)
        ensures
            log.events() == Seq::<Event>::empty(),
    {
        InMemoryEventLog { events: Vec::new() }
    }
}

/// What a reader collects who pages through `log` from `cursor` in
/// windows of `width` events, going on from the returned position after
/// each window and stopping at the first empty one.
pub open spec fn paged<T>(log: Seq<T>, cursor: nat, width: nat) -> Seq<T>
    decreases log.len() - cursor,
{
    let page = window(log, cursor, width);
    if page.len() == 0 {
        Seq::empty()
    } else {
        page + paged(log, window_end(log.len(), cursor, width), width)
    }
}

/// The position that such a reader is left with: the one returned with
/// the first empty window.
pub open spec fn paged_end<T>(log: Seq<T>, cursor: nat, width: nat) -> nat
    decreases log.len() - cursor,
{
    if window(log, cursor, width).len() == 0 {
        window_end(log.len(), cursor, width)
    } else {
        paged_end(log, window_end(log.len(), cursor, width), width)
    }
}

/// Clamping: a window never reaches outside the log. It holds
/// `min(start + length, len) - min(start, len)` events, so none when
/// `start` is at or past the end or `length` is zero, and the position
/// returned with it is then `start`, or the length of the log where
/// `start` lies beyond it.
pub proof fn lemma_window_is_clamped<T>(log: Seq<T>, start: nat, length: nat)
    ensures
        window(log, start, length).len() == window_end(log.len(), start, length) - window_start(
            log.len(),
            start,
        ),
        window(log, start, length).len() <= length,
        window_end(log.len(), start, length) <= log.len(),
        forall|i: int|
            0 <= i < window(log, start, length).len() ==> #[trigger] window(log, start, length)[i]
                == log[start + i],
        start >= log.len() || length == 0 ==> {
            &&& window(log, start, length) == Seq::<T>::empty()
            &&& window_end(log.len(), start, length) == window_start(log.len(), start)
        },
{
    assert(window(log, start, length).len() == 0 ==> window(log, start, length) =~= Seq::<
        T,
    >::empty());
}

/// Clamping on an empty log: whatever the length asked for, the window
/// at position zero is empty and the position to go on from is zero.
pub proof fn lemma_window_of_empty_log<T>(log: Seq<T>, length: nat)
    requires
        log.len() == 0,
    ensures
        window(log, 0, length) == Seq::<T>::empty(),
        window_end(log.len(), 0, length) == 0,
{
    lemma_window_is_clamped(log, 0, length);
}

/// Pagination from any position inside the log: with a positive window
/// size the reader collects exactly the events from `cursor` on, each
/// once and in order, and ends at the length of the log.
pub proof fn lemma_paging_from<T>(log: Seq<T>, cursor: nat, width: nat)
    requires
        width > 0,
        cursor <= log.len(),
    ensures
        paged(log, cursor, width) == log.skip(cursor as int),
        paged_end(log, cursor, width) == log.len(),
    decreases log.len() - cursor,
{
    let page = window(log, cursor, width);
    let next = window_end(log.len(), cursor, width);
    if page.len() == 0 {
        assert(log.skip(cursor as int) =~= Seq::<T>::empty());
    } else {
        lemma_paging_from(log, next, width);
        assert(page + log.skip(next as int) =~= log.skip(cursor as int));
    }
}

/// Pagination completeness: for any positive window size, paging from
/// position zero visits every event of the log exactly once, in log
/// order, and ends with the position equal to the length of the log.
pub proof fn lemma_paging_is_complete<T>(log: Seq<T>, width: nat)
    requires
        width > 0,
    ensures
        paged(log, 0, width) == log,
        paged_end(log, 0, width) == log.len(),
{
    lemma_paging_from(log, 0, width);
    assert(log.skip(0) =~= log);
}

} // verus!
