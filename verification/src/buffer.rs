//! The bounded per-session event buffer.
//!
//! Events are appended in sequence-number order; insertion into a full
//! buffer evicts the single oldest entry and increments the dropped
//! counter. Three read strategies share the one buffer: a snapshot poll,
//! a cursor read for wait, and a cursor read for subscriptions.

use vstd::prelude::*;

use crate::events::DebugEvent;
use crate::events::EventDetails;
use crate::events::EventKind;
use crate::events::matches_filter;
use crate::events::spec_matches_filter;

verus! {

/// The mathematical model of an event buffer: the retained events in
/// order, the fixed capacity, the dropped counter, and the next
/// sequence number to assign.
pub ghost struct BufView {
    pub events: Seq<DebugEvent>,
    pub capacity: int,
    pub dropped: int,
    pub next_seq: int,
}

impl BufView {
    /// Well-formedness: the buffer never exceeds its capacity, sequence
    /// numbers are strictly increasing and below the next one to
    /// assign, and the dropped counter never exceeds the number of
    /// events ever ingested.
    pub open spec fn wf(self) -> bool {
        &&& 1 <= self.capacity
        &&& self.events.len() <= self.capacity
        &&& 0 <= self.dropped <= self.next_seq <= u64::MAX
        &&& forall|i: int| 0 <= i < self.events.len() ==> #[trigger] self.events[i].seq < self.next_seq
        &&& forall|i: int, j: int|
            0 <= i < j < self.events.len() ==> self.events[i].seq < self.events[j].seq
    }
}

/// What one insertion does to the model: the new event takes the next
/// sequence number; a full buffer first evicts its oldest entry and
/// counts it as dropped.
pub open spec fn push_model(b: BufView, details: EventDetails, timestamp: i64) -> BufView {
    let e = DebugEvent { seq: b.next_seq as u64, timestamp, details };
    if b.events.len() < b.capacity {
        BufView { events: b.events.push(e), next_seq: b.next_seq + 1, ..b }
    } else {
        BufView {
            events: b.events.skip(1).push(e),
            dropped: b.dropped + 1,
            next_seq: b.next_seq + 1,
            ..b
        }
    }
}

/// The events of `s` that pass the type filter, in order.
pub open spec fn filtered(s: Seq<DebugEvent>, filter: Seq<EventKind>) -> Seq<DebugEvent>
    decreases s.len(),
{
    if s.len() == 0 {
        Seq::empty()
    } else {
        let rest = filtered(s.drop_last(), filter);
        if spec_matches_filter(s.last(), filter) {
            rest.push(s.last())
        } else {
            rest
        }
    }
}

/// The events of `s` with a sequence number above `last_seen`, in
/// order.
pub open spec fn newer(s: Seq<DebugEvent>, last_seen: int) -> Seq<DebugEvent>
    decreases s.len(),
{
    if s.len() == 0 {
        Seq::empty()
    } else {
        let rest = newer(s.drop_last(), last_seen);
        if s.last().seq > last_seen {
            rest.push(s.last())
        } else {
            rest
        }
    }
}

/// What a poll with the given limit returns out of the matching
/// events: all of them when the limit is zero, else the first `limit`.
pub open spec fn poll_window(m: Seq<DebugEvent>, limit: int) -> Seq<DebugEvent> {
    if limit == 0 || m.len() <= limit {
        m
    } else {
        m.take(limit)
    }
}

/// A sequence of events whose sequence numbers strictly increase.
pub open spec fn strictly_increasing(s: Seq<DebugEvent>) -> bool {
    forall|i: int, j: int| 0 <= i < j < s.len() ==> s[i].seq < s[j].seq
}

/// The summary the event-info call reports.
#[derive(Debug)]
pub struct EventInfo {
    pub buffered_count: usize,
    pub buffer_capacity: usize,
    pub events_dropped: bool,
    pub dropped_count: u64,
    pub oldest_timestamp: i64,
    pub newest_timestamp: i64,
}

/// A bounded buffer of debug events for one session.
#[derive(Debug)]
pub struct EventBuffer {
    pub events: Vec<DebugEvent>,
    pub capacity: usize,
    pub dropped: u64,
    pub next_seq: u64,
}

impl View for EventBuffer {
    type V = BufView;

    open spec fn view(&self) -> BufView {
        BufView {
            events: self.events@,
            capacity: self.capacity as int,
            dropped: self.dropped as int,
            next_seq: self.next_seq as int,
        }
    }
}

impl EventBuffer {
    /// An empty buffer with the given capacity; sequence numbering
    /// starts at zero.
    pub fn new(capacity: usize) -> (b: EventBuffer)
        requires
            capacity >= 1,
        ensures
            b@.wf(),
            b@.events.len() == 0,
            b@.capacity == capacity,
            b@.dropped == 0,
            b@.next_seq == 0,
    {
        EventBuffer { events: Vec::new(), capacity, dropped: 0, next_seq: 0 }
    }

    /// Ingest one event. The new entry takes the next sequence number;
    /// a full buffer evicts its oldest entry (first in, first out) and
    /// increments the dropped counter.
    pub fn push(&mut self, details: EventDetails, timestamp: i64)
        requires
            old(self)@.wf(),
            old(self)@.next_seq < u64::MAX,
        ensures
            final(self)@ == push_model(old(self)@, details, timestamp),
            final(self)@.wf(),
    {
        let e = DebugEvent { seq: self.next_seq, timestamp, details };
        if self.events.len() == self.capacity {
            self.events.remove(0);
            self.dropped = self.dropped + 1;
            self.events.push(e);
            proof {
                assert(self.events@ =~= old(self)@.events.skip(1).push(e));
            }
        } else {
            self.events.push(e);
        }
        self.next_seq = self.next_seq + 1;
    }

    /// A snapshot read: up to `limit` buffered events matching the
    /// filter (zero meaning no bound), in sequence order, without
    /// removing them; also how many matching events beyond the limit
    /// remain.
    pub fn poll(&self, limit: usize, filter: &Vec<EventKind>) -> (r: (Vec<DebugEvent>, usize))
        requires
            self@.wf(),
        ensures
            r.0@ == poll_window(filtered(self@.events, filter@), limit as int),
            r.1 == filtered(self@.events, filter@).len() - r.0@.len(),
    {
        let mut out: Vec<DebugEvent> = Vec::new();
        let mut rest: usize = 0;
        let mut i: usize = 0;
        while i < self.events.len()
            invariant
                self@.wf(),
                i <= self@.events.len(),
                out@ == poll_window(
                    filtered(self@.events.subrange(0, i as int), filter@),
                    limit as int,
                ),
                out@.len() + rest == filtered(self@.events.subrange(0, i as int), filter@).len(),
                rest <= i,
            decreases self@.events.len() - i,
        {
            proof {
                lemma_filtered_len(self@.events.subrange(0, i as int), filter@);
            }
            if matches_filter(&self.events[i], filter) {
                if limit == 0 || out.len() < limit {
                    out.push(self.events[i].clone());
                } else {
                    rest = rest + 1;
                }
            }
            i = i + 1;
            proof {
                let pre = self@.events.subrange(0, i - 1);
                let post = self@.events.subrange(0, i as int);
                assert(post.drop_last() =~= pre);
                assert(post.last() == self@.events[i - 1]);
                let m_pre = filtered(pre, filter@);
                let m_post = filtered(post, filter@);
                if spec_matches_filter(self@.events[i - 1], filter@) {
                    assert(m_post == m_pre.push(self@.events[i - 1]));
                    if limit != 0 && m_pre.len() > limit {
                        assert(m_post.take(limit as int) =~= m_pre.take(limit as int));
                    } else if limit != 0 && m_pre.len() == limit {
                        assert(m_post.take(limit as int) =~= m_pre);
                    }
                }
            }
        }
        proof {
            assert(self@.events.subrange(0, self@.events.len() as int) =~= self@.events);
        }
        (out, rest)
    }

    /// The cursor read behind wait: every buffered event matching the
    /// filter with a sequence number at or above the caller's cursor,
    /// in order. An empty result means the caller has seen everything
    /// that matches so far.
    pub fn events_matching_from(&self, from_seq: u64, filter: &Vec<EventKind>) -> (out: Vec<
        DebugEvent,
    >)
        requires
            self@.wf(),
        ensures
            out@ == newer(filtered(self@.events, filter@), from_seq as int - 1),
    {
        let mut out: Vec<DebugEvent> = Vec::new();
        let mut i: usize = 0;
        while i < self.events.len()
            invariant
                self@.wf(),
                i <= self@.events.len(),
                out@ == newer(
                    filtered(self@.events.subrange(0, i as int), filter@),
                    from_seq as int - 1,
                ),
            decreases self@.events.len() - i,
        {
            if self.events[i].seq >= from_seq && matches_filter(&self.events[i], filter) {
                out.push(self.events[i].clone());
            }
            i = i + 1;
            proof {
                let pre = self@.events.subrange(0, i - 1);
                let post = self@.events.subrange(0, i as int);
                assert(post.drop_last() =~= pre);
                assert(post.last() == self@.events[i - 1]);
                let m_pre = filtered(pre, filter@);
                let m_post = filtered(post, filter@);
                if spec_matches_filter(self@.events[i - 1], filter@) {
                    let e = self@.events[i - 1];
                    assert(m_post == m_pre.push(e));
                    assert(m_pre.push(e).drop_last() =~= m_pre);
                    assert(m_pre.push(e).last() == e);
                }
            }
        }
        proof {
            assert(self@.events.subrange(0, self@.events.len() as int) =~= self@.events);
        }
        out
    }

    /// The cursor read behind subscriptions: every buffered event with
    /// a sequence number at or above the cursor, in order. Events
    /// evicted before the cursor read are gone: delivery to a slow
    /// stream consumer is best-effort.
    pub fn events_from(&self, cursor: u64) -> (out: Vec<DebugEvent>)
        requires
            self@.wf(),
        ensures
            out@ == newer(self@.events, cursor as int - 1),
    {
        let mut out: Vec<DebugEvent> = Vec::new();
        let mut i: usize = 0;
        while i < self.events.len()
            invariant
                self@.wf(),
                i <= self@.events.len(),
                out@ == newer(self@.events.subrange(0, i as int), cursor as int - 1),
            decreases self@.events.len() - i,
        {
            if self.events[i].seq >= cursor {
                out.push(self.events[i].clone());
            }
            i = i + 1;
            proof {
                let post = self@.events.subrange(0, i as int);
                assert(post.drop_last() =~= self@.events.subrange(0, i - 1));
                assert(post.last() == self@.events[i - 1]);
            }
        }
        proof {
            assert(self@.events.subrange(0, self@.events.len() as int) =~= self@.events);
        }
        out
    }

    /// Empty the buffer and reset the dropped counter and the
    /// oldest/newest bookkeeping, without touching the sequence
    /// counter: later events continue the same numbering.
    pub fn clear(&mut self)
        requires
            old(self)@.wf(),
        ensures
            final(self)@.wf(),
            final(self)@.events.len() == 0,
            final(self)@.dropped == 0,
            final(self)@.capacity == old(self)@.capacity,
            final(self)@.next_seq == old(self)@.next_seq,
    {
        self.events.clear();
        self.dropped = 0;
    }

    /// The buffer summary: how many events are retained, the capacity,
    /// whether any event was ever dropped since the last clear, and the
    /// timestamps of the oldest and newest retained event (zero when
    /// the buffer is empty).
    pub fn info(&self) -> (r: EventInfo)
        requires
            self@.wf(),
        ensures
            r.buffered_count == self@.events.len(),
            r.buffer_capacity == self@.capacity,
            r.events_dropped == (self@.dropped > 0),
            r.dropped_count == self@.dropped,
            r.oldest_timestamp == if self@.events.len() == 0 {
                0i64
            } else {
                self@.events[0].timestamp
            },
            r.newest_timestamp == if self@.events.len() == 0 {
                0i64
            } else {
                self@.events.last().timestamp
            },
    {
        let n = self.events.len();
        let oldest: i64 = if n == 0 {
            0
        } else {
            self.events[0].timestamp
        };
        let newest: i64 = if n == 0 {
            0
        } else {
            self.events[n - 1].timestamp
        };
        EventInfo {
            buffered_count: n,
            buffer_capacity: self.capacity,
            events_dropped: self.dropped > 0,
            dropped_count: self.dropped,
            oldest_timestamp: oldest,
            newest_timestamp: newest,
        }
    }
}

/// The filtered view never holds more events than its source.
pub proof fn lemma_filtered_len(s: Seq<DebugEvent>, filter: Seq<EventKind>)
    ensures
        filtered(s, filter).len() <= s.len(),
    decreases s.len(),
{
    if s.len() > 0 {
        lemma_filtered_len(s.drop_last(), filter);
    }
}

/// Every event of the filtered view is an event of its source.
pub proof fn lemma_filtered_membership(s: Seq<DebugEvent>, filter: Seq<EventKind>)
    ensures
        forall|k: int|
            0 <= k < filtered(s, filter).len() ==> s.contains(#[trigger] filtered(s, filter)[k]),
    decreases s.len(),
{
    if s.len() > 0 {
        lemma_filtered_membership(s.drop_last(), filter);
        assert forall|k: int| 0 <= k < filtered(s, filter).len() implies s.contains(
            #[trigger] filtered(s, filter)[k],
        ) by {
            let m = filtered(s.drop_last(), filter);
            if k < m.len() {
                let j = choose|j: int| 0 <= j < s.drop_last().len() && s.drop_last()[j] == m[k];
                assert(s[j] == m[k]);
            } else {
                assert(s[s.len() - 1] == filtered(s, filter)[k]);
            }
        }
    }
}

/// Every event of the cursor view is an event of its source.
pub proof fn lemma_newer_membership(s: Seq<DebugEvent>, last_seen: int)
    ensures
        forall|k: int|
            0 <= k < newer(s, last_seen).len() ==> s.contains(#[trigger] newer(s, last_seen)[k]),
    decreases s.len(),
{
    if s.len() > 0 {
        lemma_newer_membership(s.drop_last(), last_seen);
        assert forall|k: int| 0 <= k < newer(s, last_seen).len() implies s.contains(
            #[trigger] newer(s, last_seen)[k],
        ) by {
            let m = newer(s.drop_last(), last_seen);
            if k < m.len() {
                let j = choose|j: int|
                    0 <= j < s.drop_last().len() && s.drop_last()[j] == m[k];
                assert(s[j] == m[k]);
            } else {
                assert(s[s.len() - 1] == newer(s, last_seen)[k]);
            }
        }
    }
}

/// A filtered view of a strictly increasing sequence is strictly
/// increasing.
pub proof fn lemma_filtered_increasing(s: Seq<DebugEvent>, filter: Seq<EventKind>)
    requires
        strictly_increasing(s),
    ensures
        strictly_increasing(filtered(s, filter)),
    decreases s.len(),
{
    if s.len() > 0 {
        let dl = s.drop_last();
        assert(strictly_increasing(dl)) by {
            assert(forall|i: int, j: int|
                0 <= i < j < dl.len() ==> dl[i] == s[i] && dl[j] == s[j]);
        }
        lemma_filtered_increasing(dl, filter);
        lemma_filtered_membership(dl, filter);
        if spec_matches_filter(s.last(), filter) {
            let m = filtered(dl, filter);
            assert forall|i: int, j: int|
                0 <= i < j < filtered(s, filter).len() implies filtered(s, filter)[i].seq
                < filtered(s, filter)[j].seq by {
                if j == m.len() {
                    let x = m[i];
                    let jj = choose|jj: int| 0 <= jj < dl.len() && dl[jj] == x;
                    assert(s[jj] == x);
                    assert(x.seq < s[s.len() - 1].seq);
                }
            }
        }
    }
}

/// A cursor view of a strictly increasing sequence is strictly
/// increasing.
pub proof fn lemma_newer_increasing(s: Seq<DebugEvent>, last_seen: int)
    requires
        strictly_increasing(s),
    ensures
        strictly_increasing(newer(s, last_seen)),
    decreases s.len(),
{
    if s.len() > 0 {
        let dl = s.drop_last();
        assert(strictly_increasing(dl)) by {
            assert(forall|i: int, j: int|
                0 <= i < j < dl.len() ==> dl[i] == s[i] && dl[j] == s[j]);
        }
        lemma_newer_increasing(dl, last_seen);
        lemma_newer_membership(dl, last_seen);
        if s.last().seq > last_seen {
            let m = newer(dl, last_seen);
            assert forall|i: int, j: int|
                0 <= i < j < newer(s, last_seen).len() implies newer(s, last_seen)[i].seq < newer(
                s,
                last_seen,
            )[j].seq by {
                if j == m.len() {
                    let x = m[i];
                    let jj = choose|jj: int| 0 <= jj < dl.len() && dl[jj] == x;
                    assert(s[jj] == x);
                    assert(x.seq < s[s.len() - 1].seq);
                }
            }
        }
    }
}

/// Taking the events newer than a cursor commutes with the type
/// filter: a wait from cursor `n` sees exactly the filtered part of
/// what a subscription from the same cursor sees.
pub proof fn lemma_newer_filter_commute(s: Seq<DebugEvent>, last_seen: int, filter: Seq<EventKind>)
    ensures
        newer(filtered(s, filter), last_seen) == filtered(newer(s, last_seen), filter),
    decreases s.len(),
{
    if s.len() > 0 {
        let dl = s.drop_last();
        let e = s.last();
        lemma_newer_filter_commute(dl, last_seen, filter);
        if spec_matches_filter(e, filter) {
            assert(filtered(dl, filter).push(e).drop_last() =~= filtered(dl, filter));
        }
        if e.seq > last_seen {
            assert(newer(dl, last_seen).push(e).drop_last() =~= newer(dl, last_seen));
        }
    }
}

/// An empty type filter admits every event: the poll view with no
/// filter is the buffer itself.
pub proof fn lemma_filtered_empty_filter(s: Seq<DebugEvent>)
    ensures
        filtered(s, Seq::empty()) == s,
    decreases s.len(),
{
    if s.len() > 0 {
        lemma_filtered_empty_filter(s.drop_last());
        assert(filtered(s, Seq::empty()) =~= s);
    }
}

/// The three read strategies agree. Over one well-ordered buffer:
/// the poll view, the wait view from any cursor, and the subscription
/// view from any cursor each deliver events in strictly increasing
/// sequence order, and on the window they share — events newer than
/// the cursor — the wait view is exactly the filtered subscription
/// view, which with an empty filter is the subscription view itself.
pub proof fn lemma_read_modes_agree(s: Seq<DebugEvent>, last_seen: int, filter: Seq<EventKind>)
    requires
        strictly_increasing(s),
    ensures
        strictly_increasing(filtered(s, filter)),
        strictly_increasing(newer(filtered(s, filter), last_seen)),
        strictly_increasing(newer(s, last_seen)),
        newer(filtered(s, filter), last_seen) == filtered(newer(s, last_seen), filter),
        filter.len() == 0 ==> newer(filtered(s, filter), last_seen) == newer(s, last_seen),
{
    lemma_filtered_increasing(s, filter);
    lemma_newer_increasing(filtered(s, filter), last_seen);
    lemma_newer_increasing(s, last_seen);
    lemma_newer_filter_commute(s, last_seen, filter);
    if filter.len() == 0 {
        lemma_filtered_empty_filter(s);
        assert(filter =~= Seq::<EventKind>::empty());
    }
}

/// A wait sees nothing exactly when no buffered event both matches
/// the filter and is newer than the caller's cursor. The blocking
/// caller therefore returns empty on timeout, never by missing an
/// event that was there.
pub proof fn lemma_wait_empty_iff_none_newer(
    s: Seq<DebugEvent>,
    last_seen: int,
    filter: Seq<EventKind>,
)
    ensures
        newer(filtered(s, filter), last_seen).len() == 0 <==> forall|i: int|
            0 <= i < s.len() ==> !(spec_matches_filter(#[trigger] s[i], filter) && s[i].seq
                > last_seen),
    decreases s.len(),
{
    if s.len() > 0 {
        let dl = s.drop_last();
        let e = s.last();
        lemma_wait_empty_iff_none_newer(dl, last_seen, filter);
        assert(forall|i: int| 0 <= i < dl.len() ==> dl[i] == s[i]);
        if spec_matches_filter(e, filter) {
            assert(filtered(dl, filter).push(e).drop_last() =~= filtered(dl, filter));
        }
        if newer(filtered(s, filter), last_seen).len() == 0 {
            assert forall|i: int| 0 <= i < s.len() implies !(spec_matches_filter(
                #[trigger] s[i],
                filter,
            ) && s[i].seq > last_seen) by {
                if i < s.len() - 1 {
                    assert(dl[i] == s[i]);
                }
            }
        }
    }
}

/// Ingesting a whole list of events, oldest first.
pub open spec fn ingest(b: BufView, xs: Seq<(EventDetails, i64)>) -> BufView
    decreases xs.len(),
{
    if xs.len() == 0 {
        b
    } else {
        push_model(ingest(b, xs.drop_last()), xs.last().0, xs.last().1)
    }
}

/// What ingesting `xs` into a fresh buffer leaves behind: the last
/// `min(len, capacity)` inserted events, numbered consecutively, with
/// everything older counted as dropped.
pub proof fn lemma_ingest_profile(b: BufView, xs: Seq<(EventDetails, i64)>)
    requires
        b.wf(),
        b.events.len() == 0,
        b.dropped == 0,
        b.next_seq + xs.len() <= u64::MAX,
    ensures
        ingest(b, xs).capacity == b.capacity,
        ingest(b, xs).next_seq == b.next_seq + xs.len(),
        ingest(b, xs).events.len() == if xs.len() <= b.capacity {
            xs.len() as int
        } else {
            b.capacity
        },
        ingest(b, xs).dropped == if xs.len() <= b.capacity {
            0
        } else {
            xs.len() - b.capacity
        },
        forall|i: int|
            0 <= i < ingest(b, xs).events.len() ==> {
                let start = xs.len() - ingest(b, xs).events.len();
                (#[trigger] ingest(b, xs).events[i]).details == xs[start + i].0
                    && ingest(b, xs).events[i].timestamp == xs[start + i].1
                    && ingest(b, xs).events[i].seq == b.next_seq + start + i
            },
    decreases xs.len(),
{
    if xs.len() > 0 {
        lemma_ingest_profile(b, xs.drop_last());
    }
}

/// Buffer overflow is first in, first out: inserting `capacity + k`
/// events into a fresh buffer retains exactly `capacity` of them, the
/// dropped counter reads `k`, and the oldest retained event is the
/// `(k+1)`-th inserted.
pub proof fn lemma_overflow_evicts_oldest(b: BufView, xs: Seq<(EventDetails, i64)>, k: int)
    requires
        b.wf(),
        b.events.len() == 0,
        b.dropped == 0,
        0 <= k,
        xs.len() == b.capacity + k,
        b.next_seq + xs.len() <= u64::MAX,
    ensures
        ingest(b, xs).events.len() == b.capacity,
        ingest(b, xs).dropped == k,
        ingest(b, xs).events[0].details == xs[k].0,
        ingest(b, xs).events[0].timestamp == xs[k].1,
    decreases xs.len(),
{
    lemma_ingest_profile(b, xs);
}

} // verus!
