//! What holds of the derived state whatever the events: the records of a
//! view only move forward, messages join two nodes and never go back in
//! time, and the segments tile the trace's time span.
use vstd::prelude::*;
use crate::events::kind_is_send;
use crate::state::builders::{
    edges_upto, first_sends, first_ts, kind_status, last_ts, lemma_first_sends_in_range,
    record_after, segment_bound, segments_built, status_rank, trunc_div, view_states_upto,
};
use crate::state::sort::{event_key, is_stable_sort};
use crate::state::trace::ordered_and_numbered;
use crate::state::types::{Event, TimeSegment, ViewRecord, ViewStatus};

verus! {

/// `new` is what `old` became: same node and view, a status that ranks no
/// lower, and every time and leader that was known kept.
pub open spec fn record_moved_forward(old: ViewRecord, new: ViewRecord) -> bool {
    &&& new.node_id == old.node_id
    &&& new.view == old.view
    &&& status_rank(new.status) >= status_rank(old.status)
    &&& (old.leader is Some ==> new.leader == old.leader)
    &&& (old.entered_ns is Some ==> new.entered_ns == old.entered_ns)
    &&& (old.proposal_ns is Some ==> new.proposal_ns == old.proposal_ns)
    &&& (old.notarized_ns is Some ==> new.notarized_ns == old.notarized_ns)
    &&& (old.nullified_ns is Some ==> new.nullified_ns == old.nullified_ns)
    &&& (old.finalized_ns is Some ==> new.finalized_ns == old.finalized_ns)
}

/// Each record is filed under its own node and view.
pub proof fn lemma_view_records_keyed(events: Seq<Event>, i: int)
    ensures
        forall|key: (u8, u64)| #[trigger] view_states_upto(events, i).contains_key(key) ==> {
            &&& view_states_upto(events, i)[key].node_id == key.0
            &&& view_states_upto(events, i)[key].view == key.1
        },
    decreases i,
{
    if i > 0 {
        lemma_view_records_keyed(events, i - 1);
    }
}

/// A later event never takes a record back: once a node has a record of a
/// view, every later state of the records has one that moved forward from it.
pub proof fn lemma_view_records_move_forward(events: Seq<Event>, i: int, j: int, key: (u8, u64))
    requires
        0 <= i <= j,
        view_states_upto(events, i).contains_key(key),
    ensures
        view_states_upto(events, j).contains_key(key),
        record_moved_forward(view_states_upto(events, i)[key], view_states_upto(events, j)[key]),
    decreases j - i,
{
    if i < j {
        lemma_view_records_move_forward(events, i, j - 1, key);
        lemma_view_records_keyed(events, j - 1);
    }
}

/// The sends recorded for each message id are sends of that message.
pub proof fn lemma_first_sends_are_sends(events: Seq<Event>, i: int)
    requires
        0 <= i <= events.len(),
    ensures
        forall|k: Seq<char>| #[trigger] first_sends(events, i).contains_key(k) ==> {
            let s = events[first_sends(events, i)[k]];
            &&& kind_is_send(s.kind)
            &&& s.message_id matches Some(mid) && mid@ == k
        },
    decreases i,
{
    if i > 0 {
        lemma_first_sends_are_sends(events, i - 1);
        lemma_first_sends_in_range(events, i - 1);
    }
}

/// Every edge goes from a send to a receipt on another node; where the
/// timestamps never decrease along the events, no edge goes back in time.
pub proof fn lemma_edges_join_nodes(events: Seq<Event>, i: int)
    requires
        0 <= i <= events.len(),
    ensures
        forall|k: int| 0 <= k < edges_upto(events, i).len() ==> {
            let e = #[trigger] edges_upto(events, i)[k];
            &&& e.1 != e.2
            &&& kind_is_send(e.5)
        },
        (forall|a: int, b: int| 0 <= a <= b < events.len() ==> #[trigger] events[a].raw.timestamp_ns
            <= #[trigger] events[b].raw.timestamp_ns) ==> forall|k: int|
            0 <= k < edges_upto(events, i).len() ==> (#[trigger] edges_upto(events, i)[k]).3 <= edges_upto(
                events,
                i,
            )[k].4,
    decreases i,
{
    if i > 0 {
        lemma_edges_join_nodes(events, i - 1);
        lemma_first_sends_are_sends(events, i - 1);
        lemma_first_sends_in_range(events, i - 1);
        let prev = edges_upto(events, i - 1);
        let cur = edges_upto(events, i);
        let e = events[i - 1];
        let sends = first_sends(events, i - 1);
        if cur.len() != prev.len() {
            let mid = e.message_id->0;
            let s = events[sends[mid@]];
            assert(cur == prev.push((mid@, s.raw.node_id, e.raw.node_id, s.raw.timestamp_ns, e.raw.timestamp_ns, s.kind)));
            assert(sends.contains_key(mid@));
            assert(0 <= sends[mid@] < i - 1);
        } else {
            assert(cur == prev);
        }
        assert forall|k: int| 0 <= k < prev.len() implies #[trigger] cur[k] == prev[k] by {}
    }
}

/// In a trace as `build_trace` orders it, timestamps never decrease.
pub proof fn lemma_ordered_timestamps(old: Seq<Event>, new: Seq<Event>)
    requires
        ordered_and_numbered(old, new),
    ensures
        forall|a: int, b: int| 0 <= a <= b < new.len() ==> #[trigger] new[a].raw.timestamp_ns
            <= #[trigger] new[b].raw.timestamp_ns,
{
    let (s, p) = choose|s: Seq<Event>, p: Seq<int>|
        #[trigger] is_stable_sort(old, s, p) && new.len() == s.len() && forall|i: int|
            0 <= i < new.len() ==> #[trigger] new[i] == (Event { id: i as u64, ..s[i] });
    assert forall|a: int, b: int| 0 <= a <= b < new.len() implies #[trigger] new[a].raw.timestamp_ns
        <= #[trigger] new[b].raw.timestamp_ns by {
        assert(new[a].raw == s[a].raw);
        assert(new[b].raw == s[b].raw);
        if a < b {
            assert(event_key(s[a]).0 == s[a].raw.timestamp_ns);
            assert(event_key(s[b]).0 == s[b].raw.timestamp_ns);
        }
    }
}

/// In a trace as `build_trace` orders it, every edge joins two nodes, starts
/// at a send, and its receipt is no earlier than its send.
pub proof fn lemma_trace_edges(old: Seq<Event>, new: Seq<Event>)
    requires
        ordered_and_numbered(old, new),
    ensures
        forall|k: int| 0 <= k < edges_upto(new, new.len() as int).len() ==> {
            let e = #[trigger] edges_upto(new, new.len() as int)[k];
            &&& e.1 != e.2
            &&& kind_is_send(e.5)
            &&& e.3 <= e.4
        },
{
    lemma_ordered_timestamps(old, new);
    lemma_edges_join_nodes(new, new.len() as int);
}

/// The segments tile the trace's time span: the first starts at the first
/// timestamp, each ends where the next starts, the last ends at the last
/// timestamp, and none ends before it starts.
pub proof fn lemma_segments_tile(events: Seq<Event>, n: int, r: Seq<TimeSegment>)
    requires
        segments_built(events, n, r),
        events.len() > 0,
        n > 0,
    ensures
        r.len() >= 1,
        r[0].start_ns == first_ts(events),
        r[r.len() - 1].end_ns == last_ts(events),
        forall|i: int| 0 <= i < r.len() - 1 ==> (#[trigger] r[i]).end_ns == r[i + 1].start_ns,
        first_ts(events) <= last_ts(events) ==> forall|i: int| 0 <= i < r.len() ==> (#[trigger] r[i]).start_ns
            <= r[i].end_ns,
{
    if last_ts(events) != first_ts(events) {
        let min = first_ts(events) as int;
        let span = last_ts(events) - first_ts(events);
        assert(trunc_div(span * n, n) == span) by {
            if span >= 0 {
                assert(span * n >= 0 && (span * n) / n == span) by (nonlinear_arith)
                    requires
                        n > 0,
                        span >= 0,
                ;
            } else {
                assert(span * n < 0 && (-(span * n)) / n == -span) by (nonlinear_arith)
                    requires
                        n > 0,
                        span < 0,
                ;
            }
        }
        assert(r[0].start_ns == segment_bound(min, span, 0, n));
        assert(r[n - 1].end_ns == segment_bound(min, span, n, n));
        if span > 0 {
            assert forall|i: int| 0 <= i < r.len() implies (#[trigger] r[i]).start_ns <= r[i].end_ns by {
                lemma_trunc_div_step(span, i, n);
            }
        }
    }
}

/// Segment bounds move the way the span goes.
proof fn lemma_trunc_div_step(span: int, i: int, n: int)
    requires
        0 <= i,
        n > 0,
    ensures
        span >= 0 ==> trunc_div(span * i, n) <= trunc_div(span * (i + 1), n),
        span < 0 ==> trunc_div(span * i, n) >= trunc_div(span * (i + 1), n),
{
    if span >= 0 {
        assert(0 <= span * i <= span * (i + 1)) by (nonlinear_arith)
            requires
                span >= 0,
                i >= 0,
        ;
        assert((span * i) / n <= (span * (i + 1)) / n) by (nonlinear_arith)
            requires
                0 <= span * i <= span * (i + 1),
                n > 0,
        ;
    } else {
        let a = -span;
        assert(span * i == -(a * i) && span * (i + 1) == -(a * (i + 1))) by (nonlinear_arith)
            requires
                a == -span,
        ;
        assert(0 <= a * i <= a * (i + 1)) by (nonlinear_arith)
            requires
                a > 0,
                i >= 0,
        ;
        assert((a * i) / n <= (a * (i + 1)) / n) by (nonlinear_arith)
            requires
                0 <= a * i <= a * (i + 1),
                n > 0,
        ;
        if a * i == 0 {
            assert(trunc_div(span * i, n) == 0);
        }
    }
}

// ============================================================================
// View records, stated directly
// ============================================================================

/// The event marks a stage of the view `key.1` on the node `key.0`.
pub open spec fn touches(e: Event, key: (u8, u64)) -> bool {
    e.raw.node_id == key.0 && e.view == Some(key.1) && kind_status(e.kind) is Some
}

/// The stage that an event marks.
pub open spec fn stage(e: Event) -> ViewStatus {
    kind_status(e.kind)->0
}

/// Among the first `n` events, `st` is the highest-ranked stage marked for `key`.
pub open spec fn status_is(events: Seq<Event>, n: int, key: (u8, u64), st: ViewStatus) -> bool {
    &&& exists|j: int| 0 <= j < n && #[trigger] touches(events[j], key) && stage(events[j]) == st
    &&& forall|j: int| 0 <= j < n && #[trigger] touches(events[j], key) ==> status_rank(stage(events[j])) <= status_rank(st)
}

/// Among the first `n` events, `t` is the time of the first that marks a
/// stage `a` or `b` for `key`, or `None` when none does.
pub open spec fn first_time_is(events: Seq<Event>, n: int, key: (u8, u64), a: ViewStatus, b: ViewStatus, t: Option<i128>) -> bool {
    match t {
        Some(x) => exists|j: int|
            0 <= j < n && #[trigger] touches(events[j], key) && (stage(events[j]) == a || stage(events[j]) == b)
                && events[j].raw.timestamp_ns == x && forall|k: int|
                0 <= k < j && #[trigger] touches(events[k], key) ==> !(stage(events[k]) == a || stage(events[k]) == b),
        None => forall|j: int| 0 <= j < n && #[trigger] touches(events[j], key) ==> !(stage(events[j]) == a || stage(events[j]) == b),
    }
}

/// Among the first `n` events, `l` is the first leader named by an event
/// that marks a stage for `key`, or `None` when none names one.
pub open spec fn leader_is(events: Seq<Event>, n: int, key: (u8, u64), l: Option<u8>) -> bool {
    match l {
        Some(x) => exists|j: int|
            0 <= j < n && #[trigger] touches(events[j], key) && events[j].leader == Some(x)
                && forall|k: int| 0 <= k < j && #[trigger] touches(events[k], key) ==> events[k].leader is None,
        None => forall|j: int| 0 <= j < n && #[trigger] touches(events[j], key) ==> events[j].leader is None,
    }
}

/// The record of `key` as the events before `n` determine it.
pub open spec fn record_facts(events: Seq<Event>, n: int, key: (u8, u64), r: ViewRecord) -> bool {
    &&& r.node_id == key.0
    &&& r.view == key.1
    &&& status_is(events, n, key, r.status)
    &&& leader_is(events, n, key, r.leader)
    &&& first_time_is(events, n, key, ViewStatus::Entered, ViewStatus::ProposalReceived, r.entered_ns)
    &&& first_time_is(events, n, key, ViewStatus::ProposalReceived, ViewStatus::ProposalReceived, r.proposal_ns)
    &&& first_time_is(events, n, key, ViewStatus::Notarized, ViewStatus::Notarized, r.notarized_ns)
    &&& first_time_is(events, n, key, ViewStatus::Nullified, ViewStatus::Nullified, r.nullified_ns)
    &&& first_time_is(events, n, key, ViewStatus::Finalized, ViewStatus::Finalized, r.finalized_ns)
}

/// What the view records are, stated directly: a node has a record of a view
/// exactly when some event marks a stage of that view on that node; its
/// status is the highest-ranked stage marked; its leader is the first one
/// named; the time it entered the view is that of the first event that
/// marks it entered or proposed, and each other stage's time is that of the
/// first event that marks the stage.
pub proof fn lemma_view_records_direct(events: Seq<Event>, n: int, key: (u8, u64))
    requires
        0 <= n <= events.len(),
    ensures
        view_states_upto(events, n).contains_key(key) <==> exists|j: int| 0 <= j < n && #[trigger] touches(events[j], key),
        view_states_upto(events, n).contains_key(key) ==> record_facts(events, n, key, view_states_upto(events, n)[key]),
    decreases n,
{
    if n > 0 {
        lemma_view_records_direct(events, n - 1, key);
        let e = events[n - 1];
        let m = view_states_upto(events, n - 1);
        let cur = view_states_upto(events, n);
        if touches(e, key) {
            assert(touches(events[n - 1], key));
            if m.contains_key(key) {
                lemma_step_existing(events, n, key);
            } else {
                lemma_step_fresh(events, n, key);
            }
        } else {
            assert(cur.contains_key(key) == m.contains_key(key));
            if m.contains_key(key) {
                assert(cur[key] == m[key]);
                lemma_facts_extend(events, n, key, m[key]);
            }
            assert((exists|j: int| 0 <= j < n && #[trigger] touches(events[j], key)) == (exists|j: int|
                0 <= j < n - 1 && #[trigger] touches(events[j], key))) by {
                if exists|j: int| 0 <= j < n && #[trigger] touches(events[j], key) {
                    let j = choose|j: int| 0 <= j < n && #[trigger] touches(events[j], key);
                    assert(j < n - 1);
                }
            }
        }
    }
}

/// Facts about a record carry over an event that does not touch it.
proof fn lemma_facts_extend(events: Seq<Event>, n: int, key: (u8, u64), r: ViewRecord)
    requires
        0 < n <= events.len(),
        !touches(events[n - 1], key),
        record_facts(events, n - 1, key, r),
    ensures
        record_facts(events, n, key, r),
{
}

proof fn lemma_step_fresh(events: Seq<Event>, n: int, key: (u8, u64))
    requires
        0 < n <= events.len(),
        touches(events[n - 1], key),
        !view_states_upto(events, n - 1).contains_key(key),
        !exists|j: int| 0 <= j < n - 1 && #[trigger] touches(events[j], key),
    ensures
        view_states_upto(events, n).contains_key(key),
        record_facts(events, n, key, view_states_upto(events, n)[key]),
{
}

/// One more event that touches the key updates a stage's time as a record
/// does: set to its time when unknown and the event marks the stage.
proof fn lemma_step_time(events: Seq<Event>, n: int, key: (u8, u64), a: ViewStatus, b: ViewStatus, old_t: Option<i128>, new_t: Option<i128>)
    requires
        0 < n <= events.len(),
        touches(events[n - 1], key),
        first_time_is(events, n - 1, key, a, b, old_t),
        new_t == (if old_t is None && (stage(events[n - 1]) == a || stage(events[n - 1]) == b) {
            Some(events[n - 1].raw.timestamp_ns)
        } else {
            old_t
        }),
    ensures
        first_time_is(events, n, key, a, b, new_t),
{
    if old_t is Some {
        let x = old_t->0;
        let j = choose|j: int|
            0 <= j < n - 1 && #[trigger] touches(events[j], key) && (stage(events[j]) == a || stage(events[j]) == b)
                && events[j].raw.timestamp_ns == x && forall|k: int|
                0 <= k < j && #[trigger] touches(events[k], key) ==> !(stage(events[k]) == a || stage(events[k]) == b);
        assert(touches(events[j], key));
    } else if stage(events[n - 1]) == a || stage(events[n - 1]) == b {
        assert(touches(events[n - 1], key));
    }
}

proof fn lemma_step_status(events: Seq<Event>, n: int, key: (u8, u64), old_s: ViewStatus, new_s: ViewStatus)
    requires
        0 < n <= events.len(),
        touches(events[n - 1], key),
        status_is(events, n - 1, key, old_s),
        new_s == (if status_rank(stage(events[n - 1])) > status_rank(old_s) { stage(events[n - 1]) } else { old_s }),
    ensures
        status_is(events, n, key, new_s),
{
    let j = choose|j: int| 0 <= j < n - 1 && #[trigger] touches(events[j], key) && stage(events[j]) == old_s;
    assert(touches(events[j], key));
    assert(touches(events[n - 1], key));
}

proof fn lemma_step_leader(events: Seq<Event>, n: int, key: (u8, u64), old_l: Option<u8>, new_l: Option<u8>)
    requires
        0 < n <= events.len(),
        touches(events[n - 1], key),
        leader_is(events, n - 1, key, old_l),
        new_l == (if events[n - 1].leader is Some && old_l is None { events[n - 1].leader } else { old_l }),
    ensures
        leader_is(events, n, key, new_l),
{
    if old_l is Some {
        let x = old_l->0;
        let j = choose|j: int|
            0 <= j < n - 1 && #[trigger] touches(events[j], key) && events[j].leader == Some(x)
                && forall|k: int| 0 <= k < j && #[trigger] touches(events[k], key) ==> events[k].leader is None;
        assert(touches(events[j], key));
    } else if events[n - 1].leader is Some {
        assert(touches(events[n - 1], key));
    }
}

proof fn lemma_step_existing(events: Seq<Event>, n: int, key: (u8, u64))
    requires
        0 < n <= events.len(),
        touches(events[n - 1], key),
        view_states_upto(events, n - 1).contains_key(key),
        record_facts(events, n - 1, key, view_states_upto(events, n - 1)[key]),
    ensures
        view_states_upto(events, n).contains_key(key),
        record_facts(events, n, key, view_states_upto(events, n)[key]),
{
    let e = events[n - 1];
    let old = view_states_upto(events, n - 1)[key];
    let r = view_states_upto(events, n)[key];
    let st = stage(e);
    assert(r == record_after(old, e.leader, st, e.raw.timestamp_ns));
    lemma_step_status(events, n, key, old.status, r.status);
    lemma_step_leader(events, n, key, old.leader, r.leader);
    if old.proposal_ns is Some {
        let x = old.proposal_ns->0;
        let j = choose|j: int|
            0 <= j < n - 1 && #[trigger] touches(events[j], key) && (stage(events[j]) == ViewStatus::ProposalReceived
                || stage(events[j]) == ViewStatus::ProposalReceived) && events[j].raw.timestamp_ns == x && forall|k: int|
                0 <= k < j && #[trigger] touches(events[k], key) ==> !(stage(events[k]) == ViewStatus::ProposalReceived
                    || stage(events[k]) == ViewStatus::ProposalReceived);
        assert(touches(events[j], key));
        assert(old.entered_ns is Some);
    }
    lemma_step_time(events, n, key, ViewStatus::Entered, ViewStatus::ProposalReceived, old.entered_ns, r.entered_ns);
    lemma_step_time(events, n, key, ViewStatus::ProposalReceived, ViewStatus::ProposalReceived, old.proposal_ns, r.proposal_ns);
    lemma_step_time(events, n, key, ViewStatus::Notarized, ViewStatus::Notarized, old.notarized_ns, r.notarized_ns);
    lemma_step_time(events, n, key, ViewStatus::Nullified, ViewStatus::Nullified, old.nullified_ns, r.nullified_ns);
    lemma_step_time(events, n, key, ViewStatus::Finalized, ViewStatus::Finalized, old.finalized_ns, r.finalized_ns);
}

/// The records after `n` events depend on those `n` events only.
proof fn lemma_view_records_prefix(a: Seq<Event>, b: Seq<Event>, n: int)
    requires
        0 <= n <= a.len(),
        n <= b.len(),
        a.subrange(0, n) == b.subrange(0, n),
    ensures
        view_states_upto(a, n) == view_states_upto(b, n),
    decreases n,
{
    if n > 0 {
        assert(a.subrange(0, n - 1) =~= b.subrange(0, n - 1)) by {
            assert forall|k: int| 0 <= k < n - 1 implies #[trigger] a.subrange(0, n - 1)[k] == b.subrange(0, n - 1)[k] by {
                assert(a.subrange(0, n)[k] == b.subrange(0, n)[k]);
            }
        }
        assert(a[n - 1] == b[n - 1]) by {
            let sa = a.subrange(0, n);
            let sb = b.subrange(0, n);
            assert(sa[n - 1] == a[n - 1]);
            assert(sb[n - 1] == b[n - 1]);
            assert(sa == sb);
        }
        lemma_view_records_prefix(a, b, n - 1);
    }
}

/// The events that can change the records: those that name a view and whose
/// kind marks a stage of a view.
pub open spec fn marks_a_view(e: Event) -> bool {
    e.view is Some && kind_status(e.kind) is Some
}

/// The records have exactly one key for each (node, view) pair of an event
/// that marks a stage of that view, and each record is filed under its own
/// node and view.
pub proof fn lemma_view_record_keys(events: Seq<Event>)
    ensures
        forall|key: (u8, u64)| #[trigger] view_states_upto(events, events.len() as int).contains_key(key) <==> exists|j: int|
            0 <= j < events.len() && marks_a_view(#[trigger] events[j]) && events[j].raw.node_id == key.0 && events[j].view == Some(key.1),
        forall|key: (u8, u64)| #[trigger] view_states_upto(events, events.len() as int).contains_key(key) ==> {
            &&& view_states_upto(events, events.len() as int)[key].node_id == key.0
            &&& view_states_upto(events, events.len() as int)[key].view == key.1
        },
{
    lemma_view_records_keyed(events, events.len() as int);
    assert forall|key: (u8, u64)| #[trigger] view_states_upto(events, events.len() as int).contains_key(key) <==> exists|j: int|
        0 <= j < events.len() && marks_a_view(#[trigger] events[j]) && events[j].raw.node_id == key.0 && events[j].view == Some(key.1) by {
        lemma_view_records_direct(events, events.len() as int, key);
        if exists|j: int| 0 <= j < events.len() && marks_a_view(#[trigger] events[j]) && events[j].raw.node_id == key.0 && events[j].view == Some(key.1) {
            let j = choose|j: int| 0 <= j < events.len() && marks_a_view(#[trigger] events[j]) && events[j].raw.node_id == key.0 && events[j].view == Some(key.1);
            assert(touches(events[j], key));
        }
        if exists|j: int| 0 <= j < events.len() && #[trigger] touches(events[j], key) {
            let j = choose|j: int| 0 <= j < events.len() && #[trigger] touches(events[j], key);
            assert(marks_a_view(events[j]));
        }
    }
}

proof fn lemma_insert_unmarked_upto(events: Seq<Event>, k: int, e: Event, n: int)
    requires
        0 <= k <= events.len(),
        k <= n <= events.len(),
        !marks_a_view(e),
    ensures
        view_states_upto(events.insert(k, e), n + 1) == view_states_upto(events, n),
    decreases n,
{
    let ins = events.insert(k, e);
    if n == k {
        assert(ins.subrange(0, k) =~= events.subrange(0, k));
        lemma_view_records_prefix(ins, events, k);
        assert(ins[k] == e);
    } else {
        lemma_insert_unmarked_upto(events, k, e, n - 1);
        assert(ins[n] == events[n - 1]);
    }
}

/// An event that names no view, or whose kind marks no stage of a view,
/// changes nothing wherever it is put in the events or taken out of them.
pub proof fn lemma_unmarked_events_change_nothing(events: Seq<Event>, k: int, e: Event)
    requires
        0 <= k <= events.len(),
        !marks_a_view(e),
    ensures
        view_states_upto(events.insert(k, e), events.len() + 1int) == view_states_upto(events, events.len() as int),
        k < events.len() && !marks_a_view(events[k]) ==> view_states_upto(events.remove(k), events.len() - 1)
            == view_states_upto(events, events.len() as int),
{
    lemma_insert_unmarked_upto(events, k, e, events.len() as int);
    if k < events.len() && !marks_a_view(events[k]) {
        let r = events.remove(k);
        assert(r.insert(k, events[k]) =~= events);
        lemma_insert_unmarked_upto(r, k, events[k], r.len() as int);
    }
}

} // verus!
