//! Derived state built from the sorted events: message edges, per-view
//! records, time segments and the trace's metadata.
use vstd::prelude::*;
use vstd::hash_map::StringHashMap;
use std::collections::BTreeMap;
use crate::events::{
    kind_color, kind_is_recv, kind_is_send, kind_label, tag_category,
    kind_of_tag, kind_tag, lemma_tag_round_trip, EventCategory, EventKind,
};
use crate::state::laws::{lemma_view_records_direct, record_facts, touches};
use crate::state::types::{Edge, Event, EventMeta, Metadata, TimeSegment, ViewRecord, ViewStatus};

verus! {

broadcast use vstd::string::group_string_axioms;

// ============================================================================
// Event ids
// ============================================================================

/// Number the events by their position.
pub fn assign_ids(events: &mut Vec<Event>)
    ensures
        final(events)@.len() == old(events)@.len(),
        forall|i: int| 0 <= i < final(events)@.len() ==> #[trigger] final(events)@[i] == (Event {
            id: i as u64,
            ..old(events)@[i]
        }),
{
    let ghost old_events = events@;
    let mut i: usize = 0;
    while i < events.len()
        invariant
            0 <= i <= events@.len(),
            events@.len() == old_events.len(),
            forall|k: int| 0 <= k < i ==> #[trigger] events@[k] == (Event { id: k as u64, ..old_events[k] }),
            forall|k: int| i <= k < events@.len() ==> #[trigger] events@[k] == old_events[k],
        decreases events@.len() - i,
    {
        events[i].id = i as u64;
        i = i + 1;
    }
}

// ============================================================================
// Edges
// ============================================================================

/// An edge with its message id taken by its characters.
pub open spec fn edge_view(e: Edge) -> (Seq<char>, u8, u8, i128, i128, EventKind) {
    (e.message_id@, e.from_node, e.to_node, e.send_ts_ns, e.recv_ts_ns, e.kind)
}

/// For each message id, the index of the first send among the first `i` events.
pub open spec fn first_sends(events: Seq<Event>, i: int) -> Map<Seq<char>, int>
    decreases i,
{
    if i <= 0 {
        Map::empty()
    } else {
        let m = first_sends(events, i - 1);
        let e = events[i - 1];
        match e.message_id {
            Some(mid) => if kind_is_send(e.kind) && !m.contains_key(mid@) {
                m.insert(mid@, i - 1)
            } else {
                m
            },
            None => m,
        }
    }
}

/// The edges found among the first `i` events: a receipt whose message id
/// was sent earlier, from another node, is an edge from the first such send.
pub open spec fn edges_upto(events: Seq<Event>, i: int) -> Seq<(Seq<char>, u8, u8, i128, i128, EventKind)>
    decreases i,
{
    if i <= 0 {
        Seq::empty()
    } else {
        let prev = edges_upto(events, i - 1);
        let e = events[i - 1];
        let sends = first_sends(events, i - 1);
        match e.message_id {
            Some(mid) => if !kind_is_send(e.kind) && kind_is_recv(e.kind) && sends.contains_key(mid@)
                && events[sends[mid@]].raw.node_id != e.raw.node_id {
                let s = events[sends[mid@]];
                prev.push((mid@, s.raw.node_id, e.raw.node_id, s.raw.timestamp_ns, e.raw.timestamp_ns, s.kind))
            } else {
                prev
            },
            None => prev,
        }
    }
}

/// The first sends among the first `i` events are indices below `i`.
pub proof fn lemma_first_sends_in_range(events: Seq<Event>, i: int)
    requires
        0 <= i <= events.len(),
    ensures
        forall|k: Seq<char>| #[trigger] first_sends(events, i).contains_key(k) ==> 0 <= first_sends(events, i)[k] < i,
    decreases i,
{
    if i > 0 {
        lemma_first_sends_in_range(events, i - 1);
        let m = first_sends(events, i - 1);
        assert forall|k: Seq<char>| #[trigger] first_sends(events, i).contains_key(k) implies 0
            <= first_sends(events, i)[k] < i by {
            if m.contains_key(k) {
                assert(0 <= m[k] < i - 1);
            }
        }
    }
}

/// Build the edges between sends and receipts of the same message.
pub fn build_edges(events: &Vec<Event>) -> (r: Vec<Edge>)
    ensures
        r@.map_values(|e: Edge| edge_view(e)) == edges_upto(events@, events@.len() as int),
{
    let mut edges: Vec<Edge> = Vec::new();
    let mut sends: StringHashMap<usize> = StringHashMap::new();
    let mut i: usize = 0;
    while i < events.len()
        invariant
            0 <= i <= events@.len(),
            forall|k: Seq<char>| #[trigger] sends@.contains_key(k) <==> first_sends(events@, i as int).contains_key(k),
            forall|k: Seq<char>| #[trigger] sends@.contains_key(k) ==> sends@[k] as int == first_sends(events@, i as int)[k],
            edges@.map_values(|e: Edge| edge_view(e)) == edges_upto(events@, i as int),
        decreases events@.len() - i,
    {
        proof { lemma_first_sends_in_range(events@, i as int); }
        let ev = &events[i];
        if let Some(mid) = &ev.message_id {
            if ev.kind.is_send() {
                if !sends.contains_key(mid.as_str()) {
                    sends.insert(mid.clone(), i);
                }
            } else if ev.kind.is_recv() {
                match sends.get(mid.as_str()) {
                    Some(s) => {
                        let send_ev = &events[*s];
                        if send_ev.raw.node_id != ev.raw.node_id {
                            let ghost old_edges = edges@;
                            let edge = Edge {
                                message_id: mid.clone(),
                                from_node: send_ev.raw.node_id,
                                to_node: ev.raw.node_id,
                                send_ts_ns: send_ev.raw.timestamp_ns,
                                recv_ts_ns: ev.raw.timestamp_ns,
                                kind: send_ev.kind,
                            };
                            edges.push(edge);
                            assert(edges@.map_values(|e: Edge| edge_view(e)) =~= old_edges.map_values(
                                |e: Edge| edge_view(e),
                            ).push(edge_view(edge)));
                        }
                    },
                    None => {},
                }
            }
        }
        i = i + 1;
    }
    edges
}

// ============================================================================
// View records
// ============================================================================

/// The rank of a view status: later stages rank higher.
pub open spec fn status_rank(s: ViewStatus) -> u8 {
    match s {
        ViewStatus::Entered => 1,
        ViewStatus::ProposalReceived => 2,
        ViewStatus::Notarized => 3,
        ViewStatus::Nullified => 4,
        ViewStatus::Finalized => 5,
    }
}

/// The rank of a view status.
pub fn precedence(status: &ViewStatus) -> (r: u8)
    ensures
        r == status_rank(*status),
{
    match status {
        ViewStatus::Entered => 1,
        ViewStatus::ProposalReceived => 2,
        ViewStatus::Notarized => 3,
        ViewStatus::Nullified => 4,
        ViewStatus::Finalized => 5,
    }
}

/// The stage of a view that an event kind marks, if any.
pub open spec fn kind_status(k: EventKind) -> Option<ViewStatus> {
    match k {
        EventKind::LeaderElected => Some(ViewStatus::Entered),
        EventKind::ProposalReceived | EventKind::ProposalRequested => Some(ViewStatus::ProposalReceived),
        EventKind::NotarizeBroadcast | EventKind::NotarizedBuilt | EventKind::NotarizationReceived => Some(ViewStatus::Notarized),
        EventKind::NullifyBroadcast | EventKind::NullifiedBuilt | EventKind::NullificationReceived => Some(ViewStatus::Nullified),
        EventKind::FinalizeBroadcast | EventKind::FinalizedBuilt | EventKind::FinalizationReceived => Some(ViewStatus::Finalized),
        _ => None,
    }
}

fn kind_status_exec(k: EventKind) -> (r: Option<ViewStatus>)
    ensures
        r == kind_status(k),
{
    match k {
        EventKind::LeaderElected => Some(ViewStatus::Entered),
        EventKind::ProposalReceived | EventKind::ProposalRequested => Some(ViewStatus::ProposalReceived),
        EventKind::NotarizeBroadcast | EventKind::NotarizedBuilt | EventKind::NotarizationReceived => Some(ViewStatus::Notarized),
        EventKind::NullifyBroadcast | EventKind::NullifiedBuilt | EventKind::NullificationReceived => Some(ViewStatus::Nullified),
        EventKind::FinalizeBroadcast | EventKind::FinalizedBuilt | EventKind::FinalizationReceived => Some(ViewStatus::Finalized),
        _ => None,
    }
}

/// A record as an event finds it: the existing one, else a fresh record.
pub open spec fn record_before(old: Option<ViewRecord>, node_id: u8, view: u64, leader: Option<u8>) -> ViewRecord {
    match old {
        Some(r) => r,
        None => ViewRecord {
            node_id,
            view,
            status: ViewStatus::Entered,
            leader,
            entered_ns: None,
            proposal_ns: None,
            notarized_ns: None,
            nullified_ns: None,
            finalized_ns: None,
        },
    }
}

/// A record after an event of a given stage: the leader is filled in if
/// unknown, the status rises to the stage if it ranks higher, and the time of
/// the stage is recorded if it was not yet (a proposal also marks the view
/// entered if that time is unknown).
pub open spec fn record_after(r0: ViewRecord, leader: Option<u8>, st: ViewStatus, ts: i128) -> ViewRecord {
    let r1 = if leader is Some && r0.leader is None { ViewRecord { leader, ..r0 } } else { r0 };
    let r2 = if status_rank(st) > status_rank(r1.status) { ViewRecord { status: st, ..r1 } } else { r1 };
    match st {
        ViewStatus::Entered => if r2.entered_ns is None { ViewRecord { entered_ns: Some(ts), ..r2 } } else { r2 },
        ViewStatus::ProposalReceived => if r2.proposal_ns is None {
            ViewRecord {
                proposal_ns: Some(ts),
                entered_ns: if r2.entered_ns is None { Some(ts) } else { r2.entered_ns },
                ..r2
            }
        } else {
            r2
        },
        ViewStatus::Notarized => if r2.notarized_ns is None { ViewRecord { notarized_ns: Some(ts), ..r2 } } else { r2 },
        ViewStatus::Nullified => if r2.nullified_ns is None { ViewRecord { nullified_ns: Some(ts), ..r2 } } else { r2 },
        ViewStatus::Finalized => if r2.finalized_ns is None { ViewRecord { finalized_ns: Some(ts), ..r2 } } else { r2 },
    }
}

/// The records built from the first `i` events, by node and view.
pub open spec fn view_states_upto(events: Seq<Event>, i: int) -> Map<(u8, u64), ViewRecord>
    decreases i,
{
    if i <= 0 {
        Map::empty()
    } else {
        let m = view_states_upto(events, i - 1);
        let e = events[i - 1];
        match (e.view, kind_status(e.kind)) {
            (Some(v), Some(st)) => {
                let key = (e.raw.node_id, v);
                let r0 = record_before(if m.contains_key(key) { Some(m[key]) } else { None }, e.raw.node_id, v, e.leader);
                m.insert(key, record_after(r0, e.leader, st, e.raw.timestamp_ns))
            },
            _ => m,
        }
    }
}

fn record_after_exec(r0: ViewRecord, leader: Option<u8>, st: ViewStatus, ts: i128) -> (r: ViewRecord)
    ensures
        r == record_after(r0, leader, st, ts),
{
    let mut r = r0;
    if leader.is_some() && r.leader.is_none() {
        r.leader = leader;
    }
    if precedence(&st) > precedence(&r.status) {
        r.status = st;
    }
    match st {
        ViewStatus::Entered => {
            if r.entered_ns.is_none() {
                r.entered_ns = Some(ts);
            }
        },
        ViewStatus::ProposalReceived => {
            if r.proposal_ns.is_none() {
                r.proposal_ns = Some(ts);
                if r.entered_ns.is_none() {
                    r.entered_ns = Some(ts);
                }
            }
        },
        ViewStatus::Notarized => {
            if r.notarized_ns.is_none() {
                r.notarized_ns = Some(ts);
            }
        },
        ViewStatus::Nullified => {
            if r.nullified_ns.is_none() {
                r.nullified_ns = Some(ts);
            }
        },
        ViewStatus::Finalized => {
            if r.finalized_ns.is_none() {
                r.finalized_ns = Some(ts);
            }
        },
    }
    r
}

/// The order on `(node, view)` keys behaves as a total order, as the map needs.
pub open spec fn view_keys_ordered() -> bool {
    vstd::laws_cmp::obeys_cmp::<(u8, u64)>()
}

proof fn lemma_view_key_order()
    ensures
        view_keys_ordered(),
{
    broadcast use vstd::laws_cmp::group_laws_cmp;
    assert(vstd::laws_cmp::obeys_cmp::<u8>());
    assert(vstd::laws_cmp::obeys_cmp::<u64>());
}

/// Build one record per node and view from the events that mark a stage of
/// a view.
pub fn build_view_states(events: &Vec<Event>) -> (r: BTreeMap<(u8, u64), ViewRecord>)
    ensures
        r@ == view_states_upto(events@, events@.len() as int),
        forall|key: (u8, u64)| #[trigger] r@.contains_key(key) <==> exists|j: int|
            0 <= j < events@.len() && #[trigger] touches(events@[j], key),
        forall|key: (u8, u64)| #[trigger] r@.contains_key(key) ==> record_facts(events@, events@.len() as int, key, r@[key]),
{
    proof { lemma_view_key_order(); }
    let mut map: BTreeMap<(u8, u64), ViewRecord> = BTreeMap::new();
    let mut i: usize = 0;
    while i < events.len()
        invariant
            0 <= i <= events@.len(),
            view_keys_ordered(),
            map@ == view_states_upto(events@, i as int),
        decreases events@.len() - i,
    {
        let ev = &events[i];
        if let Some(view) = ev.view {
            if let Some(st) = kind_status_exec(ev.kind) {
                let key = (ev.raw.node_id, view);
                let existing = match map.get(&key) {
                    Some(r) => Some(*r),
                    None => None,
                };
                let r0 = match existing {
                    Some(r) => r,
                    None => ViewRecord {
                        node_id: ev.raw.node_id,
                        view,
                        status: ViewStatus::Entered,
                        leader: ev.leader,
                        entered_ns: None,
                        proposal_ns: None,
                        notarized_ns: None,
                        nullified_ns: None,
                        finalized_ns: None,
                    },
                };
                let rec = record_after_exec(r0, ev.leader, st, ev.raw.timestamp_ns);
                map.insert(key, rec);
            }
        }
        i = i + 1;
    }
    proof {
        assert forall|key: (u8, u64)| #[trigger] map@.contains_key(key) <==> exists|j: int|
            0 <= j < events@.len() && #[trigger] touches(events@[j], key) by {
            lemma_view_records_direct(events@, events@.len() as int, key);
        }
        assert forall|key: (u8, u64)| #[trigger] map@.contains_key(key) implies record_facts(
            events@,
            events@.len() as int,
            key,
            map@[key],
        ) by {
            lemma_view_records_direct(events@, events@.len() as int, key);
        }
    }
    map
}


// ============================================================================
// Sorted sets of numbers
// ============================================================================

/// Each number is smaller than the next.
pub open spec fn strictly_increasing(s: Seq<u64>) -> bool {
    forall|i: int, j: int| 0 <= i < j < s.len() ==> #[trigger] s[i] < #[trigger] s[j]
}

/// Add a number to a strictly increasing list, where it belongs, unless it is
/// there already.
fn insert_sorted(v: &mut Vec<u64>, x: u64)
    requires
        strictly_increasing(old(v)@),
    ensures
        strictly_increasing(final(v)@),
        final(v)@.to_set() == old(v)@.to_set().insert(x),
{
    let ghost o = v@;
    let mut p = v.len();
    while p > 0 && v[p - 1] > x
        invariant
            0 <= p <= v@.len(),
            v@ == o,
            forall|k: int| p <= k < v@.len() ==> v@[k] > x,
        decreases p,
    {
        p = p - 1;
    }
    if p > 0 && v[p - 1] == x {
        assert(o.to_set().insert(x) =~= o.to_set()) by {
            assert(o.contains(x));
        }
        return;
    }
    v.insert(p, x);
    proof {
        assert(v@ == o.insert(p as int, x));
        assert forall|i: int, j: int| 0 <= i < j < v@.len() implies #[trigger] v@[i] < #[trigger] v@[j] by {
            if i < p && j > p {
                assert(o[i] < o[j - 1]);
            }
        }
        assert forall|y: u64| v@.to_set().contains(y) <==> o.to_set().insert(x).contains(y) by {
            if v@.contains(y) {
                let k = choose|k: int| 0 <= k < v@.len() && v@[k] == y;
                if k < p {
                    assert(o[k] == y);
                } else if k > p {
                    assert(o[k - 1] == y);
                }
            }
            if o.contains(y) {
                let k = choose|k: int| 0 <= k < o.len() && o[k] == y;
                if k < p {
                    assert(v@[k] == y);
                } else {
                    assert(v@[k + 1] == y);
                }
            }
            if y == x {
                assert(v@[p as int] == x);
            }
        }
        assert(v@.to_set() =~= o.to_set().insert(x));
    }
}

// ============================================================================
// Time segments
// ============================================================================

/// Division rounded toward zero, for a positive divisor.
pub open spec fn trunc_div(a: int, b: int) -> int {
    if a >= 0 { a / b } else { -((-a) / b) }
}

/// Where segment `i` of `n` starts, for a trace that starts at `min` and spans `span`.
pub open spec fn segment_bound(min: int, span: int, i: int, n: int) -> int {
    min + trunc_div(span * i, n)
}

/// How many of the first `i` events have a timestamp in `[start, end)`.
pub open spec fn count_in(events: Seq<Event>, start: i128, end: i128, i: int) -> int
    decreases i,
{
    if i <= 0 {
        0
    } else {
        count_in(events, start, end, i - 1) + if start <= events[i - 1].raw.timestamp_ns < end { 1int } else { 0int }
    }
}

/// The views of the first `i` events whose timestamp is in `[start, end)`.
pub open spec fn views_in(events: Seq<Event>, start: i128, end: i128, i: int) -> Set<u64>
    decreases i,
{
    if i <= 0 {
        Set::empty()
    } else {
        let prev = views_in(events, start, end, i - 1);
        let e = events[i - 1];
        if start <= e.raw.timestamp_ns < end && e.view is Some {
            prev.insert(e.view->0)
        } else {
            prev
        }
    }
}

/// The views of the first `i` events, in order, repeats included.
pub open spec fn all_views(events: Seq<Event>, i: int) -> Seq<u64>
    decreases i,
{
    if i <= 0 {
        Seq::empty()
    } else {
        match events[i - 1].view {
            Some(v) => all_views(events, i - 1).push(v),
            None => all_views(events, i - 1),
        }
    }
}

/// The trace's first and last timestamps, by the first and last event.
pub open spec fn first_ts(events: Seq<Event>) -> i128 {
    events[0].raw.timestamp_ns
}

/// The trace's last timestamp, by its last event.
pub open spec fn last_ts(events: Seq<Event>) -> i128 {
    events[events.len() - 1].raw.timestamp_ns
}

/// Segment `i` of `n` of a trace whose span is not zero.
pub open spec fn segment_ok(events: Seq<Event>, seg: TimeSegment, i: int, n: int) -> bool {
    let min = first_ts(events) as int;
    let span = last_ts(events) - first_ts(events);
    &&& seg.index == i
    &&& seg.start_ns == segment_bound(min, span, i, n)
    &&& seg.end_ns == segment_bound(min, span, i + 1, n)
    &&& seg.event_count == count_in(events, seg.start_ns, seg.end_ns, events.len() as int)
    &&& strictly_increasing(seg.views@)
    &&& seg.views@.to_set() == views_in(events, seg.start_ns, seg.end_ns, events.len() as int)
}

proof fn lemma_trunc_div_bounds(span: int, i: int, n: int)
    requires
        n > 0,
        0 <= i <= n,
    ensures
        span >= 0 ==> 0 <= trunc_div(span * i, n) <= span,
        span < 0 ==> span <= trunc_div(span * i, n) <= 0,
{
    if span >= 0 {
        assert(0 <= span * i <= span * n) by (nonlinear_arith)
            requires
                span >= 0,
                0 <= i <= n,
        ;
        assert((span * i) / n <= (span * n) / n) by (nonlinear_arith)
            requires
                0 <= span * i <= span * n,
                n > 0,
        ;
        assert((span * n) / n == span) by (nonlinear_arith)
            requires
                n > 0,
        ;
        assert(0 <= (span * i) / n) by (nonlinear_arith)
            requires
                0 <= span * i,
                n > 0,
        ;
    } else {
        let a = -span;
        assert(span * i == -(a * i)) by (nonlinear_arith)
            requires
                a == -span,
        ;
        assert(0 <= a * i <= a * n) by (nonlinear_arith)
            requires
                a > 0,
                0 <= i <= n,
        ;
        assert((a * i) / n <= (a * n) / n) by (nonlinear_arith)
            requires
                0 <= a * i <= a * n,
                n > 0,
        ;
        assert((a * n) / n == a) by (nonlinear_arith)
            requires
                n > 0,
        ;
        assert(0 <= (a * i) / n) by (nonlinear_arith)
            requires
                0 <= a * i,
                n > 0,
        ;
        if span * i >= 0 {
            assert(a * i == 0);
        }
    }
}

fn segment_of(events: &Vec<Event>, index: usize, start_ns: i128, end_ns: i128) -> (seg: TimeSegment)
    ensures
        seg.index == index,
        seg.start_ns == start_ns,
        seg.end_ns == end_ns,
        seg.event_count == count_in(events@, start_ns, end_ns, events@.len() as int),
        strictly_increasing(seg.views@),
        seg.views@.to_set() == views_in(events@, start_ns, end_ns, events@.len() as int),
{
    let mut event_count: usize = 0;
    let mut views: Vec<u64> = Vec::new();
    let mut k: usize = 0;
    while k < events.len()
        invariant
            0 <= k <= events@.len(),
            event_count == count_in(events@, start_ns, end_ns, k as int),
            event_count <= k,
            strictly_increasing(views@),
            views@.to_set() == views_in(events@, start_ns, end_ns, k as int),
        decreases events@.len() - k,
    {
        let ts = events[k].raw.timestamp_ns;
        if ts >= start_ns && ts < end_ns {
            event_count = event_count + 1;
            if let Some(v) = events[k].view {
                insert_sorted(&mut views, v);
            }
        }
        k = k + 1;
    }
    TimeSegment { index, start_ns, end_ns, event_count, views }
}

/// What cutting the trace into `n` segments gives: nothing for an empty
/// trace; one segment with every event and view when the first and last
/// timestamps are equal; else `n` segments, each as `segment_ok` says.
pub open spec fn segments_built(events: Seq<Event>, n: int, r: Seq<TimeSegment>) -> bool {
    &&& events.len() == 0 ==> r.len() == 0
    &&& events.len() > 0 && last_ts(events) == first_ts(events) ==> {
        &&& r.len() == 1
        &&& r[0].index == 0
        &&& r[0].start_ns == first_ts(events)
        &&& r[0].end_ns == last_ts(events)
        &&& r[0].event_count == events.len()
        &&& r[0].views@ == all_views(events, events.len() as int)
    }
    &&& events.len() > 0 && last_ts(events) != first_ts(events) ==> {
        &&& r.len() == n
        &&& forall|i: int| 0 <= i < n ==> segment_ok(events, #[trigger] r[i], i, n)
    }
}

/// Cut the trace's time span into `num_segments` segments, each with the
/// number of events and the views that fall into it (a segment includes its
/// start and excludes its end). A trace whose first and last events have the
/// same timestamp is one segment, with every event and every view.
pub fn build_segments(events: &Vec<Event>, num_segments: usize) -> (r: Vec<TimeSegment>)
    requires
        events@.len() > 0 ==> {
            let span = last_ts(events@) - first_ts(events@);
            &&& i128::MIN <= span <= i128::MAX
            &&& i128::MIN <= span * num_segments <= i128::MAX
        },
    ensures
        segments_built(events@, num_segments as int, r@),
{
    if events.len() == 0 {
        return Vec::new();
    }
    let min_ts = events[0].raw.timestamp_ns;
    let max_ts = events[events.len() - 1].raw.timestamp_ns;
    let span = max_ts - min_ts;
    if span == 0 {
        let mut views: Vec<u64> = Vec::new();
        let mut k: usize = 0;
        while k < events.len()
            invariant
                0 <= k <= events@.len(),
                views@ == all_views(events@, k as int),
            decreases events@.len() - k,
        {
            if let Some(v) = events[k].view {
                views.push(v);
            }
            k = k + 1;
        }
        let mut single: Vec<TimeSegment> = Vec::new();
        single.push(TimeSegment { index: 0, start_ns: min_ts, end_ns: max_ts, event_count: events.len(), views });
        return single;
    }
    let mut segments: Vec<TimeSegment> = Vec::new();
    let mut i: usize = 0;
    while i < num_segments
        invariant
            0 <= i <= num_segments,
            events@.len() > 0,
            min_ts == first_ts(events@),
            max_ts == last_ts(events@),
            span == max_ts - min_ts,
            span != 0,
            i128::MIN <= span * num_segments <= i128::MAX,
            segments@.len() == i,
            forall|j: int| 0 <= j < i ==> segment_ok(events@, #[trigger] segments@[j], j, num_segments as int),
        decreases num_segments - i,
    {
        proof {
            lemma_trunc_div_bounds(span as int, i as int, num_segments as int);
            lemma_trunc_div_bounds(span as int, i + 1, num_segments as int);
            assert(i128::MIN <= span * i <= i128::MAX) by (nonlinear_arith)
                requires
                    i128::MIN <= span * num_segments <= i128::MAX,
                    0 <= i <= num_segments,
            ;
            assert(i128::MIN <= span * (i + 1) <= i128::MAX) by (nonlinear_arith)
                requires
                    i128::MIN <= span * num_segments <= i128::MAX,
                    0 <= i + 1 <= num_segments,
            ;
        }
        let start_ns = min_ts + (span * (i as i128)) / (num_segments as i128);
        let end_ns = min_ts + (span * ((i + 1) as i128)) / (num_segments as i128);
        let seg = segment_of(events, i, start_ns, end_ns);
        segments.push(seg);
        i = i + 1;
    }
    segments
}

// ============================================================================
// Metadata
// ============================================================================

/// The node ids of the first `i` events.
pub open spec fn nodes_of(events: Seq<Event>, i: int) -> Set<u64>
    decreases i,
{
    if i <= 0 {
        Set::empty()
    } else {
        nodes_of(events, i - 1).insert(events[i - 1].raw.node_id as u64)
    }
}

/// The kind tags of the first `i` events.
pub open spec fn tags_of(events: Seq<Event>, i: int) -> Set<u64>
    decreases i,
{
    if i <= 0 {
        Set::empty()
    } else {
        tags_of(events, i - 1).insert(kind_tag(events[i - 1].kind) as u64)
    }
}

/// The smallest view of the first `i` events, `u64::MAX` if none has one.
pub open spec fn min_view_of(events: Seq<Event>, i: int) -> u64
    decreases i,
{
    if i <= 0 {
        u64::MAX
    } else {
        let m = min_view_of(events, i - 1);
        match events[i - 1].view {
            Some(v) => if v < m { v } else { m },
            None => m,
        }
    }
}

/// The largest view of the first `i` events, 0 if none has one.
pub open spec fn max_view_of(events: Seq<Event>, i: int) -> u64
    decreases i,
{
    if i <= 0 {
        0
    } else {
        let m = max_view_of(events, i - 1);
        match events[i - 1].view {
            Some(v) => if v > m { v } else { m },
            None => m,
        }
    }
}

/// How a kind is shown: its tag, label and colour, and the category of its
/// tag's range.
pub open spec fn meta_ok(m: EventMeta, k: EventKind) -> bool {
    &&& m.kind == k
    &&& m.tag == kind_tag(k)
    &&& m.label@ == kind_label(k)
    &&& m.category == tag_category(kind_tag(k))
    &&& m.color@ == kind_color(k)
}

proof fn lemma_nodes_small(events: Seq<Event>, i: int)
    ensures
        forall|x: u64| #[trigger] nodes_of(events, i).contains(x) ==> x < 256,
    decreases i,
{
    if i > 0 {
        lemma_nodes_small(events, i - 1);
        assert forall|x: u64| #[trigger] nodes_of(events, i).contains(x) implies x < 256 by {
            if x != events[i - 1].raw.node_id as u64 {
                assert(nodes_of(events, i - 1).contains(x));
            }
        }
    }
}

proof fn lemma_tags_known(events: Seq<Event>, i: int)
    ensures
        forall|x: u64| #[trigger] tags_of(events, i).contains(x) ==> x < 256 && kind_of_tag(x as u8) is Some
            && kind_tag(kind_of_tag(x as u8)->0) == x,
    decreases i,
{
    if i > 0 {
        let k = events[i - 1].kind;
        lemma_tags_known(events, i - 1);
        lemma_tag_round_trip(k);
        assert forall|x: u64| #[trigger] tags_of(events, i).contains(x) implies x < 256 && kind_of_tag(
            x as u8,
        ) is Some && kind_tag(kind_of_tag(x as u8)->0) == x by {
            if x != kind_tag(k) as u64 {
                assert(tags_of(events, i - 1).contains(x));
            }
        }
    }
}

fn meta_of(k: EventKind) -> (m: EventMeta)
    ensures
        meta_ok(m, k),
{
    EventMeta {
        kind: k,
        tag: k.as_tag(),
        label: k.label().to_owned(),
        category: EventCategory::of_tag(k.as_tag()),
        color: k.color().to_owned(),
    }
}

/// The summary of a trace, as `build_metadata` describes it.
pub open spec fn metadata_built(events: Seq<Event>, r: Metadata) -> bool {
    &&& events.len() == 0 ==> r.nodes@.len() == 0 && r.min_ts_ns == 0 && r.max_ts_ns == 0
        && r.min_view == 0 && r.max_view == 0 && r.total_events == 0 && r.event_kinds@.len() == 0
    &&& events.len() > 0 ==> {
        let n = events.len() as int;
        &&& r.nodes@.map_values(|x: u8| x as u64).to_set() == nodes_of(events, n)
        &&& strictly_increasing(r.nodes@.map_values(|x: u8| x as u64))
        &&& r.min_ts_ns == first_ts(events)
        &&& r.max_ts_ns == last_ts(events)
        &&& r.min_view == if min_view_of(events, n) == u64::MAX { 0 } else { min_view_of(events, n) }
        &&& r.max_view == max_view_of(events, n)
        &&& r.total_events == events.len()
        &&& r.event_kinds@.map_values(|m: EventMeta| m.tag as u64).to_set() == tags_of(events, n)
        &&& strictly_increasing(r.event_kinds@.map_values(|m: EventMeta| m.tag as u64))
        &&& forall|i: int| 0 <= i < r.event_kinds@.len() ==> meta_ok(#[trigger] r.event_kinds@[i], r.event_kinds@[i].kind)
    }
}

/// Summarise the trace: its nodes in increasing order, its first and last
/// timestamps, its smallest and largest views (a smallest view of
/// `u64::MAX` is reported as 0), its number of events and its kinds of event
/// in increasing order of tag. An empty trace gives the default summary.
pub fn build_metadata(events: &Vec<Event>) -> (r: Metadata)
    ensures
        metadata_built(events@, r),
{
    if events.len() == 0 {
        return Metadata::default();
    }
    let mut nodes: Vec<u64> = Vec::new();
    let mut tags: Vec<u64> = Vec::new();
    let mut min_view = u64::MAX;
    let mut max_view: u64 = 0;
    let mut k: usize = 0;
    while k < events.len()
        invariant
            0 <= k <= events@.len(),
            strictly_increasing(nodes@),
            nodes@.to_set() == nodes_of(events@, k as int),
            strictly_increasing(tags@),
            tags@.to_set() == tags_of(events@, k as int),
            min_view == min_view_of(events@, k as int),
            max_view == max_view_of(events@, k as int),
        decreases events@.len() - k,
    {
        let ev = &events[k];
        insert_sorted(&mut nodes, ev.raw.node_id as u64);
        insert_sorted(&mut tags, ev.kind.as_tag() as u64);
        if let Some(v) = ev.view {
            if v < min_view {
                min_view = v;
            }
            if v > max_view {
                max_view = v;
            }
        }
        k = k + 1;
    }
    let ghost n = events@.len() as int;
    proof {
        lemma_nodes_small(events@, n);
        lemma_tags_known(events@, n);
    }
    let mut node_ids: Vec<u8> = Vec::new();
    let mut j: usize = 0;
    while j < nodes.len()
        invariant
            0 <= j <= nodes@.len(),
            nodes@.to_set() == nodes_of(events@, n),
            forall|x: u64| #[trigger] nodes_of(events@, n).contains(x) ==> x < 256,
            node_ids@.len() == j,
            forall|a: int| 0 <= a < j ==> #[trigger] node_ids@[a] as u64 == nodes@[a],
        decreases nodes@.len() - j,
    {
        assert(nodes@.to_set().contains(nodes@[j as int]));
        node_ids.push(nodes[j] as u8);
        j = j + 1;
    }
    assert(node_ids@.map_values(|x: u8| x as u64) =~= nodes@);
    let mut kinds: Vec<EventMeta> = Vec::new();
    let mut j: usize = 0;
    while j < tags.len()
        invariant
            0 <= j <= tags@.len(),
            tags@.to_set() == tags_of(events@, n),
            forall|x: u64| #[trigger] tags_of(events@, n).contains(x) ==> x < 256 && kind_of_tag(x as u8) is Some
                && kind_tag(kind_of_tag(x as u8)->0) == x,
            kinds@.len() == j,
            forall|a: int| 0 <= a < j ==> #[trigger] kinds@[a].tag as u64 == tags@[a] && meta_ok(kinds@[a], kinds@[a].kind),
        decreases tags@.len() - j,
    {
        assert(tags@.to_set().contains(tags@[j as int]));
        let kind = EventKind::from_tag(tags[j] as u8).unwrap();
        kinds.push(meta_of(kind));
        j = j + 1;
    }
    assert(kinds@.map_values(|m: EventMeta| m.tag as u64) =~= tags@);
    Metadata {
        nodes: node_ids,
        min_ts_ns: events[0].raw.timestamp_ns,
        max_ts_ns: events[events.len() - 1].raw.timestamp_ns,
        min_view: if min_view == u64::MAX { 0 } else { min_view },
        max_view,
        total_events: events.len(),
        event_kinds: kinds,
    }
}

} // verus!
