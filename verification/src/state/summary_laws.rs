//! The segments' counts and the trace's summary, stated directly over the
//! events: counts as sizes of sets of events, the summary's nodes, kinds and
//! views as those that events have.
use vstd::prelude::*;
use crate::events::{kind_tag, lemma_tags_distinct};
use crate::state::builders::{
    count_in, first_ts, last_ts, max_view_of, meta_ok, metadata_built, min_view_of, nodes_of,
    segment_ok, segments_built, tags_of,
};
use crate::state::types::{Event, EventMeta, Metadata, TimeSegment};

verus! {

/// The indices of the first `i` events whose timestamp lies in `[start, end)`.
pub open spec fn indices_in(events: Seq<Event>, start: i128, end: i128, i: int) -> Set<int> {
    Set::new(|j: int| 0 <= j < i && start <= events[j].raw.timestamp_ns < end)
}

/// A count of events in a time range is the number of events whose
/// timestamp lies in it, whatever else they hold.
pub proof fn lemma_count_is_size(events: Seq<Event>, start: i128, end: i128, i: int)
    requires
        0 <= i <= events.len(),
    ensures
        indices_in(events, start, end, i).finite(),
        count_in(events, start, end, i) == indices_in(events, start, end, i).len(),
    decreases i,
{
    if i == 0 {
        assert(indices_in(events, start, end, 0) =~= Set::<int>::empty());
    } else {
        lemma_count_is_size(events, start, end, i - 1);
        let prev = indices_in(events, start, end, i - 1);
        let cur = indices_in(events, start, end, i);
        if start <= events[i - 1].raw.timestamp_ns < end {
            assert(cur =~= prev.insert(i - 1));
            assert(!prev.contains(i - 1));
        } else {
            assert(cur =~= prev);
        }
    }
}

/// Each segment counts every event whose timestamp lies in its range (start
/// included, end excluded), whether or not the event names a view; a trace
/// whose first and last timestamps are equal is one segment counting every
/// event.
pub proof fn lemma_segment_counts(events: Seq<Event>, n: int, r: Seq<TimeSegment>)
    requires
        segments_built(events, n, r),
        events.len() > 0,
    ensures
        last_ts(events) == first_ts(events) ==> r[0].event_count == events.len(),
        last_ts(events) != first_ts(events) ==> forall|i: int| 0 <= i < r.len() ==> {
            &&& indices_in(events, (#[trigger] r[i]).start_ns, r[i].end_ns, events.len() as int).finite()
            &&& r[i].event_count == indices_in(events, r[i].start_ns, r[i].end_ns, events.len() as int).len()
        },
{
    if last_ts(events) != first_ts(events) {
        assert forall|i: int| 0 <= i < r.len() implies {
            &&& indices_in(events, (#[trigger] r[i]).start_ns, r[i].end_ns, events.len() as int).finite()
            &&& r[i].event_count == indices_in(events, r[i].start_ns, r[i].end_ns, events.len() as int).len()
        } by {
            assert(segment_ok(events, r[i], i, n));
            lemma_count_is_size(events, r[i].start_ns, r[i].end_ns, events.len() as int);
        }
    }
}

/// The kind tags among the first `i` events are those of their kinds.
pub proof fn lemma_tags_of_events(events: Seq<Event>, i: int)
    requires
        0 <= i <= events.len(),
    ensures
        forall|x: u64| #[trigger] tags_of(events, i).contains(x) <==> exists|j: int|
            0 <= j < i && kind_tag(#[trigger] events[j].kind) == x,
    decreases i,
{
    if i > 0 {
        lemma_tags_of_events(events, i - 1);
        assert forall|x: u64| #[trigger] tags_of(events, i).contains(x) <==> exists|j: int|
            0 <= j < i && kind_tag(#[trigger] events[j].kind) == x by {
            if tags_of(events, i - 1).contains(x) {
                let j = choose|j: int| 0 <= j < i - 1 && kind_tag(#[trigger] events[j].kind) == x;
                assert(kind_tag(events[j].kind) == x);
            }
            if exists|j: int| 0 <= j < i && kind_tag(#[trigger] events[j].kind) == x {
                let j = choose|j: int| 0 <= j < i && kind_tag(#[trigger] events[j].kind) == x;
                if j < i - 1 {
                    assert(tags_of(events, i - 1).contains(x));
                }
            }
        }
    }
}

/// The node ids among the first `i` events are those of their nodes.
pub proof fn lemma_nodes_of_events(events: Seq<Event>, i: int)
    requires
        0 <= i <= events.len(),
    ensures
        forall|x: u64| #[trigger] nodes_of(events, i).contains(x) <==> exists|j: int|
            0 <= j < i && #[trigger] events[j].raw.node_id as u64 == x,
    decreases i,
{
    if i > 0 {
        lemma_nodes_of_events(events, i - 1);
        assert forall|x: u64| #[trigger] nodes_of(events, i).contains(x) <==> exists|j: int|
            0 <= j < i && #[trigger] events[j].raw.node_id as u64 == x by {
            if nodes_of(events, i - 1).contains(x) {
                let j = choose|j: int| 0 <= j < i - 1 && #[trigger] events[j].raw.node_id as u64 == x;
                assert(events[j].raw.node_id as u64 == x);
            }
            if exists|j: int| 0 <= j < i && #[trigger] events[j].raw.node_id as u64 == x {
                let j = choose|j: int| 0 <= j < i && #[trigger] events[j].raw.node_id as u64 == x;
                if j < i - 1 {
                    assert(nodes_of(events, i - 1).contains(x));
                }
            }
        }
    }
}

/// The smallest and largest views among the first `i` events: every view
/// lies between them, and each is the view of some event (or `u64::MAX` and
/// 0 when no event names a view).
pub proof fn lemma_view_bounds(events: Seq<Event>, i: int)
    requires
        0 <= i <= events.len(),
    ensures
        forall|j: int| 0 <= j < i && (#[trigger] events[j].view) is Some ==> min_view_of(events, i) <= events[j].view->0
            <= max_view_of(events, i),
        (exists|j: int| 0 <= j < i && (#[trigger] events[j].view) is Some) ==> {
            &&& exists|j: int| 0 <= j < i && #[trigger] events[j].view == Some(min_view_of(events, i))
            &&& exists|j: int| 0 <= j < i && #[trigger] events[j].view == Some(max_view_of(events, i))
        },
        !(exists|j: int| 0 <= j < i && (#[trigger] events[j].view) is Some) ==> min_view_of(events, i) == u64::MAX
            && max_view_of(events, i) == 0,
    decreases i,
{
    if i > 0 {
        lemma_view_bounds(events, i - 1);
        let e = events[i - 1];
        if exists|j: int| 0 <= j < i - 1 && (#[trigger] events[j].view) is Some {
            let a = choose|j: int| 0 <= j < i - 1 && #[trigger] events[j].view == Some(min_view_of(events, i - 1));
            let b = choose|j: int| 0 <= j < i - 1 && #[trigger] events[j].view == Some(max_view_of(events, i - 1));
            assert(events[a].view is Some && events[b].view is Some);
        }
        if e.view is Some {
            assert(events[i - 1].view is Some);
        }
    }
}

/// What the summary says of a nonempty trace, stated over the events: its
/// nodes are exactly the events' nodes; its kinds are exactly the events'
/// kinds, each shown with its own tag; its view range covers every view and
/// its ends are views of events (0 and 0 when no event names a view); it
/// counts every event, and its time range runs from the first event's time
/// to the last's.
pub proof fn lemma_summary(events: Seq<Event>, r: Metadata)
    requires
        metadata_built(events, r),
        events.len() > 0,
    ensures
        forall|j: int| 0 <= j < events.len() ==> r.nodes@.contains(#[trigger] events[j].raw.node_id),
        forall|a: int| 0 <= a < r.nodes@.len() ==> exists|j: int| 0 <= j < events.len() && #[trigger] events[j].raw.node_id == #[trigger] r.nodes@[a],
        forall|j: int| 0 <= j < events.len() ==> exists|a: int|
            0 <= a < r.event_kinds@.len() && (#[trigger] r.event_kinds@[a]).kind == #[trigger] events[j].kind,
        forall|a: int| 0 <= a < r.event_kinds@.len() ==> exists|j: int|
            0 <= j < events.len() && #[trigger] events[j].kind == (#[trigger] r.event_kinds@[a]).kind,
        forall|a: int| 0 <= a < r.event_kinds@.len() ==> (#[trigger] r.event_kinds@[a]).tag == kind_tag(r.event_kinds@[a].kind),
        forall|j: int| 0 <= j < events.len() && (#[trigger] events[j].view) is Some ==> events[j].view->0 <= r.max_view
            && (r.min_view == 0 || r.min_view <= events[j].view->0),
        r.total_events == events.len(),
        r.min_ts_ns == events[0].raw.timestamp_ns,
        r.max_ts_ns == events[events.len() - 1].raw.timestamp_ns,
{
    let n = events.len() as int;
    lemma_tags_of_events(events, n);
    lemma_nodes_of_events(events, n);
    lemma_view_bounds(events, n);
    let nodes = r.nodes@.map_values(|x: u8| x as u64);
    let tags = r.event_kinds@.map_values(|m: EventMeta| m.tag as u64);
    assert forall|j: int| 0 <= j < events.len() implies r.nodes@.contains(#[trigger] events[j].raw.node_id) by {
        let x = events[j].raw.node_id as u64;
        assert(nodes_of(events, n).contains(x));
        assert(nodes.to_set().contains(x));
        let a = choose|a: int| 0 <= a < nodes.len() && nodes[a] == x;
        assert(r.nodes@[a] == events[j].raw.node_id);
    }
    assert forall|a: int| 0 <= a < r.nodes@.len() implies exists|j: int| 0 <= j < events.len() && #[trigger] events[j].raw.node_id == #[trigger] r.nodes@[a] by {
        assert(nodes[a] == r.nodes@[a] as u64);
        assert(nodes.to_set().contains(nodes[a]));
        assert(nodes_of(events, n).contains(nodes[a]));
        let j = choose|j: int| 0 <= j < n && #[trigger] events[j].raw.node_id as u64 == nodes[a];
        assert(events[j].raw.node_id == r.nodes@[a]);
    }
    assert forall|j: int| 0 <= j < events.len() implies exists|a: int|
        0 <= a < r.event_kinds@.len() && (#[trigger] r.event_kinds@[a]).kind == #[trigger] events[j].kind by {
        let x = kind_tag(events[j].kind) as u64;
        assert(tags_of(events, n).contains(x));
        assert(tags.to_set().contains(x));
        let a = choose|a: int| 0 <= a < tags.len() && tags[a] == x;
        assert(meta_ok(r.event_kinds@[a], r.event_kinds@[a].kind));
        lemma_tags_distinct(r.event_kinds@[a].kind, events[j].kind);
    }
    assert forall|a: int| 0 <= a < r.event_kinds@.len() implies exists|j: int|
        0 <= j < events.len() && #[trigger] events[j].kind == (#[trigger] r.event_kinds@[a]).kind by {
        assert(meta_ok(r.event_kinds@[a], r.event_kinds@[a].kind));
        assert(tags[a] == r.event_kinds@[a].tag as u64);
        assert(tags.to_set().contains(tags[a]));
        assert(tags_of(events, n).contains(tags[a]));
        let j = choose|j: int| 0 <= j < n && kind_tag(#[trigger] events[j].kind) == tags[a];
        lemma_tags_distinct(r.event_kinds@[a].kind, events[j].kind);
    }
    assert forall|a: int| 0 <= a < r.event_kinds@.len() implies (#[trigger] r.event_kinds@[a]).tag == kind_tag(r.event_kinds@[a].kind) by {
        assert(meta_ok(r.event_kinds@[a], r.event_kinds@[a].kind));
    }
}

} // verus!
