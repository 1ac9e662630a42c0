//! Putting the events of every log together into the trace that the
//! interface serves: sorted, numbered, and with its derived state.
use vstd::prelude::*;
use std::collections::BTreeMap;
use crate::state::builders::{
    assign_ids, build_edges, build_metadata, build_segments, build_view_states, edge_view,
    edges_upto, metadata_built, segments_built, view_states_upto,
};
use crate::state::sort::{is_stable_sort, stable_sort_events};
use crate::events::registry::classifiers_of;
use crate::events::EventRegistry;
use crate::parser::log_parser::{line_unreadable, parse_log_lines, parsed_log};
use crate::state::types::{Edge, Event, Metadata, TimeSegment, ViewRecord};

verus! {

/// How many segments the trace is cut into for navigation.
pub const NUM_SEGMENTS: usize = 7;

/// A trace with everything derived from it.
pub struct Trace {
    pub events: Vec<Event>,
    pub edges: Vec<Edge>,
    pub views: BTreeMap<(u8, u64), ViewRecord>,
    pub segments: Vec<TimeSegment>,
    pub meta: Metadata,
}

/// Every timestamp is a count of nanoseconds that fits in an `i64`, as the
/// timestamps of parsed log lines do.
pub open spec fn timestamps_in_i64(events: Seq<Event>) -> bool {
    forall|i: int| 0 <= i < events.len() ==> i64::MIN <= #[trigger] events[i].raw.timestamp_ns <= i64::MAX
}

/// Whether every timestamp fits in an `i64`.
pub fn timestamps_fit(events: &Vec<Event>) -> (r: bool)
    ensures
        r == timestamps_in_i64(events@),
{
    let mut i: usize = 0;
    while i < events.len()
        invariant
            0 <= i <= events@.len(),
            forall|k: int| 0 <= k < i ==> i64::MIN <= #[trigger] events@[k].raw.timestamp_ns <= i64::MAX,
        decreases events@.len() - i,
    {
        let ts = events[i].raw.timestamp_ns;
        if ts < i64::MIN as i128 || ts > i64::MAX as i128 {
            return false;
        }
        i = i + 1;
    }
    true
}

/// `new` is `old` sorted stably by key, each event numbered by its place.
pub open spec fn ordered_and_numbered(old: Seq<Event>, new: Seq<Event>) -> bool {
    exists|s: Seq<Event>, p: Seq<int>|
        #[trigger] is_stable_sort(old, s, p) && new.len() == s.len() && forall|i: int|
            0 <= i < new.len() ==> #[trigger] new[i] == (Event { id: i as u64, ..s[i] })
}

/// `t` is the trace of `events`: the events sorted and numbered, with their
/// edges, view records, segments and summary.
pub open spec fn trace_built(events: Seq<Event>, t: Trace) -> bool {
    &&& ordered_and_numbered(events, t.events@)
    &&& t.edges@.map_values(|e: Edge| edge_view(e)) == edges_upto(t.events@, t.events@.len() as int)
    &&& t.views@ == view_states_upto(t.events@, t.events@.len() as int)
    &&& segments_built(t.events@, NUM_SEGMENTS as int, t.segments@)
    &&& metadata_built(t.events@, t.meta)
}

/// Sort the events, number them, and build their edges, view records,
/// segments and summary.
pub fn build_trace(events: Vec<Event>) -> (t: Trace)
    requires
        timestamps_in_i64(events@),
    ensures
        trace_built(events@, t),
{
    let mut events = events;
    let ghost original = events@;
    stable_sort_events(&mut events);
    let ghost sorted = events@;
    let ghost p = choose|p: Seq<int>| is_stable_sort(original, sorted, p);
    assign_ids(&mut events);
    assert(ordered_and_numbered(original, events@));
    assert(timestamps_in_i64(events@)) by {
        assert forall|i: int| 0 <= i < events@.len() implies i64::MIN <= #[trigger] events@[i].raw.timestamp_ns
            <= i64::MAX by {
            assert(events@[i].raw == sorted[i].raw);
            assert(sorted[i] == original[p[i]]);
        }
    }
    if events.len() > 0 {
        let ghost n = events@.len() as int;
        assert(i64::MIN <= events@[0].raw.timestamp_ns <= i64::MAX);
        assert(i64::MIN <= events@[n - 1].raw.timestamp_ns <= i64::MAX);
    }
    let edges = build_edges(&events);
    let views = build_view_states(&events);
    let segments = build_segments(&events, NUM_SEGMENTS);
    let meta = build_metadata(&events);
    Trace { events, edges, views, segments, meta }
}

/// Read the logs of every node, one after another, and build the trace of
/// all their events. `None` when a line of some log parses but the view of
/// its message cannot be read.
pub fn ingest(logs: &Vec<(u8, Vec<Option<String>>)>, registry: &EventRegistry) -> (r: Option<Trace>)
    ensures
        r is None <==> exists|a: int, i: int|
            0 <= a < logs@.len() && 0 <= i < logs@[a].1@.len() && #[trigger] line_unreadable(logs@[a].1@, i),
        r matches Some(t) ==> exists|parts: Seq<Seq<Event>>| {
            &&& parts.len() == logs@.len()
            &&& forall|a: int| 0 <= a < parts.len() ==> parsed_log(logs@[a].1@, logs@[a].0, classifiers_of(registry@), #[trigger] parts[a])
            &&& trace_built(parts.flatten(), t)
        },
{
    let mut all: Vec<Event> = Vec::new();
    let ghost mut parts: Seq<Seq<Event>> = Seq::empty();
    let mut k: usize = 0;
    while k < logs.len()
        invariant
            0 <= k <= logs@.len(),
            parts.len() == k,
            all@ == parts.flatten(),
            forall|a: int| 0 <= a < k ==> parsed_log(logs@[a].1@, logs@[a].0, classifiers_of(registry@), #[trigger] parts[a]),
            forall|a: int, i: int| 0 <= a < k && 0 <= i < logs@[a].1@.len() ==> !#[trigger] line_unreadable(logs@[a].1@, i),
            timestamps_in_i64(all@),
        decreases logs@.len() - k,
    {
        let (id, lines) = &logs[k];
        match parse_log_lines(lines, *id, registry) {
            None => {
                return None;
            },
            Some(mut evs) => {
                let ghost before = all@;
                let ghost part = evs@;
                all.append(&mut evs);
                proof {
                    parts.lemma_flatten_push(part);
                    parts = parts.push(part);
                    assert forall|i: int| 0 <= i < all@.len() implies i64::MIN <= #[trigger] all@[i].raw.timestamp_ns <= i64::MAX by {
                        if i >= before.len() {
                            assert(all@[i] == part[i - before.len()]);
                        }
                    }
                }
            },
        }
        k = k + 1;
    }
    let t = build_trace(all);
    Some(t)
}

} // verus!
