//! The data that the trace is turned into.
use vstd::prelude::*;
use crate::events::{EventCategory, EventKind};

verus! {

/// One log line, split into its fields.
#[derive(Clone, Debug)]
pub struct RawLine {
    pub node_id: u8,
    pub line_number: u64,
    pub timestamp_ns: i128,
    pub level: String,
    pub target: String,
    pub file: String,
    pub message: String,
}

/// A classified log line.
#[derive(Clone, Debug)]
pub struct Event {
    pub id: u64,
    pub raw: RawLine,
    pub view: Option<u64>,
    pub payload: Option<String>,
    pub kind: EventKind,
    pub kind_tag: u8,
    pub category: EventCategory,
    pub leader: Option<u8>,
    pub message_id: Option<String>,
    pub peer: Option<String>,
    pub actor: Option<String>,
}

/// A copy of an optional string.
pub(crate) fn copy_text(o: &Option<String>) -> (r: Option<String>)
    ensures
        r == *o,
{
    match o {
        Some(s) => Some(s.clone()),
        None => None,
    }
}

/// A copy of an event, field by field.
pub(crate) fn copy_event(e: &Event) -> (r: Event)
    ensures
        r == *e,
{
    Event {
        id: e.id,
        raw: RawLine {
            node_id: e.raw.node_id,
            line_number: e.raw.line_number,
            timestamp_ns: e.raw.timestamp_ns,
            level: e.raw.level.clone(),
            target: e.raw.target.clone(),
            file: e.raw.file.clone(),
            message: e.raw.message.clone(),
        },
        view: e.view,
        payload: copy_text(&e.payload),
        kind: e.kind,
        kind_tag: e.kind_tag,
        category: e.category,
        leader: e.leader,
        message_id: copy_text(&e.message_id),
        peer: copy_text(&e.peer),
        actor: copy_text(&e.actor),
    }
}

/// A message sent by one node and received by another. The latency in
/// milliseconds is `(recv_ts_ns - send_ts_ns) / 1e6`.
#[derive(Clone, Debug)]
pub struct Edge {
    pub message_id: String,
    pub from_node: u8,
    pub to_node: u8,
    pub send_ts_ns: i128,
    pub recv_ts_ns: i128,
    pub kind: EventKind,
}

impl Edge {
    /// The time from the send to the receipt, in nanoseconds.
    pub fn latency_ns(&self) -> (r: i128)
        requires
            i128::MIN <= self.recv_ts_ns - self.send_ts_ns <= i128::MAX,
        ensures
            r == self.recv_ts_ns - self.send_ts_ns,
    {
        self.recv_ts_ns - self.send_ts_ns
    }
}

/// The time from `start` to `end` in nanoseconds, when both are known.
pub open spec fn span_between(start: Option<i128>, end: Option<i128>) -> Option<int> {
    match (start, end) {
        (Some(s), Some(e)) => Some(e - s),
        _ => None,
    }
}

/// How far a node got in a view.
#[derive(Clone, Copy, Debug, PartialEq, Eq, Structural)]
pub enum ViewStatus {
    Entered,
    ProposalReceived,
    Notarized,
    Nullified,
    Finalized,
}

/// What one node saw of one view. The latencies in milliseconds are
/// `(notarized_ns - entered_ns) / 1e6` and `(finalized_ns - entered_ns) / 1e6`
/// when both times are known.
#[derive(Clone, Copy, Debug, PartialEq, Eq, Structural)]
pub struct ViewRecord {
    pub node_id: u8,
    pub view: u64,
    pub status: ViewStatus,
    pub leader: Option<u8>,
    pub entered_ns: Option<i128>,
    pub proposal_ns: Option<i128>,
    pub notarized_ns: Option<i128>,
    pub nullified_ns: Option<i128>,
    pub finalized_ns: Option<i128>,
}

impl ViewRecord {
    /// The time from entering the view to its notarization, in nanoseconds,
    /// when both are known.
    pub fn notarize_latency_ns(&self) -> (r: Option<i128>)
        requires
            span_between(self.entered_ns, self.notarized_ns) matches Some(d) ==> i128::MIN <= d <= i128::MAX,
        ensures
            r matches Some(d) ==> span_between(self.entered_ns, self.notarized_ns) == Some(d as int),
            r is None ==> span_between(self.entered_ns, self.notarized_ns) is None,
    {
        match (self.entered_ns, self.notarized_ns) {
            (Some(s), Some(e)) => Some(e - s),
            _ => None,
        }
    }

    /// The time from entering the view to its finalization, in nanoseconds,
    /// when both are known.
    pub fn finalize_latency_ns(&self) -> (r: Option<i128>)
        requires
            span_between(self.entered_ns, self.finalized_ns) matches Some(d) ==> i128::MIN <= d <= i128::MAX,
        ensures
            r matches Some(d) ==> span_between(self.entered_ns, self.finalized_ns) == Some(d as int),
            r is None ==> span_between(self.entered_ns, self.finalized_ns) is None,
    {
        match (self.entered_ns, self.finalized_ns) {
            (Some(s), Some(e)) => Some(e - s),
            _ => None,
        }
    }
}

/// A slice of the trace's time span, for navigation.
#[derive(Clone, Debug)]
pub struct TimeSegment {
    pub index: usize,
    pub start_ns: i128,
    pub end_ns: i128,
    pub event_count: usize,
    pub views: Vec<u64>,
}

/// A kind of event that occurs in the trace, with how it is shown.
#[derive(Clone, Debug)]
pub struct EventMeta {
    pub kind: EventKind,
    pub tag: u8,
    pub label: String,
    pub category: EventCategory,
    pub color: String,
}

/// A summary of the trace.
#[derive(Clone, Debug)]
pub struct Metadata {
    pub nodes: Vec<u8>,
    pub min_ts_ns: i128,
    pub max_ts_ns: i128,
    pub min_view: u64,
    pub max_view: u64,
    pub total_events: usize,
    pub event_kinds: Vec<EventMeta>,
}

impl Default for Metadata {
    fn default() -> (r: Self)
        ensures
            r.nodes@.len() == 0,
            r.min_ts_ns == 0,
            r.max_ts_ns == 0,
            r.min_view == 0,
            r.max_view == 0,
            r.total_events == 0,
            r.event_kinds@.len() == 0,
    {
        Metadata {
            nodes: Vec::new(),
            min_ts_ns: 0,
            max_ts_ns: 0,
            min_view: 0,
            max_view: 0,
            total_events: 0,
            event_kinds: Vec::new(),
        }
    }
}

/// How the user interface lays out the trace.
#[derive(Clone, Copy, Debug, PartialEq, Eq, Structural)]
pub enum ViewMode {
    Consensus,
    Actors,
}

impl Default for ViewMode {
    fn default() -> (r: Self)
        ensures
            r == ViewMode::Consensus,
    {
        ViewMode::Consensus
    }
}

} // verus!
