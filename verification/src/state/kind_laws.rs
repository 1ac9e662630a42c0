//! The derived state stated against the fixed lists of event kinds: which
//! kinds mark which stage of a view.
use vstd::prelude::*;
use crate::events::EventKind;
use crate::events::{kind_is_recv, kind_is_send};
use crate::state::builders::{edges_upto, first_sends, kind_status, status_rank, view_states_upto};
use crate::state::laws::{first_time_is, lemma_view_records_direct, record_facts, stage, status_is, touches};
use crate::state::types::{Event, ViewStatus};

verus! {

/// Groups of event kinds, by the stage of a view that they mark.
pub enum KindGroup {
    /// LeaderElected.
    Enter,
    /// ProposalRequested, ProposalReceived.
    Proposal,
    /// LeaderElected and the proposal kinds.
    EnterOrProposal,
    /// NotarizeBroadcast, NotarizedBuilt, NotarizationReceived.
    Notarize,
    /// NullifyBroadcast, NullifiedBuilt, NullificationReceived.
    Nullify,
    /// FinalizeBroadcast, FinalizedBuilt, FinalizationReceived.
    Finalize,
    /// The twelve kinds of all the groups above.
    Stage,
}

/// The kinds of each group, listed.
pub open spec fn in_group(g: KindGroup, k: EventKind) -> bool {
    let enter = k == EventKind::LeaderElected;
    let proposal = k == EventKind::ProposalRequested || k == EventKind::ProposalReceived;
    let notarize = k == EventKind::NotarizeBroadcast || k == EventKind::NotarizedBuilt || k == EventKind::NotarizationReceived;
    let nullify = k == EventKind::NullifyBroadcast || k == EventKind::NullifiedBuilt || k == EventKind::NullificationReceived;
    let finalize = k == EventKind::FinalizeBroadcast || k == EventKind::FinalizedBuilt || k == EventKind::FinalizationReceived;
    match g {
        KindGroup::Enter => enter,
        KindGroup::Proposal => proposal,
        KindGroup::EnterOrProposal => enter || proposal,
        KindGroup::Notarize => notarize,
        KindGroup::Nullify => nullify,
        KindGroup::Finalize => finalize,
        KindGroup::Stage => enter || proposal || notarize || nullify || finalize,
    }
}

/// Which stage each kind marks: exactly the kinds of the groups, each group
/// its stage.
pub proof fn lemma_kind_stages(k: EventKind)
    ensures
        kind_status(k) is Some <==> in_group(KindGroup::Stage, k),
        kind_status(k) == Some(ViewStatus::Entered) <==> in_group(KindGroup::Enter, k),
        kind_status(k) == Some(ViewStatus::ProposalReceived) <==> in_group(KindGroup::Proposal, k),
        kind_status(k) == Some(ViewStatus::Notarized) <==> in_group(KindGroup::Notarize, k),
        kind_status(k) == Some(ViewStatus::Nullified) <==> in_group(KindGroup::Nullify, k),
        kind_status(k) == Some(ViewStatus::Finalized) <==> in_group(KindGroup::Finalize, k),
{
}

/// The event is on node `key.0`, in view `key.1`, of a kind of group `g`.
pub open spec fn on_key(e: Event, key: (u8, u64), g: KindGroup) -> bool {
    e.raw.node_id == key.0 && e.view == Some(key.1) && in_group(g, e.kind)
}

/// Event `j` is the first among the first `n` on `key` of a kind of group `g`.
pub open spec fn first_on_key(events: Seq<Event>, n: int, key: (u8, u64), g: KindGroup, j: int) -> bool {
    &&& 0 <= j < n
    &&& on_key(events[j], key, g)
    &&& forall|k: int| 0 <= k < j ==> !#[trigger] on_key(events[k], key, g)
}

/// The time of a stage in a record is that of the first event of its kinds.
proof fn lemma_first_time(events: Seq<Event>, n: int, key: (u8, u64), g: KindGroup, a: ViewStatus, b: ViewStatus, t: Option<i128>, j: int)
    requires
        0 <= n <= events.len(),
        forall|i: int| 0 <= i < n ==> (#[trigger] on_key(events[i], key, g) <==> touches(events[i], key)
            && (stage(events[i]) == a || stage(events[i]) == b)),
        first_time_is(events, n, key, a, b, t),
        first_on_key(events, n, key, g, j),
    ensures
        t == Some(events[j].raw.timestamp_ns),
{
    assert(on_key(events[j], key, g));
    assert(touches(events[j], key));
    match t {
        Some(x) => {
            let j2 = choose|j2: int|
                0 <= j2 < n && #[trigger] touches(events[j2], key) && (stage(events[j2]) == a || stage(events[j2]) == b)
                    && events[j2].raw.timestamp_ns == x && forall|k: int|
                    0 <= k < j2 && #[trigger] touches(events[k], key) ==> !(stage(events[k]) == a || stage(events[k]) == b);
            assert(on_key(events[j2], key, g));
            if j2 < j {
                assert(!on_key(events[j2], key, g));
            }
        },
        None => {},
    }
}

/// What each kind does to the records, in terms of the fixed lists of kinds
/// (see `KindGroup`): a node has a record of a view exactly when an event of
/// one of the twelve stage kinds names that view on that node. The first
/// finalize-kind event of the view gives its finalization time and makes it
/// Finalized; the first nullify-kind event gives its nullification time and
/// makes it at least Nullified; the first notarize-kind event gives its
/// notarization time and makes it at least Notarized; the first proposal
/// event gives its proposal time; and the first LeaderElected or proposal
/// event gives the time it was entered.
pub proof fn lemma_view_stage_kinds(events: Seq<Event>, n: int, key: (u8, u64))
    requires
        0 <= n <= events.len(),
    ensures
        view_states_upto(events, n).contains_key(key) <==> exists|j: int|
            0 <= j < n && #[trigger] on_key(events[j], key, KindGroup::Stage),
        forall|j: int| #[trigger] first_on_key(events, n, key, KindGroup::Finalize, j) ==> {
            &&& view_states_upto(events, n).contains_key(key)
            &&& view_states_upto(events, n)[key].status == ViewStatus::Finalized
            &&& view_states_upto(events, n)[key].finalized_ns == Some(events[j].raw.timestamp_ns)
        },
        forall|j: int| #[trigger] first_on_key(events, n, key, KindGroup::Nullify, j) ==> {
            &&& view_states_upto(events, n).contains_key(key)
            &&& (view_states_upto(events, n)[key].status == ViewStatus::Nullified
                || view_states_upto(events, n)[key].status == ViewStatus::Finalized)
            &&& view_states_upto(events, n)[key].nullified_ns == Some(events[j].raw.timestamp_ns)
        },
        forall|j: int| #[trigger] first_on_key(events, n, key, KindGroup::Notarize, j) ==> {
            &&& view_states_upto(events, n).contains_key(key)
            &&& (view_states_upto(events, n)[key].status == ViewStatus::Notarized
                || view_states_upto(events, n)[key].status == ViewStatus::Nullified
                || view_states_upto(events, n)[key].status == ViewStatus::Finalized)
            &&& view_states_upto(events, n)[key].notarized_ns == Some(events[j].raw.timestamp_ns)
        },
        forall|j: int| #[trigger] first_on_key(events, n, key, KindGroup::Proposal, j) ==> {
            &&& view_states_upto(events, n).contains_key(key)
            &&& view_states_upto(events, n)[key].proposal_ns == Some(events[j].raw.timestamp_ns)
        },
        forall|j: int| #[trigger] first_on_key(events, n, key, KindGroup::EnterOrProposal, j) ==> {
            &&& view_states_upto(events, n).contains_key(key)
            &&& view_states_upto(events, n)[key].entered_ns == Some(events[j].raw.timestamp_ns)
        },
{
    lemma_view_records_direct(events, n, key);
    assert forall|i: int| 0 <= i < n implies {
        &&& (#[trigger] on_key(events[i], key, KindGroup::Stage) <==> touches(events[i], key))
        &&& (on_key(events[i], key, KindGroup::Finalize) <==> touches(events[i], key) && stage(events[i]) == ViewStatus::Finalized)
        &&& (on_key(events[i], key, KindGroup::Nullify) <==> touches(events[i], key) && stage(events[i]) == ViewStatus::Nullified)
        &&& (on_key(events[i], key, KindGroup::Notarize) <==> touches(events[i], key) && stage(events[i]) == ViewStatus::Notarized)
        &&& (on_key(events[i], key, KindGroup::Proposal) <==> touches(events[i], key) && stage(events[i]) == ViewStatus::ProposalReceived)
        &&& (on_key(events[i], key, KindGroup::EnterOrProposal) <==> touches(events[i], key) && (stage(events[i]) == ViewStatus::Entered
            || stage(events[i]) == ViewStatus::ProposalReceived))
    } by {
        lemma_kind_stages(events[i].kind);
    }
    assert((exists|j: int| 0 <= j < n && #[trigger] on_key(events[j], key, KindGroup::Stage)) == (exists|j: int|
        0 <= j < n && #[trigger] touches(events[j], key))) by {
        if exists|j: int| 0 <= j < n && #[trigger] on_key(events[j], key, KindGroup::Stage) {
            let j = choose|j: int| 0 <= j < n && #[trigger] on_key(events[j], key, KindGroup::Stage);
            assert(touches(events[j], key));
        }
        if exists|j: int| 0 <= j < n && #[trigger] touches(events[j], key) {
            let j = choose|j: int| 0 <= j < n && #[trigger] touches(events[j], key);
            assert(on_key(events[j], key, KindGroup::Stage));
        }
    }
    let m = view_states_upto(events, n);
    assert forall|j: int| #[trigger] first_on_key(events, n, key, KindGroup::Finalize, j) implies {
        &&& m.contains_key(key)
        &&& m[key].status == ViewStatus::Finalized
        &&& m[key].finalized_ns == Some(events[j].raw.timestamp_ns)
    } by {
        assert(touches(events[j], key));
        let r = m[key];
        assert(status_rank(stage(events[j])) <= status_rank(r.status));
        lemma_first_time(events, n, key, KindGroup::Finalize, ViewStatus::Finalized, ViewStatus::Finalized, r.finalized_ns, j);
    }
    assert forall|j: int| #[trigger] first_on_key(events, n, key, KindGroup::Nullify, j) implies {
        &&& m.contains_key(key)
        &&& (m[key].status == ViewStatus::Nullified || m[key].status == ViewStatus::Finalized)
        &&& m[key].nullified_ns == Some(events[j].raw.timestamp_ns)
    } by {
        assert(touches(events[j], key));
        let r = m[key];
        assert(status_rank(stage(events[j])) <= status_rank(r.status));
        lemma_first_time(events, n, key, KindGroup::Nullify, ViewStatus::Nullified, ViewStatus::Nullified, r.nullified_ns, j);
    }
    assert forall|j: int| #[trigger] first_on_key(events, n, key, KindGroup::Notarize, j) implies {
        &&& m.contains_key(key)
        &&& (m[key].status == ViewStatus::Notarized || m[key].status == ViewStatus::Nullified
            || m[key].status == ViewStatus::Finalized)
        &&& m[key].notarized_ns == Some(events[j].raw.timestamp_ns)
    } by {
        assert(touches(events[j], key));
        let r = m[key];
        assert(status_rank(stage(events[j])) <= status_rank(r.status));
        lemma_first_time(events, n, key, KindGroup::Notarize, ViewStatus::Notarized, ViewStatus::Notarized, r.notarized_ns, j);
    }
    assert forall|j: int| #[trigger] first_on_key(events, n, key, KindGroup::Proposal, j) implies {
        &&& m.contains_key(key)
        &&& m[key].proposal_ns == Some(events[j].raw.timestamp_ns)
    } by {
        assert(touches(events[j], key));
        lemma_first_time(events, n, key, KindGroup::Proposal, ViewStatus::ProposalReceived, ViewStatus::ProposalReceived, m[key].proposal_ns, j);
    }
    assert forall|j: int| #[trigger] first_on_key(events, n, key, KindGroup::EnterOrProposal, j) implies {
        &&& m.contains_key(key)
        &&& m[key].entered_ns == Some(events[j].raw.timestamp_ns)
    } by {
        assert(touches(events[j], key));
        lemma_first_time(events, n, key, KindGroup::EnterOrProposal, ViewStatus::Entered, ViewStatus::ProposalReceived, m[key].entered_ns, j);
    }
}

// ============================================================================
// Sends and receipts
// ============================================================================

/// The kinds that send a message that other nodes receive, listed.
pub open spec fn send_kind(k: EventKind) -> bool {
    k == EventKind::ProposalRequested || k == EventKind::NotarizeBroadcast || k == EventKind::NullifyBroadcast
        || k == EventKind::FinalizeBroadcast || k == EventKind::NotarizedBuilt || k == EventKind::NullifiedBuilt
        || k == EventKind::FinalizedBuilt || k == EventKind::MarshalBroadcast || k == EventKind::BufferedBroadcast
}

/// The kinds that receive a message that another node sent, listed.
pub open spec fn receipt_kind(k: EventKind) -> bool {
    k == EventKind::ProposalReceived || k == EventKind::NotarizationReceived
        || k == EventKind::NullificationReceived || k == EventKind::FinalizationReceived
}

/// Which kinds send and which receive.
pub proof fn lemma_kind_roles(k: EventKind)
    ensures
        kind_is_send(k) <==> send_kind(k),
        kind_is_recv(k) <==> receipt_kind(k),
{
}

/// The event sends the message whose id is `mid`.
pub open spec fn sends(e: Event, mid: Seq<char>) -> bool {
    send_kind(e.kind) && e.message_id is Some && e.message_id->0@ == mid
}

/// The send recorded for each message id among the first `i` events is the
/// first event that sends it.
proof fn lemma_first_sends_are_first(events: Seq<Event>, i: int)
    requires
        0 <= i <= events.len(),
    ensures
        forall|mid: Seq<char>| #[trigger] first_sends(events, i).contains_key(mid) <==> exists|j: int|
            0 <= j < i && #[trigger] sends(events[j], mid),
        forall|mid: Seq<char>, j: int|
            0 <= j < i && #[trigger] sends(events[j], mid) && (forall|k: int| 0 <= k < j ==> !#[trigger] sends(events[k], mid))
                ==> #[trigger] first_sends(events, i)[mid] == j,
    decreases i,
{
    if i > 0 {
        lemma_first_sends_are_first(events, i - 1);
        lemma_kind_roles(events[i - 1].kind);
        let prev = first_sends(events, i - 1);
        let cur = first_sends(events, i);
        assert forall|mid: Seq<char>| #[trigger] cur.contains_key(mid) <==> exists|j: int| 0 <= j < i && #[trigger] sends(events[j], mid) by {
            if exists|j: int| 0 <= j < i && #[trigger] sends(events[j], mid) {
                let j = choose|j: int| 0 <= j < i && #[trigger] sends(events[j], mid);
                if j < i - 1 {
                    assert(prev.contains_key(mid));
                }
            }
            if prev.contains_key(mid) {
                let j = choose|j: int| 0 <= j < i - 1 && #[trigger] sends(events[j], mid);
                assert(sends(events[j], mid));
            } else if cur.contains_key(mid) {
                assert(sends(events[i - 1], mid));
            }
        }
        assert forall|mid: Seq<char>, j: int|
            0 <= j < i && #[trigger] sends(events[j], mid) && (forall|k: int| 0 <= k < j ==> !#[trigger] sends(events[k], mid))
                implies #[trigger] cur[mid] == j by {
            if j < i - 1 {
                assert(prev[mid] == j);
                assert(prev.contains_key(mid));
            } else {
                if prev.contains_key(mid) {
                    let k = choose|k: int| 0 <= k < i - 1 && #[trigger] sends(events[k], mid);
                    assert(!sends(events[k], mid));
                }
            }
        }
    }
}

/// The edges found among the first `a` events are the first of those found
/// among the first `b`.
proof fn lemma_edges_grow(events: Seq<Event>, a: int, b: int)
    requires
        0 <= a <= b,
    ensures
        edges_upto(events, a).len() <= edges_upto(events, b).len(),
        forall|q: int| 0 <= q < edges_upto(events, a).len() ==> #[trigger] edges_upto(events, b)[q] == edges_upto(events, a)[q],
    decreases b,
{
    if a < b {
        lemma_edges_grow(events, a, b - 1);
        assert forall|q: int| 0 <= q < edges_upto(events, b - 1).len() implies #[trigger] edges_upto(events, b)[q]
            == edges_upto(events, b - 1)[q] by {}
    }
}

/// A receipt makes an edge: an event of one of the four receipt kinds, whose
/// message id some earlier event sent from another node, gives an edge from
/// the first event that sent that id to the receipt, with both times and the
/// kind of the send.
pub proof fn lemma_receipts_make_edges(events: Seq<Event>, n: int, i: int, j: int)
    requires
        0 <= j < i < n <= events.len(),
        receipt_kind(events[i].kind),
        events[i].message_id is Some,
        sends(events[j], events[i].message_id->0@),
        forall|k: int| 0 <= k < j ==> !#[trigger] sends(events[k], events[i].message_id->0@),
        events[j].raw.node_id != events[i].raw.node_id,
    ensures
        exists|q: int| 0 <= q < edges_upto(events, n).len() && #[trigger] edges_upto(events, n)[q] == (
            events[i].message_id->0@,
            events[j].raw.node_id,
            events[i].raw.node_id,
            events[j].raw.timestamp_ns,
            events[i].raw.timestamp_ns,
            events[j].kind,
        ),
{
    let mid = events[i].message_id->0@;
    lemma_first_sends_are_first(events, i);
    lemma_kind_roles(events[i].kind);
    assert(first_sends(events, i).contains_key(mid));
    assert(first_sends(events, i)[mid] == j);
    let edge = (mid, events[j].raw.node_id, events[i].raw.node_id, events[j].raw.timestamp_ns, events[i].raw.timestamp_ns, events[j].kind);
    let q = edges_upto(events, i).len() as int;
    assert(edges_upto(events, i + 1) == edges_upto(events, i).push(edge));
    lemma_edges_grow(events, i + 1, n);
    assert(edges_upto(events, n)[q] == edge);
}

} // verus!
