//! Network events: connections and peers.
use vstd::prelude::*;
use crate::events::{EventKind, rule_outcome, class_view};
use crate::text::{chars_of, contains, contains_lit};

verus! {

broadcast use vstd::string::group_string_axioms;

/// The kind that a message is classified as, and whether its payload hash is
/// extracted: the first substring rule that the message satisfies.
pub open spec fn network_rule(m: Seq<char>) -> Option<(EventKind, bool)> {
    if contains(m, "dialed peer"@) {
        Some((EventKind::PeerDialed, false))
    } else if contains(m, "upgraded connection peer="@) {
        Some((EventKind::PeerConnected, false))
    } else if contains(m, "peer started peer="@) {
        Some((EventKind::PeerStarted, false))
    } else if contains(m, "peer ready peer="@) {
        Some((EventKind::PeerReady, false))
    } else if contains(m, "updated peer record"@) {
        Some((EventKind::PeerRecordUpdate, false))
    } else if contains(m, "accepted incoming connection"@) {
        Some((EventKind::ConnectionAccepted, false))
    } else if contains(m, "completed handshake"@) {
        Some((EventKind::HandshakeComplete, false))
    } else {
        None
    }
}

/// Classify network (peer-to-peer) events.
pub fn classify_network(msg: &str) -> (r: Option<(EventKind, Option<String>)>)
    ensures
        class_view(r) == rule_outcome(msg@, network_rule(msg@)),
{
    let m = chars_of(msg);
    classify_network_chars(&m)
}

/// Classify network (peer-to-peer) events. The message is given as its characters.
pub fn classify_network_chars(m: &Vec<char>) -> (r: Option<(EventKind, Option<String>)>)
    ensures
        class_view(r) == rule_outcome(m@, network_rule(m@)),
{
    if contains_lit(m, "dialed peer") {
        Some((EventKind::PeerDialed, None))
    } else if contains_lit(m, "upgraded connection peer=") {
        Some((EventKind::PeerConnected, None))
    } else if contains_lit(m, "peer started peer=") {
        Some((EventKind::PeerStarted, None))
    } else if contains_lit(m, "peer ready peer=") {
        Some((EventKind::PeerReady, None))
    } else if contains_lit(m, "updated peer record") {
        Some((EventKind::PeerRecordUpdate, None))
    } else if contains_lit(m, "accepted incoming connection") {
        Some((EventKind::ConnectionAccepted, None))
    } else if contains_lit(m, "completed handshake") {
        Some((EventKind::HandshakeComplete, None))
    } else {
        None
    }
}

} // verus!
