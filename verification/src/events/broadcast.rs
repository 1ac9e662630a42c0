//! Buffered broadcast and resolver engine events.
use vstd::prelude::*;
use crate::events::{EventKind, rule_outcome, class_view};
use crate::text::{chars_of, contains, contains_lit};

verus! {

broadcast use vstd::string::group_string_axioms;

/// The kind that a message is classified as, and whether its payload hash is
/// extracted: the first substring rule that the message satisfies.
pub open spec fn broadcast_rule(m: Seq<char>) -> Option<(EventKind, bool)> {
    if contains(m, "mailbox: broadcast"@) {
        Some((EventKind::BufferedBroadcast, false))
    } else if contains(m, "mailbox: get"@) {
        Some((EventKind::BufferedGet, false))
    } else if contains(m, "mailbox: subscribe"@) {
        Some((EventKind::BufferedSubscribe, false))
    } else if contains(m, "network peer="@) {
        Some((EventKind::BufferedNetwork, false))
    } else {
        None
    }
}

/// Classify buffered broadcast engine events.
pub fn classify_broadcast(msg: &str) -> (r: Option<(EventKind, Option<String>)>)
    ensures
        class_view(r) == rule_outcome(msg@, broadcast_rule(msg@)),
{
    let m = chars_of(msg);
    classify_broadcast_chars(&m)
}

/// Classify buffered broadcast engine events. The message is given as its characters.
pub fn classify_broadcast_chars(m: &Vec<char>) -> (r: Option<(EventKind, Option<String>)>)
    ensures
        class_view(r) == rule_outcome(m@, broadcast_rule(m@)),
{
    if contains_lit(m, "mailbox: broadcast") {
        Some((EventKind::BufferedBroadcast, None))
    } else if contains_lit(m, "mailbox: get") {
        Some((EventKind::BufferedGet, None))
    } else if contains_lit(m, "mailbox: subscribe") {
        Some((EventKind::BufferedSubscribe, None))
    } else if contains_lit(m, "network peer=") {
        Some((EventKind::BufferedNetwork, None))
    } else {
        None
    }
}

/// The kind that a message is classified as, and whether its payload hash is
/// extracted: the first substring rule that the message satisfies.
pub open spec fn resolver_rule(m: Seq<char>) -> Option<(EventKind, bool)> {
    if contains(m, "mailbox: cancel"@) {
        Some((EventKind::ResolverCancel, false))
    } else if contains(m, "mailbox: retain"@) {
        Some((EventKind::ResolverRetain, false))
    } else {
        None
    }
}

/// Classify resolver engine events.
pub fn classify_resolver(msg: &str) -> (r: Option<(EventKind, Option<String>)>)
    ensures
        class_view(r) == rule_outcome(msg@, resolver_rule(msg@)),
{
    let m = chars_of(msg);
    classify_resolver_chars(&m)
}

/// Classify resolver engine events. The message is given as its characters.
pub fn classify_resolver_chars(m: &Vec<char>) -> (r: Option<(EventKind, Option<String>)>)
    ensures
        class_view(r) == rule_outcome(m@, resolver_rule(m@)),
{
    if contains_lit(m, "mailbox: cancel") {
        Some((EventKind::ResolverCancel, None))
    } else if contains_lit(m, "mailbox: retain") {
        Some((EventKind::ResolverRetain, None))
    } else {
        None
    }
}

} // verus!
