//! Consensus events: voter, marshal and batcher actors.
use vstd::prelude::*;
use crate::events::{EventKind, rule_outcome, class_view};
use crate::text::{chars_of, contains, contains_lit};
use crate::parser::extractors::payload_of;

verus! {

broadcast use vstd::string::group_string_axioms;

/// The kind that a message is classified as, and whether its payload hash is
/// extracted: the first substring rule that the message satisfies.
pub open spec fn consensus_rule(m: Seq<char>) -> Option<(EventKind, bool)> {
    if contains(m, "leader elected round="@) {
        Some((EventKind::LeaderElected, false))
    } else if contains(m, "requested proposal from automaton"@) {
        Some((EventKind::ProposalRequested, false))
    } else if contains(m, "received proposal view="@) {
        Some((EventKind::ProposalReceived, false))
    } else if contains(m, "requested proposal verification"@) {
        Some((EventKind::ProposalVerify, true))
    } else if contains(m, "broadcasting notarize proposal="@) {
        Some((EventKind::NotarizeBroadcast, true))
    } else if contains(m, "broadcasting notarization proposal="@) {
        Some((EventKind::NotarizedBuilt, true))
    } else if contains(m, "received notarization view="@) {
        Some((EventKind::NotarizationReceived, false))
    } else if contains(m, "broadcasting nullify round="@) {
        Some((EventKind::NullifyBroadcast, false))
    } else if contains(m, "broadcasting nullification round="@) {
        Some((EventKind::NullifiedBuilt, false))
    } else if contains(m, "received nullification view="@) {
        Some((EventKind::NullificationReceived, false))
    } else if contains(m, "broadcasting finalize proposal="@) {
        Some((EventKind::FinalizeBroadcast, true))
    } else if contains(m, "broadcasting finalization proposal="@) {
        Some((EventKind::FinalizedBuilt, true))
    } else if contains(m, "received finalization view="@) {
        Some((EventKind::FinalizationReceived, false))
    } else if contains(m, "attempting certification"@) {
        Some((EventKind::CertificationAttempt, false))
    } else {
        None
    }
}

/// Classify consensus-related events (voter actor).
pub fn classify_consensus(msg: &str) -> (r: Option<(EventKind, Option<String>)>)
    ensures
        class_view(r) == rule_outcome(msg@, consensus_rule(msg@)),
{
    let m = chars_of(msg);
    classify_consensus_chars(&m)
}

/// Classify consensus-related events (voter actor). The message is given as its characters.
pub fn classify_consensus_chars(m: &Vec<char>) -> (r: Option<(EventKind, Option<String>)>)
    ensures
        class_view(r) == rule_outcome(m@, consensus_rule(m@)),
{
    if contains_lit(m, "leader elected round=") {
        Some((EventKind::LeaderElected, None))
    } else if contains_lit(m, "requested proposal from automaton") {
        Some((EventKind::ProposalRequested, None))
    } else if contains_lit(m, "received proposal view=") {
        Some((EventKind::ProposalReceived, None))
    } else if contains_lit(m, "requested proposal verification") {
        Some((EventKind::ProposalVerify, payload_of(m)))
    } else if contains_lit(m, "broadcasting notarize proposal=") {
        Some((EventKind::NotarizeBroadcast, payload_of(m)))
    } else if contains_lit(m, "broadcasting notarization proposal=") {
        Some((EventKind::NotarizedBuilt, payload_of(m)))
    } else if contains_lit(m, "received notarization view=") {
        Some((EventKind::NotarizationReceived, None))
    } else if contains_lit(m, "broadcasting nullify round=") {
        Some((EventKind::NullifyBroadcast, None))
    } else if contains_lit(m, "broadcasting nullification round=") {
        Some((EventKind::NullifiedBuilt, None))
    } else if contains_lit(m, "received nullification view=") {
        Some((EventKind::NullificationReceived, None))
    } else if contains_lit(m, "broadcasting finalize proposal=") {
        Some((EventKind::FinalizeBroadcast, payload_of(m)))
    } else if contains_lit(m, "broadcasting finalization proposal=") {
        Some((EventKind::FinalizedBuilt, payload_of(m)))
    } else if contains_lit(m, "received finalization view=") {
        Some((EventKind::FinalizationReceived, None))
    } else if contains_lit(m, "attempting certification") {
        Some((EventKind::CertificationAttempt, None))
    } else {
        None
    }
}

/// The kind that a message is classified as, and whether its payload hash is
/// extracted: the first substring rule that the message satisfies.
pub open spec fn marshal_rule(m: Seq<char>) -> Option<(EventKind, bool)> {
    if contains(m, "cached round="@) {
        Some((EventKind::MarshalCached, false))
    } else if contains(m, "registering subscriber"@) {
        Some((EventKind::MarshalSubscriber, false))
    } else if contains(m, "requested broadcast of built block"@) {
        Some((EventKind::MarshalBroadcast, true))
    } else {
        None
    }
}

/// Classify marshal actor events.
pub fn classify_marshal(msg: &str) -> (r: Option<(EventKind, Option<String>)>)
    ensures
        class_view(r) == rule_outcome(msg@, marshal_rule(msg@)),
{
    let m = chars_of(msg);
    classify_marshal_chars(&m)
}

/// Classify marshal actor events. The message is given as its characters.
pub fn classify_marshal_chars(m: &Vec<char>) -> (r: Option<(EventKind, Option<String>)>)
    ensures
        class_view(r) == rule_outcome(m@, marshal_rule(m@)),
{
    if contains_lit(m, "cached round=") {
        Some((EventKind::MarshalCached, None))
    } else if contains_lit(m, "registering subscriber") {
        Some((EventKind::MarshalSubscriber, None))
    } else if contains_lit(m, "requested broadcast of built block") {
        Some((EventKind::MarshalBroadcast, payload_of(m)))
    } else {
        None
    }
}

/// The kind that a message is classified as, and whether its payload hash is
/// extracted: the first substring rule that the message satisfies.
pub open spec fn batcher_rule(m: Seq<char>) -> Option<(EventKind, bool)> {
    if contains(m, "no verifier ready"@) {
        Some((EventKind::BatcherNoVerifier, false))
    } else if contains(m, "skipping duplicate"@) {
        Some((EventKind::BatcherSkipDuplicate, false))
    } else {
        None
    }
}

/// Classify batcher actor events.
pub fn classify_batcher(msg: &str) -> (r: Option<(EventKind, Option<String>)>)
    ensures
        class_view(r) == rule_outcome(msg@, batcher_rule(msg@)),
{
    let m = chars_of(msg);
    classify_batcher_chars(&m)
}

/// Classify batcher actor events. The message is given as its characters.
pub fn classify_batcher_chars(m: &Vec<char>) -> (r: Option<(EventKind, Option<String>)>)
    ensures
        class_view(r) == rule_outcome(m@, batcher_rule(m@)),
{
    if contains_lit(m, "no verifier ready") {
        Some((EventKind::BatcherNoVerifier, None))
    } else if contains_lit(m, "skipping duplicate") {
        Some((EventKind::BatcherSkipDuplicate, None))
    } else {
        None
    }
}

} // verus!
