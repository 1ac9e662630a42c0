//! Storage events: journals and archives.
use vstd::prelude::*;
use crate::events::{EventKind, rule_outcome, class_view};
use crate::text::{chars_of, contains, contains_lit};

verus! {

broadcast use vstd::string::group_string_axioms;

/// The kind that a message is classified as, and whether its payload hash is
/// extracted: the first substring rule that the message satisfies.
pub open spec fn storage_rule(m: Seq<char>) -> Option<(EventKind, bool)> {
    if contains(m, "appended item"@) {
        Some((EventKind::StorageAppend, false))
    } else if contains(m, "initializing archive"@) {
        Some((EventKind::ArchiveInit, false))
    } else if contains(m, "restored"@) && (contains(m, "archive"@) || contains(m, "intervals"@)) {
        Some((EventKind::ArchiveRestore, false))
    } else {
        None
    }
}

/// Classify storage events (journals and archives).
pub fn classify_storage(msg: &str) -> (r: Option<(EventKind, Option<String>)>)
    ensures
        class_view(r) == rule_outcome(msg@, storage_rule(msg@)),
{
    let m = chars_of(msg);
    classify_storage_chars(&m)
}

/// Classify storage events (journals and archives). The message is given as its characters.
pub fn classify_storage_chars(m: &Vec<char>) -> (r: Option<(EventKind, Option<String>)>)
    ensures
        class_view(r) == rule_outcome(m@, storage_rule(m@)),
{
    if contains_lit(m, "appended item") {
        Some((EventKind::StorageAppend, None))
    } else if contains_lit(m, "initializing archive") {
        Some((EventKind::ArchiveInit, None))
    } else if contains_lit(m, "restored") && (contains_lit(m, "archive") || contains_lit(m, "intervals")) {
        Some((EventKind::ArchiveRestore, None))
    } else {
        None
    }
}

} // verus!
