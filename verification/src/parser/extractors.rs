//! Field extraction from log messages.
//!
//! Each field is found by a pattern over the characters of the message; the
//! pattern that is matched is the leftmost one, and the captured part is the
//! one that a backtracking matcher that prefers longer repetitions would
//! capture. The patterns, in regular-expression notation:
//!
//! - payload: `payload[:=]\s*([0-9a-fA-F]{64})`
//! - peer: `peer=([0-9a-fA-F]{64})`
//! - leader: `leader=([0-9]+)`
//! - actor, from, to: `actor=(\w+)`, `from=(\w+)`, `to=(\w+)`
//! - view, in order of preference: the number after `view=`, `view:` or
//!   `view(` (ASCII blanks and `(` skipped), where the needle is looked for
//!   in the UTF-8 bytes of the message's lower-case form and the number is
//!   read at the same byte offset in the message itself; then
//!   `(?i)view\s*[=:]\s*view?\s*\(?([0-9]+)\)?`; then
//!   `round=\(?(?:Round\s*\{[^}]*view:\s*View\()?([0-9]+)`; then
//!   `current[=:]?\s*([0-9]+)`. When lower-casing changes the length of the
//!   text before the needle, that offset may fall inside a character of the
//!   message; the view of such a message cannot be read.
use vstd::prelude::*;
use vstd::utf8::{decode_utf8, encode_utf8, is_char_boundary};
use crate::text::{
    ascii_lower, ci_occurs_at, ci_occurs_at_exec, decimal_value, in_class, is_digit, occurs_at,
    occurs_at_exec, parse_decimal, run_end, run_end_exec, CharClass, chars_of, string_of, is_lower_hex,
    lower_string_of, lower_seq, lemma_run_end, lemma_run_end_ge, ascii_lower_exec, contains,
    lemma_numeral_ends, numeral, lowercase, to_lowercase,
};

verus! {

broadcast use vstd::string::group_string_axioms;

/// The patterns that fields are extracted with.
#[derive(Clone, Copy, PartialEq, Eq)]
pub enum Pattern {
    Payload,
    Peer,
    Leader,
    Actor,
    FromActor,
    ToActor,
    View,
    Round,
    Current,
}

/// 64 hexadecimal digits start at `h`.
pub open spec fn hex64_at(m: Seq<char>, h: int) -> bool {
    0 <= h && h + 64 <= m.len() && run_end(m, h, CharClass::Hex) >= h + 64
}

/// `lit[:=]\s*[0-9a-fA-F]{64}` at `i` when `sep`, else `lit[0-9a-fA-F]{64}`.
pub open spec fn tagged_hex_at(m: Seq<char>, lit: Seq<char>, sep: bool, i: int) -> bool {
    occurs_at(m, lit, i) && if sep {
        let a = i + lit.len();
        a < m.len() && (m[a] == ':' || m[a] == '=') && hex64_at(m, run_end(m, a + 1, CharClass::Space))
    } else {
        hex64_at(m, i + lit.len())
    }
}

/// `lit` followed by at least one character of the class, at `i`.
pub open spec fn run_after_at(m: Seq<char>, lit: Seq<char>, cls: CharClass, i: int) -> bool {
    occurs_at(m, lit, i) && i + lit.len() < m.len() && in_class(cls, m[i + lit.len()])
}

/// Where the digits of `(?i)view\s*[=:]\s*view?\s*\(?` start, for a match at `i`.
pub open spec fn view_digits(m: Seq<char>, i: int) -> int {
    let a = run_end(m, i + 4, CharClass::Space);
    let b = run_end(m, a + 1, CharClass::Space);
    let c = if b + 3 < m.len() && ascii_lower(m[b + 3]) == 'w' { b + 4 } else { b + 3 };
    let d = run_end(m, c, CharClass::Space);
    if d < m.len() && m[d] == '(' { d + 1 } else { d }
}

/// `(?i)view\s*[=:]\s*view?\s*\(?` followed by a digit matches at `i`.
pub open spec fn view_at(m: Seq<char>, i: int) -> bool {
    &&& ci_occurs_at(m, "view"@, i)
    &&& {
        let a = run_end(m, i + 4, CharClass::Space);
        &&& a < m.len()
        &&& (m[a] == '=' || m[a] == ':')
        &&& ci_occurs_at(m, "vie"@, run_end(m, a + 1, CharClass::Space))
        &&& view_digits(m, i) < m.len()
        &&& is_digit(m[view_digits(m, i)])
    }
}

/// Where the optional group or the digits of `round=\(?` start.
pub open spec fn round_q(m: Seq<char>, i: int) -> int {
    if i + 6 < m.len() && m[i + 6] == '(' { i + 7 } else { i + 6 }
}

/// For `Round\s*\{` at `round_q`, the bounds of the `[^}]*` run after the brace.
pub open spec fn round_brace_run(m: Seq<char>, i: int) -> Option<(int, int)> {
    let q = round_q(m, i);
    if occurs_at(m, "Round"@, q) {
        let r0 = run_end(m, q + 5, CharClass::Space);
        if r0 < m.len() && m[r0] == '{' {
            Some((r0 + 1, run_end(m, r0 + 1, CharClass::NotBrace)))
        } else {
            None
        }
    } else {
        None
    }
}

/// `view:\s*View\([0-9]` at `k`.
pub open spec fn round_inner_at(m: Seq<char>, k: int) -> bool {
    occurs_at(m, "view:"@, k) && {
        let w = run_end(m, k + 5, CharClass::Space);
        occurs_at(m, "View("@, w) && w + 5 < m.len() && is_digit(m[w + 5])
    }
}

/// The last `k` of `[r, e]` with `round_inner_at`: a longest `[^}]*` is preferred.
pub open spec fn round_inner_last(m: Seq<char>, r: int, e: int) -> Option<int> {
    if exists|k: int| r <= k <= e && #[trigger] round_inner_at(m, k) {
        Some(choose|k: int| r <= k <= e && #[trigger] round_inner_at(m, k)
            && forall|k2: int| k < k2 <= e ==> !#[trigger] round_inner_at(m, k2))
    } else {
        None
    }
}

/// Where the digits start in a match of the round pattern at `i`, with the
/// optional group taken when it can be.
pub open spec fn round_digits(m: Seq<char>, i: int) -> Option<int> {
    let q = round_q(m, i);
    let via_group = match round_brace_run(m, i) {
        Some((r, e)) => match round_inner_last(m, r, e) {
            Some(k) => Some(run_end(m, k + 5, CharClass::Space) + 5),
            None => None,
        },
        None => None,
    };
    match via_group {
        Some(g) => Some(g),
        None => if q < m.len() && is_digit(m[q]) { Some(q) } else { None },
    }
}

/// `round=\(?(?:Round\s*\{[^}]*view:\s*View\()?` followed by a digit matches at `i`.
pub open spec fn round_at(m: Seq<char>, i: int) -> bool {
    occurs_at(m, "round="@, i) && round_digits(m, i) is Some
}

/// Where the digits of `current[=:]?\s*` start, for a match at `i`.
pub open spec fn current_digits(m: Seq<char>, i: int) -> int {
    let b = if i + 7 < m.len() && (m[i + 7] == '=' || m[i + 7] == ':') { i + 8 } else { i + 7 };
    run_end(m, b, CharClass::Space)
}

/// `current[=:]?\s*` followed by a digit matches at `i`.
pub open spec fn current_at(m: Seq<char>, i: int) -> bool {
    occurs_at(m, "current"@, i) && current_digits(m, i) < m.len() && is_digit(
        m[current_digits(m, i)],
    )
}

/// The pattern matches the message at index `i`.
#[verifier::opaque]
pub open spec fn match_at(p: Pattern, m: Seq<char>, i: int) -> bool {
    match p {
        Pattern::Payload => tagged_hex_at(m, "payload"@, true, i),
        Pattern::Peer => tagged_hex_at(m, "peer="@, false, i),
        Pattern::Leader => run_after_at(m, "leader="@, CharClass::Digit, i),
        Pattern::Actor => run_after_at(m, "actor="@, CharClass::Word, i),
        Pattern::FromActor => run_after_at(m, "from="@, CharClass::Word, i),
        Pattern::ToActor => run_after_at(m, "to="@, CharClass::Word, i),
        Pattern::View => view_at(m, i),
        Pattern::Round => round_at(m, i),
        Pattern::Current => current_at(m, i),
    }
}

/// The captured part of a match at `i`, as the bounds `[start, end)`.
#[verifier::opaque]
pub open spec fn group_of(p: Pattern, m: Seq<char>, i: int) -> (int, int) {
    match p {
        Pattern::Payload => {
            let h = run_end(m, i + 8, CharClass::Space);
            (h, h + 64)
        },
        Pattern::Peer => (i + 5, i + 69),
        Pattern::Leader => (i + 7, run_end(m, i + 7, CharClass::Digit)),
        Pattern::Actor => (i + 6, run_end(m, i + 6, CharClass::Word)),
        Pattern::FromActor => (i + 5, run_end(m, i + 5, CharClass::Word)),
        Pattern::ToActor => (i + 3, run_end(m, i + 3, CharClass::Word)),
        Pattern::View => {
            let e = view_digits(m, i);
            (e, run_end(m, e, CharClass::Digit))
        },
        Pattern::Round => {
            let g = round_digits(m, i)->0;
            (g, run_end(m, g, CharClass::Digit))
        },
        Pattern::Current => {
            let c = current_digits(m, i);
            (c, run_end(m, c, CharClass::Digit))
        },
    }
}

/// The leftmost index at which the pattern matches.
pub open spec fn first_match(p: Pattern, m: Seq<char>) -> Option<int> {
    if exists|i: int| #[trigger] match_at(p, m, i) {
        Some(choose|i: int| #[trigger] match_at(p, m, i)
            && forall|j: int| j < i ==> !#[trigger] match_at(p, m, j))
    } else {
        None
    }
}

/// The captured text of the leftmost match.
pub open spec fn first_capture(p: Pattern, m: Seq<char>) -> Option<Seq<char>> {
    match first_match(p, m) {
        Some(i) => Some(m.subrange(group_of(p, m, i).0, group_of(p, m, i).1)),
        None => None,
    }
}

/// The value of a string of ASCII digits, if it is at most `max`.
pub open spec fn number_upto(s: Option<Seq<char>>, max: int) -> Option<int> {
    match s {
        Some(d) => if decimal_value(d) <= max { Some(decimal_value(d)) } else { None },
        None => None,
    }
}


// ---------------------------------------------------------------------------
// Matching
// ---------------------------------------------------------------------------

/// A vector's length fits in `usize`.
proof fn lemma_len_fits(m: &Vec<char>)
    ensures
        m@.len() <= usize::MAX,
{
    vstd::std_specs::vec::axiom_spec_len(m);
}

fn lit(s: &str) -> (r: Vec<char>)
    ensures
        r@ == s@,
{
    chars_of(s)
}

fn hex64_at_exec(m: &Vec<char>, h: usize) -> (r: bool)
    requires
        h <= m@.len(),
    ensures
        r == hex64_at(m@, h as int),
{
    proof { lemma_len_fits(m); }
    h <= m.len() && 64 <= m.len() - h && run_end_exec(m, h, CharClass::Hex) >= h + 64
}

fn tagged_hex_at_exec(m: &Vec<char>, l: &Vec<char>, sep: bool, i: usize) -> (r: bool)
    ensures
        r == tagged_hex_at(m@, l@, sep, i as int),
{
    proof { lemma_len_fits(m); }
    if !occurs_at_exec(m, l, i) {
        return false;
    }
    let a = i + l.len();
    if sep {
        if a < m.len() && (m[a] == ':' || m[a] == '=') {
            let h = run_end_exec(m, a + 1, CharClass::Space);
            proof { lemma_run_end(m@, a + 1, CharClass::Space); }
            hex64_at_exec(m, h)
        } else {
            false
        }
    } else {
        hex64_at_exec(m, a)
    }
}

fn run_after_at_exec(m: &Vec<char>, l: &Vec<char>, cls: CharClass, i: usize) -> (r: bool)
    ensures
        r == run_after_at(m@, l@, cls, i as int),
{
    proof { lemma_len_fits(m); }
    if !occurs_at_exec(m, l, i) {
        return false;
    }
    let a = i + l.len();
    a < m.len() && crate::text::in_class_exec(cls, m[a])
}

fn view_digits_exec(m: &Vec<char>, i: usize) -> (r: usize)
    requires
        ci_occurs_at(m@, "view"@, i as int),
        run_end(m@, i + 4, CharClass::Space) < m@.len(),
        ci_occurs_at(m@, "vie"@, run_end(m@, run_end(m@, i + 4, CharClass::Space) + 1, CharClass::Space)),
    ensures
        r == view_digits(m@, i as int),
        r <= m@.len(),
{
    proof { lemma_len_fits(m); }
    proof {
        reveal_strlit("view");
        reveal_strlit("vie");
    }
    let a = run_end_exec(m, i + 4, CharClass::Space);
    proof { lemma_run_end(m@, i + 4, CharClass::Space); }
    let b = run_end_exec(m, a + 1, CharClass::Space);
    proof { lemma_run_end(m@, a + 1, CharClass::Space); }
    let c = if b + 3 < m.len() && ascii_lower_exec(m[b + 3]) == 'w' { b + 4 } else { b + 3 };
    let d = run_end_exec(m, c, CharClass::Space);
    proof { lemma_run_end(m@, c as int, CharClass::Space); }
    if d < m.len() && m[d] == '(' { d + 1 } else { d }
}

fn view_at_exec(m: &Vec<char>, i: usize) -> (r: bool)
    ensures
        r == view_at(m@, i as int),
{
    proof { lemma_len_fits(m); }
    proof {
        reveal_strlit("view");
        reveal_strlit("vie");
    }
    if !ci_occurs_at_exec(m, &lit("view"), i) {
        return false;
    }
    let a = run_end_exec(m, i + 4, CharClass::Space);
    proof { lemma_run_end(m@, i + 4, CharClass::Space); }
    if !(a < m.len() && (m[a] == '=' || m[a] == ':')) {
        return false;
    }
    let b = run_end_exec(m, a + 1, CharClass::Space);
    if !ci_occurs_at_exec(m, &lit("vie"), b) {
        return false;
    }
    let e = view_digits_exec(m, i);
    e < m.len() && '0' <= m[e] && m[e] <= '9'
}

fn round_q_exec(m: &Vec<char>, i: usize) -> (r: usize)
    requires
        i + 6 <= m@.len(),
    ensures
        r == round_q(m@, i as int),
        r <= m@.len(),
{
    proof { lemma_len_fits(m); }
    if i + 6 < m.len() && m[i + 6] == '(' { i + 7 } else { i + 6 }
}

fn round_inner_at_exec(m: &Vec<char>, k: usize) -> (r: bool)
    ensures
        r == round_inner_at(m@, k as int),
{
    proof { lemma_len_fits(m); }
    proof {
        reveal_strlit("view:");
        reveal_strlit("View(");
    }
    if !occurs_at_exec(m, &lit("view:"), k) {
        return false;
    }
    let w = run_end_exec(m, k + 5, CharClass::Space);
    proof { lemma_run_end(m@, k + 5, CharClass::Space); }
    occurs_at_exec(m, &lit("View("), w) && w + 5 < m.len() && '0' <= m[w + 5] && m[w + 5] <= '9'
}

fn round_inner_last_exec(m: &Vec<char>, r: usize, e: usize) -> (res: Option<usize>)
    requires
        r <= e <= m@.len(),
    ensures
        match res {
            Some(k) => round_inner_last(m@, r as int, e as int) == Some(k as int) && r <= k <= e
                && round_inner_at(m@, k as int),
            None => round_inner_last(m@, r as int, e as int) is None,
        },
{
    proof { lemma_len_fits(m); }
    let mut k = e;
    loop
        invariant
            r <= k <= e,
            forall|k2: int| k < k2 <= e ==> !#[trigger] round_inner_at(m@, k2),
        decreases k - r,
    {
        if round_inner_at_exec(m, k) {
            let ghost c = choose|c: int| r <= c <= e && #[trigger] round_inner_at(m@, c)
                && forall|k2: int| c < k2 <= e ==> !#[trigger] round_inner_at(m@, k2);
            assert(round_inner_at(m@, k as int));
            assert(c == k) by {
                if c < k {
                    assert(round_inner_at(m@, k as int));
                } else if c > k {
                    assert(round_inner_at(m@, c));
                }
            }
            return Some(k);
        }
        if k == r {
            assert forall|k2: int| r <= k2 <= e implies !#[trigger] round_inner_at(m@, k2) by {
                if k2 == r {
                }
            }
            return None;
        }
        k = k - 1;
    }
}

fn round_digits_exec(m: &Vec<char>, i: usize) -> (res: Option<usize>)
    requires
        occurs_at(m@, "round="@, i as int),
    ensures
        match res {
            Some(g) => round_digits(m@, i as int) == Some(g as int) && g < m@.len(),
            None => round_digits(m@, i as int) is None,
        },
{
    proof { lemma_len_fits(m); }
    proof {
        reveal_strlit("round=");
        reveal_strlit("Round");
    }
    let q = round_q_exec(m, i);
    let mut via_group: Option<usize> = None;
    if occurs_at_exec(m, &lit("Round"), q) {
        let r0 = run_end_exec(m, q + 5, CharClass::Space);
        proof { lemma_run_end(m@, q + 5, CharClass::Space); }
        if r0 < m.len() && m[r0] == '{' {
            let e = run_end_exec(m, r0 + 1, CharClass::NotBrace);
            proof { lemma_run_end(m@, r0 + 1, CharClass::NotBrace); }
            match round_inner_last_exec(m, r0 + 1, e) {
                Some(k) => {
                    proof {
                        reveal_strlit("view:");
                        reveal_strlit("View(");
                        lemma_run_end(m@, k + 5, CharClass::Space);
                    }
                    let w = run_end_exec(m, k + 5, CharClass::Space);
                    via_group = Some(w + 5);
                },
                None => {},
            }
        }
    }
    match via_group {
        Some(g) => Some(g),
        None => if q < m.len() && '0' <= m[q] && m[q] <= '9' { Some(q) } else { None },
    }
}

fn current_digits_exec(m: &Vec<char>, i: usize) -> (r: usize)
    requires
        i + 7 <= m@.len(),
    ensures
        r == current_digits(m@, i as int),
        r <= m@.len(),
{
    proof { lemma_len_fits(m); }
    let b = if i + 7 < m.len() && (m[i + 7] == '=' || m[i + 7] == ':') { i + 8 } else { i + 7 };
    proof { lemma_run_end(m@, b as int, CharClass::Space); }
    run_end_exec(m, b, CharClass::Space)
}

/// Whether the pattern matches the message at `i`.
pub fn match_at_exec(p: Pattern, m: &Vec<char>, i: usize) -> (r: bool)
    ensures
        r == match_at(p, m@, i as int),
{
    reveal(match_at);
    reveal(group_of);
    proof { lemma_len_fits(m); }
    match p {
        Pattern::Payload => tagged_hex_at_exec(m, &lit("payload"), true, i),
        Pattern::Peer => tagged_hex_at_exec(m, &lit("peer="), false, i),
        Pattern::Leader => run_after_at_exec(m, &lit("leader="), CharClass::Digit, i),
        Pattern::Actor => run_after_at_exec(m, &lit("actor="), CharClass::Word, i),
        Pattern::FromActor => run_after_at_exec(m, &lit("from="), CharClass::Word, i),
        Pattern::ToActor => run_after_at_exec(m, &lit("to="), CharClass::Word, i),
        Pattern::View => view_at_exec(m, i),
        Pattern::Round => {
            proof { reveal_strlit("round="); }
            if occurs_at_exec(m, &lit("round="), i) {
                round_digits_exec(m, i).is_some()
            } else {
                false
            }
        },
        Pattern::Current => {
            proof { reveal_strlit("current"); }
            if occurs_at_exec(m, &lit("current"), i) {
                let c = current_digits_exec(m, i);
                c < m.len() && '0' <= m[c] && m[c] <= '9'
            } else {
                false
            }
        },
    }
}

/// The bounds of the captured part of a match at `i`.
pub fn group_exec(p: Pattern, m: &Vec<char>, i: usize) -> (r: (usize, usize))
    requires
        match_at(p, m@, i as int),
    ensures
        r.0 as int == group_of(p, m@, i as int).0,
        r.1 as int == group_of(p, m@, i as int).1,
        r.0 <= r.1 <= m@.len(),
{
    reveal(match_at);
    reveal(group_of);
    proof { lemma_len_fits(m); }
    proof {
        reveal_strlit("payload");
        reveal_strlit("peer=");
        reveal_strlit("leader=");
        reveal_strlit("actor=");
        reveal_strlit("from=");
        reveal_strlit("to=");
        reveal_strlit("round=");
        reveal_strlit("current");
    }
    match p {
        Pattern::Payload => {
            proof { lemma_run_end(m@, i + 8, CharClass::Space); }
            let h = run_end_exec(m, i + 8, CharClass::Space);
            (h, h + 64)
        },
        Pattern::Peer => (i + 5, i + 69),
        Pattern::Leader => {
            proof { lemma_run_end(m@, i + 7, CharClass::Digit); }
            (i + 7, run_end_exec(m, i + 7, CharClass::Digit))
        },
        Pattern::Actor => {
            proof { lemma_run_end(m@, i + 6, CharClass::Word); }
            (i + 6, run_end_exec(m, i + 6, CharClass::Word))
        },
        Pattern::FromActor => {
            proof { lemma_run_end(m@, i + 5, CharClass::Word); }
            (i + 5, run_end_exec(m, i + 5, CharClass::Word))
        },
        Pattern::ToActor => {
            proof { lemma_run_end(m@, i + 3, CharClass::Word); }
            (i + 3, run_end_exec(m, i + 3, CharClass::Word))
        },
        Pattern::View => {
            let e = view_digits_exec(m, i);
            proof { lemma_run_end(m@, e as int, CharClass::Digit); }
            (e, run_end_exec(m, e, CharClass::Digit))
        },
        Pattern::Round => {
            let g = round_digits_exec(m, i).unwrap();
            proof { lemma_run_end(m@, g as int, CharClass::Digit); }
            (g, run_end_exec(m, g, CharClass::Digit))
        },
        Pattern::Current => {
            let c = current_digits_exec(m, i);
            proof { lemma_run_end(m@, c as int, CharClass::Digit); }
            (c, run_end_exec(m, c, CharClass::Digit))
        },
    }
}

/// A match of any pattern starts inside the message.
proof fn lemma_match_in_bounds(p: Pattern, m: Seq<char>, i: int)
    requires
        match_at(p, m, i),
    ensures
        0 <= i <= m.len(),
{
    reveal(match_at);
    reveal(group_of);
}

/// The leftmost index at which the pattern matches.
pub fn find_first(p: Pattern, m: &Vec<char>) -> (r: Option<usize>)
    ensures
        match r {
            Some(i) => first_match(p, m@) == Some(i as int) && match_at(p, m@, i as int),
            None => first_match(p, m@) is None,
        },
{
    proof { lemma_len_fits(m); }
    assert forall|j: int| j < 0 implies !#[trigger] match_at(p, m@, j) by {
        if match_at(p, m@, j) {
            lemma_match_in_bounds(p, m@, j);
        }
    }
    let mut i: usize = 0;
    while i < m.len()
        invariant
            0 <= i <= m@.len(),
            forall|j: int| j < i ==> !#[trigger] match_at(p, m@, j),
        decreases m@.len() - i,
    {
        if match_at_exec(p, m, i) {
            proof { lemma_first_is(p, m@, i as int); }
            return Some(i);
        }
        i = i + 1;
    }
    if match_at_exec(p, m, i) {
        proof { lemma_first_is(p, m@, i as int); }
        return Some(i);
    }
    assert forall|j: int| !#[trigger] match_at(p, m@, j) by {
        if match_at(p, m@, j) {
            lemma_match_in_bounds(p, m@, j);
        }
    }
    None
}

proof fn lemma_first_is(p: Pattern, m: Seq<char>, i: int)
    requires
        match_at(p, m, i),
        forall|j: int| j < i ==> !#[trigger] match_at(p, m, j),
    ensures
        first_match(p, m) == Some(i),
{
    let c = choose|c: int| #[trigger] match_at(p, m, c) && forall|j: int| j < c ==> !#[trigger] match_at(p, m, j);
    assert(match_at(p, m, c));
    if c < i {
    } else if c > i {
        assert(!match_at(p, m, i));
    }
}

/// The captured text of the leftmost match, as characters.
pub fn capture(p: Pattern, m: &Vec<char>) -> (r: Option<(usize, usize)>)
    ensures
        match r {
            Some((a, b)) => a <= b <= m@.len() && first_capture(p, m@) == Some(
                m@.subrange(a as int, b as int),
            ),
            None => first_capture(p, m@) is None,
        },
{
    match find_first(p, m) {
        Some(i) => {
            let (a, b) = group_exec(p, m, i);
            Some((a, b))
        },
        None => None,
    }
}


// ---------------------------------------------------------------------------
// The view number
// ---------------------------------------------------------------------------

/// The bytes `n` occur in `b` at index `i`.
pub open spec fn bytes_at(b: Seq<u8>, n: Seq<u8>, i: int) -> bool {
    0 <= i && i + n.len() <= b.len() && b.subrange(i, i + n.len()) == n
}

/// The first index where the bytes `n` occur in `b`, as `str::find` gives it.
pub open spec fn first_bytes(b: Seq<u8>, n: Seq<u8>) -> Option<int> {
    if exists|i: int| #[trigger] bytes_at(b, n, i) {
        Some(choose|i: int| #[trigger] bytes_at(b, n, i) && forall|j: int| j < i ==> !#[trigger] bytes_at(b, n, j))
    } else {
        None
    }
}

/// The number that follows `s` once ASCII blanks and `(` are skipped, if a digit
/// comes first and the number fits in a `u64`.
pub open spec fn number_after(m: Seq<char>, s: int) -> Option<int> {
    let a = run_end(m, s, CharClass::WsOrParen);
    if a < m.len() && is_digit(m[a]) {
        number_upto(Some(m.subrange(a, run_end(m, a, CharClass::Digit))), u64::MAX as int)
    } else {
        None
    }
}

/// Where a quick reading looks for a number after the needle `n`, given the
/// lower-case text `l`: the byte offset just past the first occurrence of
/// `n` in the UTF-8 bytes of `l`.
pub open spec fn offset_after(l: Seq<char>, n: Seq<char>) -> Option<int> {
    match first_bytes(encode_utf8(l), encode_utf8(n)) {
        Some(p) => Some(p + encode_utf8(n).len()),
        None => None,
    }
}

/// The characters of the message from byte offset `k` on.
pub open spec fn tail_from(m: Seq<char>, k: int) -> Seq<char> {
    decode_utf8(encode_utf8(m).subrange(k, encode_utf8(m).len() as int))
}

/// A quick reading of the message `m` for the needle `n`, with `l` as the
/// text searched for the needle: `Some(None)` when the needle does not occur
/// in `l`; `None` when the offset past it does not fall on a character
/// boundary of `m` (the message cannot be cut there); else the number read
/// in `m` from that offset.
#[verifier::opaque]
pub open spec fn read_after(m: Seq<char>, l: Seq<char>, n: Seq<char>) -> Option<Option<int>> {
    match offset_after(l, n) {
        Some(k) => if is_char_boundary(encode_utf8(m), k) {
            Some(number_after(tail_from(m, k), 0))
        } else {
            None
        },
        None => Some(None::<int>),
    }
}

/// The quick reading of the view for the needle `n`: the needle is looked
/// for in the message's lower-case form.
pub open spec fn quick_read(m: Seq<char>, n: Seq<char>) -> Option<Option<int>> {
    read_after(m, lowercase(m), n)
}

/// `a`, or `b` where `a` is `None`.
pub open spec fn or_else(a: Option<int>, b: Option<int>) -> Option<int> {
    match a {
        Some(v) => Some(v),
        None => b,
    }
}

/// The view by the patterns, in order of preference.
pub open spec fn pattern_view(m: Seq<char>) -> Option<int> {
    or_else(
        number_upto(first_capture(Pattern::View, m), u64::MAX as int),
        or_else(
            number_upto(first_capture(Pattern::Round, m), u64::MAX as int),
            number_upto(first_capture(Pattern::Current, m), u64::MAX as int),
        ),
    )
}

/// A quick reading, and what follows it when it gives no number.
pub open spec fn then_read(r: Option<Option<int>>, rest: Option<Option<int>>) -> Option<Option<int>> {
    match r {
        Some(Some(v)) => Some(Some(v)),
        Some(None) => rest,
        None => None,
    }
}

/// Reading the view of a message: the quick readings for `view=`, `view:`
/// and `view(` in turn, then the patterns. `None` when a quick reading
/// cannot cut the message; else the view found, if any.
pub open spec fn view_reading(m: Seq<char>) -> Option<Option<int>> {
    then_read(
        quick_read(m, "view="@),
        then_read(quick_read(m, "view:"@), then_read(quick_read(m, "view("@), Some(pattern_view(m)))),
    )
}

/// The view of a message can be read: no quick reading has to cut the
/// message inside a character.
pub open spec fn view_readable(m: Seq<char>) -> bool {
    view_reading(m) is Some
}

/// The view number of a message, where it can be read.
pub open spec fn message_view(m: Seq<char>) -> Option<int> {
    match view_reading(m) {
        Some(r) => r,
        None => None,
    }
}

/// The characters of the message from a character boundary on are a suffix
/// of the message, so a digit read there is a digit of the message.
proof fn lemma_quick_read_digit(m: Seq<char>, n: Seq<char>)
    ensures
        quick_read(m, n) matches Some(Some(v)) ==> exists|i: int| 0 <= i < m.len() && is_digit(#[trigger] m[i]),
{
    reveal(read_after);
    if let Some(k) = offset_after(lowercase(m), n) {
        let b = encode_utf8(m);
        if is_char_boundary(b, k) {
            let t = tail_from(m, k);
            vstd::utf8::encode_utf8_valid_utf8(m);
            vstd::utf8::decode_utf8_split(b, k);
            vstd::utf8::encode_utf8_decode_utf8(m);
            let head = decode_utf8(b.subrange(0, k));
            assert(m =~= head + t);
            if number_after(t, 0) is Some {
                let a = run_end(t, 0, CharClass::WsOrParen);
                lemma_run_end_ge(t, 0, CharClass::WsOrParen);
                assert(0 <= a < t.len() && is_digit(t[a]));
                assert(m[head.len() + a] == t[a]);
            }
        }
    }
}

proof fn lemma_no_digit_no_match(m: Seq<char>, p: Pattern, i: int)
    requires
        forall|k: int| 0 <= k < m.len() ==> !is_digit(#[trigger] m[k]),
        p == Pattern::View || p == Pattern::Round || p == Pattern::Current,
    ensures
        !match_at(p, m, i),
{
    reveal(match_at);
    assert forall|j: int| #[trigger] run_end(m, j, CharClass::Space) >= j by {
        lemma_run_end_ge(m, j, CharClass::Space);
    }
    if p == Pattern::Round {
        if round_brace_run(m, i) is Some {
            let (r, e) = round_brace_run(m, i)->0;
            assert forall|k: int| r <= k <= e implies !#[trigger] round_inner_at(m, k) by {}
        }
    }
}

/// A message with no ASCII digit matches none of the numeric view patterns.
proof fn lemma_no_digit_no_pattern(m: Seq<char>)
    requires
        forall|i: int| 0 <= i < m.len() ==> !is_digit(#[trigger] m[i]),
    ensures
        pattern_view(m) is None,
{
    assert forall|i: int| !#[trigger] match_at(Pattern::View, m, i) by {
        lemma_no_digit_no_match(m, Pattern::View, i);
    }
    assert forall|i: int| !#[trigger] match_at(Pattern::Round, m, i) by {
        lemma_no_digit_no_match(m, Pattern::Round, i);
    }
    assert forall|i: int| !#[trigger] match_at(Pattern::Current, m, i) by {
        lemma_no_digit_no_match(m, Pattern::Current, i);
    }
}

/// The digits `m[a..b]` hold the numeral of their value.
proof fn lemma_run_holds_numeral(m: Seq<char>, a: int, b: int)
    requires
        0 <= a < b <= m.len(),
        forall|k: int| a <= k < b ==> is_digit(#[trigger] m[k]),
    ensures
        decimal_value(m.subrange(a, b)) >= 0,
        contains(m, numeral(decimal_value(m.subrange(a, b)) as nat)),
{
    let d = m.subrange(a, b);
    assert forall|k: int| 0 <= k < d.len() implies is_digit(#[trigger] d[k]) by {
        assert(d[k] == m[a + k]);
    }
    lemma_numeral_ends(d);
    let n = numeral(decimal_value(d) as nat);
    let j = b - n.len();
    assert(m.subrange(j, j + n.len()) =~= d.subrange(d.len() - n.len(), d.len() as int));
    assert(occurs_at(m, n, j));
}

/// A quick reading that gives a number read it from digits of the message.
proof fn lemma_quick_read_numeral(m: Seq<char>, n: Seq<char>)
    ensures
        quick_read(m, n) matches Some(Some(v)) ==> v >= 0 && contains(m, numeral(v as nat)),
{
    reveal(read_after);
    if let Some(k) = offset_after(lowercase(m), n) {
        let b = encode_utf8(m);
        if is_char_boundary(b, k) {
            let t = tail_from(m, k);
            vstd::utf8::encode_utf8_valid_utf8(m);
            vstd::utf8::decode_utf8_split(b, k);
            vstd::utf8::encode_utf8_decode_utf8(m);
            let head = decode_utf8(b.subrange(0, k));
            assert(m =~= head + t);
            if number_after(t, 0) is Some {
                let a = run_end(t, 0, CharClass::WsOrParen);
                lemma_run_end_ge(t, 0, CharClass::WsOrParen);
                assert(0 <= a < t.len() && is_digit(t[a]));
                let e = run_end(t, a, CharClass::Digit);
                lemma_run_end(t, a, CharClass::Digit);
                let h = head.len() as int;
                assert(forall|q: int| h + a <= q < h + e ==> #[trigger] m[q] == t[q - h]);
                assert(m.subrange(h + a, h + e) =~= t.subrange(a, e));
                lemma_run_holds_numeral(m, h + a, h + e);
            }
        }
    }
}

proof fn lemma_greatest_inner(m: Seq<char>, r: int, e: int, c: int)
    requires
        r <= c <= e,
        round_inner_at(m, c),
    ensures
        exists|k: int| r <= k <= e && #[trigger] round_inner_at(m, k) && forall|k2: int| k < k2 <= e ==> !#[trigger] round_inner_at(m, k2),
    decreases e - c,
{
    if exists|k2: int| c < k2 <= e && #[trigger] round_inner_at(m, k2) {
        let k2 = choose|k2: int| c < k2 <= e && #[trigger] round_inner_at(m, k2);
        lemma_greatest_inner(m, r, e, k2);
    }
}

/// The captured part of a numeric view pattern is a nonempty run of digits.
proof fn lemma_numeric_group(p: Pattern, m: Seq<char>, i: int)
    requires
        p == Pattern::View || p == Pattern::Round || p == Pattern::Current,
        match_at(p, m, i),
    ensures
        0 <= group_of(p, m, i).0 < group_of(p, m, i).1 <= m.len(),
        forall|k: int| group_of(p, m, i).0 <= k < group_of(p, m, i).1 ==> is_digit(#[trigger] m[k]),
{
    reveal(match_at);
    reveal(group_of);
    assert forall|j: int| #[trigger] run_end(m, j, CharClass::Space) >= j by {
        lemma_run_end_ge(m, j, CharClass::Space);
    }
    let g0 = if p == Pattern::View {
        view_digits(m, i)
    } else if p == Pattern::Round {
        if let Some((r, e)) = round_brace_run(m, i) {
            if let Some(k) = round_inner_last(m, r, e) {
                let c = choose|k: int| r <= k <= e && #[trigger] round_inner_at(m, k);
                lemma_greatest_inner(m, r, e, c);
            }
        }
        round_digits(m, i)->0
    } else {
        current_digits(m, i)
    };
    assert(0 <= g0 < m.len() && is_digit(m[g0]));
    assert(group_of(p, m, i) == (g0, run_end(m, g0, CharClass::Digit)));
    lemma_run_end(m, g0, CharClass::Digit);
}

/// A view read by the patterns is the value of digits of the message.
proof fn lemma_pattern_numeral(m: Seq<char>, p: Pattern)
    requires
        p == Pattern::View || p == Pattern::Round || p == Pattern::Current,
    ensures
        number_upto(first_capture(p, m), u64::MAX as int) matches Some(v) ==> v >= 0 && contains(m, numeral(v as nat)),
{
    lemma_first_match_holds(p, m);
    if let Some(i) = first_match(p, m) {
        lemma_numeric_group(p, m, i);
        let g = group_of(p, m, i);
        lemma_run_holds_numeral(m, g.0, g.1);
    }
}

/// A view read from a message is written in it: its numeral occurs in the
/// message (the digits read, without leading zeros).
pub proof fn lemma_view_numeral_occurs(m: Seq<char>)
    ensures
        message_view(m) matches Some(v) ==> v >= 0 && contains(m, numeral(v as nat)),
{
    lemma_quick_read_numeral(m, "view="@);
    lemma_quick_read_numeral(m, "view:"@);
    lemma_quick_read_numeral(m, "view("@);
    lemma_pattern_numeral(m, Pattern::View);
    lemma_pattern_numeral(m, Pattern::Round);
    lemma_pattern_numeral(m, Pattern::Current);
}

/// A message without an ASCII digit names no view.
pub proof fn lemma_view_needs_digits(m: Seq<char>)
    requires
        forall|i: int| 0 <= i < m.len() ==> !is_digit(#[trigger] m[i]),
    ensures
        message_view(m) is None,
{
    lemma_quick_read_digit(m, "view="@);
    lemma_quick_read_digit(m, "view:"@);
    lemma_quick_read_digit(m, "view("@);
    lemma_no_digit_no_pattern(m);
}

fn find_bytes(b: &[u8], n: &[u8]) -> (r: Option<usize>)
    ensures
        match r {
            Some(i) => first_bytes(b@, n@) == Some(i as int) && i + n@.len() <= b@.len(),
            None => first_bytes(b@, n@) is None,
        },
{
    let mut i: usize = 0;
    while i < b.len()
        invariant
            0 <= i <= b@.len(),
            forall|j: int| j < i ==> !#[trigger] bytes_at(b@, n@, j),
        decreases b@.len() - i,
    {
        if bytes_at_exec(b, n, i) {
            proof { lemma_first_bytes_is(b@, n@, i as int); }
            return Some(i);
        }
        i = i + 1;
    }
    if bytes_at_exec(b, n, i) {
        proof { lemma_first_bytes_is(b@, n@, i as int); }
        return Some(i);
    }
    assert forall|j: int| !#[trigger] bytes_at(b@, n@, j) by {}
    None
}

fn bytes_at_exec(b: &[u8], n: &[u8], i: usize) -> (r: bool)
    ensures
        r == bytes_at(b@, n@, i as int),
{
    let bl = b.len();
    if i > bl || n.len() > bl - i {
        return false;
    }
    let mut k: usize = 0;
    while k < n.len()
        invariant
            bl == b@.len(),
            i + n@.len() <= b@.len(),
            0 <= k <= n@.len(),
            forall|m: int| 0 <= m < k ==> b@[i + m] == n@[m],
        decreases n@.len() - k,
    {
        if b[i + k] != n[k] {
            assert(b@.subrange(i as int, i + n@.len())[k as int] != n@[k as int]);
            return false;
        }
        k = k + 1;
    }
    assert(b@.subrange(i as int, i + n@.len()) =~= n@);
    true
}

proof fn lemma_first_bytes_is(b: Seq<u8>, n: Seq<u8>, i: int)
    requires
        bytes_at(b, n, i),
        forall|j: int| j < i ==> !#[trigger] bytes_at(b, n, j),
    ensures
        first_bytes(b, n) == Some(i),
{
    let c = choose|c: int| #[trigger] bytes_at(b, n, c) && forall|j: int| j < c ==> !#[trigger] bytes_at(b, n, j);
    assert(bytes_at(b, n, c));
    if c > i {
        assert(!bytes_at(b, n, i));
    }
}

/// The value of the digits `m[a..b]` if it fits in a `u64`.
fn number_in(m: &Vec<char>, a: usize, b: usize) -> (r: Option<u64>)
    requires
        a <= b <= m@.len(),
        forall|k: int| a <= k < b ==> is_digit(#[trigger] m@[k]),
    ensures
        match r {
            Some(v) => number_upto(Some(m@.subrange(a as int, b as int)), u64::MAX as int) == Some(v as int),
            None => number_upto(Some(m@.subrange(a as int, b as int)), u64::MAX as int) is None,
        },
{
    parse_decimal(m, a, b, u64::MAX)
}

fn number_after_exec(m: &Vec<char>, s: usize) -> (r: Option<u64>)
    requires
        s <= m@.len(),
    ensures
        match r {
            Some(v) => number_after(m@, s as int) == Some(v as int),
            None => number_after(m@, s as int) is None,
        },
{
    let a = run_end_exec(m, s, CharClass::WsOrParen);
    proof { lemma_run_end(m@, s as int, CharClass::WsOrParen); }
    if a < m.len() && '0' <= m[a] && m[a] <= '9' {
        let b = run_end_exec(m, a, CharClass::Digit);
        proof { lemma_run_end(m@, a as int, CharClass::Digit); }
        number_in(m, a, b)
    } else {
        None
    }
}

/// The captured part of a numeric pattern is a run of digits.
proof fn lemma_group_digits(p: Pattern, m: Seq<char>, i: int)
    requires
        p == Pattern::Leader || p == Pattern::View || p == Pattern::Round || p == Pattern::Current,
        match_at(p, m, i),
        0 <= group_of(p, m, i).0 <= group_of(p, m, i).1 <= m.len(),
    ensures
        forall|k: int|
            group_of(p, m, i).0 <= k < group_of(p, m, i).1 ==> is_digit(#[trigger] m[k]),
{
    reveal(match_at);
    reveal(group_of);
    let g = group_of(p, m, i);
    lemma_run_end(m, g.0, CharClass::Digit);
}

/// The number captured by the leftmost match of a pattern, if it is at most `max`.
fn captured_number(p: Pattern, m: &Vec<char>, max: u64) -> (r: Option<u64>)
    requires
        p == Pattern::Leader || p == Pattern::View || p == Pattern::Round || p == Pattern::Current,
        max >= 9,
    ensures
        match r {
            Some(v) => number_upto(first_capture(p, m@), max as int) == Some(v as int) && v <= max,
            None => number_upto(first_capture(p, m@), max as int) is None,
        },
{
    match find_first(p, m) {
        Some(i) => {
            let (a, b) = group_exec(p, m, i);
            proof { lemma_group_digits(p, m@, i as int); }
            parse_decimal(m, a, b, max)
        },
        None => None,
    }
}

/// A quick reading of the message for the needle `n`, with `lower` as the
/// text searched for the needle (the message's lower-case form, where the
/// view is read).
pub fn read_after_needle(msg: &str, lower: &str, n: &str) -> (r: Option<Option<u64>>)
    ensures
        match r {
            Some(Some(v)) => read_after(msg@, lower@, n@) == Some(Some(v as int)),
            Some(None) => read_after(msg@, lower@, n@) == Some(None::<int>),
            None => read_after(msg@, lower@, n@) is None,
        },
{
    reveal(read_after);
    let lb = lower.as_bytes();
    let nb = n.as_bytes();
    let lbl = lb.len();
    match find_bytes(lb, nb) {
        None => Some(None),
        Some(p) => {
            let k = p + nb.len();
            if !msg.is_char_boundary(k) {
                return None;
            }
            let (_, tail) = msg.split_at(k);
            proof {
                vstd::utf8::encode_utf8_decode_utf8(tail@);
            }
            let t = chars_of(tail);
            assert(t@ == tail_from(msg@, k as int));
            Some(number_after_exec(&t, 0))
        },
    }
}

/// Read the view of a message: `None` where a quick reading cannot cut the
/// message at its offset; else the view found, if any.
pub fn read_view(msg: &str) -> (r: Option<Option<u64>>)
    ensures
        match r {
            Some(Some(v)) => view_reading(msg@) == Some(Some(v as int)),
            Some(None) => view_reading(msg@) == Some(None::<int>),
            None => view_reading(msg@) is None,
        },
{
    let lower_string = to_lowercase(msg);
    let lower = lower_string.as_str();
    match read_after_needle(msg, lower, "view=") {
        Some(Some(v)) => return Some(Some(v)),
        Some(None) => {},
        None => return None,
    }
    match read_after_needle(msg, lower, "view:") {
        Some(Some(v)) => return Some(Some(v)),
        Some(None) => {},
        None => return None,
    }
    match read_after_needle(msg, lower, "view(") {
        Some(Some(v)) => return Some(Some(v)),
        Some(None) => {},
        None => return None,
    }
    let m = chars_of(msg);
    if let Some(v) = captured_number(Pattern::View, &m, u64::MAX) {
        return Some(Some(v));
    }
    if let Some(v) = captured_number(Pattern::Round, &m, u64::MAX) {
        return Some(Some(v));
    }
    Some(captured_number(Pattern::Current, &m, u64::MAX))
}

/// Whether the view of a message can be read.
pub fn view_is_readable(msg: &str) -> (r: bool)
    ensures
        r == view_readable(msg@),
{
    read_view(msg).is_some()
}

/// Extract the view number from a message.
pub fn extract_view(msg: &str) -> (r: Option<u64>)
    requires
        view_readable(msg@),
    ensures
        match r {
            Some(v) => message_view(msg@) == Some(v as int),
            None => message_view(msg@) is None,
        },
{
    match read_view(msg) {
        Some(r) => r,
        None => None,
    }
}

/// The view number of a message where it can be read; `None` where it
/// cannot (where a quick reading would cut the message inside a character).
pub fn try_extract_view(msg: &str) -> (r: Option<Option<u64>>)
    ensures
        view_readable(msg@) ==> r == Some(extract_view_result(msg@)),
        !view_readable(msg@) ==> r is None,
{
    if view_is_readable(msg) {
        Some(extract_view(msg))
    } else {
        None
    }
}

/// What `extract_view` gives for a message whose view can be read.
pub open spec fn extract_view_result(m: Seq<char>) -> Option<u64> {
    match message_view(m) {
        Some(v) => Some(v as u64),
        None => None,
    }
}

// ---------------------------------------------------------------------------
// The other fields
// ---------------------------------------------------------------------------

/// The payload hash of a message, in lower case.
pub open spec fn message_payload(m: Seq<char>) -> Option<Seq<char>> {
    match first_capture(Pattern::Payload, m) {
        Some(h) => Some(lower_seq(h)),
        None => None,
    }
}

/// The peer key of a message, in lower case.
pub open spec fn message_peer(m: Seq<char>) -> Option<Seq<char>> {
    match first_capture(Pattern::Peer, m) {
        Some(h) => Some(lower_seq(h)),
        None => None,
    }
}

/// The leader of a message, if its digits fit in a `u8`.
pub open spec fn message_leader(m: Seq<char>) -> Option<int> {
    number_upto(first_capture(Pattern::Leader, m), u8::MAX as int)
}

/// The captured text of a pattern as a `String`, ASCII capitals made small when `lower`.
fn captured_string(p: Pattern, m: &Vec<char>, lower: bool) -> (r: Option<String>)
    ensures
        match r {
            Some(s) => first_capture(p, m@) is Some && s@ == if lower {
                lower_seq(first_capture(p, m@)->0)
            } else {
                first_capture(p, m@)->0
            },
            None => first_capture(p, m@) is None,
        },
{
    match capture(p, m) {
        Some((a, b)) => if lower {
            Some(lower_string_of(m, a, b))
        } else {
            Some(string_of(m, a, b))
        },
        None => None,
    }
}

/// Extract the payload hash (64 hexadecimal digits) from a message, in lower case.
pub fn extract_payload(msg: &str) -> (r: Option<String>)
    ensures
        match r {
            Some(s) => message_payload(msg@) == Some(s@),
            None => message_payload(msg@) is None,
        },
{
    let m = chars_of(msg);
    payload_of(&m)
}

/// The payload hash of the characters of a message.
pub fn payload_of(m: &Vec<char>) -> (r: Option<String>)
    ensures
        match r {
            Some(s) => message_payload(m@) == Some(s@),
            None => message_payload(m@) is None,
        },
{
    captured_string(Pattern::Payload, m, true)
}

/// Extract the leader id from a message.
pub fn extract_leader(msg: &str) -> (r: Option<u8>)
    ensures
        match r {
            Some(v) => message_leader(msg@) == Some(v as int),
            None => message_leader(msg@) is None,
        },
{
    let m = chars_of(msg);
    leader_of(&m)
}

/// The leader id of the characters of a message.
pub fn leader_of(m: &Vec<char>) -> (r: Option<u8>)
    ensures
        match r {
            Some(v) => message_leader(m@) == Some(v as int),
            None => message_leader(m@) is None,
        },
{
    match captured_number(Pattern::Leader, m, 255) {
        Some(v) => Some(v as u8),
        None => None,
    }
}

proof fn lemma_least_match(p: Pattern, m: Seq<char>, c: int)
    requires
        match_at(p, m, c),
    ensures
        exists|i: int| #[trigger] match_at(p, m, i) && forall|j: int| j < i ==> !#[trigger] match_at(p, m, j),
    decreases c,
{
    lemma_match_in_bounds(p, m, c);
    if exists|j: int| j < c && #[trigger] match_at(p, m, j) {
        let j = choose|j: int| j < c && #[trigger] match_at(p, m, j);
        lemma_match_in_bounds(p, m, j);
        lemma_least_match(p, m, j);
    }
}

/// The leftmost match is a match.
proof fn lemma_first_match_holds(p: Pattern, m: Seq<char>)
    ensures
        first_match(p, m) matches Some(i) ==> match_at(p, m, i),
{
    if exists|i: int| #[trigger] match_at(p, m, i) {
        let c = choose|i: int| #[trigger] match_at(p, m, i);
        lemma_least_match(p, m, c);
    }
}

proof fn lemma_peer_match(m: Seq<char>, i: int)
    requires
        match_at(Pattern::Peer, m, i),
    ensures
        occurs_at(m, "peer="@, i),
        0 <= i + 5 && i + 69 <= m.len(),
        run_end(m, i + 5, CharClass::Hex) >= i + 69,
        group_of(Pattern::Peer, m, i) == (i + 5, i + 69),
{
    reveal(match_at);
    reveal(group_of);
    reveal_strlit("peer=");
}

/// A peer key read from a message is 64 lower-case hexadecimal digits: the
/// 64 characters that follow `peer=` in the message, made lower case.
pub proof fn lemma_peer_shape(m: Seq<char>)
    ensures
        message_peer(m) matches Some(s) ==> {
            &&& s.len() == 64
            &&& forall|k: int| 0 <= k < 64 ==> is_lower_hex(#[trigger] s[k])
            &&& exists|i: int| occurs_at(m, "peer="@, i) && #[trigger] lower_seq(m.subrange(i + 5, i + 69)) == s
        },
{
    lemma_first_match_holds(Pattern::Peer, m);
    if let Some(i) = first_match(Pattern::Peer, m) {
        lemma_peer_match(m, i);
        lemma_run_end(m, i + 5, CharClass::Hex);
        let s = lower_seq(m.subrange(i + 5, i + 69));
        assert forall|k: int| 0 <= k < 64 implies is_lower_hex(#[trigger] s[k]) by {
            assert(in_class(CharClass::Hex, m[i + 5 + k]));
        }
        assert(lower_seq(m.subrange(i + 5, i + 69)) == s);
    }
}

/// Extract the peer key (64 hexadecimal digits) from a message, in lower case.
pub fn extract_peer(msg: &str) -> (r: Option<String>)
    ensures
        match r {
            Some(s) => message_peer(msg@) == Some(s@),
            None => message_peer(msg@) is None,
        },
{
    let m = chars_of(msg);
    peer_of(&m)
}

/// The peer key of the characters of a message.
pub fn peer_of(m: &Vec<char>) -> (r: Option<String>)
    ensures
        match r {
            Some(s) => message_peer(m@) == Some(s@),
            None => message_peer(m@) is None,
        },
{
    captured_string(Pattern::Peer, m, true)
}

/// Extract the actor name (`actor=` and word characters) from a message.
pub fn extract_actor(msg: &str) -> (r: Option<String>)
    ensures
        match r {
            Some(s) => first_capture(Pattern::Actor, msg@) == Some(s@),
            None => first_capture(Pattern::Actor, msg@) is None,
        },
{
    let m = chars_of(msg);
    captured_string(Pattern::Actor, &m, false)
}

/// Extract the source actor (`from=` and word characters) from a message.
pub fn extract_from_actor(msg: &str) -> (r: Option<String>)
    ensures
        match r {
            Some(s) => first_capture(Pattern::FromActor, msg@) == Some(s@),
            None => first_capture(Pattern::FromActor, msg@) is None,
        },
{
    let m = chars_of(msg);
    captured_string(Pattern::FromActor, &m, false)
}

/// Extract the destination actor (`to=` and word characters) from a message.
pub fn extract_to_actor(msg: &str) -> (r: Option<String>)
    ensures
        match r {
            Some(s) => first_capture(Pattern::ToActor, msg@) == Some(s@),
            None => first_capture(Pattern::ToActor, msg@) is None,
        },
{
    let m = chars_of(msg);
    captured_string(Pattern::ToActor, &m, false)
}

} // verus!
