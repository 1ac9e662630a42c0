//! Log lines: splitting a line into its fields, and classifying it into an
//! event.
//!
//! A line has the shape, in regular-expression notation,
//! `^([^ ]+)\s+([A-Z]+)\s+ThreadId\([^)]+\)\s+(.+?):\s+(.+?:\d+):\s+(.*)$`,
//! whose groups are the timestamp, the level, the target, the source file with
//! its line and the message. Where the line can be split in several ways, the
//! split that a backtracking matcher finds first is taken: the longest
//! timestamp, then the longest blank run before the target, the shortest
//! target, the longest blank run before the file and the shortest file name.
use vstd::prelude::*;
use crate::events::registry::{classifiers_of, message_id, registry_outcome};
use crate::events::{category_of_target, kind_tag, EventCategory, EventRegistry};
use crate::events::registry::derive_message_id;
use crate::parser::extractors::{
    extract_view, leader_of, message_leader, message_peer, message_view, peer_of, view_is_readable,
    view_readable,
};
use crate::state::types::{Event, RawLine};
use crate::text::{
    contains, contains_lit,
    chars_of, lemma_run_end, occurs_at, occurs_at_exec, run_end, run_end_exec, string_of,
    CharClass,
};

verus! {

broadcast use vstd::string::group_string_axioms;

// ---------------------------------------------------------------------------
// The shape of a line
// ---------------------------------------------------------------------------

/// No line feed in `s[i..j]`.
pub open spec fn no_newline(s: Seq<char>, i: int, j: int) -> bool {
    run_end(s, i, CharClass::NotNewline) >= j
}

/// For a timestamp that ends at `a`, where the text after `ThreadId(..)` starts:
/// the timestamp has no space, and is followed by blanks, a level of capital
/// letters, blanks, and `ThreadId(` with at least one character before `)`.
pub open spec fn line_head(s: Seq<char>, a: int) -> Option<int> {
    if 1 <= a <= run_end(s, 0, CharClass::NotSpace) {
        let b = run_end(s, a, CharClass::Space);
        let c = run_end(s, b, CharClass::Upper);
        let d = run_end(s, c, CharClass::Space);
        if b > a && c > b && d > c && occurs_at(s, "ThreadId("@, d) {
            let e = run_end(s, d + 9, CharClass::NotParen);
            if e > d + 9 && e < s.len() && s[e] == ')' {
                Some(e + 1)
            } else {
                None
            }
        } else {
            None
        }
    } else {
        None
    }
}

/// The blanks after `ThreadId(..)`, which starts at `t`, end at `f`.
pub open spec fn target_start_ok(s: Seq<char>, t: int, f: int) -> bool {
    t < f <= run_end(s, t, CharClass::Space)
}

/// The target `s[f..g]` is followed by `:`.
pub open spec fn target_end_ok(s: Seq<char>, f: int, g: int) -> bool {
    f < g < s.len() && no_newline(s, f, g) && s[g] == ':'
}

/// The blanks after the `:` at `g` end at `h`.
pub open spec fn file_start_ok(s: Seq<char>, g: int, h: int) -> bool {
    g + 1 < h <= run_end(s, g + 1, CharClass::Space)
}

/// After the `:` at `k` come blanks and then a message without line feed.
pub open spec fn message_ok(s: Seq<char>, k: int) -> bool {
    k < s.len() && s[k] == ':' && run_end(s, k + 1, CharClass::Space) > k + 1 && no_newline(
        s,
        run_end(s, k + 1, CharClass::Space),
        s.len() as int,
    )
}

/// The file name `s[h..m]` is followed by `:`, decimal digits, `:` and the message.
pub open spec fn file_ok(s: Seq<char>, h: int, m: int) -> bool {
    h < m < s.len() && no_newline(s, h, m) && s[m] == ':' && run_end(s, m + 1, CharClass::Decimal)
        > m + 1 && message_ok(s, run_end(s, m + 1, CharClass::Decimal))
}

/// The line splits with the timestamp ending at `a`, the target at `[f, g)`,
/// the file name starting at `h` and its `:` before the line number at `m`.
pub open spec fn line_split(s: Seq<char>, a: int, f: int, g: int, h: int, m: int) -> bool {
    match line_head(s, a) {
        Some(t) => target_start_ok(s, t, f) && target_end_ok(s, f, g) && file_start_ok(s, g, h)
            && file_ok(s, h, m),
        None => false,
    }
}

/// The split `x` is found before the split `y`.
pub open spec fn split_before(x: (int, int, int, int, int), y: (int, int, int, int, int)) -> bool {
    x.0 > y.0 || (x.0 == y.0 && (x.1 > y.1 || (x.1 == y.1 && (x.2 < y.2 || (x.2 == y.2 && (x.3
        > y.3 || (x.3 == y.3 && x.4 < y.4)))))))
}

/// The split of a line that is found first, if it splits at all.
#[verifier::opaque]
pub open spec fn line_match(s: Seq<char>) -> Option<(int, int, int, int, int)> {
    if exists|x: (int, int, int, int, int)| #[trigger] line_split(s, x.0, x.1, x.2, x.3, x.4) {
        Some(
            choose|x: (int, int, int, int, int)|
                #[trigger] line_split(s, x.0, x.1, x.2, x.3, x.4) && forall|
                    y: (int, int, int, int, int),
                | #[trigger] line_split(s, y.0, y.1, y.2, y.3, y.4) ==> !split_before(y, x),
        )
    } else {
        None
    }
}

/// The five fields of a line for a split: timestamp, level, target, file, message.
pub open spec fn split_fields(s: Seq<char>, x: (int, int, int, int, int)) -> (Seq<char>, Seq<char>, Seq<char>, Seq<char>, Seq<char>) {
    let b = run_end(s, x.0, CharClass::Space);
    let c = run_end(s, b, CharClass::Upper);
    let k = run_end(s, x.4 + 1, CharClass::Decimal);
    let p = run_end(s, k + 1, CharClass::Space);
    (
        s.subrange(0, x.0),
        s.subrange(b, c),
        s.subrange(x.1, x.2),
        s.subrange(x.3, k),
        s.subrange(p, s.len() as int),
    )
}

// ---------------------------------------------------------------------------
// Searching for the split
// ---------------------------------------------------------------------------

/// The file field that starts at `h` can be closed by some `:` and digits.
pub open spec fn file_exists(s: Seq<char>, h: int) -> bool {
    exists|m: int| #[trigger] file_ok(s, h, m)
}

/// The line can be completed after a target that ends at `g`.
pub open spec fn after_target_exists(s: Seq<char>, g: int) -> bool {
    exists|h: int| #[trigger] file_start_ok(s, g, h) && file_exists(s, h)
}

/// The line can be completed after a target that starts at `f`.
pub open spec fn after_target_start_exists(s: Seq<char>, f: int) -> bool {
    exists|g: int| #[trigger] target_end_ok(s, f, g) && after_target_exists(s, g)
}

/// The line can be completed after a head that ends at `t`.
pub open spec fn after_head_exists(s: Seq<char>, t: int) -> bool {
    exists|f: int| #[trigger] target_start_ok(s, t, f) && after_target_start_exists(s, f)
}

proof fn lemma_len_fits(m: &Vec<char>)
    ensures
        m@.len() <= usize::MAX,
{
    vstd::std_specs::vec::axiom_spec_len(m);
}

fn message_ok_exec(s: &Vec<char>, k: usize) -> (r: bool)
    requires
        k <= s@.len(),
    ensures
        r == message_ok(s@, k as int),
{
    proof { lemma_len_fits(s); }
    if !(k < s.len() && s[k] == ':') {
        return false;
    }
    let p = run_end_exec(s, k + 1, CharClass::Space);
    proof { lemma_run_end(s@, k + 1, CharClass::Space); }
    p > k + 1 && run_end_exec(s, p, CharClass::NotNewline) >= s.len()
}

/// The first end `m` of a file name that starts at `h`.
fn search_file(s: &Vec<char>, h: usize) -> (r: Option<usize>)
    requires
        h <= s@.len(),
    ensures
        match r {
            Some(m) => file_ok(s@, h as int, m as int) && forall|m2: int|
                m2 < m ==> !#[trigger] file_ok(s@, h as int, m2),
            None => !file_exists(s@, h as int),
        },
{
    proof { lemma_len_fits(s); }
    if h >= s.len() {
        assert forall|m2: int| !#[trigger] file_ok(s@, h as int, m2) by {}
        return None;
    }
    let lim = run_end_exec(s, h, CharClass::NotNewline);
    proof { lemma_run_end(s@, h as int, CharClass::NotNewline); }
    let mut m = h + 1;
    while m <= lim && m < s.len()
        invariant
            h < m,
            lim == run_end(s@, h as int, CharClass::NotNewline),
            h <= lim <= s@.len(),
            forall|m2: int| m2 < m ==> !#[trigger] file_ok(s@, h as int, m2),
        decreases s@.len() - m,
    {
        if s[m] == ':' {
            let k = run_end_exec(s, m + 1, CharClass::Decimal);
            proof { lemma_run_end(s@, m + 1, CharClass::Decimal); }
            if k > m + 1 && message_ok_exec(s, k) {
                return Some(m);
            }
        }
        m = m + 1;
    }
    assert forall|m2: int| !#[trigger] file_ok(s@, h as int, m2) by {}
    None
}

/// The first start `h` of a file name after the `:` at `g`: the longest blank run first.
fn search_after_target(s: &Vec<char>, g: usize) -> (r: Option<(usize, usize)>)
    requires
        g < s@.len(),
    ensures
        match r {
            Some((h, m)) => file_start_ok(s@, g as int, h as int) && file_ok(s@, h as int, m as int)
                && (forall|m2: int| m2 < m ==> !#[trigger] file_ok(s@, h as int, m2))
                && forall|h2: int| h2 > h && #[trigger] file_start_ok(s@, g as int, h2) ==> !file_exists(s@, h2),
            None => !after_target_exists(s@, g as int),
        },
{
    proof { lemma_len_fits(s); }
    let top = run_end_exec(s, g + 1, CharClass::Space);
    proof { lemma_run_end(s@, g + 1, CharClass::Space); }
    let mut h = top;
    while h > g + 1
        invariant
            g + 1 <= h <= top,
            top == run_end(s@, g + 1, CharClass::Space),
            top <= s@.len(),
            forall|h2: int| h2 > h && #[trigger] file_start_ok(s@, g as int, h2) ==> !file_exists(s@, h2),
        decreases h,
    {
        match search_file(s, h) {
            Some(m) => {
                return Some((h, m));
            },
            None => {},
        }
        h = h - 1;
    }
    assert forall|h2: int| #[trigger] file_start_ok(s@, g as int, h2) implies !file_exists(s@, h2) by {}
    None
}

/// The first end `g` of a target that starts at `f`: the shortest target first.
fn search_target(s: &Vec<char>, f: usize) -> (r: Option<(usize, usize, usize)>)
    requires
        f <= s@.len(),
    ensures
        match r {
            Some((g, h, m)) => target_end_ok(s@, f as int, g as int) && file_start_ok(s@, g as int, h as int)
                && file_ok(s@, h as int, m as int)
                && (forall|m2: int| m2 < m ==> !#[trigger] file_ok(s@, h as int, m2))
                && (forall|h2: int| h2 > h && #[trigger] file_start_ok(s@, g as int, h2) ==> !file_exists(s@, h2))
                && forall|g2: int| g2 < g && #[trigger] target_end_ok(s@, f as int, g2) ==> !after_target_exists(s@, g2),
            None => !after_target_start_exists(s@, f as int),
        },
{
    proof { lemma_len_fits(s); }
    if f >= s.len() {
        assert forall|g2: int| #[trigger] target_end_ok(s@, f as int, g2) implies !after_target_exists(s@, g2) by {}
        return None;
    }
    let lim = run_end_exec(s, f, CharClass::NotNewline);
    proof { lemma_run_end(s@, f as int, CharClass::NotNewline); }
    let mut g = f + 1;
    while g <= lim && g < s.len()
        invariant
            f < g,
            lim == run_end(s@, f as int, CharClass::NotNewline),
            f <= lim <= s@.len(),
            forall|g2: int| g2 < g && #[trigger] target_end_ok(s@, f as int, g2) ==> !after_target_exists(s@, g2),
        decreases s@.len() - g,
    {
        if s[g] == ':' {
            match search_after_target(s, g) {
                Some((h, m)) => {
                    return Some((g, h, m));
                },
                None => {},
            }
        }
        g = g + 1;
    }
    assert forall|g2: int| #[trigger] target_end_ok(s@, f as int, g2) implies !after_target_exists(s@, g2) by {}
    None
}

/// The first start `f` of a target after the text that starts at `t`: the
/// longest blank run first.
fn search_after_head(s: &Vec<char>, t: usize) -> (r: Option<(usize, usize, usize, usize)>)
    requires
        t <= s@.len(),
    ensures
        match r {
            Some((f, g, h, m)) => target_start_ok(s@, t as int, f as int) && target_end_ok(s@, f as int, g as int)
                && file_start_ok(s@, g as int, h as int) && file_ok(s@, h as int, m as int)
                && (forall|m2: int| m2 < m ==> !#[trigger] file_ok(s@, h as int, m2))
                && (forall|h2: int| h2 > h && #[trigger] file_start_ok(s@, g as int, h2) ==> !file_exists(s@, h2))
                && (forall|g2: int| g2 < g && #[trigger] target_end_ok(s@, f as int, g2) ==> !after_target_exists(s@, g2))
                && forall|f2: int| f2 > f && #[trigger] target_start_ok(s@, t as int, f2) ==> !after_target_start_exists(s@, f2),
            None => !after_head_exists(s@, t as int),
        },
{
    let top = run_end_exec(s, t, CharClass::Space);
    proof { lemma_run_end(s@, t as int, CharClass::Space); }
    let mut f = top;
    while f > t
        invariant
            t <= f <= top,
            top == run_end(s@, t as int, CharClass::Space),
            top <= s@.len(),
            forall|f2: int| f2 > f && #[trigger] target_start_ok(s@, t as int, f2) ==> !after_target_start_exists(s@, f2),
        decreases f,
    {
        match search_target(s, f) {
            Some((g, h, m)) => {
                return Some((f, g, h, m));
            },
            None => {},
        }
        f = f - 1;
    }
    assert forall|f2: int| #[trigger] target_start_ok(s@, t as int, f2) implies !after_target_start_exists(s@, f2) by {}
    None
}

fn line_head_exec(s: &Vec<char>, a: usize) -> (r: Option<usize>)
    requires
        1 <= a <= run_end(s@, 0, CharClass::NotSpace),
    ensures
        match r {
            Some(t) => line_head(s@, a as int) == Some(t as int) && t <= s@.len(),
            None => line_head(s@, a as int) is None,
        },
{
    proof {
        lemma_len_fits(s);
        lemma_run_end(s@, 0, CharClass::NotSpace);
        reveal_strlit("ThreadId(");
    }
    let b = run_end_exec(s, a, CharClass::Space);
    proof { lemma_run_end(s@, a as int, CharClass::Space); }
    let c = run_end_exec(s, b, CharClass::Upper);
    proof { lemma_run_end(s@, b as int, CharClass::Upper); }
    let d = run_end_exec(s, c, CharClass::Space);
    proof { lemma_run_end(s@, c as int, CharClass::Space); }
    if !(b > a && c > b && d > c && occurs_at_exec(s, &chars_of("ThreadId("), d)) {
        return None;
    }
    let e = run_end_exec(s, d + 9, CharClass::NotParen);
    proof { lemma_run_end(s@, d + 9, CharClass::NotParen); }
    if e > d + 9 && e < s.len() && s[e] == ')' {
        Some(e + 1)
    } else {
        None
    }
}

/// The split of a line that is found first.
pub fn split_line(s: &Vec<char>) -> (r: Option<(usize, usize, usize, usize, usize)>)
    ensures
        match r {
            Some(x) => line_match(s@) == Some((x.0 as int, x.1 as int, x.2 as int, x.3 as int, x.4 as int))
                && line_split(s@, x.0 as int, x.1 as int, x.2 as int, x.3 as int, x.4 as int),
            None => line_match(s@) is None,
        },
{
    let top = run_end_exec(s, 0, CharClass::NotSpace);
    proof { lemma_run_end(s@, 0, CharClass::NotSpace); }
    let mut a = top;
    while a >= 1
        invariant
            0 <= a <= top,
            top == run_end(s@, 0, CharClass::NotSpace),
            top <= s@.len(),
            forall|a2: int| a2 > a ==> match #[trigger] line_head(s@, a2) {
                Some(t) => !after_head_exists(s@, t),
                None => true,
            },
        decreases a,
    {
        match line_head_exec(s, a) {
            Some(t) => {
                match search_after_head(s, t) {
                    Some((f, g, h, m)) => {
                        proof { lemma_found_first(s@, a as int, t as int, f as int, g as int, h as int, m as int); }
                        return Some((a, f, g, h, m));
                    },
                    None => {},
                }
            },
            None => {},
        }
        a = a - 1;
    }
    proof { lemma_no_split(s@); }
    None
}

proof fn lemma_no_split(s: Seq<char>)
    requires
        forall|a2: int| a2 > 0 ==> match #[trigger] line_head(s, a2) {
            Some(t) => !after_head_exists(s, t),
            None => true,
        },
    ensures
        line_match(s) is None,
{
    reveal(line_match);
    assert forall|x: (int, int, int, int, int)| !#[trigger] line_split(s, x.0, x.1, x.2, x.3, x.4) by {
        if line_split(s, x.0, x.1, x.2, x.3, x.4) {
            let t = line_head(s, x.0)->0;
            assert(line_head(s, x.0) is Some);
            assert(file_exists(s, x.3));
            assert(after_target_exists(s, x.2));
            assert(after_target_start_exists(s, x.1));
            assert(after_head_exists(s, t));
        }
    }
}

proof fn lemma_found_first(s: Seq<char>, a: int, t: int, f: int, g: int, h: int, m: int)
    requires
        line_head(s, a) == Some(t),
        forall|a2: int| a2 > a ==> match #[trigger] line_head(s, a2) {
            Some(t2) => !after_head_exists(s, t2),
            None => true,
        },
        target_start_ok(s, t, f),
        target_end_ok(s, f, g),
        file_start_ok(s, g, h),
        file_ok(s, h, m),
        forall|m2: int| m2 < m ==> !#[trigger] file_ok(s, h, m2),
        forall|h2: int| h2 > h && #[trigger] file_start_ok(s, g, h2) ==> !file_exists(s, h2),
        forall|g2: int| g2 < g && #[trigger] target_end_ok(s, f, g2) ==> !after_target_exists(s, g2),
        forall|f2: int| f2 > f && #[trigger] target_start_ok(s, t, f2) ==> !after_target_start_exists(s, f2),
    ensures
        line_match(s) == Some((a, f, g, h, m)),
{
    reveal(line_match);
    let x = (a, f, g, h, m);
    assert(line_split(s, x.0, x.1, x.2, x.3, x.4));
    assert forall|y: (int, int, int, int, int)| #[trigger] line_split(s, y.0, y.1, y.2, y.3, y.4)
        implies !split_before(y, x) by {
        let ty = line_head(s, y.0)->0;
        assert(file_exists(s, y.3));
        assert(after_target_exists(s, y.2));
        assert(after_target_start_exists(s, y.1));
        assert(after_head_exists(s, ty));
        if y.0 > a {
        } else if y.0 == a {
            assert(ty == t);
            if y.1 > f {
            } else if y.1 == f {
                if y.2 < g {
                } else if y.2 == g {
                    if y.3 > h {
                    } else if y.3 == h {
                    }
                }
            }
        }
    }
    let c = choose|c: (int, int, int, int, int)|
        #[trigger] line_split(s, c.0, c.1, c.2, c.3, c.4) && forall|y: (int, int, int, int, int)|
            #[trigger] line_split(s, y.0, y.1, y.2, y.3, y.4) ==> !split_before(y, c);
    assert(line_split(s, c.0, c.1, c.2, c.3, c.4));
    assert(!split_before(x, c));
    assert(!split_before(c, x));
    assert(c == x);
}


// ---------------------------------------------------------------------------
// Timestamps
// ---------------------------------------------------------------------------

/// What `chrono` gives for an RFC 3339 timestamp: nanoseconds since the Unix
/// epoch, if the text parses and the instant fits in an `i64`.
pub uninterp spec fn rfc3339_nanos(ts: Seq<char>) -> Option<i64>;

/// `chrono::DateTime::parse_from_rfc3339` and then `DateTime::timestamp_nanos_opt`:
/// the instant that an RFC 3339 timestamp names, in nanoseconds since the Unix
/// epoch; `None` when the text does not parse or the instant does not fit.
/// The contract names the result; it depends on the text alone.
#[verifier::external_body]
fn rfc3339_to_nanos(ts: &str) -> (r: Option<i64>)
    ensures
        r == rfc3339_nanos(ts@),
{
    match chrono::DateTime::parse_from_rfc3339(ts) {
        Ok(dt) => dt.timestamp_nanos_opt(),
        Err(_) => None,
    }
}

/// Parse an RFC 3339 timestamp to nanoseconds since the Unix epoch.
pub fn parse_timestamp_ns(ts: &str) -> (r: Option<i128>)
    ensures
        match rfc3339_nanos(ts@) {
            Some(n) => r == Some(n as i128),
            None => r is None,
        },
{
    match rfc3339_to_nanos(ts) {
        Some(n) => Some(n as i128),
        None => None,
    }
}

// ---------------------------------------------------------------------------
// Lines
// ---------------------------------------------------------------------------

/// The level, target, file, message and timestamp of a line that has the
/// shape of a log line and a timestamp that parses.
pub open spec fn parsed_fields(l: Seq<char>) -> Option<(Seq<char>, Seq<char>, Seq<char>, Seq<char>, i64)> {
    match line_match(l) {
        Some(x) => {
            let fs = split_fields(l, x);
            match rfc3339_nanos(fs.0) {
                Some(n) => Some((fs.1, fs.2, fs.3, fs.4, n)),
                None => None,
            }
        },
        None => None,
    }
}

/// The message of a line that parses.
pub open spec fn parsed_message(l: Seq<char>) -> Seq<char> {
    match parsed_fields(l) {
        Some((_, _, _, m, _)) => m,
        None => Seq::empty(),
    }
}

/// `raw` holds the fields of the line `l`, numbered `line_number`, of node `node_id`.
#[verifier::opaque]
pub open spec fn raw_fits(raw: RawLine, node_id: u8, line_number: u64, l: Seq<char>) -> bool {
    match parsed_fields(l) {
        Some(p) => {
            &&& raw.node_id == node_id
            &&& raw.line_number == line_number
            &&& raw.level@ == p.0
            &&& raw.target@ == p.1
            &&& raw.file@ == p.2
            &&& raw.message@ == p.3
            &&& raw.timestamp_ns == p.4 as i128
        },
        None => false,
    }
}

/// Where the level, the line number and the message of a split line lie.
fn field_bounds(s: &Vec<char>, a: usize, f: usize, g: usize, h: usize, m: usize) -> (r: (usize, usize, usize, usize))
    requires
        line_split(s@, a as int, f as int, g as int, h as int, m as int),
    ensures
        r.0 == run_end(s@, a as int, CharClass::Space),
        r.1 == run_end(s@, r.0 as int, CharClass::Upper),
        r.2 == run_end(s@, m + 1, CharClass::Decimal),
        r.3 == run_end(s@, r.2 + 1, CharClass::Space),
        a <= r.0 <= r.1 <= s@.len(),
        f <= g <= s@.len(),
        h <= r.2 < s@.len(),
        r.3 <= s@.len(),
{
    proof {
        lemma_len_fits(s);
        lemma_run_end(s@, 0, CharClass::NotSpace);
    }
    let b = run_end_exec(s, a, CharClass::Space);
    proof { lemma_run_end(s@, a as int, CharClass::Space); }
    let c = run_end_exec(s, b, CharClass::Upper);
    proof { lemma_run_end(s@, b as int, CharClass::Upper); }
    let k = run_end_exec(s, m + 1, CharClass::Decimal);
    proof { lemma_run_end(s@, m + 1, CharClass::Decimal); }
    let p = run_end_exec(s, k + 1, CharClass::Space);
    proof { lemma_run_end(s@, k + 1, CharClass::Space); }
    (b, c, k, p)
}

/// Parse a single log line into its fields: `None` when the line does not have
/// the shape of a log line or its timestamp does not parse.
pub fn parse_line(node_id: u8, line_number: u64, line: &str) -> (r: Option<RawLine>)
    ensures
        r is Some <==> parsed_fields(line@) is Some,
        r matches Some(raw) ==> raw_fits(raw, node_id, line_number, line@),
{
    reveal(raw_fits);
    reveal(classified);
    let s = chars_of(line);
    let x = match split_line(&s) {
        Some(x) => x,
        None => return None,
    };
    let (a, f, g, h, m) = x;
    let (b, c, k, p) = field_bounds(&s, a, f, g, h, m);
    let ts = string_of(&s, 0, a);
    let timestamp_ns = match parse_timestamp_ns(ts.as_str()) {
        Some(n) => n,
        None => return None,
    };
    Some(RawLine {
        node_id,
        line_number,
        timestamp_ns,
        level: string_of(&s, b, c),
        target: string_of(&s, f, g),
        file: string_of(&s, h, k),
        message: string_of(&s, p, s.len()),
    })
}

// ---------------------------------------------------------------------------
// Events
// ---------------------------------------------------------------------------

/// The actor that a log target names, by the first group of substrings that
/// it contains.
pub open spec fn actor_of_target(t: Seq<char>) -> Option<Seq<char>> {
    if contains(t, "voter"@) {
        Some("voter"@)
    } else if contains(t, "marshal"@) {
        Some("marshal"@)
    } else if contains(t, "batcher"@) {
        Some("batcher"@)
    } else if contains(t, "resolver"@) {
        Some("resolver"@)
    } else if contains(t, "buffered"@) || contains(t, "broadcast"@) {
        Some("broadcast"@)
    } else if contains(t, "p2p"@) || contains(t, "discovery"@) {
        Some("network"@)
    } else if contains(t, "storage"@) || contains(t, "journal"@) || contains(t, "archive"@) {
        Some("storage"@)
    } else {
        None
    }
}

/// The characters of an optional string.
pub open spec fn opt_view(o: Option<String>) -> Option<Seq<char>> {
    match o {
        Some(s) => Some(s@),
        None => None,
    }
}

/// The actor that a log target names.
pub fn detect_actor_from_target(target: &str) -> (r: Option<String>)
    ensures
        opt_view(r) == actor_of_target(target@),
{
    let t = chars_of(target);
    detect_actor_chars(&t)
}

fn detect_actor_chars(t: &Vec<char>) -> (r: Option<String>)
    ensures
        opt_view(r) == actor_of_target(t@),
{
    if contains_lit(t, "voter") {
        Some("voter".to_owned())
    } else if contains_lit(t, "marshal") {
        Some("marshal".to_owned())
    } else if contains_lit(t, "batcher") {
        Some("batcher".to_owned())
    } else if contains_lit(t, "resolver") {
        Some("resolver".to_owned())
    } else if contains_lit(t, "buffered") || contains_lit(t, "broadcast") {
        Some("broadcast".to_owned())
    } else if contains_lit(t, "p2p") || contains_lit(t, "discovery") {
        Some("network".to_owned())
    } else if contains_lit(t, "storage") || contains_lit(t, "journal") || contains_lit(t, "archive") {
        Some("storage".to_owned())
    } else {
        None
    }
}

/// The view of an event: the message's own, else the hint.
pub open spec fn event_view(m: Seq<char>, hint: Option<u64>) -> Option<u64> {
    match message_view(m) {
        Some(v) => Some(v as u64),
        None => hint,
    }
}

/// What classifying a raw line gives, stated field by field.
#[verifier::opaque]
pub open spec fn classified(e: Event, raw: RawLine, cs: Seq<crate::events::Classifier>, hint: Option<u64>) -> bool {
    let m = raw.message@;
    let outcome = registry_outcome(cs, m);
    &&& e.id == 0
    &&& e.raw == raw
    &&& e.view == event_view(m, hint)
    &&& e.kind == outcome.0
    &&& opt_view(e.payload) == outcome.1
    &&& e.kind_tag == kind_tag(outcome.0)
    &&& e.category == category_of_target(raw.target@)
    &&& match message_leader(m) {
        Some(l) => e.leader == Some(l as u8),
        None => e.leader is None,
    }
    &&& match e.view {
        Some(v) => opt_view(e.message_id) == Some(message_id(outcome.0, v, outcome.1)),
        None => e.message_id is None,
    }
    &&& opt_view(e.peer) == message_peer(m)
    &&& opt_view(e.actor) == actor_of_target(raw.target@)
}

/// Classify a raw log line into an event, with `view_hint` as its view when
/// the message names none. The message's view must be readable.
pub fn classify_event(raw: RawLine, registry: &EventRegistry, view_hint: Option<u64>) -> (r: Event)
    requires
        view_readable(raw.message@),
    ensures
        classified(r, raw, classifiers_of(registry@), view_hint),
{
    reveal(raw_fits);
    reveal(classified);
    let m = chars_of(raw.message.as_str());
    let t = chars_of(raw.target.as_str());
    let view = match extract_view(raw.message.as_str()) {
        Some(v) => Some(v),
        None => view_hint,
    };
    let category = EventCategory::from_target_chars(&t);
    let (kind, payload) = registry.classify_chars(&m);
    let message_id = match &payload {
        Some(p) => derive_message_id(kind, view, Some(p.as_str())),
        None => derive_message_id(kind, view, None),
    };
    let leader = leader_of(&m);
    let peer = peer_of(&m);
    let actor = detect_actor_chars(&t);
    let kind_tag = kind.as_tag();
    Event {
        id: 0,
        raw,
        view,
        payload,
        kind,
        kind_tag,
        category,
        leader,
        message_id,
        peer,
        actor,
    }
}


// ---------------------------------------------------------------------------
// Files
// ---------------------------------------------------------------------------

/// A line that was read and parses.
pub open spec fn read_line_parses(o: Option<String>) -> bool {
    match o {
        Some(l) => parsed_fields(l@) is Some,
        None => false,
    }
}

/// Line `i` was read and parses.
pub open spec fn line_parses(lines: Seq<Option<String>>, i: int) -> bool {
    read_line_parses(lines[i])
}

/// How many of the lines before `i` parse.
pub open spec fn parsed_before(lines: Seq<Option<String>>, i: int) -> int
    decreases i,
{
    if i <= 0 {
        0
    } else {
        parsed_before(lines, i - 1) + if line_parses(lines, i - 1) { 1int } else { 0int }
    }
}

/// The view carried on after a line: the one its message names if it parses
/// and names one, else the one carried before it.
pub open spec fn next_hint(o: Option<String>, hint: Option<u64>) -> Option<u64> {
    if read_line_parses(o) && message_view(parsed_message(o->0@)) is Some {
        Some(message_view(parsed_message(o->0@))->0 as u64)
    } else {
        hint
    }
}

/// The view of the last line before `i` that parses and whose message names a
/// view: what a line whose message names none is taken to be in.
pub open spec fn hint_before(lines: Seq<Option<String>>, i: int) -> Option<u64>
    decreases i,
{
    if i <= 0 {
        None
    } else {
        next_hint(lines[i - 1], hint_before(lines, i - 1))
    }
}

/// Line `i` parses but the view of its message cannot be read.
pub open spec fn line_unreadable(lines: Seq<Option<String>>, i: int) -> bool {
    line_parses(lines, i) && !view_readable(parsed_message(lines[i]->0@))
}

/// One line of a log: its event if it parses, and the view carried on;
/// `None` when it parses but the view of its message cannot be read.
fn process_line(o: &Option<String>, line_number: u64, node_id: u8, registry: &EventRegistry, hint: Option<u64>) -> (r: Option<(Option<Event>, Option<u64>)>)
    ensures
        r is None <==> read_line_parses(*o) && !view_readable(parsed_message(o->0@)),
        r matches Some(p) ==> {
            &&& (p.0 is Some <==> read_line_parses(*o))
            &&& (p.0 matches Some(e) ==> i64::MIN <= e.raw.timestamp_ns <= i64::MAX)
            &&& (p.0 matches Some(e) ==> raw_fits(e.raw, node_id, line_number, o->0@) && classified(
                e,
                e.raw,
                classifiers_of(registry@),
                hint,
            ))
            &&& p.1 == next_hint(*o, hint)
        },
{
    match o {
        Some(l) => {
            match parse_line(node_id, line_number, l.as_str()) {
                Some(raw) => {
                    proof {
                        reveal(raw_fits);
                    }
                    if !view_is_readable(raw.message.as_str()) {
                        return None;
                    }
                    let ev = classify_event(raw, registry, hint);
                    proof {
                        reveal(classified);
                    }
                    let next = match ev.view {
                        Some(v) => Some(v),
                        None => hint,
                    };
                    Some((Some(ev), next))
                },
                None => Some((None, hint)),
            }
        },
        None => Some((None, hint)),
    }
}

proof fn lemma_parsed_before_grows(lines: Seq<Option<String>>, i: int, j: int)
    requires
        0 <= i <= j,
    ensures
        parsed_before(lines, i) <= parsed_before(lines, j),
        parsed_before(lines, j) <= j,
    decreases j,
{
    if j > 0 {
        if i < j {
            lemma_parsed_before_grows(lines, i, j - 1);
        } else {
            lemma_parsed_before_grows(lines, j - 1, j - 1);
        }
    }
}

/// The events of a node's log, as `parse_log_lines` gives them: one for each
/// line that parses, in order, each fitting its line and classified with
/// the view carried on from the lines before it.
pub open spec fn parsed_log(lines: Seq<Option<String>>, node_id: u8, cs: Seq<crate::events::Classifier>, events: Seq<Event>) -> bool {
    &&& events.len() == parsed_before(lines, lines.len() as int)
    &&& forall|k: int| 0 <= k < events.len() ==> i64::MIN <= #[trigger] events[k].raw.timestamp_ns <= i64::MAX
    &&& forall|i: int| 0 <= i < lines.len() && #[trigger] line_parses(lines, i) ==> {
        let e = events[parsed_before(lines, i)];
        &&& raw_fits(e.raw, node_id, i as u64, lines[i]->0@)
        &&& classified(e, e.raw, cs, hint_before(lines, i))
    }
}

/// Turn the lines of a node's log into events. A line that could not be read
/// is `None`; it still counts for the numbering. Lines that do not parse are
/// skipped; a line whose message names no view is taken to be in the view of
/// the last line before it that names one. `None` when a line parses but the
/// view of its message cannot be read.
pub fn parse_log_lines(lines: &Vec<Option<String>>, node_id: u8, registry: &EventRegistry) -> (r: Option<Vec<Event>>)
    ensures
        r is None <==> exists|i: int| 0 <= i < lines@.len() && #[trigger] line_unreadable(lines@, i),
        r matches Some(events) ==> parsed_log(lines@, node_id, classifiers_of(registry@), events@),
{
    let mut events: Vec<Event> = Vec::new();
    let mut last_view: Option<u64> = None;
    let mut i: usize = 0;
    while i < lines.len()
        invariant
            0 <= i <= lines@.len(),
            events@.len() == parsed_before(lines@, i as int),
            last_view == hint_before(lines@, i as int),
            forall|j: int| 0 <= j < i ==> !#[trigger] line_unreadable(lines@, j),
            forall|k: int| 0 <= k < events@.len() ==> i64::MIN <= #[trigger] events@[k].raw.timestamp_ns <= i64::MAX,
            forall|j: int| 0 <= j < i && #[trigger] line_parses(lines@, j) ==> {
                let e = events@[parsed_before(lines@, j)];
                &&& raw_fits(e.raw, node_id, j as u64, lines@[j]->0@)
                &&& classified(e, e.raw, classifiers_of(registry@), hint_before(lines@, j))
            },
        decreases lines@.len() - i,
    {
        let ghost before = events@;
        let (ev, next) = match process_line(&lines[i], i as u64, node_id, registry, last_view) {
            Some(p) => p,
            None => {
                assert(line_unreadable(lines@, i as int));
                return None;
            },
        };
        if let Some(e) = ev {
            events.push(e);
        }
        last_view = next;
        assert forall|j: int| 0 <= j < i && #[trigger] line_parses(lines@, j) implies events@[parsed_before(lines@, j)] == before[parsed_before(lines@, j)] by {
            lemma_parsed_before_grows(lines@, j + 1, i as int);
            lemma_parsed_before_grows(lines@, 0, j);
        }
        i = i + 1;
    }
    Some(events)
}

} // verus!
