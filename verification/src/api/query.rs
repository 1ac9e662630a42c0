//! The event query: comma-separated lists in the query string, and the
//! filter, offset and limit that pick events out of the trace.
use vstd::prelude::*;
use crate::events::{category_name, EventCategory};
use crate::state::types::{copy_event, Event, TimeSegment};
use crate::text::{chars_of, is_space, is_space_exec, lowercase, parse_u8, parse_u8_span, string_of, to_lowercase};

verus! {

broadcast use vstd::string::group_string_axioms;

// ============================================================================
// Comma-separated lists
// ============================================================================

/// The pieces of `s` between commas, as `str::split(',')` gives them: one
/// more piece than there are commas, empty pieces included.
pub open spec fn split_commas(s: Seq<char>) -> Seq<Seq<char>>
    decreases s.len(),
{
    if s.len() == 0 {
        seq![Seq::empty()]
    } else {
        let p = split_commas(s.drop_last());
        if s.last() == ',' {
            p.push(Seq::empty())
        } else {
            p.update(p.len() - 1, p.last().push(s.last()))
        }
    }
}

/// `s` without its leading white space.
pub open spec fn trim_start(s: Seq<char>) -> Seq<char>
    decreases s.len(),
{
    if s.len() > 0 && is_space(s[0]) {
        trim_start(s.drop_first())
    } else {
        s
    }
}

/// `s` without its trailing white space.
pub open spec fn trim_end(s: Seq<char>) -> Seq<char>
    decreases s.len(),
{
    if s.len() > 0 && is_space(s.last()) {
        trim_end(s.drop_last())
    } else {
        s
    }
}

/// `s` without leading and trailing white space, as `str::trim` gives it.
pub open spec fn trim(s: Seq<char>) -> Seq<char> {
    trim_end(trim_start(s))
}

/// The numbers among the trimmed pieces, in order; pieces that are not a
/// `u8` are skipped.
pub open spec fn parsed_u8s(pieces: Seq<Seq<char>>) -> Seq<u8>
    decreases pieces.len(),
{
    if pieces.len() == 0 {
        Seq::empty()
    } else {
        let p = parsed_u8s(pieces.drop_last());
        match parse_u8(trim(pieces.last())) {
            Some(v) => p.push(v),
            None => p,
        }
    }
}

/// The numbers listed in a comma-separated list.
pub open spec fn listed_u8s(s: Seq<char>) -> Seq<u8> {
    parsed_u8s(split_commas(s))
}

/// A string has at least one piece between commas.
pub proof fn lemma_split_nonempty(s: Seq<char>)
    ensures
        split_commas(s).len() >= 1,
    decreases s.len(),
{
    if s.len() > 0 {
        lemma_split_nonempty(s.drop_last());
    }
}

/// The bounds of the pieces of `s` between commas.
fn comma_pieces(s: &Vec<char>) -> (r: Vec<(usize, usize)>)
    ensures
        r@.len() == split_commas(s@).len(),
        forall|j: int| 0 <= j < r@.len() ==> {
            &&& (#[trigger] r@[j]).0 <= r@[j].1 <= s@.len()
            &&& s@.subrange(r@[j].0 as int, r@[j].1 as int) == split_commas(s@)[j]
        },
{
    let mut r: Vec<(usize, usize)> = Vec::new();
    let mut start: usize = 0;
    let mut k: usize = 0;
    assert(s@.take(0) =~= Seq::<char>::empty());
    while k < s.len()
        invariant
            0 <= start <= k <= s@.len(),
            split_commas(s@.take(k as int)).len() == r@.len() + 1,
            forall|j: int| 0 <= j < r@.len() ==> {
                &&& (#[trigger] r@[j]).0 <= r@[j].1 <= k
                &&& s@.subrange(r@[j].0 as int, r@[j].1 as int) == split_commas(s@.take(k as int))[j]
            },
            s@.subrange(start as int, k as int) == split_commas(s@.take(k as int)).last(),
        decreases s@.len() - k,
    {
        let ghost t = s@.take(k as int);
        let ghost t1 = s@.take(k + 1);
        assert(t1.drop_last() =~= t);
        assert(t1.last() == s@[k as int]);
        proof {
            lemma_split_nonempty(t);
        }
        if s[k] == ',' {
            r.push((start, k));
            start = k + 1;
            assert(s@.subrange(start as int, (k + 1) as int) =~= Seq::<char>::empty());
        } else {
            assert(s@.subrange(start as int, (k + 1) as int) =~= s@.subrange(start as int, k as int).push(
                s@[k as int],
            ));
        }
        k = k + 1;
    }
    assert(s@.take(s@.len() as int) =~= s@);
    r.push((start, k));
    r
}

/// The bounds of `s[a..b]` without its leading and trailing white space.
fn trim_bounds(s: &Vec<char>, a: usize, b: usize) -> (r: (usize, usize))
    requires
        a <= b <= s@.len(),
    ensures
        a <= r.0 <= r.1 <= b,
        s@.subrange(r.0 as int, r.1 as int) == trim(s@.subrange(a as int, b as int)),
{
    let mut lo = a;
    while lo < b && is_space_exec(s[lo])
        invariant
            a <= lo <= b <= s@.len(),
            trim_start(s@.subrange(lo as int, b as int)) == trim_start(s@.subrange(a as int, b as int)),
        decreases b - lo,
    {
        assert(s@.subrange(lo as int, b as int).drop_first() =~= s@.subrange(lo + 1, b as int));
        lo = lo + 1;
    }
    let ghost ts = trim_start(s@.subrange(a as int, b as int));
    assert(ts == s@.subrange(lo as int, b as int));
    let mut hi = b;
    while hi > lo && is_space_exec(s[hi - 1])
        invariant
            a <= lo <= hi <= b <= s@.len(),
            ts == s@.subrange(lo as int, b as int),
            trim_end(s@.subrange(lo as int, hi as int)) == trim_end(ts),
        decreases hi - lo,
    {
        assert(s@.subrange(lo as int, hi as int).drop_last() =~= s@.subrange(lo as int, hi - 1));
        hi = hi - 1;
    }
    (lo, hi)
}

/// The `u8` that `s[a..b]` spells, trimmed of white space.
fn parse_u8_at(s: &Vec<char>, a: usize, b: usize) -> (r: Option<u8>)
    requires
        a <= b <= s@.len(),
    ensures
        r == parse_u8(trim(s@.subrange(a as int, b as int))),
{
    let (lo, hi) = trim_bounds(s, a, b);
    parse_u8_span(s, lo, hi)
}

/// The numbers listed in a comma-separated list, as the node and kind
/// filters read them.
pub fn parse_u8_list(text: &str) -> (r: Vec<u8>)
    ensures
        r@ == listed_u8s(text@),
{
    let s = chars_of(text);
    let pieces = comma_pieces(&s);
    let ghost all = split_commas(s@);
    let mut r: Vec<u8> = Vec::new();
    let mut j: usize = 0;
    while j < pieces.len()
        invariant
            0 <= j <= pieces@.len(),
            pieces@.len() == all.len(),
            forall|m: int| 0 <= m < pieces@.len() ==> {
                &&& (#[trigger] pieces@[m]).0 <= pieces@[m].1 <= s@.len()
                &&& s@.subrange(pieces@[m].0 as int, pieces@[m].1 as int) == all[m]
            },
            r@ == parsed_u8s(all.take(j as int)),
        decreases pieces@.len() - j,
    {
        let (a, b) = pieces[j];
        assert(all.take(j + 1).drop_last() =~= all.take(j as int));
        assert(all.take(j + 1).last() == all[j as int]);
        if let Some(v) = parse_u8_at(&s, a, b) {
            r.push(v);
        }
        j = j + 1;
    }
    assert(all.take(all.len() as int) =~= all);
    r
}

// ============================================================================
// Category names
// ============================================================================

/// The trimmed pieces of a comma-separated list, each in lower case.
pub fn lowered_pieces(text: &str) -> (r: Vec<String>)
    ensures
        r@.len() == split_commas(text@).len(),
        forall|j: int| 0 <= j < r@.len() ==> (#[trigger] r@[j])@ == lowercase(trim(split_commas(text@)[j])),
{
    let s = chars_of(text);
    let pieces = comma_pieces(&s);
    let ghost all = split_commas(s@);
    let mut r: Vec<String> = Vec::new();
    let mut j: usize = 0;
    while j < pieces.len()
        invariant
            0 <= j <= pieces@.len(),
            pieces@.len() == all.len(),
            all == split_commas(text@),
            forall|m: int| 0 <= m < pieces@.len() ==> {
                &&& (#[trigger] pieces@[m]).0 <= pieces@[m].1 <= s@.len()
                &&& s@.subrange(pieces@[m].0 as int, pieces@[m].1 as int) == all[m]
            },
            r@.len() == j,
            forall|m: int| 0 <= m < j ==> (#[trigger] r@[m])@ == lowercase(trim(all[m])),
        decreases pieces@.len() - j,
    {
        let (a, b) = pieces[j];
        let (lo, hi) = trim_bounds(&s, a, b);
        let piece = string_of(&s, lo, hi);
        let low = to_lowercase(piece.as_str());
        r.push(low);
        j = j + 1;
    }
    r
}

// ============================================================================
// The query
// ============================================================================

/// The query string of an event request. Every part is optional: a time
/// range (or a segment whose range is used where the range is not given), a
/// view range, comma-separated lists of node ids, kind tags and category
/// names, and an offset and a limit on the events that match.
pub struct EventQuery {
    pub from_ts: Option<i128>,
    pub to_ts: Option<i128>,
    pub nodes: Option<String>,
    pub kinds: Option<String>,
    pub categories: Option<String>,
    pub view_from: Option<u64>,
    pub view_to: Option<u64>,
    pub limit: Option<usize>,
    pub offset: Option<usize>,
    pub segment: Option<usize>,
}

/// The time range of the segment that the query names, if there is one.
pub open spec fn segment_bounds(segments: Seq<TimeSegment>, segment: Option<usize>) -> (Option<i128>, Option<i128>) {
    match segment {
        Some(i) => if i < segments.len() {
            (Some(segments[i as int].start_ns), Some(segments[i as int].end_ns))
        } else {
            (None, None)
        },
        None => (None, None),
    }
}

/// `a`, or `b` where `a` is `None`.
pub open spec fn or_else<T>(a: Option<T>, b: Option<T>) -> Option<T> {
    match a {
        Some(x) => Some(x),
        None => b,
    }
}

/// The lower bound on timestamps: the query's own, else its segment's start.
pub open spec fn query_from(segments: Seq<TimeSegment>, q: EventQuery) -> Option<i128> {
    or_else(q.from_ts, segment_bounds(segments, q.segment).0)
}

/// The upper bound on timestamps: the query's own, else its segment's end.
pub open spec fn query_to(segments: Seq<TimeSegment>, q: EventQuery) -> Option<i128> {
    or_else(q.to_ts, segment_bounds(segments, q.segment).1)
}

/// A list of numbers admits `x` when it names no number at all or names `x`.
pub open spec fn admits(list: Option<String>, x: u8) -> bool {
    match list {
        Some(s) => listed_u8s(s@).len() == 0 || listed_u8s(s@).contains(x),
        None => true,
    }
}

/// A list of category names admits `c` when one of its trimmed pieces, in
/// lower case, is the name of `c`.
pub open spec fn admits_category(list: Option<String>, c: EventCategory) -> bool {
    match list {
        Some(s) => exists|j: int|
            0 <= j < split_commas(s@).len() && #[trigger] lowercase(trim(split_commas(s@)[j])) == category_name(c),
        None => true,
    }
}

/// An event passes every filter of the query.
pub open spec fn matches_query(e: Event, q: EventQuery, from: Option<i128>, to: Option<i128>) -> bool {
    &&& (from matches Some(f) ==> e.raw.timestamp_ns >= f)
    &&& (to matches Some(t) ==> e.raw.timestamp_ns <= t)
    &&& (q.view_from matches Some(vf) ==> (e.view matches Some(v) && v >= vf))
    &&& (q.view_to matches Some(vt) ==> (e.view matches Some(v) && v <= vt))
    &&& admits(q.nodes, e.raw.node_id)
    &&& admits(q.kinds, e.kind_tag)
    &&& admits_category(q.categories, e.category)
}

/// The events among the first `n` that pass the query's filters, in order.
pub open spec fn matching_events(events: Seq<Event>, q: EventQuery, from: Option<i128>, to: Option<i128>, n: int) -> Seq<Event>
    decreases n,
{
    if n <= 0 {
        Seq::empty()
    } else {
        let p = matching_events(events, q, from, to, n - 1);
        if matches_query(events[n - 1], q, from, to) {
            p.push(events[n - 1])
        } else {
            p
        }
    }
}

/// The items of `s` after the first `offset`, at most `limit` of them.
pub open spec fn page<T>(s: Seq<T>, offset: int, limit: int) -> Seq<T> {
    if offset >= s.len() {
        Seq::empty()
    } else if offset + limit >= s.len() {
        s.subrange(offset, s.len() as int)
    } else {
        s.subrange(offset, offset + limit)
    }
}

proof fn lemma_page_push<T>(s: Seq<T>, x: T, offset: int, limit: int)
    requires
        offset >= 0,
        limit >= 0,
    ensures
        page(s, offset, limit).len() <= limit,
        page(s.push(x), offset, limit) == if s.len() >= offset && page(s, offset, limit).len() < limit {
            page(s, offset, limit).push(x)
        } else {
            page(s, offset, limit)
        },
{
    let t = s.push(x);
    if offset >= t.len() {
    } else if offset + limit >= t.len() {
        assert(t.subrange(offset, t.len() as int) =~= page(s, offset, limit).push(x));
    } else {
        assert(t.subrange(offset, offset + limit) =~= s.subrange(offset, offset + limit));
    }
}

/// An event passes a query exactly when it lies in the time range (both
/// ends included), its view lies in the view range (an event without a view
/// fails any view bound), its node and kind tag are among the numbers listed
/// (a list naming no valid number admits all), and, when categories are
/// listed, one trimmed piece of the list in lower case is its category's name.
pub proof fn lemma_query_filters(e: Event, q: EventQuery, from: Option<i128>, to: Option<i128>)
    ensures
        matches_query(e, q, from, to) <==> {
            &&& (from is Some ==> e.raw.timestamp_ns >= from->0)
            &&& (to is Some ==> e.raw.timestamp_ns <= to->0)
            &&& (q.view_from is Some ==> e.view is Some && e.view->0 >= q.view_from->0)
            &&& (q.view_to is Some ==> e.view is Some && e.view->0 <= q.view_to->0)
            &&& (q.nodes is Some ==> listed_u8s(q.nodes->0@).len() == 0 || listed_u8s(q.nodes->0@).contains(e.raw.node_id))
            &&& (q.kinds is Some ==> listed_u8s(q.kinds->0@).len() == 0 || listed_u8s(q.kinds->0@).contains(e.kind_tag))
            &&& (q.categories is Some ==> exists|j: int|
                0 <= j < split_commas(q.categories->0@).len() && #[trigger] lowercase(trim(split_commas(q.categories->0@)[j]))
                    == category_name(e.category))
        },
{
}

proof fn lemma_matching_events_match(events: Seq<Event>, q: EventQuery, from: Option<i128>, to: Option<i128>, n: int)
    ensures
        forall|k: int| 0 <= k < matching_events(events, q, from, to, n).len() ==> matches_query(
            #[trigger] matching_events(events, q, from, to, n)[k],
            q,
            from,
            to,
        ),
    decreases n,
{
    if n > 0 {
        lemma_matching_events_match(events, q, from, to, n - 1);
        let prev = matching_events(events, q, from, to, n - 1);
        let cur = matching_events(events, q, from, to, n);
        assert forall|k: int| 0 <= k < cur.len() implies matches_query(#[trigger] cur[k], q, from, to) by {
            if k < prev.len() {
                assert(cur[k] == prev[k]);
                assert(matches_query(prev[k], q, from, to));
            }
        }
    }
}

/// Whatever the query, every event that it gives back passes its filters,
/// and no more than its limit come back.
pub proof fn lemma_query_results_match(
    events: Seq<Event>,
    q: EventQuery,
    from: Option<i128>,
    to: Option<i128>,
    offset: int,
    limit: int,
)
    requires
        offset >= 0,
        limit >= 0,
    ensures
        page(matching_events(events, q, from, to, events.len() as int), offset, limit).len() <= limit,
        forall|k: int|
            0 <= k < page(matching_events(events, q, from, to, events.len() as int), offset, limit).len()
                ==> matches_query(
                #[trigger] page(matching_events(events, q, from, to, events.len() as int), offset, limit)[k],
                q,
                from,
                to,
            ),
{
    let m = matching_events(events, q, from, to, events.len() as int);
    lemma_matching_events_match(events, q, from, to, events.len() as int);
    assert forall|k: int| 0 <= k < page(m, offset, limit).len() implies matches_query(
        #[trigger] page(m, offset, limit)[k],
        q,
        from,
        to,
    ) by {
        assert(page(m, offset, limit)[k] == m[offset + k]);
    }
}

/// The events that a query asks for: those that pass its filters, in trace
/// order, after the first `offset` (0 when not given), at most `limit`
/// (10000 when not given).
pub fn select_events(events: &Vec<Event>, segments: &Vec<TimeSegment>, q: &EventQuery) -> (r: Vec<Event>)
    ensures
        r@ == page(
            matching_events(events@, *q, query_from(segments@, *q), query_to(segments@, *q), events@.len() as int),
            match q.offset { Some(o) => o as int, None => 0 },
            match q.limit { Some(l) => l as int, None => 10000 },
        ),
{
    let (seg_start, seg_end) = match q.segment {
        Some(i) => if i < segments.len() {
            (Some(segments[i].start_ns), Some(segments[i].end_ns))
        } else {
            (None, None)
        },
        None => (None, None),
    };
    let from = match q.from_ts { Some(f) => Some(f), None => seg_start };
    let to = match q.to_ts { Some(t) => Some(t), None => seg_end };
    let nodes = match &q.nodes { Some(s) => Some(parse_u8_list(s.as_str())), None => None };
    let kinds = match &q.kinds { Some(s) => Some(parse_u8_list(s.as_str())), None => None };
    let cats = match &q.categories { Some(s) => Some(lowered_pieces(s.as_str())), None => None };
    let offset: usize = match q.offset { Some(o) => o, None => 0 };
    let limit: usize = match q.limit { Some(l) => l, None => 10000 };
    assert(from == query_from(segments@, *q));
    assert(to == query_to(segments@, *q));
    let ghost qv = *q;
    let mut r: Vec<Event> = Vec::new();
    let mut seen: usize = 0;
    let mut k: usize = 0;
    while k < events.len()
        invariant
            0 <= k <= events@.len(),
            qv == *q,
            seen == matching_events(events@, qv, from, to, k as int).len(),
            seen <= k,
            r@ == page(matching_events(events@, qv, from, to, k as int), offset as int, limit as int),
            nodes matches Some(l) ==> q.nodes matches Some(s) && l@ == listed_u8s(s@),
            nodes is None ==> q.nodes is None,
            kinds matches Some(l) ==> q.kinds matches Some(s) && l@ == listed_u8s(s@),
            kinds is None ==> q.kinds is None,
            cats matches Some(l) ==> q.categories matches Some(s) && l@.len() == split_commas(s@).len()
                && forall|j: int| 0 <= j < l@.len() ==> (#[trigger] l@[j])@ == lowercase(trim(split_commas(s@)[j])),
            cats is None ==> q.categories is None,
        decreases events@.len() - k,
    {
        let ev = &events[k];
        let pass = event_passes(ev, q, from, to, &nodes, &kinds, &cats);
        proof {
            lemma_page_push(matching_events(events@, qv, from, to, k as int), events@[k as int], offset as int, limit as int);
        }
        if pass {
            if seen >= offset && r.len() < limit {
                r.push(copy_event(ev));
            }
            seen = seen + 1;
        }
        k = k + 1;
    }
    r
}

fn u8s_contain(l: &Vec<u8>, x: u8) -> (r: bool)
    ensures
        r == l@.contains(x),
{
    let mut i: usize = 0;
    while i < l.len()
        invariant
            0 <= i <= l@.len(),
            forall|m: int| 0 <= m < i ==> l@[m] != x,
        decreases l@.len() - i,
    {
        if l[i] == x {
            assert(l@[i as int] == x);
            return true;
        }
        i = i + 1;
    }
    false
}

fn list_admits(list: &Option<Vec<u8>>, x: u8) -> (r: bool)
    ensures
        r == match list {
            Some(l) => l@.len() == 0 || l@.contains(x),
            None => true,
        },
{
    match list {
        Some(l) => l.len() == 0 || u8s_contain(l, x),
        None => true,
    }
}

fn event_passes(
    ev: &Event,
    q: &EventQuery,
    from: Option<i128>,
    to: Option<i128>,
    nodes: &Option<Vec<u8>>,
    kinds: &Option<Vec<u8>>,
    cats: &Option<Vec<String>>,
) -> (r: bool)
    requires
        nodes matches Some(l) ==> q.nodes matches Some(s) && l@ == listed_u8s(s@),
        nodes is None ==> q.nodes is None,
        kinds matches Some(l) ==> q.kinds matches Some(s) && l@ == listed_u8s(s@),
        kinds is None ==> q.kinds is None,
        cats matches Some(l) ==> q.categories matches Some(s) && l@.len() == split_commas(s@).len()
            && forall|j: int| 0 <= j < l@.len() ==> (#[trigger] l@[j])@ == lowercase(trim(split_commas(s@)[j])),
        cats is None ==> q.categories is None,
    ensures
        r == matches_query(*ev, *q, from, to),
{
    let ts = ev.raw.timestamp_ns;
    if let Some(f) = from {
        if ts < f {
            return false;
        }
    }
    if let Some(t) = to {
        if ts > t {
            return false;
        }
    }
    if let Some(vf) = q.view_from {
        match ev.view {
            Some(v) => if v < vf {
                return false;
            },
            None => return false,
        }
    }
    if let Some(vt) = q.view_to {
        match ev.view {
            Some(v) => if v > vt {
                return false;
            },
            None => return false,
        }
    }
    if !list_admits(nodes, ev.raw.node_id) {
        return false;
    }
    if !list_admits(kinds, ev.kind_tag) {
        return false;
    }
    match cats {
        Some(l) => {
            let name = ev.category.name().to_owned();
            let found = names_contain(l, &name);
            let ghost t = q.categories->0;
            assert(found ==> admits_category(q.categories, ev.category)) by {
                if found {
                    let j = choose|j: int| 0 <= j < l@.len() && (#[trigger] l@[j])@ == name@;
                    assert(lowercase(trim(split_commas(t@)[j])) == category_name(ev.category));
                }
            }
            assert(admits_category(q.categories, ev.category) ==> found) by {
                if admits_category(q.categories, ev.category) {
                    let j = choose|j: int|
                        0 <= j < split_commas(t@).len() && #[trigger] lowercase(trim(split_commas(t@)[j]))
                            == category_name(ev.category);
                    assert(l@[j]@ == name@);
                }
            }
            found
        },
        None => true,
    }
}

fn names_contain(l: &Vec<String>, name: &String) -> (r: bool)
    ensures
        r == exists|j: int| 0 <= j < l@.len() && (#[trigger] l@[j])@ == name@,
{
    let mut i: usize = 0;
    while i < l.len()
        invariant
            0 <= i <= l@.len(),
            forall|j: int| 0 <= j < i ==> (#[trigger] l@[j])@ != name@,
        decreases l@.len() - i,
    {
        if l[i] == *name {
            assert(l@[i as int]@ == name@);
            return true;
        }
        i = i + 1;
    }
    false
}

} // verus!
