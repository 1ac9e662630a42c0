//! A stable merge sort of events by their sort key.
use vstd::prelude::*;
use crate::state::types::Event;

verus! {

/// What events are ordered by: timestamp, view (an event without one after
/// every view), node, line number.
pub open spec fn event_key(e: Event) -> (i128, u64, u8, u64) {
    (e.raw.timestamp_ns, match e.view {
        Some(v) => v,
        None => u64::MAX,
    }, e.raw.node_id, e.raw.line_number)
}

/// Lexicographic order on sort keys.
pub open spec fn key_lt(a: (i128, u64, u8, u64), b: (i128, u64, u8, u64)) -> bool {
    a.0 < b.0 || (a.0 == b.0 && (a.1 < b.1 || (a.1 == b.1 && (a.2 < b.2 || (a.2 == b.2
        && a.3 < b.3)))))
}

/// `new` is `old` sorted stably by key: `new[i]` is `old[p[i]]`, and along
/// `new` the keys grow, with events of equal keys in their old order.
pub open spec fn is_stable_sort(old: Seq<Event>, new: Seq<Event>, p: Seq<int>) -> bool {
    &&& p.len() == old.len()
    &&& new.len() == old.len()
    &&& forall|i: int| 0 <= i < p.len() ==> 0 <= #[trigger] p[i] < old.len() && new[i] == old[p[i]]
    &&& forall|i: int, j: int|
        0 <= i < j < p.len() ==> key_lt(event_key(#[trigger] new[i]), event_key(#[trigger] new[j]))
            || (event_key(new[i]) == event_key(new[j]) && p[i] < p[j])
}

/// Index `a` comes before index `b`: by key, then by index.
pub open spec fn idx_before(keys: Seq<(i128, u64, u8, u64)>, a: usize, b: usize) -> bool {
    key_lt(keys[a as int], keys[b as int]) || (keys[a as int] == keys[b as int] && a < b)
}

/// The indices `s` are in `idx_before` order.
pub open spec fn idx_sorted(keys: Seq<(i128, u64, u8, u64)>, s: Seq<usize>) -> bool {
    forall|i: int, j: int| 0 <= i < j < s.len() ==> idx_before(keys, #[trigger] s[i], #[trigger] s[j])
}

/// Every index of `s` is an index of `keys`.
pub open spec fn in_range(keys: Seq<(i128, u64, u8, u64)>, s: Seq<usize>) -> bool {
    forall|i: int| 0 <= i < s.len() ==> #[trigger] s[i] < keys.len()
}

proof fn lemma_before_trans(keys: Seq<(i128, u64, u8, u64)>, a: usize, b: usize, c: usize)
    requires
        idx_before(keys, a, b),
        idx_before(keys, b, c),
    ensures
        idx_before(keys, a, c),
{
}

proof fn lemma_before_total(keys: Seq<(i128, u64, u8, u64)>, a: usize, b: usize)
    requires
        a != b,
    ensures
        idx_before(keys, a, b) || idx_before(keys, b, a),
{
}

fn key_lt_exec(a: (i128, u64, u8, u64), b: (i128, u64, u8, u64)) -> (r: bool)
    ensures
        r == key_lt(a, b),
{
    a.0 < b.0 || (a.0 == b.0 && (a.1 < b.1 || (a.1 == b.1 && (a.2 < b.2 || (a.2 == b.2
        && a.3 < b.3)))))
}

fn idx_before_exec(keys: &Vec<(i128, u64, u8, u64)>, a: usize, b: usize) -> (r: bool)
    requires
        a < keys@.len(),
        b < keys@.len(),
    ensures
        r == idx_before(keys@, a, b),
{
    let ka = keys[a];
    let kb = keys[b];
    key_lt_exec(ka, kb) || (ka.0 == kb.0 && ka.1 == kb.1 && ka.2 == kb.2 && ka.3 == kb.3 && a < b)
}

/// Merge two sorted lists of distinct indices.
fn merge(keys: &Vec<(i128, u64, u8, u64)>, l: &Vec<usize>, r: &Vec<usize>) -> (out: Vec<usize>)
    requires
        in_range(keys@, l@),
        in_range(keys@, r@),
        idx_sorted(keys@, l@),
        idx_sorted(keys@, r@),
        forall|a: int, b: int| 0 <= a < l@.len() && 0 <= b < r@.len() ==> #[trigger] l@[a] != #[trigger] r@[b],
    ensures
        out@.len() == l@.len() + r@.len(),
        in_range(keys@, out@),
        idx_sorted(keys@, out@),
        forall|x: usize| out@.contains(x) <==> (l@.contains(x) || r@.contains(x)),
{
    let mut out: Vec<usize> = Vec::new();
    let mut i: usize = 0;
    let mut j: usize = 0;
    while i < l.len() || j < r.len()
        invariant
            0 <= i <= l@.len(),
            0 <= j <= r@.len(),
            out@.len() == i + j,
            in_range(keys@, l@),
            in_range(keys@, r@),
            idx_sorted(keys@, l@),
            idx_sorted(keys@, r@),
            forall|a: int, b: int| 0 <= a < l@.len() && 0 <= b < r@.len() ==> #[trigger] l@[a] != #[trigger] r@[b],
            in_range(keys@, out@),
            idx_sorted(keys@, out@),
            out@.len() > 0 && i < l@.len() ==> idx_before(keys@, out@.last(), l@[i as int]),
            out@.len() > 0 && j < r@.len() ==> idx_before(keys@, out@.last(), r@[j as int]),
            forall|x: usize| out@.contains(x) <==> (l@.take(i as int).contains(x) || r@.take(j as int).contains(x)),
        decreases l@.len() + r@.len() - i - j,
    {
        let take_left = if i < l.len() && j < r.len() {
            idx_before_exec(keys, l[i], r[j])
        } else {
            i < l.len()
        };
        let ghost old_out = out@;
        let x = if take_left { l[i] } else { r[j] };
        proof {
            if i < l.len() && j < r.len() && !take_left {
                assert(l@[i as int] != r@[j as int]);
                lemma_before_total(keys@, l@[i as int], r@[j as int]);
            }
            assert forall|a: int, b: int| 0 <= a < b < old_out.push(x).len() implies idx_before(
                keys@,
                #[trigger] old_out.push(x)[a],
                #[trigger] old_out.push(x)[b],
            ) by {
                if b == old_out.len() && a < b - 1 {
                    lemma_before_trans(keys@, old_out[a], old_out.last(), x);
                }
            }
        }
        out.push(x);
        if take_left {
            proof {
                if i + 1 < l@.len() {
                    assert(idx_before(keys@, l@[i as int], l@[i + 1]));
                }
                assert forall|y: usize| out@.contains(y) <==> (l@.take(i + 1).contains(y) || r@.take(j as int).contains(y)) by {
                    if out@.contains(y) {
                        let k = choose|k: int| 0 <= k < out@.len() && #[trigger] out@[k] == y;
                        if k < old_out.len() {
                            assert(old_out.contains(y));
                            if l@.take(i as int).contains(y) {
                                let a = choose|a: int| 0 <= a < i && #[trigger] l@.take(i as int)[a] == y;
                                assert(l@.take(i + 1)[a] == y);
                            }
                        } else {
                            assert(l@.take(i + 1)[i as int] == y);
                        }
                    }
                    if l@.take(i + 1).contains(y) {
                        let a = choose|a: int| 0 <= a < i + 1 && #[trigger] l@.take(i + 1)[a] == y;
                        if a < i {
                            assert(l@.take(i as int)[a] == y);
                            assert(old_out.contains(y));
                            let k = choose|k: int| 0 <= k < old_out.len() && #[trigger] old_out[k] == y;
                            assert(out@[k] == y);
                        } else {
                            assert(out@[old_out.len() as int] == y);
                        }
                    }
                    if r@.take(j as int).contains(y) {
                        assert(old_out.contains(y));
                        let k = choose|k: int| 0 <= k < old_out.len() && #[trigger] old_out[k] == y;
                        assert(out@[k] == y);
                    }
                }
            }
            i = i + 1;
        } else {
            proof {
                if j + 1 < r@.len() {
                    assert(idx_before(keys@, r@[j as int], r@[j + 1]));
                }
                assert forall|y: usize| out@.contains(y) <==> (l@.take(i as int).contains(y) || r@.take(j + 1).contains(y)) by {
                    if out@.contains(y) {
                        let k = choose|k: int| 0 <= k < out@.len() && #[trigger] out@[k] == y;
                        if k < old_out.len() {
                            assert(old_out.contains(y));
                            if r@.take(j as int).contains(y) {
                                let b = choose|b: int| 0 <= b < j && #[trigger] r@.take(j as int)[b] == y;
                                assert(r@.take(j + 1)[b] == y);
                            }
                        } else {
                            assert(r@.take(j + 1)[j as int] == y);
                        }
                    }
                    if r@.take(j + 1).contains(y) {
                        let b = choose|b: int| 0 <= b < j + 1 && #[trigger] r@.take(j + 1)[b] == y;
                        if b < j {
                            assert(r@.take(j as int)[b] == y);
                            assert(old_out.contains(y));
                            let k = choose|k: int| 0 <= k < old_out.len() && #[trigger] old_out[k] == y;
                            assert(out@[k] == y);
                        } else {
                            assert(out@[old_out.len() as int] == y);
                        }
                    }
                    if l@.take(i as int).contains(y) {
                        assert(old_out.contains(y));
                        let k = choose|k: int| 0 <= k < old_out.len() && #[trigger] old_out[k] == y;
                        assert(out@[k] == y);
                    }
                }
            }
            j = j + 1;
        }
    }
    assert(l@.take(l@.len() as int) =~= l@);
    assert(r@.take(r@.len() as int) =~= r@);
    out
}

/// Sort a list of distinct indices by key, then by index.
fn sort_indices(keys: &Vec<(i128, u64, u8, u64)>, v: Vec<usize>) -> (out: Vec<usize>)
    requires
        in_range(keys@, v@),
        v@.no_duplicates(),
    ensures
        out@.len() == v@.len(),
        in_range(keys@, out@),
        idx_sorted(keys@, out@),
        forall|x: usize| out@.contains(x) <==> v@.contains(x),
    decreases v@.len(),
{
    if v.len() <= 1 {
        return v;
    }
    let mut left = v;
    let mid = left.len() / 2;
    let right = left.split_off(mid);
    let ghost whole = left@ + right@;
    proof {
        assert(whole =~= v@);
        assert forall|a: int, b: int| 0 <= a < left@.len() && 0 <= b < right@.len() implies left@[a] != right@[b] by {
            assert(v@[a] == left@[a]);
            assert(v@[mid + b] == right@[b]);
        }
        assert(left@.no_duplicates()) by {
            assert forall|a: int, b: int| 0 <= a < b < left@.len() implies left@[a] != left@[b] by {
                assert(v@[a] == left@[a] && v@[b] == left@[b]);
            }
        }
        assert(right@.no_duplicates()) by {
            assert forall|a: int, b: int| 0 <= a < b < right@.len() implies right@[a] != right@[b] by {
                assert(v@[mid + a] == right@[a] && v@[mid + b] == right@[b]);
            }
        }
        assert(in_range(keys@, left@)) by {
            assert forall|a: int| 0 <= a < left@.len() implies #[trigger] left@[a] < keys@.len() by {
                assert(v@[a] == left@[a]);
            }
        }
        assert(in_range(keys@, right@)) by {
            assert forall|a: int| 0 <= a < right@.len() implies #[trigger] right@[a] < keys@.len() by {
                assert(v@[mid + a] == right@[a]);
            }
        }
    }
    let ghost left0 = left@;
    let ghost right0 = right@;
    let sl = sort_indices(keys, left);
    let sr = sort_indices(keys, right);
    proof {
        assert forall|a: int, b: int| 0 <= a < sl@.len() && 0 <= b < sr@.len() implies #[trigger] sl@[a] != #[trigger] sr@[b] by {
            assert(sl@.contains(sl@[a]));
            assert(sr@.contains(sr@[b]));
            if sl@[a] == sr@[b] {
                let a0 = choose|a0: int| 0 <= a0 < left0.len() && left0[a0] == sl@[a];
                let b0 = choose|b0: int| 0 <= b0 < right0.len() && right0[b0] == sr@[b];
                assert(v@[a0] == left0[a0]);
                assert(v@[mid + b0] == right0[b0]);
            }
        }
    }
    let out = merge(keys, &sl, &sr);
    proof {
        assert forall|x: usize| out@.contains(x) <==> v@.contains(x) by {
            if v@.contains(x) {
                let k = choose|k: int| 0 <= k < v@.len() && #[trigger] v@[k] == x;
                if k < mid {
                    assert(left0[k] == x);
                    assert(left0.contains(x));
                } else {
                    assert(right0[k - mid] == x);
                    assert(right0.contains(x));
                }
            }
            if left0.contains(x) {
                let k = choose|k: int| 0 <= k < left0.len() && #[trigger] left0[k] == x;
                assert(v@[k] == x);
            }
            if right0.contains(x) {
                let k = choose|k: int| 0 <= k < right0.len() && #[trigger] right0[k] == x;
                assert(v@[mid + k] == x);
            }
        }
    }
    out
}


fn event_key_exec(e: &Event) -> (r: (i128, u64, u8, u64))
    ensures
        r == event_key(*e),
{
    let v = match e.view {
        Some(v) => v,
        None => u64::MAX,
    };
    (e.raw.timestamp_ns, v, e.raw.node_id, e.raw.line_number)
}

/// Sort events by timestamp, view, node and line number, keeping the order of
/// events whose keys are equal.
pub fn stable_sort_events(events: &mut Vec<Event>)
    ensures
        exists|p: Seq<int>| is_stable_sort(old(events)@, final(events)@, p),
{
    let n = events.len();
    let ghost old_events = events@;
    let mut keys: Vec<(i128, u64, u8, u64)> = Vec::new();
    let mut idx: Vec<usize> = Vec::new();
    let mut i: usize = 0;
    while i < n
        invariant
            n == events@.len(),
            events@ == old_events,
            0 <= i <= n,
            keys@.len() == i,
            idx@.len() == i,
            forall|k: int| 0 <= k < i ==> #[trigger] keys@[k] == event_key(events@[k]),
            forall|k: int| 0 <= k < i ==> #[trigger] idx@[k] == k,
        decreases n - i,
    {
        keys.push(event_key_exec(&events[i]));
        idx.push(i);
        i = i + 1;
    }
    proof {
        assert(in_range(keys@, idx@));
        assert(idx@.no_duplicates());
    }
    let perm = sort_indices(&keys, idx);
    // Move the events out, last first, so that `slots[n - 1 - k]` holds `old[k]`.
    let mut slots: Vec<Option<Event>> = Vec::new();
    while events.len() > 0
        invariant
            n == old_events.len(),
            events@.len() + slots@.len() == n,
            events@ == old_events.take(events@.len() as int),
            forall|k: int| 0 <= k < slots@.len() ==> #[trigger] slots@[k] == Some(old_events[n - 1 - k]),
        decreases events@.len(),
    {
        let ghost len = events@.len();
        let e = events.pop().unwrap();
        assert(e == old_events[len - 1]);
        assert(old_events.take(len - 1) =~= old_events.take(len as int).drop_last());
        slots.push(Some(e));
    }
    let mut out: Vec<Event> = Vec::new();
    let mut t: usize = 0;
    while t < n
        invariant
            0 <= t <= n,
            n == old_events.len(),
            perm@.len() == n,
            slots@.len() == n,
            in_range(keys@, perm@),
            idx_sorted(keys@, perm@),
            keys@.len() == n,
            forall|k: int| 0 <= k < n ==> #[trigger] keys@[k] == event_key(old_events[k]),
            out@.len() == t,
            forall|k: int| 0 <= k < t ==> #[trigger] out@[k] == old_events[perm@[k] as int],
            forall|k: int| 0 <= k < n ==> (#[trigger] slots@[k] is Some <==> !perm@.take(t as int).contains((n - 1 - k) as usize)),
            forall|k: int| 0 <= k < n && slots@[k] is Some ==> #[trigger] slots@[k] == Some(old_events[n - 1 - k]),
        decreases n - t,
    {
        let j = perm[t];
        let ghost before = slots@;
        proof {
            assert(!perm@.take(t as int).contains(j)) by {
                if perm@.take(t as int).contains(j) {
                    let a = choose|a: int| 0 <= a < t && #[trigger] perm@.take(t as int)[a] == j;
                    assert(idx_before(keys@, perm@[a], perm@[t as int]));
                }
            }
            assert(before[n - 1 - j] is Some);
        }
        let e = slots[n - 1 - j].take().unwrap();
        out.push(e);
        proof {
            assert forall|k: int| 0 <= k < n implies (#[trigger] slots@[k] is Some <==> !perm@.take(t + 1).contains((n - 1 - k) as usize)) by {
                if k != n - 1 - j {
                    assert(slots@[k] == before[k]);
                    if perm@.take(t + 1).contains((n - 1 - k) as usize) {
                        let a = choose|a: int| 0 <= a < t + 1 && #[trigger] perm@.take(t + 1)[a] == (n - 1 - k) as usize;
                        assert(a < t);
                        assert(perm@.take(t as int)[a] == (n - 1 - k) as usize);
                    }
                    if perm@.take(t as int).contains((n - 1 - k) as usize) {
                        let a = choose|a: int| 0 <= a < t && #[trigger] perm@.take(t as int)[a] == (n - 1 - k) as usize;
                        assert(perm@.take(t + 1)[a] == (n - 1 - k) as usize);
                    }
                } else {
                    assert(perm@.take(t + 1)[t as int] == j);
                }
            }
        }
        t = t + 1;
    }
    let ghost p = perm@.map_values(|x: usize| x as int);
    proof {
        assert forall|i: int, j: int| 0 <= i < j < p.len() implies key_lt(event_key(#[trigger] out@[i]), event_key(#[trigger] out@[j]))
            || (event_key(out@[i]) == event_key(out@[j]) && p[i] < p[j]) by {
            assert(idx_before(keys@, perm@[i], perm@[j]));
        }
        assert(is_stable_sort(old_events, out@, p));
    }
    *events = out;
}

} // verus!
