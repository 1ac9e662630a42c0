//! Which files of the log directory are validator logs, and of which
//! validator.
use vstd::prelude::*;
use crate::text::{chars_of, occurs_at, occurs_at_exec, parse_u8, parse_u8_span};

verus! {

broadcast use vstd::string::group_string_axioms;

/// The validator whose log a file name names: `validator-{id}.log`, with the
/// id read as `u8::from_str` reads it.
pub open spec fn validator_id_of(name: Seq<char>) -> Option<u8> {
    if name.len() >= 14 && occurs_at(name, "validator-"@, 0) && occurs_at(name, ".log"@, name.len() - 4) {
        parse_u8(name.subrange(10, name.len() - 4))
    } else {
        None
    }
}

/// The validator whose log a file name names, if it names one.
pub fn validator_id(name: &str) -> (r: Option<u8>)
    ensures
        r == validator_id_of(name@),
{
    proof {
        reveal_strlit("validator-");
        reveal_strlit(".log");
    }
    let s = chars_of(name);
    if s.len() < 14 {
        return None;
    }
    let prefix = chars_of("validator-");
    let suffix = chars_of(".log");
    if !occurs_at_exec(&s, &prefix, 0) || !occurs_at_exec(&s, &suffix, s.len() - 4) {
        return None;
    }
    parse_u8_span(&s, 10, s.len() - 4)
}

/// The index of the last of the first `n` names that is the log of `id`.
pub open spec fn last_log_of(names: Seq<String>, id: u8, n: int) -> Option<int>
    decreases n,
{
    if n <= 0 {
        None
    } else if validator_id_of(names[n - 1]@) == Some(id) {
        Some(n - 1)
    } else {
        last_log_of(names, id, n - 1)
    }
}

proof fn lemma_last_log_in_range(names: Seq<String>, id: u8, n: int)
    ensures
        last_log_of(names, id, n) matches Some(i) ==> 0 <= i < n,
    decreases n,
{
    if n > 0 {
        lemma_last_log_in_range(names, id, n - 1);
    }
}

/// `last_log_of` is the last name among the first `n` that is a log of `id`.
proof fn lemma_last_log_is_last(names: Seq<String>, id: u8, n: int)
    requires
        0 <= n <= names.len(),
    ensures
        last_log_of(names, id, n) matches Some(i) ==> 0 <= i < n && validator_id_of(names[i]@) == Some(id)
            && forall|k: int| i < k < n ==> validator_id_of(#[trigger] names[k]@) != Some(id),
        last_log_of(names, id, n) is None ==> forall|k: int| 0 <= k < n ==> validator_id_of(#[trigger] names[k]@) != Some(id),
    decreases n,
{
    if n > 0 {
        lemma_last_log_is_last(names, id, n - 1);
    }
}

/// What the list of validator logs is, stated directly: it is in strictly
/// increasing order of id; each entry's name is the log of its id, and the
/// last name that is; and every name that is a validator's log has an entry
/// for its id.
pub proof fn lemma_validator_log_list(names: Seq<String>, k: int)
    requires
        0 <= k <= 256,
    ensures
        forall|a: int, b: int| 0 <= a < b < validator_log_list(names, k).len() ==> (#[trigger] validator_log_list(names, k)[a]).0
            < (#[trigger] validator_log_list(names, k)[b]).0,
        forall|a: int| 0 <= a < validator_log_list(names, k).len() ==> {
            let (id, i) = #[trigger] validator_log_list(names, k)[a];
            &&& id < k
            &&& 0 <= i < names.len()
            &&& validator_id_of(names[i]@) == Some(id)
            &&& forall|j: int| i < j < names.len() ==> validator_id_of(#[trigger] names[j]@) != Some(id)
        },
        forall|i: int| 0 <= i < names.len() && (#[trigger] validator_id_of(names[i]@)) is Some && validator_id_of(names[i]@)->0 < k
            ==> exists|a: int| 0 <= a < validator_log_list(names, k).len() && (#[trigger] validator_log_list(names, k)[a]).0 == validator_id_of(names[i]@)->0,
    decreases k,
{
    if k > 0 {
        lemma_validator_log_list(names, k - 1);
        let id = (k - 1) as u8;
        lemma_last_log_is_last(names, id, names.len() as int);
        let prev = validator_log_list(names, k - 1);
        let cur = validator_log_list(names, k);
        assert forall|a: int| 0 <= a < prev.len() implies #[trigger] cur[a] == prev[a] by {}
        assert forall|i: int| 0 <= i < names.len() && (#[trigger] validator_id_of(names[i]@)) is Some && validator_id_of(names[i]@)->0 < k
            implies exists|a: int| 0 <= a < cur.len() && (#[trigger] cur[a]).0 == validator_id_of(names[i]@)->0 by {
            let x = validator_id_of(names[i]@)->0;
            if x < k - 1 {
                let a = choose|a: int| 0 <= a < prev.len() && (#[trigger] prev[a]).0 == x;
                assert(cur[a] == prev[a]);
            } else {
                assert(x == id);
                assert(last_log_of(names, id, names.len() as int) is Some);
                assert(cur[prev.len() as int].0 == x);
            }
        }
    }
}

/// For each validator id below `k` in increasing order, the id and the index
/// of the last name that is its log, if any is.
pub open spec fn validator_log_list(names: Seq<String>, k: int) -> Seq<(u8, int)>
    decreases k,
{
    if k <= 0 {
        Seq::empty()
    } else {
        let prev = validator_log_list(names, k - 1);
        match last_log_of(names, (k - 1) as u8, names.len() as int) {
            Some(i) => prev.push(((k - 1) as u8, i)),
            None => prev,
        }
    }
}

/// The validator logs among the names of a directory's files: for each
/// validator in increasing order of id, the index of its log's name (the
/// last one, where two names give the same id).
pub fn validator_logs(names: &Vec<String>) -> (r: Vec<(u8, usize)>)
    ensures
        r@.map_values(|p: (u8, usize)| (p.0, p.1 as int)) == validator_log_list(names@, 256),
        forall|a: int, b: int| 0 <= a < b < r@.len() ==> (#[trigger] r@[a]).0 < (#[trigger] r@[b]).0,
        forall|a: int| 0 <= a < r@.len() ==> {
            let (id, i) = #[trigger] r@[a];
            &&& i < names@.len()
            &&& validator_id_of(names@[i as int]@) == Some(id)
            &&& forall|j: int| i < j < names@.len() ==> validator_id_of(#[trigger] names@[j]@) != Some(id)
        },
        forall|i: int| 0 <= i < names@.len() && (#[trigger] validator_id_of(names@[i]@)) is Some
            ==> exists|a: int| 0 <= a < r@.len() && (#[trigger] r@[a]).0 == validator_id_of(names@[i]@)->0,
{
    let mut table: Vec<Option<usize>> = Vec::new();
    let mut id: usize = 0;
    while id < 256
        invariant
            0 <= id <= 256,
            table@.len() == id,
            forall|k: int| 0 <= k < id ==> table@[k] is None,
        decreases 256 - id,
    {
        table.push(None);
        id = id + 1;
    }
    let mut i: usize = 0;
    while i < names.len()
        invariant
            0 <= i <= names@.len(),
            table@.len() == 256,
            forall|k: int| 0 <= k < 256 ==> #[trigger] table@[k] == match last_log_of(names@, k as u8, i as int) {
                Some(x) => Some(x as usize),
                None => None::<usize>,
            },
        decreases names@.len() - i,
    {
        if let Some(v) = validator_id(names[i].as_str()) {
            table.set(v as usize, Some(i));
        }
        i = i + 1;
    }
    let mut r: Vec<(u8, usize)> = Vec::new();
    let nlen = names.len();
    let mut k: usize = 0;
    while k < 256
        invariant
            0 <= k <= 256,
            nlen == names@.len(),
            table@.len() == 256,
            forall|m: int| 0 <= m < 256 ==> #[trigger] table@[m] == match last_log_of(names@, m as u8, names@.len() as int) {
                Some(x) => Some(x as usize),
                None => None::<usize>,
            },
            r@.map_values(|p: (u8, usize)| (p.0, p.1 as int)) == validator_log_list(names@, k as int),
        decreases 256 - k,
    {
        let ghost before = r@;
        proof {
            lemma_last_log_in_range(names@, k as u8, names@.len() as int);
            assert(table@[k as int] == match last_log_of(names@, k as u8, names@.len() as int) {
                Some(x) => Some(x as usize),
                None => None::<usize>,
            });
        }
        if let Some(x) = table[k] {
            r.push((k as u8, x));
            assert(r@.map_values(|p: (u8, usize)| (p.0, p.1 as int)) =~= before.map_values(
                |p: (u8, usize)| (p.0, p.1 as int),
            ).push((k as u8, x as int)));
            assert(last_log_of(names@, k as u8, names@.len() as int) == Some(x as int));
        } else {
            assert(last_log_of(names@, k as u8, names@.len() as int) is None);
        }
        assert(validator_log_list(names@, k + 1) == {
            let prev = validator_log_list(names@, k as int);
            match last_log_of(names@, k as u8, names@.len() as int) {
                Some(i) => prev.push((k as u8, i)),
                None => prev,
            }
        });
        k = k + 1;
    }
    proof {
        lemma_validator_log_list(names@, 256);
        let l = validator_log_list(names@, 256);
        assert forall|a: int| 0 <= a < r@.len() implies #[trigger] l[a] == (r@[a].0, r@[a].1 as int) by {
            assert(r@.map_values(|p: (u8, usize)| (p.0, p.1 as int))[a] == (r@[a].0, r@[a].1 as int));
        }
        assert(r@.len() == l.len());
        assert forall|a: int, b: int| 0 <= a < b < r@.len() implies (#[trigger] r@[a]).0 < (#[trigger] r@[b]).0 by {
            assert(l[a] == (r@[a].0, r@[a].1 as int));
            assert(l[b] == (r@[b].0, r@[b].1 as int));
        }
        assert forall|a: int| 0 <= a < r@.len() implies {
            let (id, i) = #[trigger] r@[a];
            &&& i < names@.len()
            &&& validator_id_of(names@[i as int]@) == Some(id)
            &&& forall|j: int| i < j < names@.len() ==> validator_id_of(#[trigger] names@[j]@) != Some(id)
        } by {
            assert(l[a] == (r@[a].0, r@[a].1 as int));
        }
        assert forall|i: int| 0 <= i < names@.len() && (#[trigger] validator_id_of(names@[i]@)) is Some
            implies exists|a: int| 0 <= a < r@.len() && (#[trigger] r@[a]).0 == validator_id_of(names@[i]@)->0 by {
            let id = validator_id_of(names@[i]@)->0;
            let a = choose|a: int| 0 <= a < l.len() && (#[trigger] l[a]).0 == id;
            assert(l[a] == (r@[a].0, r@[a].1 as int));
        }
    }
    r
}

} // verus!
