//! A table of outputs keyed by (input file index, permutation index),
//! held in a vector in increasing key order.
use vstd::prelude::*;

verus! {

/// The key order: by file index, then by permutation index.
pub open spec fn key_lt(a: (usize, usize), b: (usize, usize)) -> bool {
    a.0 < b.0 || (a.0 == b.0 && a.1 < b.1)
}

/// The keys of the entries strictly increase, so each key occurs once.
pub open spec fn keys_sorted<V>(s: Seq<((usize, usize), V)>) -> bool {
    forall|i: int, j: int| 0 <= i < j < s.len() ==> key_lt(#[trigger] s[i].0, #[trigger] s[j].0)
}

/// The end of the run of entries from `i` on whose keys are below `k`.
pub open spec fn less_run<V>(s: Seq<((usize, usize), V)>, k: (usize, usize), i: int) -> int
    decreases s.len() - i,
{
    if i < 0 || i >= s.len() {
        i
    } else if key_lt(s[i].0, k) {
        less_run(s, k, i + 1)
    } else {
        i
    }
}

/// Where key `k` belongs: the number of leading entries with smaller keys.
pub open spec fn key_position<V>(s: Seq<((usize, usize), V)>, k: (usize, usize)) -> int {
    less_run(s, k, 0)
}

/// Whether the entry at `key_position` holds key `k`.
pub open spec fn has_key_at<V>(s: Seq<((usize, usize), V)>, k: (usize, usize)) -> bool {
    key_position(s, k) < s.len() && s[key_position(s, k)].0 == k
}

/// The table with `v` stored under `k`: replacing the entry with that key,
/// or inserted where the key belongs.
pub open spec fn sorted_insert<V>(s: Seq<((usize, usize), V)>, k: (usize, usize), v: V) -> Seq<((usize, usize), V)> {
    let i = key_position(s, k);
    if has_key_at(s, k) {
        s.update(i, (k, v))
    } else {
        s.insert(i, (k, v))
    }
}

/// Whether key `k` occurs in the table.
pub open spec fn contains_key<V>(s: Seq<((usize, usize), V)>, k: (usize, usize)) -> bool {
    exists|i: int| 0 <= i < s.len() && #[trigger] s[i].0 == k
}

/// The value stored under key `k` (meaningful when the key occurs).
pub open spec fn value_of<V>(s: Seq<((usize, usize), V)>, k: (usize, usize)) -> V {
    s[choose|i: int| 0 <= i < s.len() && #[trigger] s[i].0 == k].1
}

/// The run of small keys stops at `k`'s place.
pub proof fn lemma_less_run<V>(s: Seq<((usize, usize), V)>, k: (usize, usize), i: int)
    requires
        0 <= i <= s.len(),
    ensures
        i <= less_run(s, k, i) <= s.len(),
        forall|j: int| i <= j < less_run(s, k, i) ==> key_lt(#[trigger] s[j].0, k),
        less_run(s, k, i) < s.len() ==> !key_lt(s[less_run(s, k, i)].0, k),
    decreases s.len() - i,
{
    if i < s.len() && key_lt(s[i].0, k) {
        lemma_less_run(s, k, i + 1);
    }
}

/// In a sorted table, key `k` occurs exactly when it is found at its
/// position, and then only there.
pub proof fn lemma_key_position<V>(s: Seq<((usize, usize), V)>, k: (usize, usize))
    requires
        keys_sorted(s),
    ensures
        0 <= key_position(s, k) <= s.len(),
        contains_key(s, k) <==> has_key_at(s, k),
        forall|j: int| 0 <= j < s.len() && s[j].0 == k ==> j == key_position(s, k),
        forall|j: int| 0 <= j < key_position(s, k) ==> key_lt(#[trigger] s[j].0, k),
{
    lemma_less_run(s, k, 0);
    let p = key_position(s, k);
    assert forall|j: int| 0 <= j < s.len() && s[j].0 == k implies j == p by {
        if j < p {
            assert(key_lt(s[j].0, k));
        } else if j > p {
            assert(key_lt(s[p].0, s[j].0));
        }
    }
    if contains_key(s, k) {
        let j = choose|j: int| 0 <= j < s.len() && #[trigger] s[j].0 == k;
        assert(j == p);
    }
}

/// Storing under a key keeps the table sorted.
pub proof fn lemma_sorted_insert_sorted<V>(s: Seq<((usize, usize), V)>, k: (usize, usize), v: V)
    requires
        keys_sorted(s),
    ensures
        keys_sorted(sorted_insert(s, k, v)),
        sorted_insert(s, k, v).len() == if has_key_at(s, k) { s.len() } else { s.len() + 1 },
{
    lemma_key_position(s, k);
    lemma_less_run(s, k, 0);
    let p = key_position(s, k);
    let r = sorted_insert(s, k, v);
    if has_key_at(s, k) {
        assert forall|i: int, j: int| 0 <= i < j < r.len() implies key_lt(#[trigger] r[i].0, #[trigger] r[j].0) by {
            assert(r[i].0 == s[i].0);
            assert(r[j].0 == s[j].0);
        }
    } else {
        assert forall|i: int, j: int| 0 <= i < j < r.len() implies key_lt(#[trigger] r[i].0, #[trigger] r[j].0) by {
            if j < p {
                assert(r[i] == s[i] && r[j] == s[j]);
            } else if j == p {
                assert(r[i] == s[i]);
            } else if i == p {
                assert(r[j] == s[j - 1]);
                if j - 1 > p {
                    assert(key_lt(s[p].0, s[j - 1].0));
                }
            } else if i < p {
                assert(r[i] == s[i] && r[j] == s[j - 1]);
            } else {
                assert(r[i] == s[i - 1] && r[j] == s[j - 1]);
            }
        }
    }
}

/// What storing under a key does to the lookup: the key then holds the
/// new value, and every other key holds what it held (a read after a
/// write gives back what was written, and nothing else changes).
pub proof fn lemma_sorted_insert_lookup<V>(s: Seq<((usize, usize), V)>, k: (usize, usize), v: V, other: (usize, usize))
    requires
        keys_sorted(s),
        other != k,
    ensures
        contains_key(sorted_insert(s, k, v), k),
        value_of(sorted_insert(s, k, v), k) == v,
        contains_key(sorted_insert(s, k, v), other) == contains_key(s, other),
        contains_key(s, other) ==> value_of(sorted_insert(s, k, v), other) == value_of(s, other),
{
    lemma_sorted_insert_sorted(s, k, v);
    lemma_key_position(s, k);
    let r = sorted_insert(s, k, v);
    let p = key_position(s, k);
    lemma_key_position(r, k);
    assert(r[p].0 == k);
    assert(contains_key(r, k));
    let ik = choose|i: int| 0 <= i < r.len() && #[trigger] r[i].0 == k;
    assert(ik == p);
    if contains_key(s, other) {
        let js = choose|i: int| 0 <= i < s.len() && #[trigger] s[i].0 == other;
        let jr = if has_key_at(s, k) || js < p { js } else { js + 1 };
        assert(r[jr] == s[js]);
        assert(contains_key(r, other));
        lemma_key_position(r, other);
        lemma_key_position(s, other);
        let ir = choose|i: int| 0 <= i < r.len() && #[trigger] r[i].0 == other;
        assert(ir == jr);
    }
    if contains_key(r, other) {
        let ir = choose|i: int| 0 <= i < r.len() && #[trigger] r[i].0 == other;
        if has_key_at(s, k) {
            assert(r[ir] == s[ir]);
        } else if ir < p {
            assert(r[ir] == s[ir]);
        } else {
            assert(ir != p);
            assert(r[ir] == s[ir - 1]);
        }
    }
}

/// The position where key `k` belongs in the table `v`.
pub fn find_key_position<V>(v: &Vec<((usize, usize), V)>, k: (usize, usize)) -> (r: usize)
    ensures
        r as int == key_position(v@, k),
{
    let mut i: usize = 0;
    while i < v.len()
        invariant
            i <= v@.len(),
            less_run(v@, k, 0) == less_run(v@, k, i as int),
        decreases v@.len() - i,
    {
        let key = v[i].0;
        if key.0 < k.0 || (key.0 == k.0 && key.1 < k.1) {
            i = i + 1;
        } else {
            return i;
        }
    }
    i
}

/// Stores `value` under `k`, keeping the table sorted.
pub fn insert_sorted<V>(v: &mut Vec<((usize, usize), V)>, k: (usize, usize), value: V)
    requires
        keys_sorted(old(v)@),
    ensures
        final(v)@ == sorted_insert(old(v)@, k, value),
        keys_sorted(final(v)@),
{
    proof {
        lemma_sorted_insert_sorted(v@, k, value);
        lemma_less_run(v@, k, 0);
    }
    let i = find_key_position(v, k);
    let found = i < v.len() && v[i].0.0 == k.0 && v[i].0.1 == k.1;
    if found {
        v.set(i, (k, value));
    } else {
        v.insert(i, (k, value));
    }
}

} // verus!
