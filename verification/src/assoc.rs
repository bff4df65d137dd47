//! String-keyed association lists: a vector of `(key, value)` pairs with
//! distinct keys, viewed as a finite map from key text to value.
use vstd::prelude::*;
use crate::text::str_eq;

verus! {

/// Whether some pair of `v` has the key `k`.
pub open spec fn has_key<V>(v: Seq<(String, V)>, k: Seq<char>) -> bool {
    exists|i: int| 0 <= i < v.len() && (#[trigger] v[i]).0@ == k
}

/// No two pairs of `v` share a key.
pub open spec fn keys_unique<V>(v: Seq<(String, V)>) -> bool {
    forall|i: int, j: int|
        0 <= i < v.len() && 0 <= j < v.len() && i != j ==> (#[trigger] v[i]).0@ != (#[trigger] v[j]).0@
}

/// The map that the pairs of `v` describe.
pub open spec fn assoc_map<V>(v: Seq<(String, V)>) -> Map<Seq<char>, V> {
    Map::new(
        |k: Seq<char>| has_key(v, k),
        |k: Seq<char>| v[choose|i: int| 0 <= i < v.len() && (#[trigger] v[i]).0@ == k].1,
    )
}

/// With distinct keys, the map holds at each key the value of the pair
/// that carries it.
pub proof fn lemma_assoc_at<V>(v: Seq<(String, V)>, i: int)
    requires
        keys_unique(v),
        0 <= i < v.len(),
    ensures
        assoc_map(v).contains_key(v[i].0@),
        assoc_map(v)[v[i].0@] == v[i].1,
{
    let k = v[i].0@;
    assert(has_key(v, k));
    let j = choose|j: int| 0 <= j < v.len() && (#[trigger] v[j]).0@ == k;
    assert(0 <= j < v.len() && v[j].0@ == k);
    assert(j == i);
}

/// The index of the pair with key `k`, if there is one.
pub fn assoc_find<V>(v: &Vec<(String, V)>, k: &str) -> (r: Option<usize>)
    ensures
        r matches Some(i) ==> i < v@.len() && v@[i as int].0@ == k@,
        r is None ==> !has_key(v@, k@),
{
    let n = v.len();
    let mut i: usize = 0;
    while i < n
        invariant
            n == v@.len(),
            i <= n,
            forall|j: int| 0 <= j < i ==> (#[trigger] v@[j]).0@ != k@,
        decreases n - i,
    {
        if str_eq(v[i].0.as_str(), k) {
            return Some(i);
        }
        i = i + 1;
    }
    None
}

/// The value at key `k`, if any.
pub fn assoc_get<'a, V>(v: &'a Vec<(String, V)>, k: &str) -> (r: Option<&'a V>)
    requires
        keys_unique(v@),
    ensures
        r matches Some(x) ==> assoc_map(v@).contains_key(k@) && *x == assoc_map(v@)[k@],
        r is None ==> !assoc_map(v@).contains_key(k@),
{
    match assoc_find(v, k) {
        Some(i) => {
            proof { lemma_assoc_at(v@, i as int); }
            Some(&v[i].1)
        },
        None => None,
    }
}

/// Sets key `k` to `val`: the pair with key `k` is replaced, or a new pair
/// is appended.
pub fn assoc_insert<V>(v: &mut Vec<(String, V)>, k: String, val: V)
    requires
        keys_unique(old(v)@),
    ensures
        keys_unique(final(v)@),
        assoc_map(final(v)@) == assoc_map(old(v)@).insert(k@, val),
{
    let ghost old_v = v@;
    let ghost key = k@;
    match assoc_find(v, k.as_str()) {
        Some(i) => {
            v.set(i, (k, val));
            let ghost nv = v@;
            assert(nv == old_v.update(i as int, (nv[i as int].0, val)));
            assert forall|a: int, b: int|
                0 <= a < nv.len() && 0 <= b < nv.len() && a != b implies (#[trigger] nv[a]).0@ != (#[trigger] nv[b]).0@ by {
                assert(old_v[a].0@ == nv[a].0@);
                assert(old_v[b].0@ == nv[b].0@);
            }
            assert forall|kk: Seq<char>| has_key(nv, kk) <==> has_key(old_v, kk) || kk == key by {
                if has_key(nv, kk) {
                    let j = choose|j: int| 0 <= j < nv.len() && (#[trigger] nv[j]).0@ == kk;
                    assert(old_v[j].0@ == kk);
                }
                if has_key(old_v, kk) {
                    let j = choose|j: int| 0 <= j < old_v.len() && (#[trigger] old_v[j]).0@ == kk;
                    assert(nv[j].0@ == kk);
                }
                if kk == key {
                    assert(nv[i as int].0@ == kk);
                }
            }
            assert forall|kk: Seq<char>| #[trigger] assoc_map(nv).contains_key(kk) implies assoc_map(nv)[kk]
                == assoc_map(old_v).insert(key, val)[kk] by {
                let j = choose|j: int| 0 <= j < nv.len() && (#[trigger] nv[j]).0@ == kk;
                lemma_assoc_at(nv, j);
                if j != i {
                    lemma_assoc_at(old_v, j);
                }
            }
            assert(assoc_map(nv) =~= assoc_map(old_v).insert(key, val));
        },
        None => {
            v.push((k, val));
            let ghost nv = v@;
            let ghost n = old_v.len() as int;
            assert forall|a: int, b: int|
                0 <= a < nv.len() && 0 <= b < nv.len() && a != b implies (#[trigger] nv[a]).0@ != (#[trigger] nv[b]).0@ by {
                if a < n && b < n {
                    assert(old_v[a] == nv[a]);
                    assert(old_v[b] == nv[b]);
                } else if a < n {
                    assert(old_v[a] == nv[a]);
                } else if b < n {
                    assert(old_v[b] == nv[b]);
                }
            }
            assert forall|kk: Seq<char>| has_key(nv, kk) <==> has_key(old_v, kk) || kk == key by {
                if has_key(nv, kk) {
                    let j = choose|j: int| 0 <= j < nv.len() && (#[trigger] nv[j]).0@ == kk;
                    if j < n {
                        assert(old_v[j] == nv[j]);
                    }
                }
                if has_key(old_v, kk) {
                    let j = choose|j: int| 0 <= j < old_v.len() && (#[trigger] old_v[j]).0@ == kk;
                    assert(nv[j] == old_v[j]);
                }
                if kk == key {
                    assert(nv[n].0@ == kk);
                }
            }
            assert forall|kk: Seq<char>| #[trigger] assoc_map(nv).contains_key(kk) implies assoc_map(nv)[kk]
                == assoc_map(old_v).insert(key, val)[kk] by {
                let j = choose|j: int| 0 <= j < nv.len() && (#[trigger] nv[j]).0@ == kk;
                lemma_assoc_at(nv, j);
                if j < n {
                    assert(old_v[j] == nv[j]);
                    lemma_assoc_at(old_v, j);
                }
            }
            assert(assoc_map(nv) =~= assoc_map(old_v).insert(key, val));
        },
    }
}

/// Removes key `k`, returning the value it had.
pub fn assoc_remove<V>(v: &mut Vec<(String, V)>, k: &str) -> (r: Option<V>)
    requires
        keys_unique(old(v)@),
    ensures
        keys_unique(final(v)@),
        assoc_map(final(v)@) == assoc_map(old(v)@).remove(k@),
        r matches Some(x) ==> assoc_map(old(v)@).contains_key(k@) && x == assoc_map(old(v)@)[k@],
        r is None ==> !assoc_map(old(v)@).contains_key(k@),
{
    let ghost old_v = v@;
    match assoc_find(v, k) {
        Some(i) => {
            proof { lemma_assoc_at(old_v, i as int); }
            let (_, val) = v.remove(i);
            let ghost nv = v@;
            let ghost ii = i as int;
            assert(nv == old_v.remove(ii));
            assert forall|j: int| 0 <= j < nv.len() implies #[trigger] nv[j] == old_v[if j < ii { j } else { j + 1 }] by {}
            assert forall|a: int, b: int|
                0 <= a < nv.len() && 0 <= b < nv.len() && a != b implies (#[trigger] nv[a]).0@ != (#[trigger] nv[b]).0@ by {
                let oa = if a < ii { a } else { a + 1 };
                let ob = if b < ii { b } else { b + 1 };
                assert(nv[a] == old_v[oa]);
                assert(nv[b] == old_v[ob]);
            }
            assert forall|kk: Seq<char>| has_key(nv, kk) <==> has_key(old_v, kk) && kk != k@ by {
                if has_key(nv, kk) {
                    let j = choose|j: int| 0 <= j < nv.len() && (#[trigger] nv[j]).0@ == kk;
                    let oj = if j < ii { j } else { j + 1 };
                    assert(nv[j] == old_v[oj]);
                    assert(old_v[oj].0@ == kk);
                }
                if has_key(old_v, kk) && kk != k@ {
                    let j = choose|j: int| 0 <= j < old_v.len() && (#[trigger] old_v[j]).0@ == kk;
                    assert(j != ii);
                    let nj = if j < ii { j } else { j - 1 };
                    assert(nv[nj] == old_v[j]);
                }
            }
            assert forall|kk: Seq<char>| #[trigger] assoc_map(nv).contains_key(kk) implies assoc_map(nv)[kk]
                == assoc_map(old_v).remove(k@)[kk] by {
                let j = choose|j: int| 0 <= j < nv.len() && (#[trigger] nv[j]).0@ == kk;
                lemma_assoc_at(nv, j);
                let oj = if j < ii { j } else { j + 1 };
                assert(nv[j] == old_v[oj]);
                lemma_assoc_at(old_v, oj);
            }
            assert(assoc_map(nv) =~= assoc_map(old_v).remove(k@));
            Some(val)
        },
        None => {
            assert(assoc_map(old_v) =~= assoc_map(old_v).remove(k@));
            None
        },
    }
}

} // verus!
