//! Association-list lookup, the specification shared by every table of the
//! crate: tables are vectors of `(key, value)` pairs in insertion order, and a
//! lookup returns the first entry with the requested key.

use vstd::prelude::*;

verus! {

/// First entry of `s` whose key equals `k`, if any.
pub open spec fn assoc_find<K, V>(s: Seq<(K, V)>, k: K) -> Option<V>
    decreases s.len(),
{
    if s.len() == 0 {
        None
    } else if s[0].0 == k {
        Some(s[0].1)
    } else {
        assoc_find(s.drop_first(), k)
    }
}

/// Replacing the value at the first occurrence of `key` changes the lookup of
/// `key` alone.
pub proof fn lemma_assoc_find_update<K, V>(s: Seq<(K, V)>, i: int, key: K, v: V, k2: K)
    requires
        0 <= i < s.len(),
        s[i].0 == key,
        forall|j: int| 0 <= j < i ==> s[j].0 != key,
    ensures
        assoc_find(s.update(i, (key, v)), k2) == if k2 == key {
            Some(v)
        } else {
            assoc_find(s, k2)
        },
    decreases s.len(),
{
    if i == 0 {
        if k2 == key {
        } else {
            assert(s.update(0, (key, v)).drop_first() =~= s.drop_first());
        }
    } else {
        assert(s.update(i, (key, v)).drop_first() =~= s.drop_first().update(i - 1, (key, v)));
        lemma_assoc_find_update(s.drop_first(), i - 1, key, v, k2);
    }
}

/// Appending an entry for an absent key changes the lookup of that key alone.
pub proof fn lemma_assoc_find_push<K, V>(s: Seq<(K, V)>, key: K, v: V, k2: K)
    requires
        assoc_find(s, key) is None,
    ensures
        assoc_find(s.push((key, v)), k2) == if k2 == key {
            Some(v)
        } else {
            assoc_find(s, k2)
        },
    decreases s.len(),
{
    if s.len() == 0 {
        assert(s.push((key, v)).drop_first() =~= Seq::<(K, V)>::empty());
    } else {
        assert(s.push((key, v)).drop_first() =~= s.drop_first().push((key, v)));
        lemma_assoc_find_push(s.drop_first(), key, v, k2);
    }
}

/// In a table with pairwise distinct keys, looking an entry's key up finds
/// exactly that entry.
pub proof fn lemma_assoc_distinct_index<K, V>(s: Seq<(K, V)>, i: int)
    requires
        0 <= i < s.len(),
        forall|a: int, b: int|
            0 <= a < b < s.len() ==> (#[trigger] s[a]).0 != (#[trigger] s[b]).0,
    ensures
        assoc_find(s, s[i].0) == Some(s[i].1),
    decreases s.len(),
{
    if i == 0 {
    } else {
        assert(s[0].0 != s[i].0);
        assert forall|a: int, b: int|
            0 <= a < b < s.drop_first().len() implies (#[trigger] s.drop_first()[a]).0 != (
        #[trigger] s.drop_first()[b]).0 by {
            assert(s.drop_first()[a] == s[a + 1]);
            assert(s.drop_first()[b] == s[b + 1]);
        }
        assert(s.drop_first()[i - 1] == s[i]);
        lemma_assoc_distinct_index(s.drop_first(), i - 1);
    }
}

/// A found key is still found, unchanged, after an append.
pub proof fn lemma_assoc_find_append_preserves<K, V>(s: Seq<(K, V)>, x: (K, V), k: K)
    requires
        assoc_find(s, k) is Some,
    ensures
        assoc_find(s.push(x), k) == assoc_find(s, k),
    decreases s.len(),
{
    if s.len() > 0 {
        if s[0].0 == k {
            assert(s.push(x)[0] == s[0]);
        } else {
            assert(s.push(x).drop_first() =~= s.drop_first().push(x));
            lemma_assoc_find_append_preserves(s.drop_first(), x, k);
        }
    }
}

/// A key that no entry of the table carries is not found.
pub proof fn lemma_assoc_absent<K, V>(s: Seq<(K, V)>, k: K)
    requires
        forall|j: int| 0 <= j < s.len() ==> s[j].0 != k,
    ensures
        assoc_find(s, k) is None,
    decreases s.len(),
{
    if s.len() > 0 {
        lemma_assoc_absent(s.drop_first(), k);
    }
}

/// A key that is not found stands at no index of the table.
pub proof fn lemma_assoc_none_absent<K, V>(s: Seq<(K, V)>, k: K)
    requires
        assoc_find(s, k) is None,
    ensures
        forall|j: int| 0 <= j < s.len() ==> (#[trigger] s[j]).0 != k,
    decreases s.len(),
{
    if s.len() > 0 {
        lemma_assoc_none_absent(s.drop_first(), k);
        assert forall|j: int| 0 <= j < s.len() implies (#[trigger] s[j]).0 != k by {
            if j > 0 {
                assert(s.drop_first()[j - 1] == s[j]);
            }
        }
    }
}

/// A key that stands at some index of the table is found.
pub proof fn lemma_assoc_found<K, V>(s: Seq<(K, V)>, i: int, k: K)
    requires
        0 <= i < s.len(),
        s[i].0 == k,
    ensures
        assoc_find(s, k) is Some,
    decreases s.len(),
{
    if s.len() > 0 && s[0].0 != k {
        lemma_assoc_found(s.drop_first(), i - 1, k);
    }
}

/// A found entry stands at some index of the table.
pub proof fn lemma_assoc_find_index<K, V>(s: Seq<(K, V)>, k: K)
    requires
        assoc_find(s, k) is Some,
    ensures
        exists|i: int|
            0 <= i < s.len() && s[i].0 == k && s[i].1 == assoc_find(s, k)->Some_0,
    decreases s.len(),
{
    if s.len() == 0 {
    } else if s[0].0 == k {
        assert(s[0].0 == k && s[0].1 == assoc_find(s, k)->Some_0);
    } else {
        lemma_assoc_find_index(s.drop_first(), k);
        let i = choose|i: int|
            0 <= i < s.drop_first().len() && s.drop_first()[i].0 == k && s.drop_first()[i].1
                == assoc_find(s.drop_first(), k)->Some_0;
        assert(s[i + 1].0 == k && s[i + 1].1 == assoc_find(s, k)->Some_0);
    }
}

} // verus!
