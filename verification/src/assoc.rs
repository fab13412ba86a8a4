//! Key-value sequences used as maps.
//!
//! The registry and the pending-game set hold their entries in plain
//! vectors keyed by strings. This module gives such a sequence its
//! map view and the lemmas that connect the vector operations to map
//! operations, provided the keys stay distinct.

use vstd::prelude::*;

use crate::text::string_eq_str;

verus! {

/// The map a sequence of keyed entries represents: later entries win,
/// though well-formed holders keep their keys distinct.
pub open spec fn assoc_fold<V>(s: Seq<(String, V)>) -> Map<Seq<char>, V>
    decreases s.len(),
{
    if s.len() == 0 {
        Map::empty()
    } else {
        assoc_fold(s.drop_last()).insert(s.last().0@, s.last().1)
    }
}

/// No two entries share a key.
pub open spec fn distinct_keys<V>(s: Seq<(String, V)>) -> bool {
    forall|i: int, j: int| 0 <= i < j < s.len() ==> (#[trigger] s[i]).0@ != (#[trigger] s[j]).0@
}

pub proof fn lemma_assoc_contains_key<V>(s: Seq<(String, V)>, k: Seq<char>)
    ensures
        assoc_fold(s).contains_key(k) <==> exists|i: int|
            0 <= i < s.len() && (#[trigger] s[i]).0@ == k,
    decreases s.len(),
{
    if s.len() > 0 {
        lemma_assoc_contains_key(s.drop_last(), k);
        if k == s.last().0@ {
            assert((s[s.len() - 1]).0@ == k);
        } else {
            if assoc_fold(s).contains_key(k) {
                let i = choose|i: int|
                    0 <= i < s.drop_last().len() && (#[trigger] s.drop_last()[i]).0@ == k;
                assert((s[i]).0@ == k);
            }
            if exists|i: int| 0 <= i < s.len() && (#[trigger] s[i]).0@ == k {
                let i = choose|i: int| 0 <= i < s.len() && (#[trigger] s[i]).0@ == k;
                assert((s.drop_last()[i]).0@ == k);
            }
        }
    }
}

pub proof fn lemma_assoc_contains<V>(s: Seq<(String, V)>)
    ensures
        forall|k: Seq<char>| #[trigger]
            assoc_fold(s).contains_key(k) <==> exists|i: int|
                0 <= i < s.len() && (#[trigger] s[i]).0@ == k,
{
    assert forall|k: Seq<char>| #[trigger]
        assoc_fold(s).contains_key(k) <==> exists|i: int|
            0 <= i < s.len() && (#[trigger] s[i]).0@ == k by {
        lemma_assoc_contains_key(s, k);
    }
}

pub proof fn lemma_assoc_index<V>(s: Seq<(String, V)>, i: int)
    requires
        distinct_keys(s),
        0 <= i < s.len(),
    ensures
        assoc_fold(s).contains_key(s[i].0@),
        assoc_fold(s)[s[i].0@] == s[i].1,
    decreases s.len(),
{
    if i < s.len() - 1 {
        lemma_assoc_index(s.drop_last(), i);
        assert(s.drop_last()[i] == s[i]);
    }
}

pub proof fn lemma_assoc_remove<V>(s: Seq<(String, V)>, i: int)
    requires
        distinct_keys(s),
        0 <= i < s.len(),
    ensures
        distinct_keys(s.remove(i)),
        assoc_fold(s.remove(i)) =~= assoc_fold(s).remove(s[i].0@),
    decreases s.len(),
{
    lemma_assoc_contains(s);
    lemma_assoc_contains(s.remove(i));
    if i == s.len() - 1 {
        assert(s.remove(i) =~= s.drop_last());
        lemma_assoc_contains(s.drop_last());
    } else {
        assert(s.remove(i).last() == s.last());
        assert(s.remove(i).drop_last() =~= s.drop_last().remove(i));
        lemma_assoc_remove(s.drop_last(), i);
    }
}

pub proof fn lemma_assoc_push<V>(s: Seq<(String, V)>, e: (String, V))
    requires
        distinct_keys(s),
        forall|i: int| 0 <= i < s.len() ==> (#[trigger] s[i]).0@ != e.0@,
    ensures
        distinct_keys(s.push(e)),
        assoc_fold(s.push(e)) =~= assoc_fold(s).insert(e.0@, e.1),
{
    assert(s.push(e).drop_last() =~= s);
    assert forall|i: int, j: int| 0 <= i < j < s.push(e).len() implies (#[trigger] s.push(e)[i]).0@
        != (#[trigger] s.push(e)[j]).0@ by {
        if j < s.len() {
            assert(s.push(e)[i] == s[i] && s.push(e)[j] == s[j]);
        } else {
            assert(s.push(e)[i] == s[i] && s.push(e)[j] == e);
        }
    }
}

/// Index of the entry with the given key, if one exists.
pub fn assoc_find<V>(entries: &Vec<(String, V)>, key: &str) -> (r: Option<usize>)
    ensures
        r matches Some(i) ==> i < entries@.len() && entries@[i as int].0@ == key@,
        r is None ==> forall|i: int| 0 <= i < entries@.len() ==> (#[trigger] entries@[i]).0@
            != key@,
{
    let mut i: usize = 0;
    while i < entries.len()
        invariant
            i <= entries@.len(),
            forall|j: int| 0 <= j < i ==> (#[trigger] entries@[j]).0@ != key@,
        decreases entries@.len() - i,
    {
        if string_eq_str(&entries[i].0, key) {
            return Some(i);
        }
        i = i + 1;
    }
    None
}

} // verus!
