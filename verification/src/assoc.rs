//! Name-keyed association sequences and the map each one denotes.
//!
//! An archive directory and an archive set are both, at bottom, a sequence
//! of (name, value) pairs in which a later pair with the same name shadows
//! an earlier one. The denoted map is the left fold of `insert` over the
//! sequence; the lemmas here relate that fold to positional lookups.

use vstd::prelude::*;

verus! {

/// The map denoted by the first `n` pairs of `s`, later pairs shadowing
/// earlier ones.
pub open spec fn assoc_map_upto<K, V>(s: Seq<(K, V)>, n: int) -> Map<K, V>
    decreases n,
{
    if n <= 0 {
        Map::empty()
    } else {
        assoc_map_upto(s, n - 1).insert(s[n - 1].0, s[n - 1].1)
    }
}

/// The map denoted by the whole pair sequence `s`.
pub open spec fn assoc_map<K, V>(s: Seq<(K, V)>) -> Map<K, V> {
    assoc_map_upto(s, s.len() as int)
}

/// The fold reads only the first `n` pairs: sequences that agree there
/// denote the same map.
pub proof fn lemma_assoc_agree<K, V>(s1: Seq<(K, V)>, s2: Seq<(K, V)>, n: int)
    requires
        0 <= n <= s1.len(),
        n <= s2.len(),
        forall|k: int| 0 <= k < n ==> s1[k] == s2[k],
    ensures
        assoc_map_upto(s1, n) == assoc_map_upto(s2, n),
    decreases n,
{
    if n > 0 {
        lemma_assoc_agree(s1, s2, n - 1);
    }
}

/// A name's value in the denoted map is the value of its last occurrence.
pub proof fn lemma_assoc_found<K, V>(s: Seq<(K, V)>, nm: K, i: int, n: int)
    requires
        0 <= i < n <= s.len(),
        s[i].0 == nm,
        forall|j: int| i < j < n ==> s[j].0 != nm,
    ensures
        assoc_map_upto(s, n).contains_key(nm),
        assoc_map_upto(s, n)[nm] == s[i].1,
    decreases n,
{
    if n - 1 > i {
        lemma_assoc_found(s, nm, i, n - 1);
    }
}

/// A name that occurs in no pair is not in the denoted map.
pub proof fn lemma_assoc_absent<K, V>(s: Seq<(K, V)>, nm: K, n: int)
    requires
        0 <= n <= s.len(),
        forall|j: int| 0 <= j < n ==> s[j].0 != nm,
    ensures
        !assoc_map_upto(s, n).contains_key(nm),
    decreases n,
{
    if n > 0 {
        lemma_assoc_absent(s, nm, n - 1);
    }
}

/// The denoted map's domain is exactly the set of names that occur.
pub proof fn lemma_assoc_dom<K, V>(s: Seq<(K, V)>, n: int)
    requires
        0 <= n <= s.len(),
    ensures
        forall|nm: K| #![auto]
            assoc_map_upto(s, n).contains_key(nm) <==> exists|j: int| 0 <= j < n && s[j].0 == nm,
    decreases n,
{
    if n > 0 {
        lemma_assoc_dom(s, n - 1);
        assert forall|nm: K| #![auto]
            assoc_map_upto(s, n).contains_key(nm) implies exists|j: int|
            0 <= j < n && s[j].0 == nm by {
            if nm == s[n - 1].0 {
                assert(0 <= n - 1 < n && s[n - 1].0 == nm);
            } else {
                assert(assoc_map_upto(s, n - 1).contains_key(nm));
            }
        }
        assert forall|nm: K| #![auto]
            (exists|j: int| 0 <= j < n && s[j].0 == nm) implies assoc_map_upto(
            s,
            n,
        ).contains_key(nm) by {
            let j = choose|j: int| 0 <= j < n && s[j].0 == nm;
            if j < n - 1 {
                assert(assoc_map_upto(s, n - 1).contains_key(nm));
            }
        }
    }
}

} // verus!
