//! Association sequences: lookups over a sequence of (key, value) pairs.
//!
//! The configuration keeps services, and the routing table keeps host
//! mappings, as ordered lists of pairs. Two lookup disciplines occur:
//! `assoc_first` finds the earliest binding of a key (unique keys make it the
//! only one), `assoc_last` finds the latest (so a later binding of the same
//! host wins, the documented tie-break for host collisions).

use vstd::prelude::*;

verus! {

/// The value bound to `key` by the earliest matching pair, if any.
pub open spec fn assoc_first<V>(entries: Seq<(Seq<char>, V)>, key: Seq<char>) -> Option<V>
    decreases entries.len(),
{
    if entries.len() == 0 {
        None
    } else if entries[0].0 == key {
        Some(entries[0].1)
    } else {
        assoc_first(entries.drop_first(), key)
    }
}

/// The value bound to `key` by the latest matching pair, if any.
pub open spec fn assoc_last<V>(entries: Seq<(Seq<char>, V)>, key: Seq<char>) -> Option<V>
    decreases entries.len(),
{
    if entries.len() == 0 {
        None
    } else if entries.last().0 == key {
        Some(entries.last().1)
    } else {
        assoc_last(entries.drop_last(), key)
    }
}

/// If the first `i` keys differ from `key`, then `assoc_first` is decided at
/// position `i`: a match there yields that value, and `i` at the end yields
/// nothing.
pub proof fn lemma_assoc_first_at<V>(entries: Seq<(Seq<char>, V)>, key: Seq<char>, i: int)
    requires
        0 <= i <= entries.len(),
        forall|j: int| 0 <= j < i ==> entries[j].0 != key,
        i < entries.len() ==> entries[i].0 == key,
    ensures
        i < entries.len() ==> assoc_first(entries, key) == Some(entries[i].1),
        i == entries.len() ==> assoc_first(entries, key) is None,
    decreases entries.len(),
{
    if entries.len() > 0 {
        if entries[0].0 == key {
        } else {
            lemma_assoc_first_at(entries.drop_first(), key, i - 1);
        }
    }
}

/// A key has a binding exactly when some pair carries it.
pub proof fn lemma_assoc_first_some<V>(entries: Seq<(Seq<char>, V)>, key: Seq<char>)
    ensures
        assoc_first(entries, key) is Some <==> exists|i: int|
            0 <= i < entries.len() && entries[i].0 == key,
    decreases entries.len(),
{
    if entries.len() > 0 {
        if entries[0].0 == key {
        } else {
            lemma_assoc_first_some(entries.drop_first(), key);
            if assoc_first(entries, key) is Some {
                let i = choose|i: int|
                    0 <= i < entries.drop_first().len() && entries.drop_first()[i].0 == key;
                assert(entries[i + 1].0 == key);
            } else {
                if exists|i: int| 0 <= i < entries.len() && entries[i].0 == key {
                    let i = choose|i: int| 0 <= i < entries.len() && entries[i].0 == key;
                    assert(i >= 1);
                    assert(entries.drop_first()[i - 1].0 == key);
                }
            }
        }
    }
}

/// If the keys at positions `i..` all differ from `key`, then `assoc_last` is
/// decided at position `i - 1`: a match there yields that value, and `i == 0`
/// yields nothing.
pub proof fn lemma_assoc_last_at<V>(entries: Seq<(Seq<char>, V)>, key: Seq<char>, i: int)
    requires
        0 <= i <= entries.len(),
        forall|j: int| i <= j < entries.len() ==> entries[j].0 != key,
        i > 0 ==> entries[i - 1].0 == key,
    ensures
        i > 0 ==> assoc_last(entries, key) == Some(entries[i - 1].1),
        i == 0 ==> assoc_last(entries, key) is None,
    decreases entries.len(),
{
    if entries.len() > 0 {
        if entries.last().0 == key {
            assert(i == entries.len());
        } else {
            assert(i < entries.len());
            lemma_assoc_last_at(entries.drop_last(), key, i);
        }
    }
}

} // verus!
