//! Sequences read as keyed lists, and sums over sequences of amounts.

use vstd::prelude::*;

verus! {

/// The first position at which `key` occurs in `keys`, or the length of
/// `keys` where it does not occur.
pub open spec fn position<K>(keys: Seq<K>, key: K) -> int
    decreases keys.len(),
{
    if keys.len() == 0 {
        0
    } else if keys.first() == key {
        0
    } else {
        1 + position(keys.drop_first(), key)
    }
}

/// Whether `key` occurs in `keys`.
pub open spec fn has_key<K>(keys: Seq<K>, key: K) -> bool {
    position(keys, key) < keys.len()
}

/// No key occurs twice.
pub open spec fn distinct<K>(keys: Seq<K>) -> bool {
    forall|i: int, j: int|
        0 <= i < keys.len() && 0 <= j < keys.len() && i != j ==> #[trigger] keys[i]
            != #[trigger] keys[j]
}

pub proof fn lemma_position<K>(keys: Seq<K>, key: K)
    ensures
        0 <= position(keys, key) <= keys.len(),
        position(keys, key) < keys.len() ==> keys[position(keys, key)] == key,
        forall|j: int| 0 <= j < position(keys, key) ==> #[trigger] keys[j] != key,
    decreases keys.len(),
{
    if keys.len() == 0 {
    } else if keys.first() == key {
    } else {
        lemma_position(keys.drop_first(), key);
        let p = position(keys.drop_first(), key);
        assert forall|j: int| 0 <= j < p + 1 implies #[trigger] keys[j] != key by {
            if j > 0 {
                assert(keys.drop_first()[j - 1] == keys[j]);
            }
        }
        if p < keys.len() - 1 {
            assert(keys.drop_first()[p] == keys[p + 1]);
        }
    }
}

/// A position before which `key` does not occur, and at which it does (or
/// which is the length), is the position of `key`.
pub proof fn lemma_position_is<K>(keys: Seq<K>, key: K, i: int)
    requires
        0 <= i <= keys.len(),
        forall|j: int| 0 <= j < i ==> #[trigger] keys[j] != key,
        i < keys.len() ==> keys[i] == key,
    ensures
        position(keys, key) == i,
{
    lemma_position(keys, key);
    let p = position(keys, key);
    if p < i {
        assert(keys[p] != key);
    }
}

/// In a list without duplicates, a key is found where it stands.
pub proof fn lemma_position_distinct<K>(keys: Seq<K>, i: int)
    requires
        distinct(keys),
        0 <= i < keys.len(),
    ensures
        position(keys, keys[i]) == i,
{
    lemma_position(keys, keys[i]);
}

/// The sum of a sequence of amounts.
pub open spec fn total(s: Seq<nat>) -> nat
    decreases s.len(),
{
    if s.len() == 0 {
        0
    } else {
        total(s.drop_last()) + s.last()
    }
}

pub proof fn lemma_total_push(s: Seq<nat>, x: nat)
    ensures
        total(s.push(x)) == total(s) + x,
{
    assert(s.push(x).drop_last() =~= s);
}

pub proof fn lemma_total_update(s: Seq<nat>, i: int, x: nat)
    requires
        0 <= i < s.len(),
    ensures
        total(s.update(i, x)) == total(s) - s[i] + x,
        s[i] <= total(s),
    decreases s.len(),
{
    if i == s.len() - 1 {
        assert(s.update(i, x).drop_last() =~= s.drop_last());
    } else {
        lemma_total_update(s.drop_last(), i, x);
        assert(s.update(i, x).drop_last() =~= s.drop_last().update(i, x));
    }
}

pub proof fn lemma_total_remove(s: Seq<nat>, i: int)
    requires
        0 <= i < s.len(),
    ensures
        total(s.remove(i)) == total(s) - s[i],
    decreases s.len(),
{
    if i == s.len() - 1 {
        assert(s.remove(i) =~= s.drop_last());
    } else {
        lemma_total_remove(s.drop_last(), i);
        assert(s.remove(i).drop_last() =~= s.drop_last().remove(i));
        assert(s.remove(i).last() == s.last());
    }
}

pub proof fn lemma_total_prefix(s: Seq<nat>, m: int)
    requires
        0 <= m <= s.len(),
    ensures
        total(s.subrange(0, m)) <= total(s),
    decreases s.len() - m,
{
    if m == s.len() {
        assert(s.subrange(0, m) =~= s);
    } else {
        lemma_total_prefix(s, m + 1);
        assert(s.subrange(0, m + 1).drop_last() =~= s.subrange(0, m));
    }
}

} // verus!
