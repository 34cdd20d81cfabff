//! Finding an entry by its textual key in a sequence that is searched from
//! the front.

use vstd::prelude::*;

verus! {

/// The least index at which `key` stands in `keys`, or -1 if it stands
/// nowhere.
pub open spec fn first_index(keys: Seq<Seq<char>>, key: Seq<char>) -> int
    decreases keys.len(),
{
    if keys.len() == 0 {
        -1
    } else {
        let before = first_index(keys.drop_last(), key);
        if before >= 0 {
            before
        } else if keys.last() == key {
            keys.len() - 1
        } else {
            -1
        }
    }
}

/// `first_index` is the least index of the key, and -1 exactly when the key
/// is absent.
pub proof fn lemma_first_index(keys: Seq<Seq<char>>, key: Seq<char>)
    ensures
        -1 <= first_index(keys, key) < keys.len(),
        first_index(keys, key) >= 0 ==> keys[first_index(keys, key)] == key,
        forall|j: int| 0 <= j < keys.len() && j < first_index(keys, key) ==> keys[j] != key,
        first_index(keys, key) == -1 ==> forall|j: int| 0 <= j < keys.len() ==> keys[j] != key,
    decreases keys.len(),
{
    if keys.len() > 0 {
        lemma_first_index(keys.drop_last(), key);
        assert(forall|j: int| 0 <= j < keys.len() - 1 ==> keys.drop_last()[j] == keys[j]);
    }
}

/// An index at which the key stands and before which it does not is the
/// key's first index.
pub proof fn lemma_first_index_is(keys: Seq<Seq<char>>, key: Seq<char>, i: int)
    requires
        0 <= i < keys.len(),
        keys[i] == key,
        forall|j: int| 0 <= j < i ==> keys[j] != key,
    ensures
        first_index(keys, key) == i,
{
    lemma_first_index(keys, key);
}

/// A key that stands nowhere has no first index.
pub proof fn lemma_first_index_absent(keys: Seq<Seq<char>>, key: Seq<char>)
    requires
        forall|j: int| 0 <= j < keys.len() ==> keys[j] != key,
    ensures
        first_index(keys, key) == -1,
{
    lemma_first_index(keys, key);
}

} // verus!
