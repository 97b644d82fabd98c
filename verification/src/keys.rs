//! Looking a key up in a list of keys.

use vstd::prelude::*;

verus! {

/// `i` is the first position of `keys` that holds `key`.
pub open spec fn is_first_at(keys: Seq<Seq<char>>, key: Seq<char>, i: int) -> bool {
    &&& 0 <= i < keys.len()
    &&& keys[i] == key
    &&& forall|j: int| 0 <= j < i ==> #[trigger] keys[j] != key
}

/// The first position of `keys` that holds `key`.
pub open spec fn position(keys: Seq<Seq<char>>, key: Seq<char>) -> Option<int> {
    if exists|i: int| is_first_at(keys, key, i) {
        Some(choose|i: int| is_first_at(keys, key, i))
    } else {
        None
    }
}

/// The first position that holds the key is determined.
pub proof fn lemma_position(keys: Seq<Seq<char>>, key: Seq<char>, i: int)
    requires
        is_first_at(keys, key, i),
    ensures
        position(keys, key) == Some(i),
{
}

/// A key that stands in the list is found, there or before.
pub proof fn lemma_position_present(keys: Seq<Seq<char>>, key: Seq<char>, j: int)
    requires
        0 <= j < keys.len(),
        keys[j] == key,
    ensures
        position(keys, key) matches Some(i) && i <= j && is_first_at(keys, key, i),
    decreases j,
{
    if exists|k: int| 0 <= k < j && #[trigger] keys[k] == key {
        let k = choose|k: int| 0 <= k < j && #[trigger] keys[k] == key;
        lemma_position_present(keys, key, k);
    } else {
        lemma_position(keys, key, j);
    }
}

/// What `position` finds is the first occurrence, and it finds nothing only
/// where the key does not occur.
pub proof fn lemma_position_found(keys: Seq<Seq<char>>, key: Seq<char>)
    ensures
        position(keys, key) matches Some(i) ==> is_first_at(keys, key, i),
        position(keys, key) is None <==> !keys.contains(key),
{
    if keys.contains(key) {
        let j = choose|j: int| 0 <= j < keys.len() && keys[j] == key;
        lemma_position_present(keys, key, j);
    }
}

/// The first position of `keys` that holds `key`.
pub fn find(keys: &Vec<String>, key: &String) -> (out: Option<usize>)
    ensures
        match out {
            Some(i) => i < keys.len() && position(keys.deep_view(), key@) == Some(i as int),
            None => position(keys.deep_view(), key@) is None,
        },
{
    let mut i: usize = 0;
    while i < keys.len()
        invariant
            i <= keys.len(),
            forall|j: int| 0 <= j < i ==> #[trigger] keys.deep_view()[j] != key@,
        decreases keys.len() - i,
    {
        if keys[i] == *key {
            proof {
                lemma_position(keys.deep_view(), key@, i as int);
            }
            return Some(i);
        }
        i = i + 1;
    }
    None
}

} // verus!
