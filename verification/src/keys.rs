//! First-match lookup by key, shared by both AST layers.

use vstd::prelude::*;

verus! {

/// Index of the first entry of `keys` equal to `key`.
pub open spec fn first_match(keys: Seq<Seq<char>>, key: Seq<char>) -> Option<int>
    decreases keys.len(),
{
    if keys.len() == 0 {
        None
    } else if keys[0] == key {
        Some(0)
    } else {
        match first_match(keys.drop_first(), key) {
            Some(i) => Some(i + 1),
            None => None,
        }
    }
}

/// `first_match` finds the first equal entry, and none when there is none.
pub proof fn lemma_first_match(keys: Seq<Seq<char>>, key: Seq<char>)
    ensures
        match first_match(keys, key) {
            Some(i) => 0 <= i < keys.len() && keys[i] == key && forall|j: int|
                0 <= j < i ==> keys[j] != key,
            None => forall|j: int| 0 <= j < keys.len() ==> keys[j] != key,
        },
    decreases keys.len(),
{
    if keys.len() > 0 && keys[0] != key {
        lemma_first_match(keys.drop_first(), key);
        match first_match(keys.drop_first(), key) {
            Some(i) => {
                assert forall|j: int| 0 <= j < i + 1 implies keys[j] != key by {
                    if j > 0 {
                        assert(keys[j] == keys.drop_first()[j - 1]);
                    }
                }
            },
            None => {
                assert forall|j: int| 0 <= j < keys.len() implies keys[j] != key by {
                    if j > 0 {
                        assert(keys[j] == keys.drop_first()[j - 1]);
                    }
                }
            },
        }
    }
}

/// The first match is determined by these two facts.
pub proof fn lemma_first_match_is(keys: Seq<Seq<char>>, key: Seq<char>, i: int)
    requires
        0 <= i < keys.len(),
        keys[i] == key,
        forall|j: int| 0 <= j < i ==> keys[j] != key,
    ensures
        first_match(keys, key) == Some(i),
{
    lemma_first_match(keys, key);
    match first_match(keys, key) {
        Some(k) => {
            if k < i {
                assert(keys[k] != key);
            } else if k > i {
                assert(keys[i] != key);
            }
        },
        None => {
            assert(keys[i] != key);
        },
    }
}

} // verus!
