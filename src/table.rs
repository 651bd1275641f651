//! Tables of entries keyed by text, kept in insertion order with unique keys.
use vstd::prelude::*;

verus! {

/// No two entries share a key.
pub open spec fn keys_unique<T>(s: Seq<(String, T)>) -> bool {
    forall|i: int, j: int| 0 <= i < s.len() && 0 <= j < s.len() && i != j ==> s[i].0@ != s[j].0@
}

/// Whether some entry has the key `k`.
pub open spec fn has_key<T>(s: Seq<(String, T)>, k: Seq<char>) -> bool {
    exists|i: int| 0 <= i < s.len() && s[i].0@ == k
}

/// The position of the entry with key `k`.
pub open spec fn index_of<T>(s: Seq<(String, T)>, k: Seq<char>) -> int {
    choose|i: int| 0 <= i < s.len() && s[i].0@ == k
}

/// In a table with unique keys, the entry found for a key is the one at its position.
pub proof fn lemma_index_of<T>(s: Seq<(String, T)>, k: Seq<char>, i: int)
    requires
        keys_unique(s),
        0 <= i < s.len(),
        s[i].0@ == k,
    ensures
        has_key(s, k),
        index_of(s, k) == i,
{
    assert(has_key(s, k));
}

/// The position of the entry with key `k`, if there is one.
pub fn find_key<T>(entries: &Vec<(String, T)>, k: &String) -> (r: Option<usize>)
    ensures
        r matches Some(i) ==> i < entries@.len() && entries@[i as int].0@ == k@,
        r is None ==> !has_key(entries@, k@),
{
    let mut i: usize = 0;
    while i < entries.len()
        invariant
            i <= entries@.len(),
            forall|j: int| 0 <= j < i ==> entries@[j].0@ != k@,
        decreases entries@.len() - i,
    {
        if entries[i].0 == *k {
            return Some(i);
        }
        i = i + 1;
    }
    None
}

} // verus!
