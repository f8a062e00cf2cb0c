//! Laws of the store, stated and proved over its view.
//!
//! Each law is a public proof function whose `requires` holds only what the
//! operations' own contracts establish, so together with those contracts it
//! covers every sequence of operations.

use vstd::prelude::*;

use crate::store::Entry;
use crate::store::Store;
use crate::store::contains_key;
use crate::store::index_of_key;
use crate::store::keys_distinct;
use crate::store::value_of;

verus! {

/// Uniqueness: in a well-formed store, the keys present are pairwise
/// distinct. `create` establishes well-formedness and every operation's
/// contract preserves it, so this holds at every point of any sequence of
/// `append` and `remove` operations.
pub proof fn lemma_keys_unique(s: Store)
    requires
        s.wf(),
    ensures
        forall|i: int, j: int|
            0 <= i < s@.len() && 0 <= j < s@.len() && i != j ==> s@[i].key != s@[j].key,
{
    assert(keys_distinct(s@));
}

/// No reuse: the key a well-formed store will issue next is carried by no
/// current entry. Since `append` returns exactly this key and only ever moves
/// the generator up, a key is never issued twice, even after removals.
pub proof fn lemma_next_key_fresh(s: Store)
    requires
        s.wf(),
    ensures
        !contains_key(s@, s.spec_next_key()),
{
}

/// Order preservation: removing the entry at position `i` keeps every other
/// entry in its relative order. Entries before `i` keep their position;
/// entries after `i` shift down by exactly one.
pub proof fn lemma_remove_preserves_order(s: Seq<Entry>, i: int)
    requires
        0 <= i < s.len(),
    ensures
        s.remove(i).len() == s.len() - 1,
        forall|j: int| 0 <= j < i ==> s.remove(i)[j] == s[j],
        forall|j: int| i <= j < s.len() - 1 ==> s.remove(i)[j] == s[j + 1],
{
    s.remove_ensures(i);
}

/// Idempotent snapshot: `snapshot` promises a copy equal to the store's
/// view, so two snapshots taken with no mutation in between are equal.
pub proof fn lemma_snapshot_idempotent(s: Store, a: Seq<Entry>, b: Seq<Entry>)
    requires
        a == s@,
        b == s@,
    ensures
        a == b,
{
}

/// A mutation between two snapshots touches only the affected entry: after
/// an increment of `key`, every entry carrying a different key is unchanged
/// at its position, and the entry carrying `key` holds one more than before.
pub proof fn lemma_increment_changes_one(pre: Seq<Entry>, post: Seq<Entry>, key: u64)
    requires
        keys_distinct(pre),
        contains_key(pre, key),
        value_of(pre, key) < u64::MAX,
        post == pre.update(
            index_of_key(pre, key),
            (Entry { key, value: (value_of(pre, key) + 1) as u64 }),
        ),
    ensures
        post.len() == pre.len(),
        forall|j: int| 0 <= j < pre.len() && pre[j].key != key ==> post[j] == pre[j],
        post[index_of_key(pre, key)].key == key,
        post[index_of_key(pre, key)].value == value_of(pre, key) + 1,
{
    let c = index_of_key(pre, key);
    assert(0 <= c < pre.len() && pre[c].key == key);
}

/// Increasing keys: each `append` issues the store's next key and moves the
/// generator up by one, so of two appends in sequence the second returns a
/// strictly greater key.
pub proof fn lemma_append_keys_increase(s0: Store, s1: Store, k1: u64, k2: u64)
    requires
        k1 == s0.spec_next_key(),
        s1.spec_next_key() == k1 + 1,
        k2 == s1.spec_next_key(),
    ensures
        k2 > k1,
{
}

} // verus!
