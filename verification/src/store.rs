//! The keyed collection store and the spec functions its contracts speak of.

use vstd::prelude::*;

verus! {

/// One record of the store: a stable key and a mutable counter value.
#[derive(Clone, Copy, PartialEq, Eq, Structural, Debug)]
pub struct Entry {
    pub key: u64,
    pub value: u64,
}

/// The one way an operation can fail: no entry carries the requested key.
/// This is signaled, not fatal; it legitimately occurs when a mutation races
/// against a removal of the same entry in the originating context.
#[derive(Clone, Copy, PartialEq, Eq, Structural, Debug)]
pub enum StoreError {
    NotFound,
}

/// Every key of `s` occurs at exactly one position.
pub open spec fn keys_distinct(s: Seq<Entry>) -> bool {
    forall|i: int, j: int|
        0 <= i < s.len() && 0 <= j < s.len() && i != j ==> s[i].key != s[j].key
}

/// Every key of `s` lies strictly below `bound`.
pub open spec fn keys_below(s: Seq<Entry>, bound: u64) -> bool {
    forall|i: int| 0 <= i < s.len() ==> s[i].key < bound
}

/// Some entry of `s` carries the key `k`.
pub open spec fn contains_key(s: Seq<Entry>, k: u64) -> bool {
    exists|i: int| 0 <= i < s.len() && s[i].key == k
}

/// The position of an entry carrying `k`: meaningful when `contains_key(s, k)`
/// holds, and then unique under `keys_distinct(s)`.
pub open spec fn index_of_key(s: Seq<Entry>, k: u64) -> int {
    choose|i: int| 0 <= i < s.len() && s[i].key == k
}

/// The counter value stored under `k`.
pub open spec fn value_of(s: Seq<Entry>, k: u64) -> u64 {
    s[index_of_key(s, k)].value
}

/// Under distinct keys, any position holding `k` is the one position that
/// `index_of_key` picks, so `k` is present and its position is unique.
pub proof fn lemma_index_of_key_unique(s: Seq<Entry>, k: u64, i: int)
    requires
        keys_distinct(s),
        0 <= i < s.len(),
        s[i].key == k,
    ensures
        contains_key(s, k),
        index_of_key(s, k) == i,
{
    assert(contains_key(s, k)) by {
        assert(0 <= i < s.len() && s[i].key == k);
    }
    let c = index_of_key(s, k);
    assert(0 <= c < s.len() && s[c].key == k);
}

/// An ordered collection of uniquely keyed counter entries.
///
/// The order of entries is their insertion order; removing an entry never
/// disturbs the relative order of the remaining ones. The view of a store is
/// the sequence of its entries.
pub struct Store {
    entries: Vec<Entry>,
    next_key: u64,
}

impl View for Store {
    type V = Seq<Entry>;

    closed spec fn view(&self) -> Seq<Entry> {
        self.entries@
    }
}

impl Store {
    /// The key the next `append` will issue; strictly above every key this
    /// store has ever issued.
    pub closed spec fn spec_next_key(self) -> u64 {
        self.next_key
    }

    /// Well-formedness: keys are pairwise distinct, and all lie strictly
    /// below the next key to be issued. `create` establishes this and every
    /// method preserves it, so it holds after any sequence of operations.
    pub open spec fn wf(self) -> bool {
        &&& keys_distinct(self@)
        &&& keys_below(self@, self.spec_next_key())
    }

    /// Seeds a store with `initial_count` entries, keys `0..initial_count`
    /// in order, each value one above its key. The key generator starts just
    /// past the seeded keys.
    pub fn create(initial_count: usize) -> (s: Store)
        ensures
            s.wf(),
            s@.len() == initial_count,
            forall|i: int|
                0 <= i < initial_count ==> s@[i] == (Entry {
                    key: i as u64,
                    value: (i + 1) as u64,
                }),
            s.spec_next_key() == initial_count as u64,
    {
        let mut entries: Vec<Entry> = Vec::new();
        let mut id: usize = 0;
        while id < initial_count
            invariant
                id <= initial_count,
                entries@.len() == id,
                forall|i: int|
                    0 <= i < id ==> entries@[i] == (Entry {
                        key: i as u64,
                        value: (i + 1) as u64,
                    }),
            decreases initial_count - id,
        {
            entries.push(Entry { key: id as u64, value: id as u64 + 1 });
            id = id + 1;
        }
        Store { entries, next_key: initial_count as u64 }
    }

    /// Appends a new entry holding `value` at the end of the order and
    /// returns its key: the current next key, which no entry of this store
    /// ever carried. The key generator moves up by exactly one, so later
    /// appends return strictly greater keys.
    pub fn append(&mut self, value: u64) -> (k: u64)
        requires
            old(self).wf(),
            old(self).spec_next_key() < u64::MAX,
        ensures
            final(self).wf(),
            k == old(self).spec_next_key(),
            !contains_key(old(self)@, k),
            final(self)@ == old(self)@.push((Entry { key: k, value })),
            final(self).spec_next_key() == k + 1,
    {
        let k = self.next_key;
        self.next_key = k + 1;
        self.entries.push(Entry { key: k, value });
        k
    }

    /// The position of the entry carrying `key`, if any; a linear scan.
    fn find_index(&self, key: u64) -> (r: Option<usize>)
        ensures
            match r {
                Some(i) => 0 <= i < self@.len() && self@[i as int].key == key,
                None => !contains_key(self@, key),
            },
    {
        let n = self.entries.len();
        let mut i: usize = 0;
        while i < n
            invariant
                i <= n,
                n == self.entries@.len(),
                forall|j: int| 0 <= j < i ==> self.entries@[j].key != key,
            decreases n - i,
        {
            if self.entries[i].key == key {
                return Some(i);
            }
            i = i + 1;
        }
        None
    }

    /// Adds one to the value of the entry carrying `key`, in place, leaving
    /// every other entry and the key generator untouched. Signals `NotFound`,
    /// and changes nothing, exactly when no entry carries `key`.
    pub fn increment(&mut self, key: u64) -> (r: Result<(), StoreError>)
        requires
            old(self).wf(),
            contains_key(old(self)@, key) ==> value_of(old(self)@, key) < u64::MAX,
        ensures
            final(self).wf(),
            final(self).spec_next_key() == old(self).spec_next_key(),
            r == Ok::<(), StoreError>(()) <==> contains_key(old(self)@, key),
            contains_key(old(self)@, key) ==> final(self)@ == old(self)@.update(
                index_of_key(old(self)@, key),
                (Entry { key, value: (value_of(old(self)@, key) + 1) as u64 }),
            ),
            !contains_key(old(self)@, key) ==> r == Err::<(), StoreError>(StoreError::NotFound)
                && final(self)@ == old(self)@,
    {
        match self.find_index(key) {
            Some(i) => {
                proof {
                    lemma_index_of_key_unique(self@, key, i as int);
                }
                let v = self.entries[i].value;
                self.entries[i] = Entry { key, value: v + 1 };
                proof {
                    assert(forall|j: int|
                        0 <= j < self@.len() ==> self@[j].key == old(self)@[j].key);
                }
                Ok(())
            },
            None => Err(StoreError::NotFound),
        }
    }

    /// Deletes the entry carrying `key`; the remaining entries keep their
    /// relative order, and the key generator does not move. Signals
    /// `NotFound`, and changes nothing, exactly when no entry carries `key`.
    pub fn remove(&mut self, key: u64) -> (r: Result<(), StoreError>)
        requires
            old(self).wf(),
        ensures
            final(self).wf(),
            final(self).spec_next_key() == old(self).spec_next_key(),
            r == Ok::<(), StoreError>(()) <==> contains_key(old(self)@, key),
            contains_key(old(self)@, key) ==> final(self)@ == old(self)@.remove(
                index_of_key(old(self)@, key),
            ),
            !contains_key(old(self)@, key) ==> r == Err::<(), StoreError>(StoreError::NotFound)
                && final(self)@ == old(self)@,
    {
        match self.find_index(key) {
            Some(i) => {
                proof {
                    lemma_index_of_key_unique(self@, key, i as int);
                    old(self)@.remove_ensures(i as int);
                }
                self.entries.remove(i);
                Ok(())
            },
            None => Err(StoreError::NotFound),
        }
    }

    /// The key the next `append` will issue. A caller that seeds new values
    /// from the key about to be assigned reads it here.
    pub fn next_key(&self) -> (k: u64)
        ensures
            k == self.spec_next_key(),
    {
        self.next_key
    }

    /// A point-in-time copy of the current contents, in order. The copy does
    /// not alias the store: later mutations leave it untouched.
    pub fn snapshot(&self) -> (v: Vec<Entry>)
        ensures
            v@ == self@,
    {
        let v = self.entries.clone();
        proof {
            assert(v@ =~= self.entries@);
        }
        v
    }
}

} // verus!
