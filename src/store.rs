//! A key-value store in native memory with the host store's surface.
use vstd::prelude::*;

use crate::storage::LocalStorageIterator;

verus! {

/// One stored pair: key, then value.
pub type Entry = (Seq<char>, Seq<char>);

pub open spec fn has_key(s: Seq<Entry>, k: Seq<char>) -> bool {
    exists|i: int| 0 <= i < s.len() && #[trigger] s[i].0 == k
}

pub open spec fn key_index(s: Seq<Entry>, k: Seq<char>) -> int {
    choose|i: int| 0 <= i < s.len() && #[trigger] s[i].0 == k
}

/// No key is stored twice.
pub open spec fn keys_unique(s: Seq<Entry>) -> bool {
    forall|i: int, j: int| 0 <= i < j < s.len() ==> #[trigger] s[i].0 != #[trigger] s[j].0
}

pub open spec fn keys_of(s: Seq<Entry>) -> Seq<Seq<char>> {
    s.map_values(|e: Entry| e.0)
}

/// The value stored under `k`, if any.
pub open spec fn spec_get(s: Seq<Entry>, k: Seq<char>) -> Option<Seq<char>> {
    if has_key(s, k) {
        Some(s[key_index(s, k)].1)
    } else {
        None
    }
}

/// Storing `v` under `k`: a present key keeps its place, a new one goes last.
pub open spec fn spec_set(s: Seq<Entry>, k: Seq<char>, v: Seq<char>) -> Seq<Entry> {
    if has_key(s, k) {
        s.update(key_index(s, k), (k, v))
    } else {
        s.push((k, v))
    }
}

/// Removing `k`, keeping the order of the other pairs.
pub open spec fn spec_remove(s: Seq<Entry>, k: Seq<char>) -> Seq<Entry> {
    if has_key(s, k) {
        s.remove(key_index(s, k))
    } else {
        s
    }
}

/// A key-value store held in native memory, with the surface and order of
/// the host's store: pairs in the order their keys were first stored.
pub struct KeyValueStore {
    entries: Vec<(String, String)>,
}

impl View for KeyValueStore {
    type V = Seq<Entry>;

    closed spec fn view(&self) -> Seq<Entry> {
        self.entries@.map_values(|e: (String, String)| (e.0@, e.1@))
    }
}

proof fn lemma_key_index(s: Seq<Entry>, k: Seq<char>, i: int)
    requires
        keys_unique(s),
        0 <= i < s.len(),
        s[i].0 == k,
    ensures
        has_key(s, k),
        key_index(s, k) == i,
{
    assert(has_key(s, k));
    let j = key_index(s, k);
    if j < i {
        assert(s[j].0 != s[i].0);
    } else if i < j {
        assert(s[i].0 != s[j].0);
    }
}

proof fn lemma_set_unique(s: Seq<Entry>, k: Seq<char>, v: Seq<char>)
    requires
        keys_unique(s),
    ensures
        keys_unique(spec_set(s, k, v)),
        has_key(spec_set(s, k, v), k),
{
    let t = spec_set(s, k, v);
    if has_key(s, k) {
        let j = key_index(s, k);
        assert forall|a: int, b: int| 0 <= a < b < t.len() implies #[trigger] t[a].0
            != #[trigger] t[b].0 by {
            assert(t[a].0 == s[a].0 && t[b].0 == s[b].0);
        };
        assert(t[j].0 == k);
    } else {
        assert forall|a: int, b: int| 0 <= a < b < t.len() implies #[trigger] t[a].0
            != #[trigger] t[b].0 by {
            if b == s.len() {
                assert(t[a].0 == s[a].0);
            } else {
                assert(t[a].0 == s[a].0 && t[b].0 == s[b].0);
            }
        };
        assert(t[s.len() as int].0 == k);
    }
}

proof fn lemma_remove_unique(s: Seq<Entry>, k: Seq<char>)
    requires
        keys_unique(s),
    ensures
        keys_unique(spec_remove(s, k)),
        !has_key(spec_remove(s, k), k),
{
    let t = spec_remove(s, k);
    if has_key(s, k) {
        let j = key_index(s, k);
        assert forall|a: int, b: int| 0 <= a < b < t.len() implies #[trigger] t[a].0
            != #[trigger] t[b].0 by {
            let a2 = if a < j {
                a
            } else {
                a + 1
            };
            let b2 = if b < j {
                b
            } else {
                b + 1
            };
            assert(t[a] == s[a2] && t[b] == s[b2]);
            assert(s[a2].0 != s[b2].0);
        };
        if has_key(t, k) {
            let a = choose|a: int| 0 <= a < t.len() && #[trigger] t[a].0 == k;
            let a2 = if a < j {
                a
            } else {
                a + 1
            };
            assert(t[a] == s[a2]);
            if a2 < j {
                assert(s[a2].0 != s[j].0);
            } else {
                assert(s[j].0 != s[a2].0);
            }
        }
    }
}

/// Reading a key right after storing a value under it gives that value.
pub proof fn lemma_get_after_set(s: Seq<Entry>, k: Seq<char>, v: Seq<char>)
    requires
        keys_unique(s),
    ensures
        spec_get(spec_set(s, k, v), k) == Some(v),
{
    lemma_set_unique(s, k, v);
    let t = spec_set(s, k, v);
    if has_key(s, k) {
        lemma_key_index(t, k, key_index(s, k));
    } else {
        lemma_key_index(t, k, s.len() as int);
    }
}

/// Reading a key right after removing it gives nothing.
pub proof fn lemma_get_after_remove(s: Seq<Entry>, k: Seq<char>)
    requires
        keys_unique(s),
    ensures
        spec_get(spec_remove(s, k), k) is None,
{
    lemma_remove_unique(s, k);
}

/// Walking a store that nobody changes meanwhile meets each of its keys,
/// once: the walk reads the keys in order, and no key is stored twice.
pub proof fn lemma_walk_meets_each_key_once(s: Seq<Entry>, k: Seq<char>)
    requires
        keys_unique(s),
    ensures
        keys_of(s).no_duplicates(),
        keys_of(s).contains(k) <==> spec_get(s, k) is Some,
{
    let ks = keys_of(s);
    assert forall|i: int, j: int| 0 <= i < ks.len() && 0 <= j < ks.len() && i != j implies ks[i]
        != ks[j] by {
        if i < j {
            assert(s[i].0 != s[j].0);
        } else {
            assert(s[j].0 != s[i].0);
        }
    };
    if ks.contains(k) {
        let i = choose|i: int| 0 <= i < ks.len() && ks[i] == k;
        assert(s[i].0 == k);
    }
    if has_key(s, k) {
        let i = key_index(s, k);
        assert(ks[i] == k);
    }
}

impl KeyValueStore {
    #[verifier::type_invariant]
    spec fn wf(&self) -> bool {
        keys_unique(self@)
    }

    pub fn new() -> (r: KeyValueStore)
        ensures
            r@ == Seq::<Entry>::empty(),
    {
        let r = KeyValueStore { entries: Vec::new() };
        assert(r@ =~= Seq::<Entry>::empty());
        r
    }

    /// The number of keys.
    pub fn len(&self) -> (r: usize)
        ensures
            r == self@.len(),
            keys_unique(self@),
    {
        proof {
            use_type_invariant(self);
        }
        self.entries.len()
    }

    fn find(&self, k: &String) -> (r: Option<usize>)
        ensures
            r is None <==> !has_key(self@, k@),
            r matches Some(i) ==> i < self@.len() && i == key_index(self@, k@),
    {
        proof {
            use_type_invariant(self);
        }
        let mut i: usize = 0;
        while i < self.entries.len()
            invariant
                keys_unique(self@),
                i <= self@.len(),
                forall|j: int| 0 <= j < i ==> #[trigger] self@[j].0 != k@,
            decreases self@.len() - i,
        {
            assert(self@[i as int].0 == self.entries@[i as int].0@);
            if self.entries[i].0 == *k {
                proof {
                    lemma_key_index(self@, k@, i as int);
                }
                return Some(i);
            }
            i = i + 1;
        }
        None
    }

    /// The value stored under `k`, if any.
    pub fn get(&self, k: &str) -> (r: Option<String>)
        ensures
            r is None <==> spec_get(self@, k@) is None,
            r matches Some(v) ==> spec_get(self@, k@) == Some(v@),
    {
        let key = k.to_owned();
        match self.find(&key) {
            Some(i) => {
                assert(self@[i as int].1 == self.entries@[i as int].1@);
                Some(self.entries[i].1.clone())
            },
            None => None,
        }
    }

    /// Stores `v` under `k`, in place of any earlier value.
    pub fn set(&mut self, k: &str, v: &str)
        ensures
            keys_unique(final(self)@),
            final(self)@ == spec_set(old(self)@, k@, v@),
    {
        let key = k.to_owned();
        let value = v.to_owned();
        proof {
            use_type_invariant(&*self);
            lemma_set_unique(self@, k@, v@);
        }
        let found = self.find(&key);
        let mut entries: Vec<(String, String)> = Vec::new();
        std::mem::swap(&mut self.entries, &mut entries);
        match found {
            Some(i) => {
                entries.set(i, (key, value));
            },
            None => {
                entries.push((key, value));
            },
        }
        assert(entries@.map_values(|e: (String, String)| (e.0@, e.1@)) =~= spec_set(
            old(self)@,
            k@,
            v@,
        ));
        self.entries = entries;
    }

    /// Removes `k` and its value; the other pairs keep their order.
    pub fn remove(&mut self, k: &str)
        ensures
            keys_unique(final(self)@),
            final(self)@ == spec_remove(old(self)@, k@),
    {
        let key = k.to_owned();
        proof {
            use_type_invariant(&*self);
            lemma_remove_unique(self@, k@);
        }
        if let Some(i) = self.find(&key) {
            let mut entries: Vec<(String, String)> = Vec::new();
            std::mem::swap(&mut self.entries, &mut entries);
            entries.remove(i);
            assert(entries@.map_values(|e: (String, String)| (e.0@, e.1@)) =~= spec_remove(
                old(self)@,
                k@,
            ));
            self.entries = entries;
        }
        assert(self@ =~= spec_remove(old(self)@, k@));
    }

    /// Removes every pair.
    pub fn clear(&mut self)
        ensures
            final(self)@ == Seq::<Entry>::empty(),
    {
        self.entries = Vec::new();
        assert(self@ =~= Seq::<Entry>::empty());
    }

    /// The key at `index`.
    pub fn key(&self, index: usize) -> (r: String)
        requires
            index < self@.len(),
        ensures
            r@ == self@[index as int].0,
    {
        self.entries[index].0.clone()
    }

    /// The keys met by a walk with `LocalStorageIterator`, which reads the
    /// length and the key at the walk's index at each step.
    pub fn keys(&self) -> (r: Vec<String>)
        requires
            self@.len() <= i32::MAX,
        ensures
            r@.map_values(|s: String| s@) == keys_of(self@),
    {
        let mut it = LocalStorageIterator::new();
        let mut out: Vec<String> = Vec::new();
        loop
            invariant
                self@.len() <= i32::MAX,
                0 <= it.spec_index() <= self@.len(),
                out@.len() == it.spec_index(),
                forall|j: int| 0 <= j < out@.len() ==> (#[trigger] out@[j])@ == self@[j].0,
            ensures
                out@.len() == self@.len(),
                forall|j: int| 0 <= j < out@.len() ==> (#[trigger] out@[j])@ == self@[j].0,
            decreases self@.len() - it.spec_index(),
        {
            match it.next_index(self.entries.len() as i32) {
                None => break,
                Some(i) => {
                    out.push(self.key(i as usize));
                },
            }
        }
        assert(out@.map_values(|s: String| s@) =~= keys_of(self@));
        out
    }
}

} // verus!
