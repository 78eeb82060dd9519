//! The keyed collection of a wallet's proofs: at most one proof per key.

use vstd::prelude::*;
use crate::zero_proof::ZeroProof;

verus! {

/// A mapping from string keys to proofs. It is kept as a list of entries in
/// which no key occurs twice; the order of the list is not part of what the
/// mapping means.
#[derive(Debug)]
pub struct ProofMap {
    entries: Vec<(String, ZeroProof)>,
}

/// The keys of a list of entries, in the order of the list.
spec fn keys_of(entries: Seq<(String, ZeroProof)>) -> Seq<Seq<char>> {
    entries.map_values(|e: (String, ZeroProof)| e.0@)
}

/// The mapping that a list of entries stands for.
spec fn map_of(entries: Seq<(String, ZeroProof)>) -> Map<Seq<char>, ZeroProof> {
    Map::new(
        |k: Seq<char>| keys_of(entries).contains(k),
        |k: Seq<char>| entries[keys_of(entries).index_of(k)].1,
    )
}

/// In a list with distinct keys, the entry at `i` is what the mapping holds
/// for that entry's key.
proof fn lemma_entry_is_mapped(entries: Seq<(String, ZeroProof)>, i: int)
    requires
        keys_of(entries).no_duplicates(),
        0 <= i < entries.len(),
    ensures
        map_of(entries).contains_key(entries[i].0@),
        map_of(entries)[entries[i].0@] == entries[i].1,
{
    let keys = keys_of(entries);
    assert(keys[i] == entries[i].0@);
    let j = keys.index_of(entries[i].0@);
    assert(0 <= j < keys.len() && keys[j] == keys[i]);
}

/// A key that the mapping holds is the key of some entry.
proof fn lemma_mapped_is_entry(entries: Seq<(String, ZeroProof)>, k: Seq<char>) -> (i: int)
    requires
        map_of(entries).contains_key(k),
    ensures
        0 <= i < entries.len(),
        entries[i].0@ == k,
{
    let keys = keys_of(entries);
    let i = keys.index_of(k);
    assert(keys[i] == entries[i].0@);
    i
}

/// Appending an entry with a fresh key inserts it into the mapping.
proof fn lemma_push_inserts(entries: Seq<(String, ZeroProof)>, e: (String, ZeroProof))
    requires
        keys_of(entries).no_duplicates(),
        !keys_of(entries).contains(e.0@),
    ensures
        keys_of(entries.push(e)).no_duplicates(),
        map_of(entries.push(e)) == map_of(entries).insert(e.0@, e.1),
{
    let after = entries.push(e);
    assert(keys_of(after) =~= keys_of(entries).push(e.0@));
    assert forall|i: int, j: int|
        0 <= i < keys_of(after).len() && 0 <= j < keys_of(after).len() && i != j implies keys_of(
        after,
    )[i] != keys_of(after)[j] by {
        if i < entries.len() && j < entries.len() {
            assert(keys_of(entries)[i] != keys_of(entries)[j]);
        } else if i < entries.len() {
            assert(keys_of(entries)[i] == keys_of(after)[i]);
        } else {
            assert(keys_of(entries)[j] == keys_of(after)[j]);
        }
    }
    let want = map_of(entries).insert(e.0@, e.1);
    assert forall|k: Seq<char>| map_of(after).contains_key(k) <==> want.contains_key(k) by {
        if map_of(after).contains_key(k) {
            let i = lemma_mapped_is_entry(after, k);
            if i < entries.len() {
                lemma_entry_is_mapped(entries, i);
            }
        }
        if want.contains_key(k) {
            if k == e.0@ {
                lemma_entry_is_mapped(after, entries.len() as int);
            } else {
                let i = lemma_mapped_is_entry(entries, k);
                lemma_entry_is_mapped(after, i);
            }
        }
    }
    assert forall|k: Seq<char>| map_of(after).contains_key(k) implies map_of(after)[k] == want[k] by {
        let i = lemma_mapped_is_entry(after, k);
        lemma_entry_is_mapped(after, i);
        if i < entries.len() {
            lemma_entry_is_mapped(entries, i);
        }
    }
    assert(map_of(after) =~= want);
}

/// Replacing an entry by one with the same key overwrites that key in the mapping.
proof fn lemma_update_overwrites(
    entries: Seq<(String, ZeroProof)>,
    at: int,
    e: (String, ZeroProof),
)
    requires
        keys_of(entries).no_duplicates(),
        0 <= at < entries.len(),
        entries[at].0@ == e.0@,
    ensures
        keys_of(entries.update(at, e)).no_duplicates(),
        map_of(entries.update(at, e)) == map_of(entries).insert(e.0@, e.1),
{
    let after = entries.update(at, e);
    assert(keys_of(after) =~= keys_of(entries));
    let want = map_of(entries).insert(e.0@, e.1);
    lemma_entry_is_mapped(entries, at);
    assert forall|k: Seq<char>| map_of(after).contains_key(k) implies map_of(after)[k] == want[k] by {
        let i = lemma_mapped_is_entry(after, k);
        lemma_entry_is_mapped(after, i);
        if i != at {
            assert(after[i] == entries[i]);
            assert(keys_of(entries)[i] == k && keys_of(entries)[at] == e.0@);
            lemma_entry_is_mapped(entries, i);
        }
    }
    assert(map_of(after) =~= want);
}

/// Taking an entry out of the list removes its key from the mapping.
proof fn lemma_remove_removes(entries: Seq<(String, ZeroProof)>, at: int)
    requires
        keys_of(entries).no_duplicates(),
        0 <= at < entries.len(),
    ensures
        keys_of(entries.remove(at)).no_duplicates(),
        map_of(entries.remove(at)) == map_of(entries).remove(entries[at].0@),
{
    let after = entries.remove(at);
    let keys = keys_of(entries);
    assert(keys_of(after) =~= keys.remove(at));
    assert forall|i: int, j: int|
        0 <= i < keys_of(after).len() && 0 <= j < keys_of(after).len() && i != j implies keys_of(
        after,
    )[i] != keys_of(after)[j] by {
        let si = if i < at { i } else { i + 1 };
        let sj = if j < at { j } else { j + 1 };
        assert(keys_of(after)[i] == keys[si]);
        assert(keys_of(after)[j] == keys[sj]);
    }
    let want = map_of(entries).remove(entries[at].0@);
    assert forall|k: Seq<char>| map_of(after).contains_key(k) <==> want.contains_key(k) by {
        if map_of(after).contains_key(k) {
            let i = lemma_mapped_is_entry(after, k);
            let si = if i < at { i } else { i + 1 };
            assert(after[i] == entries[si]);
            assert(keys[si] == k);
            assert(keys[at] == entries[at].0@);
            lemma_entry_is_mapped(entries, si);
        }
        if want.contains_key(k) {
            let i = lemma_mapped_is_entry(entries, k);
            assert(i != at);
            let ti = if i < at { i } else { i - 1 };
            assert(after[ti] == entries[i]);
            lemma_entry_is_mapped(after, ti);
        }
    }
    assert forall|k: Seq<char>| map_of(after).contains_key(k) implies map_of(after)[k] == want[k] by {
        let i = lemma_mapped_is_entry(after, k);
        lemma_entry_is_mapped(after, i);
        let si = if i < at { i } else { i + 1 };
        assert(after[i] == entries[si]);
        assert(keys[si] == k && keys[at] == entries[at].0@);
        lemma_entry_is_mapped(entries, si);
    }
    assert(map_of(after) =~= want);
}

/// The keys of a list with distinct keys are exactly the mapping's domain,
/// and there are as many of them as the mapping has entries.
proof fn lemma_keys_are_domain(entries: Seq<(String, ZeroProof)>)
    requires
        keys_of(entries).no_duplicates(),
    ensures
        keys_of(entries).to_set() == map_of(entries).dom(),
        map_of(entries).dom().finite(),
        map_of(entries).len() == entries.len(),
{
    let keys = keys_of(entries);
    assert(keys.to_set() =~= map_of(entries).dom());
    keys.unique_seq_to_set();
    vstd::seq_lib::seq_to_set_is_finite(keys);
}

impl View for ProofMap {
    type V = Map<Seq<char>, ZeroProof>;

    closed spec fn view(&self) -> Map<Seq<char>, ZeroProof> {
        map_of(self.entries@)
    }
}

impl ProofMap {
    /// No key occurs twice in the list of entries.
    #[verifier::type_invariant]
    spec fn distinct_keys(&self) -> bool {
        keys_of(self.entries@).no_duplicates()
    }

    /// The keys of the mapping, each once, in the order in which `keys`,
    /// `values` and `into_entries` walk them. The order carries no meaning.
    pub closed spec fn key_order(&self) -> Seq<Seq<char>> {
        keys_of(self.entries@)
    }

    /// An empty mapping.
    pub fn new() -> (m: ProofMap)
        ensures
            m@ == Map::<Seq<char>, ZeroProof>::empty(),
    {
        let m = ProofMap { entries: Vec::new() };
        assert(m@ =~= Map::<Seq<char>, ZeroProof>::empty());
        m
    }

    /// The number of proofs held.
    pub fn len(&self) -> (n: usize)
        ensures
            self@.dom().finite(),
            n == self@.len(),
    {
        proof {
            use_type_invariant(self);
            lemma_keys_are_domain(self.entries@);
        }
        self.entries.len()
    }

    /// Tells whether no proof is held.
    pub fn is_empty(&self) -> (r: bool)
        ensures
            r == (self@ == Map::<Seq<char>, ZeroProof>::empty()),
    {
        proof {
            use_type_invariant(self);
            lemma_keys_are_domain(self.entries@);
            if self.entries@.len() == 0 {
                assert(self@ =~= Map::<Seq<char>, ZeroProof>::empty());
            }
        }
        self.entries.len() == 0
    }

    /// The place of `key` in the list, if it is there.
    fn position(&self, key: &String) -> (r: Option<usize>)
        ensures
            match r {
                Some(i) => i < self.entries@.len() && self.entries@[i as int].0@ == key@,
                None => !keys_of(self.entries@).contains(key@),
            },
    {
        let mut i: usize = 0;
        while i < self.entries.len()
            invariant
                i <= self.entries@.len(),
                forall|j: int| 0 <= j < i ==> keys_of(self.entries@)[j] != key@,
            decreases self.entries@.len() - i,
        {
            if self.entries[i].0 == *key {
                return Some(i);
            }
            i += 1;
        }
        None
    }

    /// Files `proof` under `key`. A proof already filed under that key is replaced.
    pub fn insert(&mut self, key: String, proof: ZeroProof)
        ensures
            final(self)@ == old(self)@.insert(key@, proof),
    {
        proof {
            use_type_invariant(&*self);
        }
        let at = self.position(&key);
        let mut entries = self.take_entries();
        match at {
            Some(i) => {
                proof {
                    lemma_update_overwrites(entries@, i as int, (key, proof));
                }
                entries[i] = (key, proof);
            },
            None => {
                proof {
                    lemma_push_inserts(entries@, (key, proof));
                }
                entries.push((key, proof));
            },
        }
        self.entries = entries;
    }

    /// Takes out the proof filed under `key` and returns it, if there is one.
    pub fn remove(&mut self, key: &str) -> (r: Option<ZeroProof>)
        ensures
            final(self)@ == old(self)@.remove(key@),
            match r {
                Some(p) => old(self)@.contains_key(key@) && p == old(self)@[key@],
                None => !old(self)@.contains_key(key@),
            },
    {
        proof {
            use_type_invariant(&*self);
        }
        let owned = key.to_owned();
        match self.position(&owned) {
            Some(i) => {
                let mut entries = self.take_entries();
                proof {
                    lemma_remove_removes(entries@, i as int);
                    lemma_entry_is_mapped(entries@, i as int);
                }
                let entry = entries.remove(i);
                self.entries = entries;
                Some(entry.1)
            },
            None => {
                assert(old(self)@.remove(key@) =~= old(self)@);
                None
            },
        }
    }

    /// The proof filed under `key`, if there is one.
    pub fn get(&self, key: &str) -> (r: Option<&ZeroProof>)
        ensures
            match r {
                Some(p) => self@.contains_key(key@) && *p == self@[key@],
                None => !self@.contains_key(key@),
            },
    {
        proof {
            use_type_invariant(self);
        }
        let owned = key.to_owned();
        match self.position(&owned) {
            Some(i) => {
                proof {
                    lemma_entry_is_mapped(self.entries@, i as int);
                }
                Some(&self.entries[i].1)
            },
            None => None,
        }
    }

    /// Every key held, each once.
    pub fn keys(&self) -> (out: Vec<&String>)
        ensures
            self.key_order().no_duplicates(),
            self.key_order().to_set() == self@.dom(),
            out@.len() == self.key_order().len(),
            forall|i: int| 0 <= i < out@.len() ==> (#[trigger] out@[i])@ == self.key_order()[i],
    {
        proof {
            use_type_invariant(self);
            lemma_keys_are_domain(self.entries@);
        }
        let mut out: Vec<&String> = Vec::new();
        let mut i: usize = 0;
        while i < self.entries.len()
            invariant
                i <= self.entries@.len(),
                out@.len() == i,
                forall|j: int| 0 <= j < i ==> (#[trigger] out@[j])@ == self.entries@[j].0@,
            decreases self.entries@.len() - i,
        {
            out.push(&self.entries[i].0);
            i += 1;
        }
        out
    }

    /// Every proof held, one per key, in the order of `keys`.
    pub fn values(&self) -> (out: Vec<&ZeroProof>)
        ensures
            self.key_order().no_duplicates(),
            self.key_order().to_set() == self@.dom(),
            out@.len() == self.key_order().len(),
            forall|i: int| 0 <= i < out@.len() ==> *out@[i] == self@[#[trigger] self.key_order()[i]],
    {
        proof {
            use_type_invariant(self);
            lemma_keys_are_domain(self.entries@);
        }
        let mut out: Vec<&ZeroProof> = Vec::new();
        let mut i: usize = 0;
        while i < self.entries.len()
            invariant
                i <= self.entries@.len(),
                out@.len() == i,
                keys_of(self.entries@).no_duplicates(),
                forall|j: int| 0 <= j < i ==> *out@[j] == self.entries@[j].1,
            decreases self.entries@.len() - i,
        {
            out.push(&self.entries[i].1);
            i += 1;
        }
        proof {
            assert forall|j: int| 0 <= j < out@.len() implies *out@[j] == self@[#[trigger] self.key_order()[j]] by {
                lemma_entry_is_mapped(self.entries@, j);
            }
        }
        out
    }

    /// Files every proof of `other` under its key. Where a key is held by
    /// both, the proof of `other` replaces the one held before.
    pub fn extend(&mut self, other: ProofMap)
        ensures
            final(self)@ == old(self)@.union_prefer_right(other@),
    {
        proof {
            use_type_invariant(&other);
        }
        let ghost target = self@.union_prefer_right(other@);
        let mut rest = other.entries;
        assert(self@.union_prefer_right(map_of(rest@)) == target);
        while rest.len() > 0
            invariant
                keys_of(rest@).no_duplicates(),
                self@.union_prefer_right(map_of(rest@)) == target,
            decreases rest@.len(),
        {
            let ghost before = rest@;
            let ghost held = self@;
            let entry = rest.pop().unwrap();
            proof {
                assert(before =~= rest@.push(entry));
                assert(keys_of(rest@) =~= keys_of(before).drop_last());
                assert forall|i: int| 0 <= i < rest@.len() implies keys_of(rest@)[i] != entry.0@ by {
                    assert(keys_of(before)[i] != keys_of(before)[before.len() - 1]);
                }
                lemma_push_inserts(rest@, entry);
                assert(held.insert(entry.0@, entry.1).union_prefer_right(map_of(rest@))
                    =~= held.union_prefer_right(map_of(before)));
            }
            self.insert(entry.0, entry.1);
        }
        assert(self@.union_prefer_right(map_of(rest@)) =~= self@);
    }

    /// Gives up the mapping as a list of its entries, one per key, in the
    /// order of `keys`.
    pub fn into_entries(self) -> (out: Vec<(String, ZeroProof)>)
        ensures
            self.key_order().no_duplicates(),
            self.key_order().to_set() == self@.dom(),
            out@.len() == self.key_order().len(),
            forall|i: int|
                0 <= i < out@.len() ==> (#[trigger] out@[i]).0@ == self.key_order()[i] && out@[i].1
                    == self@[self.key_order()[i]],
    {
        proof {
            use_type_invariant(&self);
            lemma_keys_are_domain(self.entries@);
            assert forall|i: int| 0 <= i < self.entries@.len() implies (#[trigger] self.entries@[i]).0@
                == self.key_order()[i] && self.entries@[i].1 == self@[self.key_order()[i]] by {
                lemma_entry_is_mapped(self.entries@, i);
            }
        }
        self.entries
    }

    /// Empties the mapping.
    pub fn clear(&mut self)
        ensures
            final(self)@ == Map::<Seq<char>, ZeroProof>::empty(),
    {
        self.entries = Vec::new();
        assert(self@ =~= Map::<Seq<char>, ZeroProof>::empty());
    }

    /// Moves the list of entries out and leaves an empty list behind.
    fn take_entries(&mut self) -> (entries: Vec<(String, ZeroProof)>)
        ensures
            entries@ == old(self).entries@,
            final(self).entries@.len() == 0,
    {
        let mut entries: Vec<(String, ZeroProof)> = Vec::new();
        core::mem::swap(&mut self.entries, &mut entries);
        entries
    }
}

} // verus!
