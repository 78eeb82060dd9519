//! The operations of a wallet: first-fit placement of assets, keyed filing of
//! proofs, and the layered validity checks.

use vstd::prelude::*;
use crate::nft::Nft;
use crate::proof_map::ProofMap;
use crate::zero_id::ZeroId;
use crate::zero_proof::ZeroProof;
use crate::zero_wallet::{
    all_vacant, first_owned, is_owned_by, is_vacant, lemma_first_index_is, lemma_placed, listed,
    occupied, placed, released, valid_nft, valid_nfts, valid_proofs, ZeroWallet, MAX_NFTS,
};

verus! {

/// An empty slot, whatever its index.
fn vacant(index: usize) -> (slot: Option<Nft>)
    ensures
        slot is None,
{
    None
}

/// `array_init::array_init`: the array whose element at each index is what
/// the initializer returns for that index. The initializer here returns an
/// empty slot for every index, so every slot of the array is empty.
#[verifier::external_body]
fn vacant_slots() -> (slots: [Option<Nft>; MAX_NFTS])
    ensures
        all_vacant(slots@),
{
    array_init::array_init(|index: usize| vacant(index))
}

impl ZeroWallet {
    /// A fresh wallet: the all-zero identity, no proofs, every slot empty.
    pub fn new() -> (wallet: ZeroWallet)
        ensures
            wallet.is_cleared(),
    {
        ZeroWallet { id: ZeroId::new(), proofs: ProofMap::new(), nfts: vacant_slots() }
    }

    /// Files every proof of `proofs` under its key. Where a key is held by
    /// both, the proof of `proofs` replaces the one held before.
    pub fn add_proofs(&mut self, proofs: ProofMap)
        ensures
            final(self).proofs@ == old(self).proofs@.union_prefer_right(proofs@),
            final(self).id == old(self).id,
            final(self).nfts == old(self).nfts,
    {
        self.proofs.extend(proofs);
    }

    /// Files `proof` under the decimal writing of its timestamp. A proof
    /// already filed under that key is replaced.
    pub fn add_proof(&mut self, proof: ZeroProof)
        ensures
            final(self).proofs@ == old(self).proofs@.insert(proof.key_spec(), proof),
            final(self).id == old(self).id,
            final(self).nfts == old(self).nfts,
    {
        let key = proof.key();
        self.proofs.insert(key, proof);
    }

    /// Takes out the proof filed under `proof_id`; does nothing if there is none.
    pub fn remove_proof(&mut self, proof_id: &str)
        ensures
            final(self).proofs@ == old(self).proofs@.remove(proof_id@),
            final(self).id == old(self).id,
            final(self).nfts == old(self).nfts,
    {
        let _ = self.proofs.remove(proof_id);
    }

    /// Puts `nft` into the first empty slot. A full wallet is left as it is
    /// and the asset is dropped: test `is_full` first to know which happens.
    pub fn add_nft(&mut self, nft: Nft)
        ensures
            final(self).nfts@ == placed(old(self).nfts@, nft),
            old(self).is_full_spec() ==> *final(self) == *old(self),
            !old(self).is_full_spec() ==> occupied(final(self).nfts@) == occupied(old(self).nfts@) + 1,
            occupied(final(self).nfts@) <= MAX_NFTS,
            final(self).id == old(self).id,
            final(self).proofs == old(self).proofs,
    {
        let ghost hit = |slot: Option<Nft>| is_vacant(slot);
        let mut i: usize = 0;
        while i < MAX_NFTS
            invariant
                i <= MAX_NFTS,
                *self == *old(self),
                hit == (|slot: Option<Nft>| is_vacant(slot)),
                forall|j: int| 0 <= j < i ==> !hit(#[trigger] self.nfts@[j]),
            decreases MAX_NFTS - i,
        {
            if self.nfts[i].is_none() {
                proof {
                    lemma_first_index_is(self.nfts@, hit, i as int);
                    lemma_placed(self.nfts@, nft);
                }
                self.nfts[i] = Some(nft);
                return;
            }
            i += 1;
        }
        proof {
            lemma_first_index_is(self.nfts@, hit, MAX_NFTS as int);
            lemma_placed(self.nfts@, nft);
        }
    }

    /// Empties the first slot that holds an asset of `owner`; does nothing if
    /// `owner` has none. Further assets of the same owner stay.
    pub fn remove_nft(&mut self, owner: &ZeroId)
        ensures
            final(self).nfts@ == released(old(self).nfts@, owner@),
            final(self).id == old(self).id,
            final(self).proofs == old(self).proofs,
    {
        let ghost hit = |slot: Option<Nft>| is_owned_by(slot, owner@);
        let mut i: usize = 0;
        while i < MAX_NFTS
            invariant
                i <= MAX_NFTS,
                *self == *old(self),
                hit == (|slot: Option<Nft>| is_owned_by(slot, owner@)),
                forall|j: int| 0 <= j < i ==> !hit(#[trigger] self.nfts@[j]),
            decreases MAX_NFTS - i,
        {
            let found = match &self.nfts[i] {
                Some(nft) => nft.zero_id == *owner,
                None => false,
            };
            if found {
                proof {
                    lemma_first_index_is(self.nfts@, hit, i as int);
                }
                self.nfts[i] = None;
                return;
            }
            i += 1;
        }
        proof {
            lemma_first_index_is(self.nfts@, hit, MAX_NFTS as int);
        }
    }

    /// The proof filed under `proof_id`, if there is one.
    pub fn get_proof(&self, proof_id: &str) -> (r: Option<&ZeroProof>)
        ensures
            match r {
                Some(p) => self.proofs@.contains_key(proof_id@) && *p == self.proofs@[proof_id@],
                None => !self.proofs@.contains_key(proof_id@),
            },
    {
        self.proofs.get(proof_id)
    }

    /// The asset in the first slot that holds one of `owner`, if there is one.
    pub fn get_nft(&self, owner: &ZeroId) -> (r: Option<&Nft>)
        ensures
            match r {
                Some(nft) => first_owned(self.nfts@, owner@) < MAX_NFTS && self.nfts@[first_owned(
                    self.nfts@,
                    owner@,
                )] == Some(*nft),
                None => first_owned(self.nfts@, owner@) == MAX_NFTS,
            },
    {
        let ghost hit = |slot: Option<Nft>| is_owned_by(slot, owner@);
        let mut i: usize = 0;
        while i < MAX_NFTS
            invariant
                i <= MAX_NFTS,
                hit == (|slot: Option<Nft>| is_owned_by(slot, owner@)),
                forall|j: int| 0 <= j < i ==> !hit(#[trigger] self.nfts@[j]),
            decreases MAX_NFTS - i,
        {
            match &self.nfts[i] {
                Some(nft) => {
                    if nft.zero_id == *owner {
                        proof {
                            lemma_first_index_is(self.nfts@, hit, i as int);
                        }
                        return Some(nft);
                    }
                },
                None => {},
            }
            i += 1;
        }
        proof {
            lemma_first_index_is(self.nfts@, hit, MAX_NFTS as int);
        }
        None
    }

    /// Every proof held, one per key, in no order that means anything.
    pub fn list_proofs(&self) -> (out: Vec<&ZeroProof>)
        ensures
            out@.len() == self.proofs@.len(),
            self.proofs.key_order().no_duplicates(),
            self.proofs.key_order().to_set() == self.proofs@.dom(),
            out@.len() == self.proofs.key_order().len(),
            forall|i: int|
                0 <= i < out@.len() ==> *out@[i] == self.proofs@[#[trigger] self.proofs.key_order()[i]],
    {
        let out = self.proofs.values();
        proof {
            self.proofs.key_order().unique_seq_to_set();
        }
        out
    }

    /// The assets held, in slot order, empty slots left out.
    pub fn list_nfts(&self) -> (out: Vec<&Nft>)
        ensures
            out@.len() == listed(self.nfts@).len(),
            forall|i: int| 0 <= i < out@.len() ==> *out@[i] == listed(self.nfts@)[i],
    {
        let mut out: Vec<&Nft> = Vec::new();
        let mut i: usize = 0;
        while i < MAX_NFTS
            invariant
                i <= MAX_NFTS,
                out@.len() == listed(self.nfts@.take(i as int)).len(),
                forall|j: int|
                    0 <= j < out@.len() ==> *out@[j] == listed(self.nfts@.take(i as int))[j],
            decreases MAX_NFTS - i,
        {
            proof {
                self.nfts@.lemma_filter_map_take_succ(|slot: Option<Nft>| slot, i as int);
            }
            match &self.nfts[i] {
                Some(nft) => {
                    out.push(nft);
                },
                None => {},
            }
            i += 1;
        }
        assert(self.nfts@.take(MAX_NFTS as int) =~= self.nfts@);
        out
    }

    /// The identity of the wallet's owner.
    pub fn get_id(&self) -> (id: &ZeroId)
        ensures
            *id == self.id,
    {
        &self.id
    }

    /// Replaces the identity of the wallet's owner.
    pub fn set_id(&mut self, id: ZeroId)
        ensures
            final(self).id == id,
            final(self).proofs == old(self).proofs,
            final(self).nfts == old(self).nfts,
    {
        self.id = id;
    }

    /// The proofs of the wallet, by key.
    pub fn get_proofs(&self) -> (proofs: &ProofMap)
        ensures
            *proofs == self.proofs,
    {
        &self.proofs
    }

    /// The slots of the wallet.
    pub fn get_nfts(&self) -> (nfts: &[Option<Nft>; MAX_NFTS])
        ensures
            *nfts == self.nfts,
    {
        &self.nfts
    }

    /// Replaces the proofs of the wallet.
    pub fn set_proofs(&mut self, proofs: ProofMap)
        ensures
            final(self).proofs == proofs,
            final(self).id == old(self).id,
            final(self).nfts == old(self).nfts,
    {
        self.proofs = proofs;
    }

    /// Replaces the slots of the wallet.
    pub fn set_nfts(&mut self, nfts: [Option<Nft>; MAX_NFTS])
        ensures
            final(self).nfts == nfts,
            final(self).id == old(self).id,
            final(self).proofs == old(self).proofs,
    {
        self.nfts = nfts;
    }

    /// Takes out every proof.
    pub fn clear_proofs(&mut self)
        ensures
            final(self).proofs@ == Map::<Seq<char>, ZeroProof>::empty(),
            final(self).id == old(self).id,
            final(self).nfts == old(self).nfts,
    {
        self.proofs.clear();
    }

    /// Empties every slot.
    pub fn clear_nfts(&mut self)
        ensures
            all_vacant(final(self).nfts@),
            final(self).id == old(self).id,
            final(self).proofs == old(self).proofs,
    {
        let mut i: usize = 0;
        while i < MAX_NFTS
            invariant
                i <= MAX_NFTS,
                self.id == old(self).id,
                self.proofs == old(self).proofs,
                forall|j: int| 0 <= j < i ==> self.nfts@[j] is None,
            decreases MAX_NFTS - i,
        {
            self.nfts[i] = None;
            i += 1;
        }
    }

    /// Brings the wallet back to the state of a fresh one: no proofs, every
    /// slot empty, the all-zero identity.
    pub fn clear(&mut self)
        ensures
            final(self).is_cleared(),
    {
        self.clear_proofs();
        self.clear_nfts();
        self.id = ZeroId::new();
    }

    /// Tells whether the wallet holds neither a proof nor an asset.
    pub fn is_empty(&self) -> (r: bool)
        ensures
            r == self.is_empty_spec(),
    {
        if !self.proofs.is_empty() {
            return false;
        }
        let mut i: usize = 0;
        while i < MAX_NFTS
            invariant
                i <= MAX_NFTS,
                forall|j: int| 0 <= j < i ==> self.nfts@[j] is None,
            decreases MAX_NFTS - i,
        {
            if self.nfts[i].is_some() {
                return false;
            }
            i += 1;
        }
        true
    }

    /// Tells whether every slot holds an asset.
    pub fn is_full(&self) -> (r: bool)
        ensures
            r == self.is_full_spec(),
    {
        let mut i: usize = 0;
        while i < MAX_NFTS
            invariant
                i <= MAX_NFTS,
                forall|j: int| 0 <= j < i ==> self.nfts@[j] is Some,
            decreases MAX_NFTS - i,
        {
            if self.nfts[i].is_none() {
                return false;
            }
            i += 1;
        }
        true
    }

    /// Tells whether the wallet is valid: its identity is valid, every proof
    /// it holds has a positive timestamp, and every asset it holds has a
    /// valid owner identity.
    pub fn is_valid(&self) -> (r: bool)
        ensures
            r == self.is_valid_spec(),
            r == (self.id@.is_valid() && valid_proofs(self.proofs@) && valid_nfts(self.nfts@)),
    {
        self.is_valid_id(&self.id) && self.is_valid_proofs(&self.proofs) && self.is_valid_wallet()
    }

    /// Tells whether `proof` has a positive timestamp.
    pub fn is_valid_proof(&self, proof: &ZeroProof) -> (r: bool)
        ensures
            r == proof.is_valid_spec(),
    {
        proof.is_valid()
    }

    /// Tells whether the slot holds an asset whose owner identity is valid.
    pub fn is_valid_nft(&self, nft: &Option<Nft>) -> (r: bool)
        ensures
            r == valid_nft(*nft),
    {
        match nft {
            Some(nft) => nft.zero_id.is_valid(),
            None => false,
        }
    }

    /// Tells whether none of the three buffers of `id` is entirely zero-filled.
    pub fn is_valid_id(&self, id: &ZeroId) -> (r: bool)
        ensures
            r == id@.is_valid(),
    {
        id.is_valid()
    }

    /// Tells whether every proof of `proofs` has a positive timestamp.
    pub fn is_valid_proofs(&self, proofs: &ProofMap) -> (r: bool)
        ensures
            r == valid_proofs(proofs@),
    {
        let all = proofs.values();
        let mut i: usize = 0;
        while i < all.len()
            invariant
                i <= all@.len(),
                all@.len() == proofs.key_order().len(),
                proofs.key_order().to_set() == proofs@.dom(),
                forall|j: int| 0 <= j < all@.len() ==> *all@[j] == proofs@[#[trigger] proofs.key_order()[j]],
                forall|j: int| 0 <= j < i ==> (#[trigger] all@[j]).is_valid_spec(),
            decreases all@.len() - i,
        {
            if !self.is_valid_proof(all[i]) {
                proof {
                    let k = proofs.key_order()[i as int];
                    assert(proofs.key_order().to_set().contains(k));
                    assert(!proofs@[k].is_valid_spec());
                }
                return false;
            }
            i += 1;
        }
        proof {
            assert forall|k: Seq<char>| proofs@.contains_key(k) implies (#[trigger] proofs@[k]).is_valid_spec() by {
                assert(proofs.key_order().to_set().contains(k));
                let j = choose|j: int| 0 <= j < proofs.key_order().len() && proofs.key_order()[j] == k;
                assert(all@[j].is_valid_spec());
            }
        }
        true
    }

    /// Tells whether every occupied slot of `nfts` holds an asset whose owner
    /// identity is valid.
    pub fn is_valid_nfts(&self, nfts: &[Option<Nft>; MAX_NFTS]) -> (r: bool)
        ensures
            r == valid_nfts(nfts@),
    {
        let mut i: usize = 0;
        while i < MAX_NFTS
            invariant
                i <= MAX_NFTS,
                forall|j: int| 0 <= j < i && nfts@[j] is Some ==> valid_nft(#[trigger] nfts@[j]),
            decreases MAX_NFTS - i,
        {
            if nfts[i].is_some() && !self.is_valid_nft(&nfts[i]) {
                assert(!valid_nft(nfts@[i as int]));
                return false;
            }
            i += 1;
        }
        true
    }

    /// The wallet's own check of itself: identity, proofs and assets.
    pub fn is_valid_wallet(&self) -> (r: bool)
        ensures
            r == self.is_valid_spec(),
    {
        self.is_valid_wallet_id() && self.is_valid_wallet_proofs() && self.is_valid_wallet_nfts()
    }

    /// Tells whether the wallet's identity is valid.
    pub fn is_valid_wallet_id(&self) -> (r: bool)
        ensures
            r == self.id@.is_valid(),
    {
        self.is_valid_id(&self.id)
    }

    /// Tells whether every proof of the wallet has a positive timestamp.
    pub fn is_valid_wallet_proofs(&self) -> (r: bool)
        ensures
            r == valid_proofs(self.proofs@),
    {
        self.is_valid_proofs(&self.proofs)
    }

    /// Tells whether every asset of the wallet has a valid owner identity.
    pub fn is_valid_wallet_nfts(&self) -> (r: bool)
        ensures
            r == valid_nfts(self.nfts@),
    {
        self.is_valid_nfts(&self.nfts)
    }

    /// Tells whether `proof` is acceptable to this wallet: it has a positive
    /// timestamp.
    pub fn is_valid_wallet_proof(&self, proof: &ZeroProof) -> (r: bool)
        ensures
            r == proof.is_valid_spec(),
    {
        self.is_valid_proof(proof)
    }
}

} // verus!
