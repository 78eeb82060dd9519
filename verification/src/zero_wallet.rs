//! The wallet and the mathematical model of its asset slots.

use vstd::prelude::*;
use crate::bytes::all_zero;
use crate::nft::Nft;
use crate::proof_map::ProofMap;
use crate::zero_id::{ZeroId, ZeroIdView};
use crate::zero_proof::ZeroProof;

verus! {

/// The number of asset slots of a wallet.
pub const MAX_NFTS: usize = 10;

/// A wallet: the identity of its owner, its proofs by key, and a fixed arena
/// of `MAX_NFTS` slots, each of which holds one asset or is empty.
#[derive(Debug)]
pub struct ZeroWallet {
    pub id: ZeroId,
    pub proofs: ProofMap,
    pub nfts: [Option<Nft>; MAX_NFTS],
}

/// The least index at which `hit` holds in `s`, or the length of `s` if it
/// holds nowhere.
pub open spec fn first_index<T>(s: Seq<T>, hit: spec_fn(T) -> bool) -> int
    decreases s.len(),
{
    if s.len() == 0 || hit(s[0]) {
        0
    } else {
        1 + first_index(s.drop_first(), hit)
    }
}

/// The slot is empty.
pub open spec fn is_vacant(slot: Option<Nft>) -> bool {
    slot is None
}

/// The slot holds an asset of `owner`.
pub open spec fn is_owned_by(slot: Option<Nft>, owner: ZeroIdView) -> bool {
    slot is Some && slot->0.zero_id@ == owner
}

/// The index of the first empty slot, or the number of slots if none is empty.
pub open spec fn first_vacant(slots: Seq<Option<Nft>>) -> int {
    first_index(slots, |slot: Option<Nft>| is_vacant(slot))
}

/// The index of the first slot that holds an asset of `owner`, or the number
/// of slots if there is none.
pub open spec fn first_owned(slots: Seq<Option<Nft>>, owner: ZeroIdView) -> int {
    first_index(slots, |slot: Option<Nft>| is_owned_by(slot, owner))
}

/// Every slot is empty.
pub open spec fn all_vacant(slots: Seq<Option<Nft>>) -> bool {
    forall|i: int| 0 <= i < slots.len() ==> slots[i] is None
}

/// Every slot holds an asset.
pub open spec fn all_occupied(slots: Seq<Option<Nft>>) -> bool {
    forall|i: int| 0 <= i < slots.len() ==> slots[i] is Some
}

/// The assets held, in slot order, empty slots left out.
pub open spec fn listed(slots: Seq<Option<Nft>>) -> Seq<Nft> {
    slots.filter_map(|slot: Option<Nft>| slot)
}

/// The number of slots that hold an asset.
pub open spec fn occupied(slots: Seq<Option<Nft>>) -> nat {
    listed(slots).len()
}

/// The slots after `nft` went into the first empty one; unchanged if none is empty.
pub open spec fn placed(slots: Seq<Option<Nft>>, nft: Nft) -> Seq<Option<Nft>> {
    let at = first_vacant(slots);
    if at < slots.len() {
        slots.update(at, Some(nft))
    } else {
        slots
    }
}

/// The slots after the first asset of `owner` was taken out; unchanged if
/// `owner` has none.
pub open spec fn released(slots: Seq<Option<Nft>>, owner: ZeroIdView) -> Seq<Option<Nft>> {
    let at = first_owned(slots, owner);
    if at < slots.len() {
        slots.update(at, None)
    } else {
        slots
    }
}

/// The slots after each asset of `nfts` was placed in turn.
pub open spec fn placed_all(slots: Seq<Option<Nft>>, nfts: Seq<Nft>) -> Seq<Option<Nft>>
    decreases nfts.len(),
{
    if nfts.len() == 0 {
        slots
    } else {
        placed(placed_all(slots, nfts.drop_last()), nfts.last())
    }
}

/// Every proof of the mapping has a positive timestamp.
pub open spec fn valid_proofs(proofs: Map<Seq<char>, ZeroProof>) -> bool {
    forall|k: Seq<char>| proofs.contains_key(k) ==> (#[trigger] proofs[k]).is_valid_spec()
}

/// The slot holds an asset whose owner identity is valid.
pub open spec fn valid_nft(slot: Option<Nft>) -> bool {
    slot is Some && slot->0.zero_id@.is_valid()
}

/// Every occupied slot holds an asset whose owner identity is valid.
pub open spec fn valid_nfts(slots: Seq<Option<Nft>>) -> bool {
    forall|i: int| 0 <= i < slots.len() && slots[i] is Some ==> valid_nft(#[trigger] slots[i])
}

impl ZeroWallet {
    /// The state of a fresh wallet: the all-zero identity, no proofs, every
    /// slot empty.
    pub open spec fn is_cleared(&self) -> bool {
        &&& self.id@ == ZeroIdView::unset()
        &&& self.proofs@ == Map::<Seq<char>, ZeroProof>::empty()
        &&& all_vacant(self.nfts@)
    }

    /// The wallet holds neither a proof nor an asset.
    pub open spec fn is_empty_spec(&self) -> bool {
        self.proofs@ == Map::<Seq<char>, ZeroProof>::empty() && all_vacant(self.nfts@)
    }

    /// Every slot of the wallet holds an asset.
    pub open spec fn is_full_spec(&self) -> bool {
        all_occupied(self.nfts@)
    }

    /// The wallet is valid: its identity is valid, every proof it holds has a
    /// positive timestamp, and every asset it holds has a valid owner identity.
    pub open spec fn is_valid_spec(&self) -> bool {
        &&& self.id@.is_valid()
        &&& valid_proofs(self.proofs@)
        &&& valid_nfts(self.nfts@)
    }
}

/// What `first_index` returns is in range, nothing before it is a hit, and
/// it is a hit itself unless it is the length.
pub proof fn lemma_first_index<T>(s: Seq<T>, hit: spec_fn(T) -> bool)
    ensures
        0 <= first_index(s, hit) <= s.len(),
        forall|j: int| 0 <= j < first_index(s, hit) ==> !hit(#[trigger] s[j]),
        first_index(s, hit) < s.len() ==> hit(s[first_index(s, hit)]),
    decreases s.len(),
{
    if s.len() == 0 || hit(s[0]) {
    } else {
        let rest = s.drop_first();
        lemma_first_index(rest, hit);
        assert forall|j: int| 0 <= j < first_index(s, hit) implies !hit(#[trigger] s[j]) by {
            if j > 0 {
                assert(s[j] == rest[j - 1]);
            }
        }
        assert(first_index(s, hit) < s.len() ==> s[first_index(s, hit)] == rest[first_index(
            rest,
            hit,
        )]);
    }
}

/// An index with no hit before it, which is a hit itself or the length, is
/// what `first_index` returns.
pub proof fn lemma_first_index_is<T>(s: Seq<T>, hit: spec_fn(T) -> bool, at: int)
    requires
        0 <= at <= s.len(),
        forall|j: int| 0 <= j < at ==> !hit(#[trigger] s[j]),
        at < s.len() ==> hit(s[at]),
    ensures
        first_index(s, hit) == at,
{
    lemma_first_index(s, hit);
    let found = first_index(s, hit);
    if found < at {
        assert(!hit(s[found]));
    } else if at < found {
        assert(!hit(s[at]));
    }
}

/// An arena is full exactly when it has no first empty slot.
pub proof fn lemma_full_iff_no_vacancy(slots: Seq<Option<Nft>>)
    ensures
        all_occupied(slots) <==> first_vacant(slots) == slots.len(),
{
    let hit = |slot: Option<Nft>| is_vacant(slot);
    lemma_first_index(slots, hit);
    if all_occupied(slots) {
        if first_vacant(slots) < slots.len() {
            assert(slots[first_vacant(slots)] is Some);
        }
    } else {
        let i = choose|i: int| 0 <= i < slots.len() && !(slots[i] is Some);
        if first_vacant(slots) == slots.len() {
            assert(!hit(slots[i]));
        }
    }
}

/// An arena never holds more assets than it has slots.
pub proof fn lemma_occupied_bound(slots: Seq<Option<Nft>>)
    ensures
        occupied(slots) <= slots.len(),
    decreases slots.len(),
{
    if slots.len() > 0 {
        lemma_occupied_bound(slots.drop_last());
    }
}

/// An arena of empty slots lists no asset.
pub proof fn lemma_vacant_lists_nothing(slots: Seq<Option<Nft>>)
    requires
        all_vacant(slots),
    ensures
        listed(slots) == Seq::<Nft>::empty(),
    decreases slots.len(),
{
    if slots.len() > 0 {
        assert(slots.last() is None);
        lemma_vacant_lists_nothing(slots.drop_last());
    }
}

/// Filling an empty slot raises the number of assets held by one.
pub proof fn lemma_fill_counts(slots: Seq<Option<Nft>>, at: int, nft: Nft)
    requires
        0 <= at < slots.len(),
        slots[at] is None,
    ensures
        occupied(slots.update(at, Some(nft))) == occupied(slots) + 1,
    decreases slots.len(),
{
    let after = slots.update(at, Some(nft));
    if at == slots.len() - 1 {
        assert(after.drop_last() =~= slots.drop_last());
    } else {
        assert(after.drop_last() =~= slots.drop_last().update(at, Some(nft)));
        lemma_fill_counts(slots.drop_last(), at, nft);
    }
}

/// Placing an asset leaves a full arena as it is, and raises the number of
/// assets held by one in any other.
pub proof fn lemma_placed(slots: Seq<Option<Nft>>, nft: Nft)
    ensures
        placed(slots, nft).len() == slots.len(),
        all_occupied(slots) ==> placed(slots, nft) == slots,
        !all_occupied(slots) ==> occupied(placed(slots, nft)) == occupied(slots) + 1,
        occupied(placed(slots, nft)) <= slots.len(),
{
    lemma_full_iff_no_vacancy(slots);
    lemma_first_index(slots, |slot: Option<Nft>| is_vacant(slot));
    if !all_occupied(slots) {
        lemma_fill_counts(slots, first_vacant(slots), nft);
    }
    lemma_occupied_bound(placed(slots, nft));
}

/// Emptying an occupied slot lowers the number of assets held by one.
pub proof fn lemma_vacate_counts(slots: Seq<Option<Nft>>, at: int)
    requires
        0 <= at < slots.len(),
        slots[at] is Some,
    ensures
        occupied(slots.update(at, None)) + 1 == occupied(slots),
    decreases slots.len(),
{
    let after = slots.update(at, None);
    if at == slots.len() - 1 {
        assert(after.drop_last() =~= slots.drop_last());
    } else {
        assert(after.drop_last() =~= slots.drop_last().update(at, None));
        lemma_vacate_counts(slots.drop_last(), at);
    }
}

/// Taking out the first asset of an owner leaves the arena as it is where
/// the owner has none, and lowers the number of assets held by one where the
/// owner has any, however many.
pub proof fn lemma_released(slots: Seq<Option<Nft>>, owner: ZeroIdView)
    ensures
        released(slots, owner).len() == slots.len(),
        first_owned(slots, owner) == slots.len() ==> released(slots, owner) == slots,
        first_owned(slots, owner) < slots.len() ==> occupied(released(slots, owner)) + 1
            == occupied(slots),
{
    lemma_first_index(slots, |slot: Option<Nft>| is_owned_by(slot, owner));
    if first_owned(slots, owner) < slots.len() {
        lemma_vacate_counts(slots, first_owned(slots, owner));
    }
}

/// Whatever assets are placed one after the other, and however many, the
/// arena keeps its size and never holds more assets than it has slots.
pub proof fn lemma_capacity(slots: Seq<Option<Nft>>, nfts: Seq<Nft>)
    ensures
        placed_all(slots, nfts).len() == slots.len(),
        occupied(placed_all(slots, nfts)) <= slots.len(),
    decreases nfts.len(),
{
    if nfts.len() > 0 {
        lemma_capacity(slots, nfts.drop_last());
        lemma_placed(placed_all(slots, nfts.drop_last()), nfts.last());
    } else {
        lemma_occupied_bound(slots);
    }
}

/// After the first asset of `owner` was taken out, the first empty slot is
/// the one it left or an empty slot before it: the next asset placed goes
/// there.
pub proof fn lemma_freed_slot_is_reused(slots: Seq<Option<Nft>>, owner: ZeroIdView, nft: Nft)
    requires
        first_owned(slots, owner) < slots.len(),
    ensures
        first_vacant(released(slots, owner)) == if first_vacant(slots) < first_owned(slots, owner) {
            first_vacant(slots)
        } else {
            first_owned(slots, owner)
        },
        first_owned(slots, owner) < first_vacant(slots) ==> placed(released(slots, owner), nft)
            == slots.update(first_owned(slots, owner), Some(nft)),
{
    let vacant = |slot: Option<Nft>| is_vacant(slot);
    let freed = first_owned(slots, owner);
    let after = released(slots, owner);
    lemma_first_index(slots, |slot: Option<Nft>| is_owned_by(slot, owner));
    lemma_first_index(slots, vacant);
    let at = if first_vacant(slots) < freed {
        first_vacant(slots)
    } else {
        freed
    };
    assert forall|j: int| 0 <= j < at implies !vacant(#[trigger] after[j]) by {
        assert(after[j] == slots[j]);
        assert(!vacant(slots[j]));
    }
    lemma_first_index_is(after, vacant, at);
    if freed < first_vacant(slots) {
        assert(after.update(freed, Some(nft)) =~= slots.update(freed, Some(nft)));
    }
}

/// A cleared wallet is empty, lists no asset, holds no proof, and has the
/// all-zero identity, which is not valid.
pub proof fn lemma_cleared(wallet: ZeroWallet)
    requires
        wallet.is_cleared(),
    ensures
        wallet.is_empty_spec(),
        listed(wallet.nfts@) == Seq::<Nft>::empty(),
        occupied(wallet.nfts@) == 0,
        wallet.proofs@.len() == 0,
        all_zero(wallet.id.did_peer@),
        all_zero(wallet.id.pubkey@),
        all_zero(wallet.id.signature@),
        !wallet.is_valid_spec(),
{
    lemma_vacant_lists_nothing(wallet.nfts@);
    ZeroId::lemma_unset_is_invalid();
}

} // verus!
