//! The credential record that identifies a wallet's owner.

use vstd::prelude::*;
use vstd::string::StringSliceAdditionalSpecFns;
use crate::bytes::{all_zero, copy_window, is_all_zero, same_bytes};

verus! {

/// Width of the peer identifier, in bytes.
pub const DID_PEER_LEN: usize = 512;

/// Width of the public key, in bytes.
pub const PUBKEY_LEN: usize = 64;

/// Width of the signature, in bytes.
pub const SIGNATURE_LEN: usize = 64;

/// Width of the flat encoding of an identity: the three buffers in field order.
pub const ENCODED_LEN: usize = 640;

/// An identity: peer identifier, public key and signature, each of fixed width.
#[derive(Debug, Clone)]
pub struct ZeroId {
    pub did_peer: [u8; DID_PEER_LEN],
    pub pubkey: [u8; PUBKEY_LEN],
    pub signature: [u8; SIGNATURE_LEN],
}

/// The mathematical content of a [`ZeroId`]: its three buffers as byte sequences.
pub ghost struct ZeroIdView {
    pub did_peer: Seq<u8>,
    pub pubkey: Seq<u8>,
    pub signature: Seq<u8>,
}

/// Why a byte stream is not an identity.
#[derive(Debug, Clone, Copy, PartialEq, Eq, Structural)]
pub enum ZeroIdError {
    /// The input holds fewer bytes than the flat encoding of an identity.
    MalformedIdentity,
}

impl ZeroIdView {
    /// The three buffers have the widths that the encoding fixes.
    pub open spec fn well_sized(self) -> bool {
        &&& self.did_peer.len() == DID_PEER_LEN
        &&& self.pubkey.len() == PUBKEY_LEN
        &&& self.signature.len() == SIGNATURE_LEN
    }

    /// The all-zero identity, which stands for "no identity set".
    pub open spec fn unset() -> ZeroIdView {
        ZeroIdView {
            did_peer: Seq::new(DID_PEER_LEN as nat, |i: int| 0u8),
            pubkey: Seq::new(PUBKEY_LEN as nat, |i: int| 0u8),
            signature: Seq::new(SIGNATURE_LEN as nat, |i: int| 0u8),
        }
    }

    /// None of the three buffers is entirely zero-filled.
    pub open spec fn is_valid(self) -> bool {
        &&& !all_zero(self.did_peer)
        &&& !all_zero(self.pubkey)
        &&& !all_zero(self.signature)
    }

    /// The flat encoding: the three buffers one after the other.
    pub open spec fn encode(self) -> Seq<u8> {
        self.did_peer + self.pubkey + self.signature
    }

    /// The identity that a byte stream starts with, if it is long enough.
    /// Bytes past the encoding's width are not looked at.
    pub open spec fn decode(bytes: Seq<u8>) -> Option<ZeroIdView> {
        if bytes.len() < ENCODED_LEN {
            None
        } else {
            Some(
                ZeroIdView {
                    did_peer: bytes.subrange(0, DID_PEER_LEN as int),
                    pubkey: bytes.subrange(DID_PEER_LEN as int, DID_PEER_LEN + PUBKEY_LEN),
                    signature: bytes.subrange(DID_PEER_LEN + PUBKEY_LEN, ENCODED_LEN as int),
                },
            )
        }
    }
}

impl View for ZeroId {
    type V = ZeroIdView;

    open spec fn view(&self) -> ZeroIdView {
        ZeroIdView {
            did_peer: self.did_peer@,
            pubkey: self.pubkey@,
            signature: self.signature@,
        }
    }
}

impl ZeroId {
    /// The all-zero identity.
    pub fn new() -> (id: ZeroId)
        ensures
            id@ == ZeroIdView::unset(),
    {
        let id = ZeroId {
            did_peer: [0u8; DID_PEER_LEN],
            pubkey: [0u8; PUBKEY_LEN],
            signature: [0u8; SIGNATURE_LEN],
        };
        assert(id.did_peer@ =~= ZeroIdView::unset().did_peer);
        assert(id.pubkey@ =~= ZeroIdView::unset().pubkey);
        assert(id.signature@ =~= ZeroIdView::unset().signature);
        id
    }

    /// Reads an identity off the front of a byte stream.
    pub fn from_bytes(bytes: &[u8]) -> (r: Result<ZeroId, ZeroIdError>)
        ensures
            match r {
                Ok(id) => ZeroIdView::decode(bytes@) == Some(id@),
                Err(e) => ZeroIdView::decode(bytes@) is None && e == ZeroIdError::MalformedIdentity,
            },
    {
        if bytes.len() < ENCODED_LEN {
            return Err(ZeroIdError::MalformedIdentity);
        }
        let id = ZeroId {
            did_peer: copy_window::<DID_PEER_LEN>(bytes, 0),
            pubkey: copy_window::<PUBKEY_LEN>(bytes, DID_PEER_LEN),
            signature: copy_window::<SIGNATURE_LEN>(bytes, DID_PEER_LEN + PUBKEY_LEN),
        };
        Ok(id)
    }

    /// Reads an identity off the front of the bytes of a string.
    pub fn decode(value: &str) -> (r: Result<ZeroId, ZeroIdError>)
        ensures
            match r {
                Ok(id) => ZeroIdView::decode(value.spec_bytes()) == Some(id@),
                Err(e) => ZeroIdView::decode(value.spec_bytes()) is None
                    && e == ZeroIdError::MalformedIdentity,
            },
    {
        ZeroId::from_bytes(value.as_bytes())
    }

    /// Writes the identity out in its flat encoding.
    pub fn to_bytes(&self) -> (out: Vec<u8>)
        ensures
            out@ == self@.encode(),
    {
        let mut out: Vec<u8> = Vec::with_capacity(ENCODED_LEN);
        append_bytes(&mut out, &self.did_peer);
        append_bytes(&mut out, &self.pubkey);
        append_bytes(&mut out, &self.signature);
        out
    }

    /// Tells whether none of the three buffers is entirely zero-filled.
    pub fn is_valid(&self) -> (r: bool)
        ensures
            r == self@.is_valid(),
    {
        !is_all_zero(&self.did_peer) && !is_all_zero(&self.pubkey) && !is_all_zero(&self.signature)
    }

    /// Two identities with the same three byte sequences are the same identity.
    pub proof fn lemma_view_injective(self, other: ZeroId)
        requires
            self@ == other@,
        ensures
            self == other,
    {
        assert(self.did_peer@ == other.did_peer@);
        assert(self.pubkey@ == other.pubkey@);
        assert(self.signature@ == other.signature@);
        assert(self.did_peer =~= other.did_peer);
        assert(self.pubkey =~= other.pubkey);
        assert(self.signature =~= other.signature);
    }

    /// The buffers of an identity always have the widths of the encoding, so
    /// its encoding is exactly `ENCODED_LEN` bytes long.
    pub proof fn lemma_well_sized(self)
        ensures
            self@.well_sized(),
            self@.encode().len() == ENCODED_LEN,
    {
    }

    /// Decoding the encoding of an identity gives that identity back, whatever
    /// bytes follow the encoding.
    pub proof fn lemma_decode_encode(self, tail: Seq<u8>)
        ensures
            ZeroIdView::decode(self@.encode() + tail) == Some(self@),
            ZeroIdView::decode(self@.encode()) == Some(self@),
    {
        let v = self@;
        let flat = v.encode();
        let long = flat + tail;
        assert(long.subrange(0, DID_PEER_LEN as int) =~= v.did_peer);
        assert(long.subrange(DID_PEER_LEN as int, DID_PEER_LEN + PUBKEY_LEN) =~= v.pubkey);
        assert(long.subrange(DID_PEER_LEN + PUBKEY_LEN, ENCODED_LEN as int) =~= v.signature);
        assert(flat.subrange(0, DID_PEER_LEN as int) =~= v.did_peer);
        assert(flat.subrange(DID_PEER_LEN as int, DID_PEER_LEN + PUBKEY_LEN) =~= v.pubkey);
        assert(flat.subrange(DID_PEER_LEN + PUBKEY_LEN, ENCODED_LEN as int) =~= v.signature);
    }

    /// A byte stream shorter than the encoding decodes to nothing.
    pub proof fn lemma_short_input_rejected(bytes: Seq<u8>)
        requires
            bytes.len() < ENCODED_LEN,
        ensures
            ZeroIdView::decode(bytes) is None,
    {
    }

    /// The all-zero identity is not valid.
    pub proof fn lemma_unset_is_invalid()
        ensures
            !ZeroIdView::unset().is_valid(),
    {
        assert(all_zero(ZeroIdView::unset().did_peer));
    }
}

impl PartialEq for ZeroId {
    /// Structural equality over the three buffers.
    fn eq(&self, other: &Self) -> (r: bool) {
        same_bytes(&self.did_peer, &other.did_peer) && same_bytes(&self.pubkey, &other.pubkey)
            && same_bytes(&self.signature, &other.signature)
    }
}

impl vstd::std_specs::cmp::PartialEqSpecImpl for ZeroId {
    open spec fn obeys_eq_spec() -> bool {
        true
    }

    open spec fn eq_spec(&self, other: &Self) -> bool {
        self@ == other@
    }
}

/// Appends the bytes of `src` to `out`.
fn append_bytes(out: &mut Vec<u8>, src: &[u8])
    ensures
        final(out)@ == old(out)@ + src@,
{
    let mut i: usize = 0;
    while i < src.len()
        invariant
            i <= src.len(),
            out@ == old(out)@ + src@.take(i as int),
        decreases src.len() - i,
    {
        out.push(src[i]);
        i += 1;
        assert(out@ =~= old(out)@ + src@.take(i as int));
    }
    assert(src@.take(src.len() as int) =~= src@);
}

} // verus!
