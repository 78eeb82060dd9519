//! The record of one owned digital asset.

use vstd::prelude::*;
use crate::zero_id::ZeroId;

verus! {

/// Width of an asset's content hash, in bytes.
pub const CONTENT_HASH_LEN: usize = 1024;

/// Width of the signature over the content hash, in bytes.
pub const NFT_SIGNATURE_LEN: usize = 64;

/// The category of an asset's content.
#[derive(Debug, Clone)]
pub enum ContentType {
    DrippImage,
    DrippVideo,
    DrippAudio,
    DrippDocument,
    DrippPost,
    DrippArt,
}

/// An owned asset: the identity of its owner, the hash of its content, a
/// signature over that hash, and the category of the content.
#[derive(Debug, Clone)]
pub struct Nft {
    pub zero_id: ZeroId,
    pub content_hash: [u8; CONTENT_HASH_LEN],
    pub signature: [u8; NFT_SIGNATURE_LEN],
    pub content_type: ContentType,
}

} // verus!
