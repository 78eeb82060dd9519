//! A bounded in-memory wallet: one identity, a keyed collection of
//! attestation proofs and a fixed arena of owned asset records.

pub mod bytes;
pub mod zero_id;
pub mod zero_proof;
pub mod proof_map;
pub mod nft;
pub mod zero_wallet;
pub mod zero_wallet_manager;
