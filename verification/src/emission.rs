//! Emission type and its root calculation.
//!
//! This module defines the standardized `Emission` record used in L2 block
//! bodies and provides a `calculate_root()` method that returns the
//! per-emission hash (leaf) from the definitions module.

use crate::dig_l2_definition as definitions;
use vstd::prelude::*;

verus! {

/// Standardized reward distribution record used in every L2 block.
///
/// The `pubkey` is a BLS public key (48 bytes), and `weight` is the relative
/// share in the reward pool.
#[derive(Clone, Copy, Debug, PartialEq, Eq)]
pub struct Emission {
    /// BLS public key (48 bytes).
    pub pubkey: [u8; 48],
    /// Relative share of the reward pool.
    pub weight: u64,
}

/// The leaf hash committing to one emission record, a pure function of its
/// two fields.
pub open spec fn emission_leaf(e: Emission) -> Seq<u8> {
    definitions::emission_hash_spec(e.pubkey@, e.weight)
}

impl Emission {
    /// Computes the per-emission hash. This value serves directly as a leaf
    /// for inclusion in the emissions Merkle tree.
    pub fn calculate_root(&self) -> (r: definitions::Hash32)
        ensures
            r@ == emission_leaf(*self),
    {
        definitions::COMPUTE_EMISSION_HASH(&self.pubkey, self.weight)
    }
}

/// Errors originating from `Emission`-level operations.
#[derive(Clone, Debug)]
pub enum EmissionError {
    /// Placeholder for future validation errors.
    Generic(String),
}

} // verus!
