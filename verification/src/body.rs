//! L2 block body: application data and standardized emissions.
//!
//! The body owns calculation of its `BODY_ROOT` by composing the two
//! subroots:
//! - `DATA_ROOT`: Merkle root of per-byte data item hashes.
//! - `EMISSIONS_ROOT`: Merkle root of per-emission hashes.
//!
//! Both collections of leaf hashes are sorted into the canonical byte-wise
//! order before reduction, so each subroot commits to the multiset of items
//! rather than their sequence; the order-independence laws below make that
//! precise.

use crate::dig_l2_definition as definitions;
use crate::emission::{emission_leaf, Emission};
use vstd::prelude::*;

verus! {

/// Body of an L2 block: application data bytes and reward emissions.
#[derive(Clone, Debug, PartialEq, Eq)]
pub struct L2BlockBody {
    /// Application-specific data bytes.
    pub data: Vec<u8>,
    /// Reward distribution records.
    pub emissions: Vec<Emission>,
}

/// The leaf derivation for one data byte, as a first-class function.
pub open spec fn data_leaf_fn() -> spec_fn(u8) -> Seq<u8> {
    |b: u8| definitions::data_hash_spec(b)
}

/// The leaf derivation for one emission, as a first-class function.
pub open spec fn emission_leaf_fn() -> spec_fn(Emission) -> Seq<u8> {
    |e: Emission| emission_leaf(e)
}

/// The data root: per-byte hashes arranged into canonical order, reduced by
/// the Merkle construction.
pub open spec fn data_root_spec(data: Seq<u8>) -> Seq<u8> {
    definitions::sorted_merkle_root(data.map_values(data_leaf_fn()))
}

/// The emissions root: per-emission hashes arranged into canonical order,
/// reduced by the Merkle construction.
pub open spec fn emissions_root_spec(emissions: Seq<Emission>) -> Seq<u8> {
    definitions::sorted_merkle_root(emissions.map_values(emission_leaf_fn()))
}

/// The body root: the 2-leaf Merkle composition of the two subroots.
pub open spec fn body_root_spec(data: Seq<u8>, emissions: Seq<Emission>) -> Seq<u8> {
    definitions::body_root_composition(data_root_spec(data), emissions_root_spec(emissions))
}

impl L2BlockBody {
    /// Computes the `DATA_ROOT` as the Merkle root of the per-byte item
    /// hashes, sorted ascending for determinism. Operates on a copy of the
    /// leaf hashes; `self` is not mutated.
    pub fn calculate_data_root(&self) -> (r: definitions::Hash32)
        ensures
            r@ == data_root_spec(self.data@),
    {
        let mut leaves: Vec<definitions::Hash32> = Vec::new();
        let mut i: usize = 0;
        while i < self.data.len()
            invariant
                i <= self.data@.len(),
                leaves@.len() == i,
                forall|k: int|
                    0 <= k < i ==> (#[trigger] leaves@[k])@ == definitions::data_hash_spec(
                        self.data@[k],
                    ),
            decreases self.data@.len() - i,
        {
            leaves.push(definitions::COMPUTE_DATA_HASH(self.data[i]));
            i = i + 1;
        }
        proof {
            assert(definitions::views_of(leaves@) =~= self.data@.map_values(data_leaf_fn()));
        }
        let sorted = definitions::sort_hashes(&leaves);
        definitions::MERKLE_ROOT(sorted.as_slice())
    }

    /// Computes the `EMISSIONS_ROOT` as the Merkle root of each emission's
    /// per-item hash, sorted ascending for determinism.
    pub fn calculate_emissions_root(&self) -> (r: definitions::Hash32)
        ensures
            r@ == emissions_root_spec(self.emissions@),
    {
        let mut leaves: Vec<definitions::Hash32> = Vec::new();
        let mut i: usize = 0;
        while i < self.emissions.len()
            invariant
                i <= self.emissions@.len(),
                leaves@.len() == i,
                forall|k: int|
                    0 <= k < i ==> (#[trigger] leaves@[k])@ == emission_leaf(self.emissions@[k]),
            decreases self.emissions@.len() - i,
        {
            let e = self.emissions[i];
            leaves.push(e.calculate_root());
            i = i + 1;
        }
        proof {
            assert(definitions::views_of(leaves@) =~= self.emissions@.map_values(
                emission_leaf_fn(),
            ));
        }
        let sorted = definitions::sort_hashes(&leaves);
        definitions::MERKLE_ROOT(sorted.as_slice())
    }

    /// Computes the overall `BODY_ROOT` from the two subroots.
    pub fn calculate_root(&self) -> (r: definitions::Hash32)
        ensures
            r@ == body_root_spec(self.data@, self.emissions@),
    {
        let d = self.calculate_data_root();
        let e = self.calculate_emissions_root();
        definitions::COMPUTE_BODY_ROOT(&d, &e)
    }
}

/// Permuting the data bytes does not change the data root: the root depends
/// only on the multiset of bytes.
pub proof fn lemma_data_root_order_independent(d1: Seq<u8>, d2: Seq<u8>)
    requires
        d1.to_multiset() == d2.to_multiset(),
    ensures
        data_root_spec(d1) == data_root_spec(d2),
{
    definitions::lemma_map_values_multiset(d1, d2, data_leaf_fn());
    definitions::lemma_sorted_merkle_root_permutation(
        d1.map_values(data_leaf_fn()),
        d2.map_values(data_leaf_fn()),
    );
}

/// Permuting the emission records does not change the emissions root: the
/// root depends only on the multiset of records.
pub proof fn lemma_emissions_root_order_independent(e1: Seq<Emission>, e2: Seq<Emission>)
    requires
        e1.to_multiset() == e2.to_multiset(),
    ensures
        emissions_root_spec(e1) == emissions_root_spec(e2),
{
    definitions::lemma_map_values_multiset(e1, e2, emission_leaf_fn());
    definitions::lemma_sorted_merkle_root_permutation(
        e1.map_values(emission_leaf_fn()),
        e2.map_values(emission_leaf_fn()),
    );
}

/// Errors that can be returned by body-level operations.
#[derive(Clone, Debug)]
pub enum BodyError {
    /// Placeholder for future validation errors.
    Generic(String),
}

} // verus!
