//! L2 block: header and body, with delegated root calculation.
//!
//! `DigL2Block::calculate_root()` defers to `header.calculate_root()` and
//! `body.calculate_root()` and composes them via `COMPUTE_BLOCK_ROOT`.
//!
//! Construction via `new` enforces the invariants between header and body
//! (counts and `body_root`); construction via `build` assembles a block that
//! satisfies them by construction.

use crate::body::{body_root_spec, L2BlockBody};
use crate::dig_l2_definition as definitions;
use crate::emission::Emission;
use crate::emission_config::{config_valid_for, ConsensusEmissionConfig, EmissionConfigError};
use crate::header::{HeaderError, L2BlockHeader};
use vstd::prelude::*;

verus! {

/// Full L2 block containing a header and a body.
#[derive(Clone, Debug, PartialEq, Eq)]
pub struct DigL2Block {
    pub header: L2BlockHeader,
    pub body: L2BlockBody,
}

/// The block root: the domain-tagged composition of the header root and the
/// body root.
pub open spec fn block_root_spec(blk: DigL2Block) -> Seq<u8> {
    definitions::block_root_composition(
        definitions::header_root_spec(blk.header),
        body_root_spec(blk.body.data@, blk.body.emissions@),
    )
}

/// Whether the header passes the (optional) expected-version check.
pub open spec fn version_ok(h: L2BlockHeader, expected_version: Option<u32>) -> bool {
    match expected_version {
        Some(v) => h.version == v,
        None => true,
    }
}

/// The structural invariant between a header and a body: the declared body
/// commitment matches the recomputed body root, and the declared counts
/// match the actual body lengths.
pub open spec fn block_consistent(h: L2BlockHeader, b: L2BlockBody) -> bool {
    &&& h.body_root@ == body_root_spec(b.data@, b.emissions@)
    &&& h.data_count as nat == b.data@.len()
    &&& h.emissions_count as nat == b.emissions@.len()
}

/// The mandatory consensus emissions converted into `Emission` records, in
/// order: proposer first, then one record per attester.
pub open spec fn built_emissions(
    proposer_pubkey: [u8; 48],
    attester_pubkeys: Seq<[u8; 48]>,
    proposer_reward_share: u64,
    attester_reward_share: u64,
) -> Seq<Emission> {
    definitions::consensus_emission_tuples(
        proposer_pubkey,
        attester_pubkeys,
        proposer_reward_share,
        attester_reward_share,
    ).map_values(|t: definitions::EmissionTuple| Emission { pubkey: t.0, weight: t.1 })
}

impl DigL2Block {
    /// Calculates the `BLOCK_ROOT` by composing the `HEADER_ROOT` and the
    /// `BODY_ROOT`.
    pub fn calculate_root(&self) -> (r: definitions::Hash32)
        ensures
            r@ == block_root_spec(*self),
    {
        let header_root = self.header.calculate_root();
        let body_root = self.body.calculate_root();
        definitions::COMPUTE_BLOCK_ROOT(&header_root, &body_root)
    }

    /// Validates consistency between `header` and `body` and returns a block
    /// exactly when all checks pass.
    ///
    /// Checks, in order:
    /// - if `expected_version` is provided, the header version must match it;
    /// - `header.body_root` must equal `body.calculate_root()` — a mismatch
    ///   is reported as `BodyRootMismatch` even if the counts also disagree;
    /// - `data_count` and `emissions_count` must match the body lengths.
    pub fn new(header: L2BlockHeader, body: L2BlockBody, expected_version: Option<u32>) -> (r:
        Result<Self, BlockError>)
        ensures
            match r {
                Ok(blk) => {
                    &&& blk.header == header
                    &&& blk.body == body
                    &&& version_ok(header, expected_version)
                    &&& block_consistent(header, body)
                },
                Err(e) => {
                    &&& !(version_ok(header, expected_version) && block_consistent(header, body))
                    &&& match e {
                        BlockError::Header(he) => match he {
                            HeaderError::VersionMismatch { expected, found } => {
                                &&& expected_version == Some(expected)
                                &&& found == header.version
                                &&& header.version != expected
                            },
                            HeaderError::CountMismatch { field, expected, actual } => {
                                &&& version_ok(header, expected_version)
                                &&& header.body_root@ == body_root_spec(
                                    body.data@,
                                    body.emissions@,
                                )
                                &&& if header.data_count as nat != body.data@.len() {
                                    &&& field@ == "data_count"@
                                    &&& expected as nat == header.data_count as nat
                                    &&& actual as nat == body.data@.len()
                                } else {
                                    &&& header.emissions_count as nat != body.emissions@.len()
                                    &&& field@ == "emissions_count"@
                                    &&& expected as nat == header.emissions_count as nat
                                    &&& actual as nat == body.emissions@.len()
                                }
                            },
                        },
                        BlockError::BodyRootMismatch { header_body_root, calculated } => {
                            &&& version_ok(header, expected_version)
                            &&& header_body_root == header.body_root
                            &&& calculated@ == body_root_spec(body.data@, body.emissions@)
                            &&& header.body_root@ != body_root_spec(body.data@, body.emissions@)
                        },
                        _ => false,
                    }
                },
            },
    {
        if let Some(v) = expected_version {
            match header.validate_version(v) {
                Err(e) => {
                    return Err(BlockError::Header(e));
                },
                Ok(_) => {},
            }
        }
        // Compare roots first so that a mutated body triggers
        // BodyRootMismatch, which is the more informative error than a
        // counts mismatch.
        let calc_body_root = body.calculate_root();
        if !definitions::hash_eq(&header.body_root, &calc_body_root) {
            return Err(
                BlockError::BodyRootMismatch {
                    header_body_root: header.body_root,
                    calculated: calc_body_root,
                },
            );
        }
        // Then validate the counts for completeness.
        match header.validate_counts(body.data.len(), body.emissions.len()) {
            Err(e) => {
                return Err(BlockError::Header(e));
            },
            Ok(_) => {},
        }
        Ok(DigL2Block { header, body })
    }

    /// Build a block from raw inputs, constructing the required consensus
    /// emissions and composing header and body deterministically.
    ///
    /// Steps:
    /// - validates the `ConsensusEmissionConfig` against the attester list;
    /// - expands the mandatory emissions (proposer + attesters);
    /// - appends any caller-supplied `extra_emissions` after them;
    /// - assembles the body, computes its root, and fills the header counts
    ///   and `body_root` from the assembled body.
    ///
    /// This path cannot produce a header/body mismatch by construction.
    pub fn build(
        version: u32,
        network_id: [u8; 32],
        epoch: u64,
        prev_block_root: [u8; 32],
        proposer_pubkey: [u8; 48],
        data: Vec<u8>,
        extra_emissions: Vec<Emission>,
        attester_pubkeys: &[[u8; 48]],
        cfg: &ConsensusEmissionConfig,
    ) -> (r: Result<Self, BlockError>)
        requires
            data@.len() <= u32::MAX,
            1 + attester_pubkeys@.len() + extra_emissions@.len() <= u32::MAX,
        ensures
            match r {
                Ok(blk) => {
                    &&& config_valid_for(*cfg, attester_pubkeys@.len())
                    &&& blk.body.data@ == data@
                    &&& blk.body.emissions@ == built_emissions(
                        proposer_pubkey,
                        attester_pubkeys@,
                        cfg.proposer_reward_share,
                        cfg.attester_reward_share,
                    ) + extra_emissions@
                    &&& blk.header.version == version
                    &&& blk.header.network_id == network_id
                    &&& blk.header.epoch == epoch
                    &&& blk.header.prev_block_root == prev_block_root
                    &&& blk.header.proposer_pubkey == proposer_pubkey
                    &&& block_consistent(blk.header, blk.body)
                },
                Err(e) => {
                    &&& !config_valid_for(*cfg, attester_pubkeys@.len())
                    &&& e matches BlockError::Config(
                        EmissionConfigError::NonZeroAttesterShareWithNoAttesters,
                    )
                },
            },
    {
        // Validate the config with respect to the number of attesters.
        match cfg.validate_for_attesters(attester_pubkeys.len()) {
            Err(e) => {
                return Err(BlockError::Config(e));
            },
            Ok(_) => {},
        }

        // Build the consensus emission tuples, then convert to Emission.
        let tuples = match definitions::BUILD_CONSENSUS_EMISSIONS(
            proposer_pubkey,
            attester_pubkeys,
            cfg.proposer_reward_share,
            cfg.attester_reward_share,
        ) {
            Ok(t) => t,
            Err(e) => {
                proof {
                    assert(false);
                }
                return Err(BlockError::Definitions(e));
            },
        };
        let mut emissions: Vec<Emission> = Vec::new();
        let mut i: usize = 0;
        while i < tuples.len()
            invariant
                i <= tuples@.len(),
                emissions@.len() == i,
                forall|k: int|
                    0 <= k < i ==> #[trigger] emissions@[k] == (Emission {
                        pubkey: tuples@[k].0,
                        weight: tuples@[k].1,
                    }),
            decreases tuples@.len() - i,
        {
            let t = tuples[i];
            emissions.push(Emission { pubkey: t.0, weight: t.1 });
            i = i + 1;
        }
        proof {
            assert(emissions@ =~= tuples@.map_values(
                |t: definitions::EmissionTuple| Emission { pubkey: t.0, weight: t.1 },
            ));
        }
        let mut extra = extra_emissions;
        emissions.append(&mut extra);

        let body = L2BlockBody { data, emissions };
        let body_root = body.calculate_root();

        let header = L2BlockHeader {
            version,
            network_id,
            epoch,
            prev_block_root,
            body_root,
            data_count: body.data.len() as u32,
            emissions_count: body.emissions.len() as u32,
            proposer_pubkey,
        };

        Ok(DigL2Block { header, body })
    }
}

/// Round trip: any header whose counts were taken from a body and whose
/// `body_root` was recomputed from that same body — exactly what `build`
/// assembles — passes every check of the validating constructor when no
/// expected version is supplied.
pub proof fn lemma_build_then_validate(h: L2BlockHeader, b: L2BlockBody)
    requires
        h.data_count as nat == b.data@.len(),
        h.emissions_count as nat == b.emissions@.len(),
        h.body_root@ == body_root_spec(b.data@, b.emissions@),
    ensures
        version_ok(h, None),
        block_consistent(h, b),
{
}

/// Errors that can be returned by `DigL2Block` construction and validation.
#[derive(Clone, Debug)]
pub enum BlockError {
    /// A header-level validation error.
    Header(crate::header::HeaderError),
    /// A body-level error (reserved for future checks).
    Body(crate::body::BodyError),
    /// The header's `body_root` does not match the calculated body root.
    BodyRootMismatch { header_body_root: [u8; 32], calculated: [u8; 32] },
    /// A definition-level error (an invalid attester share policy).
    Definitions(crate::dig_l2_definition::DefinitionError),
    /// A configuration error.
    Config(crate::emission_config::EmissionConfigError),
}

} // verus!
