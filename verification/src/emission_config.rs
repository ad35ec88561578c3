//! Consensus emission configuration.
//!
//! This module defines `ConsensusEmissionConfig`, which controls how proposer
//! and attester reward weights are assigned when building the required
//! consensus emissions for a block.
//!
//! Validation ensures obvious configuration mistakes are surfaced (a
//! non-zero attester share with zero attesters).

use vstd::prelude::*;

verus! {

/// Configuration for consensus emissions.
#[derive(Clone, Copy, Debug, PartialEq, Eq, Structural)]
pub struct ConsensusEmissionConfig {
    /// Fixed proposer share.
    pub proposer_reward_share: u64,
    /// Total attester share, split equally among attesters using integer
    /// division; any remainder is undistributed.
    pub attester_reward_share: u64,
}

/// A config is admissible for a given number of attesters unless it asks for
/// a non-zero attester share with nobody to receive it.
pub open spec fn config_valid_for(cfg: ConsensusEmissionConfig, attesters_len: nat) -> bool {
    attesters_len > 0 || cfg.attester_reward_share == 0
}

impl ConsensusEmissionConfig {
    /// Create a new config.
    pub fn new(proposer_reward_share: u64, attester_reward_share: u64) -> (r: Self)
        ensures
            r.proposer_reward_share == proposer_reward_share,
            r.attester_reward_share == attester_reward_share,
    {
        Self { proposer_reward_share, attester_reward_share }
    }

    /// Validate the config against a given number of attesters.
    ///
    /// Policy: if there are zero attesters, `attester_reward_share` must be
    /// 0; otherwise the split would be undefined.
    pub fn validate_for_attesters(&self, attesters_len: usize) -> (r: Result<
        (),
        EmissionConfigError,
    >)
        ensures
            r matches Ok(_) <==> config_valid_for(*self, attesters_len as nat),
            r matches Err(e) ==> e == EmissionConfigError::NonZeroAttesterShareWithNoAttesters,
    {
        if attesters_len == 0 && self.attester_reward_share > 0 {
            return Err(EmissionConfigError::NonZeroAttesterShareWithNoAttesters);
        }
        Ok(())
    }
}

/// Errors that can be produced by configuration validation.
#[derive(Clone, Copy, Debug, PartialEq, Eq, Structural)]
pub enum EmissionConfigError {
    /// `attester_reward_share > 0` while there are zero attesters.
    NonZeroAttesterShareWithNoAttesters,
}

} // verus!
