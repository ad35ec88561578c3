//! L2 block header: metadata and commitments to the body.
//!
//! The header owns calculation of its `HEADER_ROOT`, which is a Merkle root
//! of individually domain-separated header fields. This allows proving
//! single fields against the overall `BLOCK_ROOT` without revealing the
//! entire header.

use crate::dig_l2_definition as definitions;
use vstd::prelude::*;

verus! {

/// Header for an L2 block.
#[derive(Clone, Debug, PartialEq, Eq)]
pub struct L2BlockHeader {
    /// Block version; must match the network consensus version.
    pub version: u32,
    /// Network ID (32 bytes).
    pub network_id: [u8; 32],
    /// Epoch number.
    pub epoch: u64,
    /// Previous block root (32 bytes).
    pub prev_block_root: [u8; 32],
    /// Body root (32 bytes): the declared commitment to the body.
    pub body_root: [u8; 32],
    /// Declared count of data items (bytes) in the body.
    pub data_count: u32,
    /// Declared count of emissions in the body.
    pub emissions_count: u32,
    /// Proposer public key (48 bytes).
    pub proposer_pubkey: [u8; 48],
}

impl L2BlockHeader {
    /// Calculates the `HEADER_ROOT` over the eight domain-separated field
    /// leaves.
    pub fn calculate_root(&self) -> (r: definitions::Hash32)
        ensures
            r@ == definitions::header_root_spec(*self),
    {
        definitions::COMPUTE_HEADER_ROOT(self)
    }

    /// Validates that the header version matches the expected consensus
    /// version.
    pub fn validate_version(&self, expected_version: u32) -> (r: Result<(), HeaderError>)
        ensures
            r matches Ok(_) <==> self.version == expected_version,
            r matches Err(e) ==> e matches HeaderError::VersionMismatch { expected, found }
                && expected == expected_version && found == self.version,
    {
        if self.version != expected_version {
            return Err(
                HeaderError::VersionMismatch {
                    expected: expected_version,
                    found: self.version,
                },
            );
        }
        Ok(())
    }

    /// Validates that `data_count` and `emissions_count` match the provided
    /// body lengths, reporting the first mismatching field (`data_count` is
    /// checked first).
    pub fn validate_counts(&self, data_len: usize, emissions_len: usize) -> (r: Result<
        (),
        HeaderError,
    >)
        ensures
            r matches Ok(_) <==> (self.data_count as usize == data_len
                && self.emissions_count as usize == emissions_len),
            r matches Err(e) ==> e matches HeaderError::CountMismatch { field, expected, actual }
                && if self.data_count as usize != data_len {
                    &&& field@ == "data_count"@
                    &&& expected == self.data_count as usize
                    &&& actual == data_len
                } else {
                    &&& field@ == "emissions_count"@
                    &&& expected == self.emissions_count as usize
                    &&& actual == emissions_len
                },
    {
        if self.data_count as usize != data_len {
            return Err(
                HeaderError::CountMismatch {
                    field: "data_count",
                    expected: self.data_count as usize,
                    actual: data_len,
                },
            );
        }
        if self.emissions_count as usize != emissions_len {
            return Err(
                HeaderError::CountMismatch {
                    field: "emissions_count",
                    expected: self.emissions_count as usize,
                    actual: emissions_len,
                },
            );
        }
        Ok(())
    }
}

/// Errors that can be emitted by header-level validation.
#[derive(Clone, Copy, Debug)]
pub enum HeaderError {
    /// Header version does not match the expected network consensus version.
    VersionMismatch { expected: u32, found: u32 },
    /// A header item count did not match the body lengths.
    CountMismatch { field: &'static str, expected: usize, actual: usize },
}

} // verus!
