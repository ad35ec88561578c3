//! Primitives for defining and hashing an L2 block structure.
//!
//! Modules:
//! - `dig_l2_definition`: canonical hash domains, Merkle construction, root
//!   derivations and consensus-emission expansion, each with a contract.
//! - `emission`, `body`, `header`, `block`: the concrete L2 types, each with
//!   a verified `calculate_root()`.
//! - `emission_config`: the reward-sharing policy applied at build time.
//! - `serde_hex`: verified encoding and decoding of `0x`-prefixed hex byte
//!   strings.

pub mod block;
pub mod body;
pub mod dig_l2_definition;
pub mod emission;
pub mod emission_config;
pub mod header;
pub mod serde_hex;

