use dig_network_block::dig_l2_definition::{
    Hash32, BUILD_CONSENSUS_EMISSIONS, COMPUTE_BLOCK_ROOT, COMPUTE_BODY_ROOT, COMPUTE_DATA_HASH,
    COMPUTE_EMISSION_HASH, COMPUTE_HEADER_ROOT, MERKLE_ROOT,
};
use dig_network_block::dig_l2_definition::DefinitionError;
use dig_network_block::header::L2BlockHeader;
use sha2::{Digest, Sha256};

const DATA_HASH_DOMAIN: &[u8] = b"dig:l2:data:";
const EMISSION_HASH_DOMAIN: &[u8] = b"dig:l2:emission:";
const MERKLE_LEAF_DOMAIN: &[u8] = b"dig:l2:merkle:leaf:";
const MERKLE_NODE_DOMAIN: &[u8] = b"dig:l2:merkle:node:";
const MERKLE_EMPTY_DOMAIN: &[u8] = b"dig:l2:merkle:empty:";
const BLOCK_ROOT_DOMAIN: &[u8] = b"dig:l2:block_root:";

fn sha256_concat(parts: &[&[u8]]) -> Hash32 {
    let mut hasher = Sha256::new();
    for p in parts {
        hasher.update(p);
    }
    hasher.finalize().into()
}

fn h32(x: u8) -> Hash32 {
    // helper deterministic array for testing merkle behavior
    let mut a = [0u8; 32];
    a[0] = x;
    a
}

#[test]
fn data_hash_changes_with_value() {
    let h1 = COMPUTE_DATA_HASH(0);
    let h2 = COMPUTE_DATA_HASH(1);
    assert_ne!(h1, h2);
}

#[test]
fn data_hash_exact_value() {
    let h = COMPUTE_DATA_HASH(0x41);
    let expect = sha256_concat(&[DATA_HASH_DOMAIN, &[0x41]]);
    assert_eq!(h, expect);
}

#[test]
fn emission_hash_domain_separated() {
    let pk = [1u8; 48];
    let h1 = COMPUTE_EMISSION_HASH(&pk, 10);
    let h2 = sha256_concat(&[DATA_HASH_DOMAIN, &pk, &10u64.to_le_bytes()]);
    assert_ne!(h1, h2); // different domain
}

#[test]
fn emission_hash_exact_value() {
    let pk = [5u8; 48];
    let h = COMPUTE_EMISSION_HASH(&pk, 0x0102030405060708);
    let expect = sha256_concat(&[
        EMISSION_HASH_DOMAIN,
        &pk,
        &0x0102030405060708u64.to_le_bytes(),
    ]);
    assert_eq!(h, expect);
}

#[test]
fn merkle_root_empty() {
    let r = MERKLE_ROOT(&vec![]);
    let expect = sha256_concat(&[MERKLE_EMPTY_DOMAIN]);
    assert_eq!(r, expect);
}

#[test]
fn merkle_root_single() {
    let leaf = h32(7);
    let r = MERKLE_ROOT(&vec![leaf]);
    // When single, result is SHA(leaf_domain || leaf), not just the leaf
    assert_eq!(r, sha256_concat(&[MERKLE_LEAF_DOMAIN, &leaf]));
}

#[test]
fn merkle_root_odd_duplication() {
    let leaves = vec![h32(1), h32(2), h32(3)];
    let r = MERKLE_ROOT(&leaves);
    // Basic sanity: changing last element changes root
    let r2 = MERKLE_ROOT(&vec![h32(1), h32(2), h32(4)]);
    assert_ne!(r, r2);
}

#[test]
fn merkle_root_odd_duplication_exact_value() {
    // A 3-leaf tree pairs (l1,l2) and duplicates l3 against itself.
    let leaves = vec![h32(1), h32(2), h32(3)];
    let n1 = sha256_concat(&[MERKLE_LEAF_DOMAIN, &h32(1)]);
    let n2 = sha256_concat(&[MERKLE_LEAF_DOMAIN, &h32(2)]);
    let n3 = sha256_concat(&[MERKLE_LEAF_DOMAIN, &h32(3)]);
    let p1 = sha256_concat(&[MERKLE_NODE_DOMAIN, &n1, &n2]);
    let p2 = sha256_concat(&[MERKLE_NODE_DOMAIN, &n3, &n3]);
    let expect = sha256_concat(&[MERKLE_NODE_DOMAIN, &p1, &p2]);
    assert_eq!(MERKLE_ROOT(&leaves), expect);
}

#[test]
fn body_root_is_merkle_of_two() {
    let d = h32(0x11);
    let e = h32(0x22);
    let r = COMPUTE_BODY_ROOT(&d, &e);
    let r2 = MERKLE_ROOT(&vec![d, e]);
    assert_eq!(r, r2);
}

#[test]
fn header_root_field_permutation_changes_root() {
    let network_id = [2u8; 32];
    let prev = [3u8; 32];
    let body = [4u8; 32];
    let proposer = [5u8; 48];
    let r1_header = L2BlockHeader {
        version: 1,
        network_id,
        epoch: 2,
        prev_block_root: prev,
        body_root: body,
        data_count: 3,
        emissions_count: 4,
        proposer_pubkey: proposer,
    };
    let r2_header = L2BlockHeader {
        version: 1,
        network_id,
        epoch: 2,
        prev_block_root: prev,
        body_root: body,
        data_count: 4,
        emissions_count: 3,
        proposer_pubkey: proposer,
    };
    let r1 = COMPUTE_HEADER_ROOT(&r1_header);
    let r2 = COMPUTE_HEADER_ROOT(&r2_header);
    assert_ne!(r1, r2);
}

#[test]
fn block_root_composition() {
    let header_root = h32(0xaa);
    let body_root = h32(0xbb);
    let r = COMPUTE_BLOCK_ROOT(&header_root, &body_root);
    let expect = sha256_concat(&[BLOCK_ROOT_DOMAIN, &header_root, &body_root]);
    assert_eq!(r, expect);
}

#[test]
fn build_consensus_emissions_basic() {
    let proposer = [7u8; 48];
    let attesters = vec![[1u8; 48], [2u8; 48], [3u8; 48]];
    let v = BUILD_CONSENSUS_EMISSIONS(proposer, &attesters, 12, 88).unwrap();
    assert_eq!(v.len(), 1 + attesters.len());
    assert_eq!(v[0], (proposer, 12));
    // 88 / 3 = 29 per attester
    assert_eq!(v[1].1, 29);
    assert_eq!(v[2].1, 29);
    assert_eq!(v[3].1, 29);
}

#[test]
fn build_consensus_emissions_zero_attesters_policy() {
    let proposer = [9u8; 48];
    let v = BUILD_CONSENSUS_EMISSIONS(proposer, &vec![], 12, 0).unwrap();
    assert_eq!(v.len(), 1);

    let err = BUILD_CONSENSUS_EMISSIONS(proposer, &vec![], 12, 1).unwrap_err();
    match err {
        DefinitionError::NoAttestersForNonZeroShare => {}
    }
}
