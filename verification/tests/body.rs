use dig_network_block::body::L2BlockBody;
use dig_network_block::emission::Emission;
use sha2::{Digest, Sha256};

fn sha256_concat(parts: &[&[u8]]) -> [u8; 32] {
    let mut hasher = Sha256::new();
    for p in parts {
        hasher.update(p);
    }
    hasher.finalize().into()
}

fn leaf_node(leaf: &[u8; 32]) -> [u8; 32] {
    sha256_concat(&[b"dig:l2:merkle:leaf:", leaf])
}

fn inner_node(l: &[u8; 32], r: &[u8; 32]) -> [u8; 32] {
    sha256_concat(&[b"dig:l2:merkle:node:", l, r])
}

#[test]
fn data_root_does_not_depend_on_input_order() {
    let b1 = L2BlockBody { data: vec![3, 1, 2], emissions: vec![] };
    let b2 = L2BlockBody { data: vec![2, 3, 1], emissions: vec![] };
    assert_eq!(b1.calculate_data_root(), b2.calculate_data_root());
}

#[test]
fn emissions_root_does_not_depend_on_input_order() {
    let e1 = Emission { pubkey: [1u8; 48], weight: 5 };
    let e2 = Emission { pubkey: [2u8; 48], weight: 5 };
    let e3 = Emission { pubkey: [3u8; 48], weight: 6 };
    let b1 = L2BlockBody { data: vec![], emissions: vec![e1.clone(), e2.clone(), e3.clone()] };
    let b2 = L2BlockBody { data: vec![], emissions: vec![e3, e1, e2] };
    assert_eq!(b1.calculate_emissions_root(), b2.calculate_emissions_root());
}

#[test]
fn body_root_changes_when_subroots_change() {
    let e = Emission { pubkey: [9u8; 48], weight: 1 };
    let b1 = L2BlockBody { data: vec![1, 2], emissions: vec![e.clone()] };
    let b2 = L2BlockBody { data: vec![1], emissions: vec![e] };
    assert_ne!(b1.calculate_root(), b2.calculate_root());
}

#[test]
fn data_root_exact_value() {
    // Recompute the whole pipeline independently: per-byte hashes, sorted
    // ascending, 3-leaf Merkle tree with the last node duplicated.
    let body = L2BlockBody { data: vec![3, 1, 2], emissions: vec![] };
    let mut hashes: Vec<[u8; 32]> = body
        .data
        .iter()
        .map(|b| sha256_concat(&[b"dig:l2:data:", &[*b][..]]))
        .collect();
    hashes.sort_unstable();
    let n0 = leaf_node(&hashes[0]);
    let n1 = leaf_node(&hashes[1]);
    let n2 = leaf_node(&hashes[2]);
    let p1 = inner_node(&n0, &n1);
    let p2 = inner_node(&n2, &n2);
    let expect = inner_node(&p1, &p2);
    assert_eq!(body.calculate_data_root(), expect);
}

#[test]
fn body_root_exact_value() {
    let e = Emission { pubkey: [8u8; 48], weight: 77 };
    let body = L2BlockBody { data: vec![42], emissions: vec![e] };
    let data_root = leaf_node(&sha256_concat(&[b"dig:l2:data:", &[42u8][..]]));
    let emission_hash = sha256_concat(&[b"dig:l2:emission:", &[8u8; 48][..], &77u64.to_le_bytes()]);
    let emissions_root = leaf_node(&emission_hash);
    let expect = inner_node(&leaf_node(&data_root), &leaf_node(&emissions_root));
    assert_eq!(body.calculate_root(), expect);
}

#[test]
fn data_root_handles_duplicate_bytes() {
    let b1 = L2BlockBody { data: vec![7, 7, 1, 7], emissions: vec![] };
    let b2 = L2BlockBody { data: vec![7, 1, 7, 7], emissions: vec![] };
    assert_eq!(b1.calculate_data_root(), b2.calculate_data_root());
    // but the multiset still matters
    let b3 = L2BlockBody { data: vec![7, 1], emissions: vec![] };
    assert_ne!(b1.calculate_data_root(), b3.calculate_data_root());
}

#[test]
fn body_root_changes_when_one_data_byte_changes() {
    let e = Emission { pubkey: [4u8; 48], weight: 3 };
    let b1 = L2BlockBody { data: vec![10, 20, 30], emissions: vec![e.clone()] };
    let b2 = L2BlockBody { data: vec![10, 21, 30], emissions: vec![e] };
    assert_ne!(b1.calculate_root(), b2.calculate_root());
}

#[test]
fn body_root_changes_when_one_emission_field_changes() {
    let base = Emission { pubkey: [4u8; 48], weight: 3 };
    let weight_changed = Emission { pubkey: [4u8; 48], weight: 4 };
    let mut key_changed = Emission { pubkey: [4u8; 48], weight: 3 };
    key_changed.pubkey[0] = 5;
    let b1 = L2BlockBody { data: vec![1], emissions: vec![base] };
    let b2 = L2BlockBody { data: vec![1], emissions: vec![weight_changed] };
    let b3 = L2BlockBody { data: vec![1], emissions: vec![key_changed] };
    assert_ne!(b1.calculate_root(), b2.calculate_root());
    assert_ne!(b1.calculate_root(), b3.calculate_root());
}
