use dig_network_block::block::{BlockError, DigL2Block};
use dig_network_block::body::L2BlockBody;
use dig_network_block::dig_l2_definition as definitions;
use dig_network_block::emission::Emission;
use dig_network_block::emission_config::{ConsensusEmissionConfig, EmissionConfigError};
use dig_network_block::header::L2BlockHeader;

fn make_body() -> L2BlockBody {
    L2BlockBody { data: vec![1, 2, 3], emissions: vec![Emission { pubkey: [5u8; 48], weight: 10 }] }
}

fn make_header_for_body(body: &L2BlockBody) -> L2BlockHeader {
    let body_root = body.calculate_root();
    L2BlockHeader {
        version: 1,
        network_id: [0xabu8; 32],
        epoch: 7,
        prev_block_root: [0u8; 32],
        body_root,
        data_count: body.data.len() as u32,
        emissions_count: body.emissions.len() as u32,
        proposer_pubkey: [9u8; 48],
    }
}

#[test]
fn block_root_composition_matches_definitions() {
    let body = make_body();
    let header = make_header_for_body(&body);
    let block = DigL2Block::new(header, body, Some(1)).unwrap();
    let h_root = block.header.calculate_root();
    let b_root = block.body.calculate_root();
    let expect = definitions::COMPUTE_BLOCK_ROOT(&h_root, &b_root);
    assert_eq!(block.calculate_root(), expect);
}

#[test]
fn new_rejects_mismatched_counts() {
    let body = make_body();
    let mut header = make_header_for_body(&body);
    header.data_count += 1; // wrong
    let err = DigL2Block::new(header, body, Some(1)).unwrap_err();
    match err {
        BlockError::Header(dig_network_block::header::HeaderError::CountMismatch { .. }) => {}
        _ => panic!("unexpected error type"),
    }
}

#[test]
fn new_rejects_body_root_mismatch() {
    let mut body = make_body();
    let header = make_header_for_body(&body);
    // change body so root no longer matches header
    body.data.push(4);
    let err = DigL2Block::new(header, body, Some(1)).unwrap_err();
    match err {
        BlockError::BodyRootMismatch { .. } => {}
        _ => panic!("unexpected error type"),
    }
}

#[test]
fn new_reports_root_mismatch_before_count_mismatch() {
    // The body is mutated in both length and content, so the counts are
    // also stale; the root comparison must still win.
    let mut body = make_body();
    let header = make_header_for_body(&body);
    body.data.push(4);
    body.data.push(5);
    assert_ne!(header.data_count as usize, body.data.len());
    let err = DigL2Block::new(header, body, None).unwrap_err();
    match err {
        BlockError::BodyRootMismatch { .. } => {}
        _ => panic!("unexpected error type"),
    }
}

#[test]
fn new_rejects_version_mismatch_first() {
    let body = make_body();
    let mut header = make_header_for_body(&body);
    header.data_count += 1; // also wrong, but version is checked first
    let err = DigL2Block::new(header, body, Some(2)).unwrap_err();
    match err {
        BlockError::Header(dig_network_block::header::HeaderError::VersionMismatch {
            expected,
            found,
        }) => {
            assert_eq!(expected, 2);
            assert_eq!(found, 1);
        }
        _ => panic!("unexpected error type"),
    }
}

#[test]
fn build_block_with_attesters_and_extras() {
    let data = vec![1u8, 2, 3, 4];
    let extra = vec![Emission { pubkey: [0x33u8; 48], weight: 7 }];
    let attesters = vec![[0x11u8; 48], [0x22u8; 48], [0x44u8; 48]];
    let cfg = ConsensusEmissionConfig::new(12, 90);
    let block = DigL2Block::build(
        1,
        [9u8; 32],
        123,
        [8u8; 32],
        [7u8; 48],
        data,
        extra,
        &attesters,
        &cfg,
    )
    .unwrap();

    // Counts should reflect body lengths
    assert_eq!(block.header.data_count as usize, block.body.data.len());
    assert_eq!(block.header.emissions_count as usize, block.body.emissions.len());

    // Roots should be consistent
    let expect_body_root = block.body.calculate_root();
    assert_eq!(block.header.body_root, expect_body_root);

    // Mandatory emissions lead; the extra one follows.
    assert_eq!(block.body.emissions.len(), 5);
    assert_eq!(block.body.emissions[0], Emission { pubkey: [7u8; 48], weight: 12 });
    assert_eq!(block.body.emissions[1], Emission { pubkey: [0x11u8; 48], weight: 30 });
    assert_eq!(block.body.emissions[4], Emission { pubkey: [0x33u8; 48], weight: 7 });
}

#[test]
fn build_block_zero_attesters_policy() {
    let cfg = ConsensusEmissionConfig::new(12, 0);
    let b = DigL2Block::build(
        1,
        [0u8; 32],
        0,
        [0u8; 32],
        [1u8; 48],
        vec![],
        vec![],
        &vec![],
        &cfg,
    )
    .unwrap();
    assert_eq!(b.body.emissions.len(), 1); // proposer only

    // Now invalid: non-zero attester share but no attesters
    let cfg_bad = ConsensusEmissionConfig::new(12, 1);
    let err = DigL2Block::build(
        1,
        [0u8; 32],
        0,
        [0u8; 32],
        [1u8; 48],
        vec![],
        vec![],
        &vec![],
        &cfg_bad,
    )
    .unwrap_err();
    match err {
        BlockError::Config(EmissionConfigError::NonZeroAttesterShareWithNoAttesters) => {}
        other => panic!("unexpected error: {other:?}"),
    }
}

#[test]
fn built_block_passes_validation_round_trip() {
    let attesters = vec![[0x21u8; 48], [0x22u8; 48]];
    let cfg = ConsensusEmissionConfig::new(10, 80);
    let block = DigL2Block::build(
        3,
        [6u8; 32],
        99,
        [5u8; 32],
        [4u8; 48],
        vec![9, 8, 7],
        vec![Emission { pubkey: [2u8; 48], weight: 1 }],
        &attesters,
        &cfg,
    )
    .unwrap();
    let revalidated = DigL2Block::new(block.header.clone(), block.body.clone(), None).unwrap();
    assert_eq!(revalidated, block);
}
