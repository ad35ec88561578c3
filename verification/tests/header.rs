use dig_network_block::header::{HeaderError, L2BlockHeader};

fn sample_header() -> L2BlockHeader {
    L2BlockHeader {
        version: 1,
        network_id: [1u8; 32],
        epoch: 10,
        prev_block_root: [2u8; 32],
        body_root: [3u8; 32],
        data_count: 2,
        emissions_count: 1,
        proposer_pubkey: [9u8; 48],
    }
}

#[test]
fn header_root_changes_when_field_changes() {
    let h1 = sample_header();
    let mut h2 = sample_header();
    assert_eq!(h1.calculate_root(), h2.calculate_root());
    h2.data_count = 3;
    assert_ne!(h1.calculate_root(), h2.calculate_root());
}

#[test]
fn version_validation() {
    let h = sample_header();
    assert!(h.validate_version(1).is_ok());
    let e = h.validate_version(2).unwrap_err();
    match e {
        HeaderError::VersionMismatch { expected, found } => {
            assert_eq!(expected, 2);
            assert_eq!(found, 1);
        }
        _ => panic!("unexpected error variant"),
    }
}

#[test]
fn counts_validation() {
    let h = sample_header();
    assert!(h.validate_counts(2, 1).is_ok());
    let e = h.validate_counts(1, 1).unwrap_err();
    match e {
        HeaderError::CountMismatch { field, expected, actual } => {
            assert_eq!(field, "data_count");
            assert_eq!(expected, 2);
            assert_eq!(actual, 1);
        }
        _ => panic!("unexpected error variant"),
    }
}

#[test]
fn counts_validation_emissions_mismatch() {
    let h = sample_header();
    let e = h.validate_counts(2, 3).unwrap_err();
    match e {
        HeaderError::CountMismatch { field, expected, actual } => {
            assert_eq!(field, "emissions_count");
            assert_eq!(expected, 1);
            assert_eq!(actual, 3);
        }
        _ => panic!("unexpected error variant"),
    }
}
