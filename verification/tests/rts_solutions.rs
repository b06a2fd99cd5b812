use mwa_hyperdrive::rts_solutions::{
    all_have_node_numbers, check_equal_file_counts, check_files_found, check_tile_counts,
    node_number, parse_u8, sort_by_node_number, sorted_by_node_number, RtsFileKind, RtsReadSolsError,
};

#[test]
fn node_numbers() {
    assert_eq!(node_number("dir/DI_JonesMatrices_node001.dat"), Some(1));
    assert_eq!(node_number("dir/BandpassCalibration_node024.dat"), Some(24));
    assert_eq!(node_number("dir/DI_JonesMatrices_node300.dat"), None);
    assert_eq!(node_number("dir/DI_JonesMatrices_nodeabc.dat"), None);
    assert_eq!(node_number("dir/DI_JonesMatrices_node001.txt"), None);
}

#[test]
fn parse_u8_like_std() {
    for s in ["0", "7", "255", "256", "+12", "+", "", "-1", "1a", "0010", "1000"] {
        assert_eq!(parse_u8(s), s.parse::<u8>().ok(), "{}", s);
    }
}

#[test]
fn files_sorted_by_node_number() {
    let files: Vec<String> = [
        "d/DI_JonesMatrices_node003.dat",
        "d/DI_JonesMatrices_node001.dat",
        "d/DI_JonesMatrices_node010.dat",
        "d/DI_JonesMatrices_node002.dat",
    ]
    .iter()
    .map(|s| s.to_string())
    .collect();
    assert!(all_have_node_numbers(&files));
    let sorted = sort_by_node_number(&files);
    assert_eq!(
        sorted,
        vec![
            "d/DI_JonesMatrices_node001.dat",
            "d/DI_JonesMatrices_node002.dat",
            "d/DI_JonesMatrices_node003.dat",
            "d/DI_JonesMatrices_node010.dat",
        ]
    );
    assert!(!all_have_node_numbers(&["d/DI_JonesMatrices_nodexyz.dat".to_string()]));
    assert_eq!(sorted_by_node_number(&files), Some(sorted));
    let mut bad = files.clone();
    bad.push("d/DI_JonesMatrices_nodexyz.dat".to_string());
    assert_eq!(sorted_by_node_number(&bad), None);
}

#[test]
fn file_count_checks() {
    assert!(check_files_found("d", RtsFileKind::DiJm, 3).is_ok());
    assert!(matches!(
        check_files_found("d", RtsFileKind::DiJm, 0),
        Err(RtsReadSolsError::NoDiJmFiles { dir }) if dir == "d"
    ));
    assert!(matches!(
        check_files_found("d", RtsFileKind::BpCal, 0),
        Err(RtsReadSolsError::NoBpCalFiles { dir }) if dir == "d"
    ));
    assert!(check_equal_file_counts("d", 24, 24).is_ok());
    assert!(matches!(
        check_equal_file_counts("d", 24, 23),
        Err(RtsReadSolsError::UnequalFileCount { di_jm_count: 24, bp_cal_count: 23, .. })
    ));
}

#[test]
fn tile_count_checks() {
    assert!(check_tile_counts(&[128, 128], &[120, 120], 120).is_ok());
    assert!(matches!(
        check_tile_counts(&[128, 100, 90], &[120], 120),
        Err(RtsReadSolsError::UnequalTileCountDiJm { expected: 128, got: 100, node_index: 1 })
    ));
    assert!(matches!(
        check_tile_counts(&[128, 128], &[120, 121, 119], 120),
        Err(RtsReadSolsError::UnequalTileCountBpCal { expected: 128, got: 121, node_index: 1 })
    ));
}
