use std::collections::HashSet;

use mwa_hyperdrive::filenames::{
    file_checker, file_kind, CheckedPath, FileKind, InputDataTypes, InputDataTypesTemp,
    InputFileError, PathCheck,
};
use mwa_hyperdrive::helpers::guess_interval;
use mwa_hyperdrive::modeller::{
    get_flattened_coeffs, num_cross_baselines, tile_index_to_unflagged_tile_index_map,
};
use mwa_hyperdrive::text::{replace_spaces, split_whitespace};

#[test]
fn guess_interval_takes_the_smallest_gap() {
    assert_eq!(guess_interval(&[]), None);
    assert_eq!(guess_interval(&[5]), None);
    assert_eq!(guess_interval(&[0, 2_000_000_000, 4_000_000_000, 8_000_000_000]), Some(2_000_000_000));
    assert_eq!(guess_interval(&[10, 7, 9]), Some(-3));
    assert_eq!(guess_interval(&[1, 4, 6, 11]), Some(2));
}

#[test]
fn file_kinds_follow_the_patterns() {
    assert_eq!(file_kind("obs/1090008640.metafits"), Some(FileKind::Metafits));
    assert_eq!(file_kind("obs/1090008640.METAFITS"), Some(FileKind::Metafits));
    assert_eq!(
        file_kind("1090008640_20140721201027_gpubox01_00.fits"),
        Some(FileKind::Gpubox)
    );
    // gpubox names are case sensitive.
    assert_eq!(file_kind("1090008640_20140721201027_GPUBOX01_00.fits"), None);
    assert_eq!(file_kind("1247842824_20190722150008_ch114_000.fits"), Some(FileKind::Gpubox));
    assert_eq!(file_kind("1090008640_01.mwaf"), Some(FileKind::Mwaf));
    assert_eq!(file_kind("1090008640.ms"), Some(FileKind::MeasurementSet));
    assert_eq!(file_kind("1090008640.UVFITS"), Some(FileKind::Uvfits));
    assert_eq!(file_kind("1090008640.fits"), None);
    assert_eq!(file_kind("notes.txt"), None);
}

#[test]
fn input_data_types_from_checked_paths() {
    let files = vec![
        CheckedPath { path: "a.metafits".to_string(), check: PathCheck::Readable },
        CheckedPath { path: "x_gpubox01_00.fits".to_string(), check: PathCheck::Readable },
        CheckedPath { path: "y_gpubox02_00.fits".to_string(), check: PathCheck::Readable },
        CheckedPath { path: "b.uvfits".to_string(), check: PathCheck::Readable },
        CheckedPath { path: "*.uvfits".to_string(), check: PathCheck::GlobExpanded },
        CheckedPath { path: "dir/*".to_string(), check: PathCheck::GlobExpanded },
    ];
    let t = InputDataTypes::new(&files).unwrap();
    assert_eq!(t.metafits, Some("a.metafits".to_string()));
    assert_eq!(
        t.gpuboxes,
        Some(vec!["x_gpubox01_00.fits".to_string(), "y_gpubox02_00.fits".to_string()])
    );
    assert_eq!(t.mwafs, None);
    assert_eq!(t.ms, None);
    // Only the matches of a glob pattern are files; the pattern is not.
    assert_eq!(t.uvfits, Some(vec!["b.uvfits".to_string()]));
}

#[test]
fn input_file_errors() {
    let check = |path: &str, check: PathCheck| InputDataTypes::new(&[CheckedPath { path: path.to_string(), check }]);
    assert!(matches!(check("a.metafits", PathCheck::Unreadable), Err(InputFileError::CouldNotRead(p)) if p == "a.metafits"));
    assert!(matches!(check("a.metafits", PathCheck::NoGlobMatches), Err(InputFileError::DoesNotExist(p)) if p == "a.metafits"));
    assert!(matches!(check("a.metafits", PathCheck::ReadError("denied".to_string())), Err(InputFileError::IO(p, m)) if p == "a.metafits" && m == "denied"));
    assert!(matches!(check("[", PathCheck::GlobError("bad pattern".to_string())), Err(InputFileError::Glob(m)) if m == "bad pattern"));
    assert!(matches!(check("notes.txt", PathCheck::Readable), Err(InputFileError::NotRecognised(p)) if p == "notes.txt"));
    // The first error wins.
    let files = vec![
        CheckedPath { path: "notes.txt".to_string(), check: PathCheck::Readable },
        CheckedPath { path: "b.metafits".to_string(), check: PathCheck::Unreadable },
    ];
    assert!(matches!(InputDataTypes::new(&files), Err(InputFileError::NotRecognised(_))));
}

#[test]
fn cross_baselines() {
    assert_eq!(num_cross_baselines(1), 0);
    assert_eq!(num_cross_baselines(128), 8128);
    assert_eq!(num_cross_baselines(125), 7750);
}

#[test]
fn tile_map_skips_flagged_tiles() {
    let flags: HashSet<usize> = [1, 2, 5].into_iter().collect();
    assert_eq!(tile_index_to_unflagged_tile_index_map(5, &flags), vec![0, 3, 4, 6, 7]);
    assert_eq!(tile_index_to_unflagged_tile_index_map(3, &HashSet::new()), vec![0, 1, 2]);
}

#[test]
fn flattened_coeffs() {
    let (coeffs, lens) = get_flattened_coeffs(vec![vec![1u8, 2], vec![], vec![3, 4, 5]]);
    assert_eq!(coeffs, vec![1, 2, 3, 4, 5]);
    assert_eq!(lens, vec![2, 0, 3]);
}

#[test]
fn whitespace_words() {
    assert_eq!(split_whitespace("  SOURCE a\t1 2\r\n"), vec!["SOURCE", "a", "1", "2"]);
    assert_eq!(split_whitespace("a\u{3000}b\u{85}c"), vec!["a", "b", "c"]);
    assert!(split_whitespace(" \n").is_empty());
    assert_eq!(replace_spaces("VLA ForA b"), "VLA_ForA_b");
}

#[test]
fn file_checker_adds_by_kind_or_leaves_lists_alone() {
    let mut t = InputDataTypesTemp {
        metafits: vec![],
        gpuboxes: vec![],
        mwafs: vec![],
        ms: vec![],
        uvfits: vec![],
    };
    let ok = CheckedPath { path: "a/1090008640.METAFITS".to_string(), check: PathCheck::Readable };
    assert!(file_checker(&mut t, &ok).is_ok());
    assert_eq!(t.metafits, vec!["a/1090008640.METAFITS".to_string()]);
    let glob = CheckedPath { path: "a/*.uvfits".to_string(), check: PathCheck::GlobExpanded };
    assert!(file_checker(&mut t, &glob).is_ok());
    assert!(t.uvfits.is_empty());
    let bad = CheckedPath { path: "a/notes.txt".to_string(), check: PathCheck::Readable };
    assert!(matches!(file_checker(&mut t, &bad), Err(InputFileError::NotRecognised(f)) if f == "a/notes.txt"));
    let missing = CheckedPath { path: "a/x.ms".to_string(), check: PathCheck::NoGlobMatches };
    assert!(matches!(file_checker(&mut t, &missing), Err(InputFileError::DoesNotExist(f)) if f == "a/x.ms"));
    assert_eq!(t.metafits.len(), 1);
    assert!(t.uvfits.is_empty());
    assert!(t.gpuboxes.is_empty() && t.mwafs.is_empty() && t.ms.is_empty());
}
