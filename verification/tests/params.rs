use mwa_hyperdrive::filenames::{CheckedPath, PathCheck};
use mwa_hyperdrive::params::{
    check_delays, input_data, output_file_type, InputData, InvalidArgsError, OutputFileType,
};

fn readable(path: &str) -> CheckedPath {
    CheckedPath { path: path.to_string(), check: PathCheck::Readable }
}

const METAFITS: &str = "test_files/1090008640/1090008640.metafits";
const GPUBOX: &str = "test_files/1090008640/1090008640_20140721201027_gpubox01_00.fits";
const MWAF: &str = "test_files/1090008640/1090008640_01.mwaf";
const MS: &str = "test_files/1090008640/1090008640.ms";
const UVFITS: &str = "test_files/1090008640/1090008640.uvfits";

fn reduced_1090008640() -> Vec<CheckedPath> {
    vec![readable(METAFITS), readable(GPUBOX), readable(MWAF)]
}

fn reduced_1090008640_ms() -> Vec<CheckedPath> {
    vec![readable(METAFITS), readable(MS)]
}

fn reduced_1090008640_uvfits() -> Vec<CheckedPath> {
    vec![readable(METAFITS), readable(UVFITS)]
}

#[test]
fn test_handle_delays() {
    // only 3 delays instead of 16 expected
    let delays = (0..3).collect::<Vec<u32>>();
    let result = check_delays(&delays);
    assert!(result.is_err());
    assert!(matches!(result, Err(InvalidArgsError::BadDelays)));

    // delays > 32
    let delays = (20..36).collect::<Vec<u32>>();
    let result = check_delays(&delays);
    assert!(result.is_err());
    assert!(matches!(result, Err(InvalidArgsError::BadDelays)));

    let delays = (0..16).collect::<Vec<u32>>();
    let result = check_delays(&delays);
    assert!(result.is_ok(), "result={:?} not Ok", result.err().unwrap());
}

#[test]
fn test_handle_no_input() {
    let result = input_data(None);
    assert!(result.is_err());
    assert!(matches!(result, Err(InvalidArgsError::NoInputData)));
}

#[test]
fn test_handle_multiple_metafits() {
    // when reading raw
    let mut data = reduced_1090008640();
    data.push(readable("test_files/1090008640_WODEN/1090008640.metafits"));
    let result = input_data(Some(&data));
    assert!(result.is_err());
    assert!(matches!(result, Err(InvalidArgsError::MultipleMetafits(_))));

    // when reading ms
    let mut data = reduced_1090008640_ms();
    data.push(readable("test_files/1090008640_WODEN/1090008640.metafits"));
    let result = input_data(Some(&data));
    assert!(result.is_err());
    assert!(matches!(result, Err(InvalidArgsError::MultipleMetafits(_))));

    // when reading uvfits
    let mut data = reduced_1090008640_uvfits();
    data.push(readable("test_files/1090008640_WODEN/1090008640.metafits"));
    let result = input_data(Some(&data));
    assert!(result.is_err());
    assert!(matches!(result, Err(InvalidArgsError::MultipleMetafits(_))));
}

#[test]
fn test_handle_multiple_ms() {
    let mut data = reduced_1090008640_ms();
    data.push(readable("test_files/1090008640/1090008640.ms"));
    let result = input_data(Some(&data));
    assert!(result.is_err());
    assert!(matches!(result, Err(InvalidArgsError::MultipleMeasurementSets(_))));
}

#[test]
fn test_handle_multiple_uvfits() {
    let mut data = reduced_1090008640_uvfits();
    data.push(readable("test_files/1090008640/1090008640.uvfits"));
    let result = input_data(Some(&data));
    assert!(result.is_err());
    assert!(matches!(result, Err(InvalidArgsError::MultipleUvfits(_))));
}

#[test]
fn test_handle_only_metafits() {
    let data = vec![readable("test_files/1090008640/1090008640.metafits")];
    let result = input_data(Some(&data));
    assert!(result.is_err());
    assert!(matches!(result, Err(InvalidArgsError::InvalidDataInput)));
}

#[test]
fn test_handle_invalid_output() {
    let result = output_file_type("invalid.out");
    assert!(result.is_err());
    assert!(matches!(result, Err(InvalidArgsError::CalibrationOutputFile { .. })));
}

#[test]
fn supported_input_combinations() {
    match input_data(Some(&reduced_1090008640())) {
        Ok(InputData::Raw { metafits, gpuboxes, mwafs }) => {
            assert_eq!(metafits, METAFITS);
            assert_eq!(gpuboxes, vec![GPUBOX.to_string()]);
            assert_eq!(mwafs, Some(vec![MWAF.to_string()]));
        }
        other => panic!("{:?}", other),
    }
    match input_data(Some(&reduced_1090008640_ms())) {
        Ok(InputData::MeasurementSet { ms, metafits }) => {
            assert_eq!(ms, MS);
            assert_eq!(metafits, Some(METAFITS.to_string()));
        }
        other => panic!("{:?}", other),
    }
    match input_data(Some(&[readable(UVFITS)])) {
        Ok(InputData::Uvfits { uvfits, metafits }) => {
            assert_eq!(uvfits, UVFITS);
            assert_eq!(metafits, None);
        }
        other => panic!("{:?}", other),
    }
    // gpubox files without a metafits file.
    assert!(matches!(
        input_data(Some(&[readable(GPUBOX)])),
        Err(InvalidArgsError::InvalidDataInput)
    ));
    // A measurement set and a uvfits file together.
    assert!(matches!(
        input_data(Some(&[readable(MS), readable(UVFITS)])),
        Err(InvalidArgsError::InvalidDataInput)
    ));
    // No files at all.
    assert!(matches!(input_data(Some(&[])), Err(InvalidArgsError::InvalidDataInput)));
}

#[test]
fn other_input_file_errors_pass_through() {
    let data = vec![CheckedPath { path: "nope.metafits".to_string(), check: PathCheck::NoGlobMatches }];
    assert!(matches!(input_data(Some(&data)), Err(InvalidArgsError::InputFile(_))));
}

#[test]
fn output_file_types() {
    assert_eq!(output_file_type("sols.fits").unwrap(), OutputFileType::SolutionsFits);
    assert_eq!(output_file_type("dir/sols.bin").unwrap(), OutputFileType::SolutionsBin);
    assert_eq!(output_file_type("model.uvfits").unwrap(), OutputFileType::Uvfits);
    match output_file_type("invalid.out") {
        Err(InvalidArgsError::CalibrationOutputFile { ext }) => assert_eq!(ext, "out"),
        other => panic!("{:?}", other),
    }
    match output_file_type("no_extension") {
        Err(InvalidArgsError::CalibrationOutputFile { ext }) => assert_eq!(ext, "<no extension>"),
        other => panic!("{:?}", other),
    }
}

#[test]
fn delays_at_the_limit() {
    assert!(check_delays(&[32; 16]).is_ok());
    assert!(check_delays(&[33; 16]).is_err());
    assert!(check_delays(&[0; 17]).is_err());
}

#[test]
fn output_file_extensions_follow_path_rules() {
    let ext = |f: &str| match output_file_type(f) {
        Err(InvalidArgsError::CalibrationOutputFile { ext }) => ext,
        other => panic!("{:?}", other),
    };
    assert_eq!(ext("x/y.out/"), "out");
    assert_eq!(ext("x//y.tar.out"), "out");
    assert_eq!(ext("x/.out"), "<no extension>");
    assert_eq!(ext("x/y."), "");
    assert_eq!(ext("a.bin/.."), "<no extension>");
    assert_eq!(ext("/"), "<no extension>");
    assert_eq!(ext("."), "<no extension>");
    assert_eq!(ext("x/..y"), "y");
    assert_eq!(output_file_type("x/y.bin/.").unwrap(), OutputFileType::SolutionsBin);
    assert_eq!(output_file_type("./sols.fits").unwrap(), OutputFileType::SolutionsFits);
}
