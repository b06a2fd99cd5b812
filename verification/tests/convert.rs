use mwa_hyperdrive::srclist::convert::{
    input_source_list_type, output_source_list_types, parse_file_type, parse_source_list_type,
    ConvertError, SourceListFileType, SourceListType,
};
use mwa_hyperdrive::srclist::convert::SourceListFileType::{Json, Yaml};
use mwa_hyperdrive::srclist::convert::SourceListType::{Hyperdrive, Rts, Unspecified, Woden};

#[test]
fn source_list_type_names() {
    assert_eq!(parse_source_list_type("hyperdrive"), Some(SourceListType::Hyperdrive));
    assert_eq!(parse_source_list_type("rts"), Some(SourceListType::Rts));
    assert_eq!(parse_source_list_type("woden"), Some(SourceListType::Woden));
    assert_eq!(parse_source_list_type("ao"), Some(SourceListType::AO));
    assert_eq!(parse_source_list_type("fhd"), None);
}

#[test]
fn source_list_file_types() {
    assert_eq!(parse_file_type("a/b.yaml"), Some(SourceListFileType::Yaml));
    assert_eq!(parse_file_type("b.yml"), Some(SourceListFileType::Yaml));
    assert_eq!(parse_file_type("b.json"), Some(SourceListFileType::Json));
    assert_eq!(parse_file_type("b.txt"), None);
    assert_eq!(parse_file_type("b"), None);
}

#[test]
fn input_types() {
    assert_eq!(input_source_list_type(Some(Rts), Some(Yaml)), Rts);
    assert_eq!(input_source_list_type(None, Some(Json)), Hyperdrive);
    assert_eq!(input_source_list_type(None, None), Unspecified);
}

#[test]
fn output_types() {
    assert_eq!(output_source_list_types(Some(Hyperdrive), Some(Yaml), "x.yaml").unwrap(), (Hyperdrive, Some(Yaml)));
    assert_eq!(output_source_list_types(Some(Woden), None, "x.txt").unwrap(), (Woden, None));
    assert_eq!(output_source_list_types(None, Some(Json), "x.json").unwrap(), (Hyperdrive, Some(Json)));
    match output_source_list_types(Some(Hyperdrive), None, "x.txt") {
        Err(ConvertError::InvalidHyperdriveFormat(ext)) => assert_eq!(ext, "txt"),
        other => panic!("{:?}", other),
    }
    match output_source_list_types(Some(Hyperdrive), None, "x") {
        Err(ConvertError::InvalidHyperdriveFormat(ext)) => assert_eq!(ext, "<no extension>"),
        other => panic!("{:?}", other),
    }
    assert!(matches!(output_source_list_types(None, None, "x.txt"), Err(ConvertError::NotEnoughInfo)));
}
