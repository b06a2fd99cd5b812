//! Choosing the source-list types of a conversion from what the user
//! specified and what the file names say.

use vstd::prelude::*;

use crate::params::{file_extension, path_extension};

verus! {

/// The source-list formats.
#[derive(Debug, Clone, Copy, PartialEq, Eq)]
pub enum SourceListType {
    Hyperdrive,
    Rts,
    Woden,
    AO,
    Unspecified,
}

/// The file formats of hyperdrive source lists.
#[derive(Debug, Clone, Copy, PartialEq, Eq)]
pub enum SourceListFileType {
    Yaml,
    Json,
}

/// Errors in choosing the output source list.
#[derive(Debug)]
pub enum ConvertError {
    /// A hyperdrive source list must be written as yaml or json; the file's
    /// extension (or "<no extension>").
    InvalidHyperdriveFormat(String),
    /// Neither the output type nor the file name says what to write.
    NotEnoughInfo,
}

/// The source-list type a name stands for.
pub open spec fn spec_source_list_type(name: Seq<char>) -> Option<SourceListType> {
    if name == "hyperdrive"@ {
        Some(SourceListType::Hyperdrive)
    } else if name == "rts"@ {
        Some(SourceListType::Rts)
    } else if name == "woden"@ {
        Some(SourceListType::Woden)
    } else if name == "ao"@ {
        Some(SourceListType::AO)
    } else {
        None
    }
}

fn is(s: &str, lit: &str) -> (b: bool)
    ensures
        b == (s@ == lit@),
{
    let a = String::from_str(s);
    let b = String::from_str(lit);
    a == b
}

/// Parses the name of a source-list type.
pub fn parse_source_list_type(name: &str) -> (t: Option<SourceListType>)
    ensures
        t == spec_source_list_type(name@),
{
    if is(name, "hyperdrive") {
        Some(SourceListType::Hyperdrive)
    } else if is(name, "rts") {
        Some(SourceListType::Rts)
    } else if is(name, "woden") {
        Some(SourceListType::Woden)
    } else if is(name, "ao") {
        Some(SourceListType::AO)
    } else {
        None
    }
}

/// The file type a source-list file's extension says: yaml (or yml) or
/// json.
pub open spec fn spec_file_type(file: Seq<char>) -> Option<SourceListFileType> {
    match path_extension(file) {
        Some(e) => if e == "yaml"@ || e == "yml"@ {
            Some(SourceListFileType::Yaml)
        } else if e == "json"@ {
            Some(SourceListFileType::Json)
        } else {
            None
        },
        None => None,
    }
}

/// The file type of a source-list file.
pub fn parse_file_type(file: &str) -> (t: Option<SourceListFileType>)
    ensures
        t == spec_file_type(file@),
{
    match file_extension(file) {
        Some(e) => {
            if is(e.as_str(), "yaml") || is(e.as_str(), "yml") {
                Some(SourceListFileType::Yaml)
            } else if is(e.as_str(), "json") {
                Some(SourceListFileType::Json)
            } else {
                None
            }
        },
        None => None,
    }
}

/// The type of the input source list: the one specified, else hyperdrive
/// for a yaml or json file, else unspecified (to be found by trying).
pub open spec fn spec_input_type(
    specified: Option<SourceListType>,
    file_type: Option<SourceListFileType>,
) -> SourceListType {
    match (specified, file_type) {
        (Some(t), _) => t,
        (_, Some(_)) => SourceListType::Hyperdrive,
        (_, None) => SourceListType::Unspecified,
    }
}

/// The type of the input source list.
pub fn input_source_list_type(
    specified: Option<SourceListType>,
    file_type: Option<SourceListFileType>,
) -> (t: SourceListType)
    ensures
        t == spec_input_type(specified, file_type),
{
    match (specified, file_type) {
        // The input source list type was manually specified.
        (Some(t), _) => t,
        // Input source list type was not specified, but the file extension
        // was recognised. We can assume based on this.
        (_, Some(SourceListFileType::Yaml)) => SourceListType::Hyperdrive,
        (_, Some(SourceListFileType::Json)) => SourceListType::Hyperdrive,
        // Input source list type not specified and the file extension was
        // not recognised.
        (_, None) => SourceListType::Unspecified,
    }
}

/// How an output choice stands: the chosen types, or the error (a
/// hyperdrive list with a file that is not yaml or json carries the
/// extension of `file`).
pub open spec fn spec_output_types(
    specified: Option<SourceListType>,
    file_type: Option<SourceListFileType>,
    file: Seq<char>,
) -> Option<(SourceListType, Option<SourceListFileType>)> {
    match (specified, file_type) {
        (Some(SourceListType::Hyperdrive), None) => None,
        (Some(t), ft) => Some((t, ft)),
        (None, Some(ft)) => Some((SourceListType::Hyperdrive, Some(ft))),
        (None, None) => None,
    }
}

/// The extension named in the error for a hyperdrive list written to a file
/// that is neither yaml nor json.
pub open spec fn extension_text(file: Seq<char>) -> Seq<char> {
    match path_extension(file) {
        Some(e) => e,
        None => "<no extension>"@,
    }
}

/// The type and file type of the output source list.
pub fn output_source_list_types(
    specified: Option<SourceListType>,
    file_type: Option<SourceListFileType>,
    output_file: &str,
) -> (r: Result<(SourceListType, Option<SourceListFileType>), ConvertError>)
    ensures
        match spec_output_types(specified, file_type, output_file@) {
            Some(c) => r == Ok::<(SourceListType, Option<SourceListFileType>), ConvertError>(c),
            None => match (specified, file_type) {
                (Some(_), _) => r matches Err(ConvertError::InvalidHyperdriveFormat(e)) && e@
                    == extension_text(output_file@),
                _ => r matches Err(ConvertError::NotEnoughInfo),
            },
        },
{
    match (specified, file_type) {
        // The output source list type was manually specified.
        (Some(t), ft) => match (t, ft) {
            (SourceListType::Hyperdrive, Some(SourceListFileType::Yaml)) => Ok(
                (SourceListType::Hyperdrive, Some(SourceListFileType::Yaml)),
            ),
            (SourceListType::Hyperdrive, Some(SourceListFileType::Json)) => Ok(
                (SourceListType::Hyperdrive, Some(SourceListFileType::Json)),
            ),
            (SourceListType::Hyperdrive, None) => {
                let ext = match file_extension(output_file) {
                    Some(e) => e,
                    None => String::from_str("<no extension>"),
                };
                Err(ConvertError::InvalidHyperdriveFormat(ext))
            },
            // All other source-list types and file types are allowed.
            (sl_type, file_type) => Ok((sl_type, file_type)),
        },
        // Output source list type was not specified, but the file extension
        // was recognised. We can assume based on this.
        (None, Some(SourceListFileType::Yaml)) => Ok(
            (SourceListType::Hyperdrive, Some(SourceListFileType::Yaml)),
        ),
        (None, Some(SourceListFileType::Json)) => Ok(
            (SourceListType::Hyperdrive, Some(SourceListFileType::Json)),
        ),
        // Not enough information is available on the output source list.
        (None, None) => Err(ConvertError::NotEnoughInfo),
    }
}

/// A hyperdrive output always has a yaml or json file type, and an
/// unspecified type is never chosen from a file name.
pub proof fn lemma_hyperdrive_output_has_file_type(
    specified: Option<SourceListType>,
    file_type: Option<SourceListFileType>,
    file: Seq<char>,
)
    requires
        specified != Some(SourceListType::Unspecified),
    ensures
        spec_output_types(specified, file_type, file) matches Some((t, ft)) ==> (t
            != SourceListType::Unspecified && (t == SourceListType::Hyperdrive ==> ft is Some)),
{
}

} // verus!
