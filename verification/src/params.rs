//! Checking the calibration arguments that choose the input data, the
//! output files and the beam's dipole delays.

use vstd::prelude::*;

use crate::filenames::{
    checked_view, empty_temp, spec_check_all, spec_file_kind, spec_new, strings_view,
    opt_string_view, opt_strings_view, CheckedPath, CheckedPathModel, FileErrModel, FileKind,
    InputDataTypes, InputFileError, TempModel, TypesModel,
};

verus! {

/// Errors in the calibration arguments.
#[derive(Debug)]
pub enum InvalidArgsError {
    /// No input data was given.
    NoInputData,
    /// An invalid combination of input data formats was given.
    InvalidDataInput,
    MultipleMetafits(Vec<String>),
    MultipleMeasurementSets(Vec<String>),
    MultipleUvfits(Vec<String>),
    /// Any other problem with the input files.
    InputFile(InputFileError),
    /// The dipole delays are not 16 values of at most 32.
    BadDelays,
    /// An output file whose extension names no supported output type.
    CalibrationOutputFile { ext: String },
}

/// The input data to calibrate.
#[derive(Debug)]
pub enum InputData {
    /// Raw MWA data: a metafits file, gpubox files and optional mwaf files.
    Raw { metafits: String, gpuboxes: Vec<String>, mwafs: Option<Vec<String>> },
    /// A measurement set, with an optional metafits file.
    MeasurementSet { ms: String, metafits: Option<String> },
    /// A uvfits file, with an optional metafits file.
    Uvfits { uvfits: String, metafits: Option<String> },
}

pub enum ArgsErrModel {
    NoInputData,
    InvalidDataInput,
    MultipleMetafits(Seq<Seq<char>>),
    MultipleMeasurementSets(Seq<Seq<char>>),
    MultipleUvfits(Seq<Seq<char>>),
    InputFile(FileErrModel),
    BadDelays,
    CalibrationOutputFile { ext: Seq<char> },
}

pub enum InputDataModel {
    Raw { metafits: Seq<char>, gpuboxes: Seq<Seq<char>>, mwafs: Option<Seq<Seq<char>>> },
    MeasurementSet { ms: Seq<char>, metafits: Option<Seq<char>> },
    Uvfits { uvfits: Seq<char>, metafits: Option<Seq<char>> },
}

impl View for InvalidArgsError {
    type V = ArgsErrModel;

    open spec fn view(&self) -> ArgsErrModel {
        match self {
            InvalidArgsError::NoInputData => ArgsErrModel::NoInputData,
            InvalidArgsError::InvalidDataInput => ArgsErrModel::InvalidDataInput,
            InvalidArgsError::MultipleMetafits(v) => ArgsErrModel::MultipleMetafits(strings_view(v@)),
            InvalidArgsError::MultipleMeasurementSets(v) => ArgsErrModel::MultipleMeasurementSets(
                strings_view(v@),
            ),
            InvalidArgsError::MultipleUvfits(v) => ArgsErrModel::MultipleUvfits(strings_view(v@)),
            InvalidArgsError::InputFile(e) => ArgsErrModel::InputFile(e@),
            InvalidArgsError::BadDelays => ArgsErrModel::BadDelays,
            InvalidArgsError::CalibrationOutputFile { ext } => ArgsErrModel::CalibrationOutputFile {
                ext: ext@,
            },
        }
    }
}

impl View for InputData {
    type V = InputDataModel;

    open spec fn view(&self) -> InputDataModel {
        match self {
            InputData::Raw { metafits, gpuboxes, mwafs } => InputDataModel::Raw {
                metafits: metafits@,
                gpuboxes: strings_view(gpuboxes@),
                mwafs: opt_strings_view(*mwafs),
            },
            InputData::MeasurementSet { ms, metafits } => InputDataModel::MeasurementSet {
                ms: ms@,
                metafits: opt_string_view(*metafits),
            },
            InputData::Uvfits { uvfits, metafits } => InputDataModel::Uvfits {
                uvfits: uvfits@,
                metafits: opt_string_view(*metafits),
            },
        }
    }
}

/// An input-file error as an argument error: the multiple-file errors keep
/// their names.
pub open spec fn file_error(e: FileErrModel) -> ArgsErrModel {
    match e {
        FileErrModel::MultipleMetafits(v) => ArgsErrModel::MultipleMetafits(v),
        FileErrModel::MultipleMeasurementSets(v) => ArgsErrModel::MultipleMeasurementSets(v),
        _ => ArgsErrModel::InputFile(e),
    }
}

/// The supported combinations of input files: raw data (a metafits file
/// and gpubox files, perhaps mwaf files); a measurement set; or one uvfits
/// file (each perhaps with a metafits file). Several uvfits files are an
/// error of their own; every other combination is invalid.
pub open spec fn spec_input_data_from_types(t: TypesModel) -> Result<InputDataModel, ArgsErrModel> {
    match (t.metafits, t.gpuboxes, t.mwafs, t.ms, t.uvfits) {
        (Some(meta), Some(gpuboxes), mwafs, None, None) => Ok(
            InputDataModel::Raw { metafits: meta, gpuboxes, mwafs },
        ),
        (meta, None, None, Some(ms), None) => Ok(
            InputDataModel::MeasurementSet { ms, metafits: meta },
        ),
        (meta, None, None, None, Some(uvfits)) => if uvfits.len() == 1 {
            Ok(InputDataModel::Uvfits { uvfits: uvfits[0], metafits: meta })
        } else {
            Err(ArgsErrModel::MultipleUvfits(uvfits))
        },
        _ => Err(ArgsErrModel::InvalidDataInput),
    }
}

/// The input data of the checked input paths (`None` when no input data was
/// given).
pub open spec fn spec_input_data(data: Option<Seq<CheckedPathModel>>) -> Result<
    InputDataModel,
    ArgsErrModel,
> {
    match data {
        None => Err(ArgsErrModel::NoInputData),
        Some(files) => match spec_new(files) {
            Err(e) => Err(file_error(e)),
            Ok(t) => spec_input_data_from_types(t),
        },
    }
}

fn file_error_exec(e: InputFileError) -> (r: InvalidArgsError)
    ensures
        r@ == file_error(e@),
{
    match e {
        InputFileError::MultipleMetafits(v) => InvalidArgsError::MultipleMetafits(v),
        InputFileError::MultipleMeasurementSets(v) => InvalidArgsError::MultipleMeasurementSets(v),
        other => InvalidArgsError::InputFile(other),
    }
}

fn first_of(v: Vec<String>) -> (r: String)
    requires
        v@.len() > 0,
    ensures
        r@ == strings_view(v@)[0],
{
    let mut v = v;
    let ghost all = v@;
    while v.len() > 1
        invariant
            v@.len() >= 1,
            v@[0] == all[0],
        decreases v@.len(),
    {
        v.pop();
    }
    v.pop().unwrap()
}

/// Chooses the input data from the input file types.
pub fn input_data_from_types(t: InputDataTypes) -> (r: Result<InputData, InvalidArgsError>)
    ensures
        match spec_input_data_from_types(t@) {
            Ok(d) => r matches Ok(x) && x@ == d,
            Err(e) => r matches Err(x) && x@ == e,
        },
{
    match (t.metafits, t.gpuboxes, t.mwafs, t.ms, t.uvfits) {
        (Some(meta), Some(gpuboxes), mwafs, None, None) => Ok(
            InputData::Raw { metafits: meta, gpuboxes, mwafs },
        ),
        (meta, None, None, Some(ms), None) => Ok(InputData::MeasurementSet { ms, metafits: meta }),
        (meta, None, None, None, Some(uvfits)) => {
            if uvfits.len() == 1 {
                Ok(InputData::Uvfits { uvfits: first_of(uvfits), metafits: meta })
            } else {
                Err(InvalidArgsError::MultipleUvfits(uvfits))
            }
        },
        _ => Err(InvalidArgsError::InvalidDataInput),
    }
}

/// Chooses the input data from the checked input paths (`None` when no
/// input data was given).
pub fn input_data(data: Option<&[CheckedPath]>) -> (r: Result<InputData, InvalidArgsError>)
    ensures
        ({
            let d = match data {
                Some(files) => Some(checked_view(files@)),
                None => None,
            };
            match spec_input_data(d) {
                Ok(x) => r matches Ok(y) && y@ == x,
                Err(e) => r matches Err(y) && y@ == e,
            }
        }),
{
    match data {
        None => Err(InvalidArgsError::NoInputData),
        Some(files) => match InputDataTypes::new(files) {
            Err(e) => Err(file_error_exec(e)),
            Ok(t) => input_data_from_types(t),
        },
    }
}

/// Dipole delays are valid when there are 16 of them, none above 32.
pub open spec fn valid_delays(delays: Seq<u32>) -> bool {
    delays.len() == 16 && forall|i: int| 0 <= i < 16 ==> #[trigger] delays[i] <= 32
}

/// Checks the dipole delays of the beam.
pub fn check_delays(delays: &[u32]) -> (r: Result<(), InvalidArgsError>)
    ensures
        r is Ok <==> valid_delays(delays@),
        r matches Err(e) ==> e is BadDelays,
{
    if delays.len() != 16 {
        return Err(InvalidArgsError::BadDelays);
    }
    let mut i: usize = 0;
    while i < 16
        invariant
            0 <= i <= 16,
            delays@.len() == 16,
            forall|k: int| 0 <= k < i ==> #[trigger] delays@[k] <= 32,
        decreases 16 - i,
    {
        if delays[i] > 32 {
            return Err(InvalidArgsError::BadDelays);
        }
        i = i + 1;
    }
    Ok(())
}

/// The index of the last `c` in `s`, or -1 when there is none.
pub open spec fn last_index_of(s: Seq<char>, c: char) -> int
    decreases s.len(),
{
    if s.len() == 0 {
        -1
    } else if s.last() == c {
        s.len() - 1
    } else {
        last_index_of(s.drop_last(), c)
    }
}

/// The last `/`-separated piece of a path that is neither empty nor `.`:
/// repeated separators are ignored and `.` components are normalised away.
pub open spec fn last_piece(s: Seq<char>) -> Option<Seq<char>>
    decreases s.len(),
{
    let k = last_index_of(s, '/');
    let piece = s.subrange(k + 1, s.len() as int);
    if piece.len() == 0 || piece == seq!['.'] {
        if 0 <= k < s.len() {
            last_piece(s.subrange(0, k))
        } else {
            None
        }
    } else {
        Some(piece)
    }
}

/// The final component of a path when it is a name (`Path::file_name`):
/// none for a path that ends in `..` or has no name at all.
pub open spec fn path_file_name(s: Seq<char>) -> Option<Seq<char>> {
    match last_piece(s) {
        Some(p) => if p == seq!['.', '.'] {
            None
        } else {
            Some(p)
        },
        None => None,
    }
}

/// What `Path::extension` gives: the part of the file name after its final
/// `.`; none when there is no file name, no `.` in it, or only a leading
/// `.`.
pub open spec fn path_extension(file: Seq<char>) -> Option<Seq<char>> {
    match path_file_name(file) {
        Some(n) => {
            let k = last_index_of(n, '.');
            if k <= 0 {
                None
            } else {
                Some(n.subrange(k + 1, n.len() as int))
            }
        },
        None => None,
    }
}

/// `std::path::Path::new(file).extension()`, as text: the extension as
/// [`path_extension`] states it, from the documentation of
/// `Path::components`, `Path::file_name` and `Path::extension` (with `/`
/// as the separator).
#[verifier::external_body]
pub(crate) fn file_extension(file: &str) -> (r: Option<String>)
    ensures
        match r {
            Some(s) => path_extension(file@) == Some(s@),
            None => path_extension(file@) is None,
        },
{
    match std::path::Path::new(file).extension() {
        Some(e) => match e.to_str() {
            Some(s) => Some(s.to_string()),
            None => None,
        },
        None => None,
    }
}

/// The kinds of output files.
#[derive(Debug, Clone, Copy, PartialEq, Eq)]
pub enum OutputFileType {
    /// Calibration solutions in hyperdrive's FITS format.
    SolutionsFits,
    /// Calibration solutions in the André Offringa binary format.
    SolutionsBin,
    /// Model visibilities in a uvfits file.
    Uvfits,
}

/// The output type an extension names.
pub open spec fn output_type_of(ext: Seq<char>) -> Option<OutputFileType> {
    if ext == "fits"@ {
        Some(OutputFileType::SolutionsFits)
    } else if ext == "bin"@ {
        Some(OutputFileType::SolutionsBin)
    } else if ext == "uvfits"@ {
        Some(OutputFileType::Uvfits)
    } else {
        None
    }
}

/// The output type of a file, or the error naming its extension (or "<no
/// extension>").
pub open spec fn spec_output_file_type(file: Seq<char>) -> Result<OutputFileType, ArgsErrModel> {
    match path_extension(file) {
        Some(ext) => match output_type_of(ext) {
            Some(t) => Ok(t),
            None => Err(ArgsErrModel::CalibrationOutputFile { ext }),
        },
        None => Err(ArgsErrModel::CalibrationOutputFile { ext: "<no extension>"@ }),
    }
}

fn str_is(s: &String, lit: &str) -> (b: bool)
    ensures
        b == (s@ == lit@),
{
    let k = String::from_str(lit);
    *s == k
}

/// Is the output file type supported?
pub fn output_file_type(file: &str) -> (r: Result<OutputFileType, InvalidArgsError>)
    ensures
        match spec_output_file_type(file@) {
            Ok(t) => r == Ok::<OutputFileType, InvalidArgsError>(t),
            Err(e) => r matches Err(x) && x@ == e,
        },
{
    match file_extension(file) {
        Some(ext) => {
            if str_is(&ext, "fits") {
                Ok(OutputFileType::SolutionsFits)
            } else if str_is(&ext, "bin") {
                Ok(OutputFileType::SolutionsBin)
            } else if str_is(&ext, "uvfits") {
                Ok(OutputFileType::Uvfits)
            } else {
                Err(InvalidArgsError::CalibrationOutputFile { ext })
            }
        },
        None => Err(
            InvalidArgsError::CalibrationOutputFile { ext: String::from_str("<no extension>") },
        ),
    }
}

/// Any delay above 32, at any of the 16 positions, makes the delays
/// invalid; and so does any number of delays other than 16.
pub proof fn lemma_delay_above_32_is_rejected(delays: Seq<u32>, i: int, v: u32)
    requires
        0 <= i < delays.len(),
        v > 32,
    ensures
        !valid_delays(delays.update(i, v)),
        delays.len() != 16 ==> !valid_delays(delays),
{
    assert(delays.update(i, v)[i] == v);
}

/// Lowering delays keeps valid delays valid.
pub proof fn lemma_lower_delays_stay_valid(delays: Seq<u32>, lower: Seq<u32>)
    requires
        valid_delays(delays),
        lower.len() == delays.len(),
        forall|i: int| 0 <= i < lower.len() ==> #[trigger] lower[i] <= delays[i],
    ensures
        valid_delays(lower),
{
}

/// A readable metafits file among the inputs is the metafits file of the
/// chosen input data, whichever kind it is.
pub proof fn lemma_given_metafits_is_kept(files: Seq<CheckedPathModel>, i: int)
    requires
        0 <= i < files.len(),
        files[i].check is Readable,
        spec_file_kind(files[i].path) == Some(FileKind::Metafits),
    ensures
        spec_input_data(Some(files)) matches Ok(d) ==> match d {
            InputDataModel::Raw { metafits, .. } => metafits == files[i].path,
            InputDataModel::MeasurementSet { metafits, .. } => metafits == Some(files[i].path),
            InputDataModel::Uvfits { metafits, .. } => metafits == Some(files[i].path),
        },
{
    lemma_check_all_keeps(files, i, FileKind::Metafits);
    if let Ok(t) = spec_check_all(empty_temp(), files) {
        if t.metafits.len() <= 1 {
            assert(t.metafits[0] == files[i].path);
        }
    }
}

/// The list of a file kind.
pub open spec fn list_of(t: TempModel, k: FileKind) -> Seq<Seq<char>> {
    match k {
        FileKind::Metafits => t.metafits,
        FileKind::Gpubox => t.gpuboxes,
        FileKind::Mwaf => t.mwafs,
        FileKind::MeasurementSet => t.ms,
        FileKind::Uvfits => t.uvfits,
    }
}

/// Checking the inputs one after another never drops a file it added: a
/// readable input of a kind is in the list of that kind.
proof fn lemma_check_all_keeps(files: Seq<CheckedPathModel>, i: int, k: FileKind)
    requires
        0 <= i < files.len(),
        files[i].check is Readable,
        spec_file_kind(files[i].path) == Some(k),
    ensures
        spec_check_all(empty_temp(), files) matches Ok(t) ==> list_of(t, k).contains(files[i].path),
    decreases files.len(),
{
    let prev = files.drop_last();
    if let Ok(t) = spec_check_all(empty_temp(), files) {
        let t0 = spec_check_all(empty_temp(), prev)->Ok_0;
        if i == files.len() - 1 {
            assert(list_of(t, k) == list_of(t0, k).push(files[i].path));
            assert(list_of(t, k)[list_of(t, k).len() - 1] == files[i].path);
        } else {
            assert(prev[i] == files[i]);
            lemma_check_all_keeps(prev, i, k);
            let j = choose|j: int|
                0 <= j < list_of(t0, k).len() && list_of(t0, k)[j] == files[i].path;
            assert(list_of(t, k).len() >= list_of(t0, k).len());
            assert(list_of(t, k)[j] == list_of(t0, k)[j]);
        }
    }
}

/// Every readable input file is part of the chosen input data, in the place
/// of its kind: gpubox and mwaf files in raw data, the measurement set or
/// the uvfits file as the input itself.
pub proof fn lemma_given_files_are_kept(files: Seq<CheckedPathModel>, i: int)
    requires
        0 <= i < files.len(),
        files[i].check is Readable,
    ensures
        spec_input_data(Some(files)) matches Ok(d) ==> {
            let p = files[i].path;
            match spec_file_kind(p) {
                Some(FileKind::Gpubox) => d matches InputDataModel::Raw { gpuboxes, .. }
                    && gpuboxes.contains(p),
                Some(FileKind::Mwaf) => d matches InputDataModel::Raw { mwafs, .. } && mwafs
                    matches Some(w) && w.contains(p),
                Some(FileKind::MeasurementSet) => d matches InputDataModel::MeasurementSet {
                    ms,
                    ..
                } && ms == p,
                Some(FileKind::Uvfits) => d matches InputDataModel::Uvfits { uvfits, .. }
                    && uvfits == p,
                _ => true,
            }
        },
{
    if let Some(k) = spec_file_kind(files[i].path) {
        lemma_check_all_keeps(files, i, k);
        if let Ok(t) = spec_check_all(empty_temp(), files) {
            if k is MeasurementSet && t.ms.len() <= 1 {
                assert(t.ms[0] == files[i].path);
            }
            if k is Uvfits && t.uvfits.len() == 1 {
                assert(t.uvfits[0] == files[i].path);
            }
        }
    }
}

} // verus!
