//! Disentangling the types of input data files.
//!
//! Whether a file exists and can be read, and what a glob pattern expands
//! to, is asked of the filesystem by the caller; the answers come here as
//! [`CheckedPath`]s, in the order in which they were asked, and this module
//! decides what each file is and which inputs are in error.

use vstd::prelude::*;

verus! {

/// What a regex of the `regex` crate, built from `pattern` (case
/// insensitive or not), says of `text`: `None` when the pattern does not
/// build, else whether `text` matches.
pub uninterp spec fn regex_match_result(
    pattern: Seq<char>,
    case_insensitive: bool,
    text: Seq<char>,
) -> Option<bool>;

/// `regex::RegexBuilder::new(pattern).case_insensitive(..).build()` and
/// `Regex::is_match(text)`: the result is the value named
/// [`regex_match_result`]; nothing more of it is stated.
#[verifier::external_body]
fn regex_match(pattern: &str, case_insensitive: bool, text: &str) -> (r: Option<bool>)
    ensures
        r == regex_match_result(pattern@, case_insensitive, text@),
{
    match regex::RegexBuilder::new(pattern).case_insensitive(case_insensitive).build() {
        Ok(re) => Some(re.is_match(text)),
        Err(_) => None,
    }
}

pub const RE_METAFITS: &'static str = "\\.metafits$";

// gpubox files should not be renamed in any way! This includes the case of
// the letters in the filename.
pub const RE_GPUBOX: &'static str = ".*gpubox.*\\.fits$";

pub const RE_MWAX: &'static str = "\\d{10}_\\d{8}(.)?\\d{6}_ch\\d{3}_\\d{3}\\.fits$";

pub const RE_MWAF: &'static str = "\\.mwaf$";

pub const RE_MS: &'static str = "\\.ms$";

pub const RE_UVFITS: &'static str = "\\.uvfits$";

/// `text` matches the pattern (a pattern that does not build matches
/// nothing).
pub open spec fn matches(pattern: &str, case_insensitive: bool, text: Seq<char>) -> bool {
    regex_match_result(pattern@, case_insensitive, text) == Some(true)
}

/// The kinds of input data files.
#[derive(Debug, Clone, Copy, PartialEq, Eq)]
pub enum FileKind {
    Metafits,
    Gpubox,
    Mwaf,
    MeasurementSet,
    Uvfits,
}

/// What a file name says the file is: the first pattern that matches, in
/// the order metafits, gpubox, MWAX, mwaf, measurement set, uvfits (MWAX
/// files are gpubox files).
pub open spec fn spec_file_kind(file: Seq<char>) -> Option<FileKind> {
    if matches(RE_METAFITS, true, file) {
        Some(FileKind::Metafits)
    } else if matches(RE_GPUBOX, false, file) {
        Some(FileKind::Gpubox)
    } else if matches(RE_MWAX, false, file) {
        Some(FileKind::Gpubox)
    } else if matches(RE_MWAF, true, file) {
        Some(FileKind::Mwaf)
    } else if matches(RE_MS, true, file) {
        Some(FileKind::MeasurementSet)
    } else if matches(RE_UVFITS, true, file) {
        Some(FileKind::Uvfits)
    } else {
        None
    }
}

fn is_match(pattern: &str, case_insensitive: bool, text: &str) -> (b: bool)
    ensures
        b == matches(pattern, case_insensitive, text@),
{
    match regex_match(pattern, case_insensitive, text) {
        Some(b) => b,
        None => false,
    }
}

/// What a file name says the file is.
pub fn file_kind(file: &str) -> (k: Option<FileKind>)
    ensures
        k == spec_file_kind(file@),
{
    if is_match(RE_METAFITS, true, file) {
        Some(FileKind::Metafits)
    } else if is_match(RE_GPUBOX, false, file) {
        Some(FileKind::Gpubox)
    } else if is_match(RE_MWAX, false, file) {
        Some(FileKind::Gpubox)
    } else if is_match(RE_MWAF, true, file) {
        Some(FileKind::Mwaf)
    } else if is_match(RE_MS, true, file) {
        Some(FileKind::MeasurementSet)
    } else if is_match(RE_UVFITS, true, file) {
        Some(FileKind::Uvfits)
    } else {
        None
    }
}

/// What the filesystem said of one file name or glob pattern.
#[derive(Debug)]
pub enum PathCheck {
    /// The file exists and can be read.
    Readable,
    /// The file exists but cannot be read.
    Unreadable,
    /// Asking whether the file can be read failed with this message.
    ReadError(String),
    /// No such file; as a glob pattern it matched files, which were all
    /// checked (they come before this entry).
    GlobExpanded,
    /// No such file, and no file matches it as a glob pattern.
    NoGlobMatches,
    /// No such file, and expanding it as a glob pattern failed with this
    /// message.
    GlobError(String),
}

/// A file name or glob pattern and what the filesystem said of it.
#[derive(Debug)]
pub struct CheckedPath {
    pub path: String,
    pub check: PathCheck,
}

/// Errors in the input files.
#[derive(Debug)]
pub enum InputFileError {
    DoesNotExist(String),
    CouldNotRead(String),
    NotRecognised(String),
    MultipleMetafits(Vec<String>),
    MultipleMeasurementSets(Vec<String>),
    Glob(String),
    IO(String, String),
}

/// The input data files, by type.
#[derive(Debug)]
pub struct InputDataTypes {
    pub metafits: Option<String>,
    pub gpuboxes: Option<Vec<String>>,
    pub mwafs: Option<Vec<String>>,
    pub ms: Option<String>,
    pub uvfits: Option<Vec<String>>,
}

/// The same as [`InputDataTypes`], but all types are allowed to be
/// multiples.
#[derive(Debug)]
pub struct InputDataTypesTemp {
    pub metafits: Vec<String>,
    pub gpuboxes: Vec<String>,
    pub mwafs: Vec<String>,
    pub ms: Vec<String>,
    pub uvfits: Vec<String>,
}

// Models.

pub enum CheckModel {
    Readable,
    Unreadable,
    ReadError(Seq<char>),
    GlobExpanded,
    NoGlobMatches,
    GlobError(Seq<char>),
}

pub struct CheckedPathModel {
    pub path: Seq<char>,
    pub check: CheckModel,
}

pub enum FileErrModel {
    DoesNotExist(Seq<char>),
    CouldNotRead(Seq<char>),
    NotRecognised(Seq<char>),
    MultipleMetafits(Seq<Seq<char>>),
    MultipleMeasurementSets(Seq<Seq<char>>),
    Glob(Seq<char>),
    IO(Seq<char>, Seq<char>),
}

pub struct TempModel {
    pub metafits: Seq<Seq<char>>,
    pub gpuboxes: Seq<Seq<char>>,
    pub mwafs: Seq<Seq<char>>,
    pub ms: Seq<Seq<char>>,
    pub uvfits: Seq<Seq<char>>,
}

pub struct TypesModel {
    pub metafits: Option<Seq<char>>,
    pub gpuboxes: Option<Seq<Seq<char>>>,
    pub mwafs: Option<Seq<Seq<char>>>,
    pub ms: Option<Seq<char>>,
    pub uvfits: Option<Seq<Seq<char>>>,
}

pub open spec fn strings_view(v: Seq<String>) -> Seq<Seq<char>> {
    v.map_values(|s: String| s@)
}

pub open spec fn opt_strings_view(o: Option<Vec<String>>) -> Option<Seq<Seq<char>>> {
    match o {
        Some(v) => Some(strings_view(v@)),
        None => None,
    }
}

pub open spec fn opt_string_view(o: Option<String>) -> Option<Seq<char>> {
    match o {
        Some(s) => Some(s@),
        None => None,
    }
}

impl View for PathCheck {
    type V = CheckModel;

    open spec fn view(&self) -> CheckModel {
        match self {
            PathCheck::Readable => CheckModel::Readable,
            PathCheck::Unreadable => CheckModel::Unreadable,
            PathCheck::ReadError(m) => CheckModel::ReadError(m@),
            PathCheck::GlobExpanded => CheckModel::GlobExpanded,
            PathCheck::NoGlobMatches => CheckModel::NoGlobMatches,
            PathCheck::GlobError(m) => CheckModel::GlobError(m@),
        }
    }
}

impl View for CheckedPath {
    type V = CheckedPathModel;

    open spec fn view(&self) -> CheckedPathModel {
        CheckedPathModel { path: self.path@, check: self.check@ }
    }
}

pub open spec fn checked_view(v: Seq<CheckedPath>) -> Seq<CheckedPathModel> {
    v.map_values(|c: CheckedPath| c@)
}

impl View for InputFileError {
    type V = FileErrModel;

    open spec fn view(&self) -> FileErrModel {
        match self {
            InputFileError::DoesNotExist(s) => FileErrModel::DoesNotExist(s@),
            InputFileError::CouldNotRead(s) => FileErrModel::CouldNotRead(s@),
            InputFileError::NotRecognised(s) => FileErrModel::NotRecognised(s@),
            InputFileError::MultipleMetafits(v) => FileErrModel::MultipleMetafits(strings_view(v@)),
            InputFileError::MultipleMeasurementSets(v) => FileErrModel::MultipleMeasurementSets(
                strings_view(v@),
            ),
            InputFileError::Glob(s) => FileErrModel::Glob(s@),
            InputFileError::IO(a, b) => FileErrModel::IO(a@, b@),
        }
    }
}

impl View for InputDataTypesTemp {
    type V = TempModel;

    open spec fn view(&self) -> TempModel {
        TempModel {
            metafits: strings_view(self.metafits@),
            gpuboxes: strings_view(self.gpuboxes@),
            mwafs: strings_view(self.mwafs@),
            ms: strings_view(self.ms@),
            uvfits: strings_view(self.uvfits@),
        }
    }
}

impl View for InputDataTypes {
    type V = TypesModel;

    open spec fn view(&self) -> TypesModel {
        TypesModel {
            metafits: opt_string_view(self.metafits),
            gpuboxes: opt_strings_view(self.gpuboxes),
            mwafs: opt_strings_view(self.mwafs),
            ms: opt_string_view(self.ms),
            uvfits: opt_strings_view(self.uvfits),
        }
    }
}

// The rules.

/// Adds a recognised file to its list, or the error for an unrecognised
/// one.
pub open spec fn spec_classify(t: TempModel, file: Seq<char>) -> Result<TempModel, FileErrModel> {
    match spec_file_kind(file) {
        Some(FileKind::Metafits) => Ok(TempModel { metafits: t.metafits.push(file), ..t }),
        Some(FileKind::Gpubox) => Ok(TempModel { gpuboxes: t.gpuboxes.push(file), ..t }),
        Some(FileKind::Mwaf) => Ok(TempModel { mwafs: t.mwafs.push(file), ..t }),
        Some(FileKind::MeasurementSet) => Ok(TempModel { ms: t.ms.push(file), ..t }),
        Some(FileKind::Uvfits) => Ok(TempModel { uvfits: t.uvfits.push(file), ..t }),
        None => Err(FileErrModel::NotRecognised(file)),
    }
}

/// One file name or glob pattern: a readable file is classified by its
/// name; a pattern whose matches were all fine (they were checked before
/// it) adds nothing itself; the rest are errors.
pub open spec fn spec_file_checker(t: TempModel, f: CheckedPathModel) -> Result<
    TempModel,
    FileErrModel,
> {
    match f.check {
        CheckModel::Readable => spec_classify(t, f.path),
        CheckModel::GlobExpanded => Ok(t),
        CheckModel::Unreadable => Err(FileErrModel::CouldNotRead(f.path)),
        CheckModel::ReadError(msg) => Err(FileErrModel::IO(f.path, msg)),
        CheckModel::NoGlobMatches => Err(FileErrModel::DoesNotExist(f.path)),
        CheckModel::GlobError(msg) => Err(FileErrModel::Glob(msg)),
    }
}

/// All the checked paths, in order, stopping at the first error.
pub open spec fn spec_check_all(t: TempModel, files: Seq<CheckedPathModel>) -> Result<
    TempModel,
    FileErrModel,
>
    decreases files.len(),
{
    if files.len() == 0 {
        Ok(t)
    } else {
        match spec_check_all(t, files.drop_last()) {
            Ok(t2) => spec_file_checker(t2, files.last()),
            Err(e) => Err(e),
        }
    }
}

pub open spec fn empty_temp() -> TempModel {
    TempModel { metafits: seq![], gpuboxes: seq![], mwafs: seq![], ms: seq![], uvfits: seq![] }
}

pub open spec fn none_if_empty(v: Seq<Seq<char>>) -> Option<Seq<Seq<char>>> {
    if v.len() == 0 {
        None
    } else {
        Some(v)
    }
}

pub open spec fn first_of(v: Seq<Seq<char>>) -> Option<Seq<char>> {
    if v.len() == 0 {
        None
    } else {
        Some(v[0])
    }
}

/// The input data types of all the checked paths: at most one metafits file
/// and at most one measurement set.
pub open spec fn spec_new(files: Seq<CheckedPathModel>) -> Result<TypesModel, FileErrModel> {
    match spec_check_all(empty_temp(), files) {
        Err(e) => Err(e),
        Ok(t) => if t.metafits.len() > 1 {
            Err(FileErrModel::MultipleMetafits(t.metafits))
        } else if t.ms.len() > 1 {
            Err(FileErrModel::MultipleMeasurementSets(t.ms))
        } else {
            Ok(
                TypesModel {
                    metafits: first_of(t.metafits),
                    gpuboxes: none_if_empty(t.gpuboxes),
                    mwafs: none_if_empty(t.mwafs),
                    ms: first_of(t.ms),
                    uvfits: none_if_empty(t.uvfits),
                },
            )
        },
    }
}

/// Every file in each list is of that list's kind.
pub open spec fn all_of_kind(v: Seq<Seq<char>>, k: FileKind) -> bool {
    forall|i: int| 0 <= i < v.len() ==> spec_file_kind(#[trigger] v[i]) == Some(k)
}

pub open spec fn temp_sorted(t: TempModel) -> bool {
    &&& all_of_kind(t.metafits, FileKind::Metafits)
    &&& all_of_kind(t.gpuboxes, FileKind::Gpubox)
    &&& all_of_kind(t.mwafs, FileKind::Mwaf)
    &&& all_of_kind(t.ms, FileKind::MeasurementSet)
    &&& all_of_kind(t.uvfits, FileKind::Uvfits)
}

/// Adding a file of a list's kind keeps the list of that kind.
proof fn lemma_push_keeps_kind(v: Seq<Seq<char>>, file: Seq<char>, k: FileKind)
    requires
        all_of_kind(v, k),
        spec_file_kind(file) == Some(k),
    ensures
        all_of_kind(v.push(file), k),
{
    assert forall|i: int| 0 <= i < v.push(file).len() implies spec_file_kind(
        #[trigger] v.push(file)[i],
    ) == Some(k) by {
        if i < v.len() {
            assert(v.push(file)[i] == v[i]);
        }
    }
}

proof fn lemma_check_all_sorted(files: Seq<CheckedPathModel>)
    ensures
        spec_check_all(empty_temp(), files) matches Ok(t) ==> temp_sorted(t),
    decreases files.len(),
{
    if files.len() > 0 {
        lemma_check_all_sorted(files.drop_last());
        if let Ok(t) = spec_check_all(empty_temp(), files.drop_last()) {
            let p = files.last().path;
            match spec_file_kind(p) {
                Some(FileKind::Metafits) => lemma_push_keeps_kind(t.metafits, p, FileKind::Metafits),
                Some(FileKind::Gpubox) => lemma_push_keeps_kind(t.gpuboxes, p, FileKind::Gpubox),
                Some(FileKind::Mwaf) => lemma_push_keeps_kind(t.mwafs, p, FileKind::Mwaf),
                Some(FileKind::MeasurementSet) => lemma_push_keeps_kind(
                    t.ms,
                    p,
                    FileKind::MeasurementSet,
                ),
                Some(FileKind::Uvfits) => lemma_push_keeps_kind(t.uvfits, p, FileKind::Uvfits),
                None => {},
            }
        }
    }
}

/// Disentangling puts each file in the list of its kind: the metafits file
/// and the measurement set (at most one of each) and every gpubox, mwaf and
/// uvfits file have names of that kind.
pub proof fn lemma_new_sorts_files(files: Seq<CheckedPathModel>)
    ensures
        spec_new(files) matches Ok(t) ==> {
            &&& t.metafits matches Some(m) ==> spec_file_kind(m) == Some(FileKind::Metafits)
            &&& t.gpuboxes matches Some(g) ==> all_of_kind(g, FileKind::Gpubox)
            &&& t.mwafs matches Some(g) ==> all_of_kind(g, FileKind::Mwaf)
            &&& t.ms matches Some(m) ==> spec_file_kind(m) == Some(FileKind::MeasurementSet)
            &&& t.uvfits matches Some(g) ==> all_of_kind(g, FileKind::Uvfits)
        },
{
    lemma_check_all_sorted(files);
}

proof fn lemma_strings_push(v: Seq<String>, s: String)
    ensures
        strings_view(v.push(s)) == strings_view(v).push(s@),
{
    assert(strings_view(v.push(s)) =~= strings_view(v).push(s@));
}

fn clone_string(s: &String) -> (r: String)
    ensures
        r@ == s@,
{
    s.clone()
}

/// Given a file name or glob pattern and what the filesystem said of it, add
/// it to the provided file types, or give the error.
pub fn file_checker(file_types: &mut InputDataTypesTemp, file: &CheckedPath) -> (r: Result<
    (),
    InputFileError,
>)
    ensures
        match spec_file_checker(old(file_types)@, file@) {
            Ok(t) => r is Ok && final(file_types)@ == t,
            Err(e) => r matches Err(x) && x@ == e && final(file_types)@ == old(file_types)@,
        },
{
    match &file.check {
        PathCheck::Readable => {},
        PathCheck::GlobExpanded => {
            return Ok(());
        },
        PathCheck::Unreadable => {
            return Err(InputFileError::CouldNotRead(clone_string(&file.path)));
        },
        PathCheck::ReadError(msg) => {
            return Err(InputFileError::IO(clone_string(&file.path), clone_string(msg)));
        },
        PathCheck::NoGlobMatches => {
            return Err(InputFileError::DoesNotExist(clone_string(&file.path)));
        },
        PathCheck::GlobError(msg) => {
            return Err(InputFileError::Glob(clone_string(msg)));
        },
    }
    let p = clone_string(&file.path);
    let ghost old_t = file_types@;
    match file_kind(file.path.as_str()) {
        Some(FileKind::Metafits) => {
            let ghost v = file_types.metafits@;
            file_types.metafits.push(p);
            proof {
                lemma_strings_push(v, p);
            }
        },
        Some(FileKind::Gpubox) => {
            let ghost v = file_types.gpuboxes@;
            file_types.gpuboxes.push(p);
            proof {
                lemma_strings_push(v, p);
            }
        },
        Some(FileKind::Mwaf) => {
            let ghost v = file_types.mwafs@;
            file_types.mwafs.push(p);
            proof {
                lemma_strings_push(v, p);
            }
        },
        Some(FileKind::MeasurementSet) => {
            let ghost v = file_types.ms@;
            file_types.ms.push(p);
            proof {
                lemma_strings_push(v, p);
            }
        },
        Some(FileKind::Uvfits) => {
            let ghost v = file_types.uvfits@;
            file_types.uvfits.push(p);
            proof {
                lemma_strings_push(v, p);
            }
        },
        None => {
            return Err(InputFileError::NotRecognised(p));
        },
    }
    Ok(())
}

fn first_string(v: &Vec<String>) -> (r: Option<String>)
    ensures
        opt_string_view(r) == first_of(strings_view(v@)),
{
    if v.len() == 0 {
        None
    } else {
        Some(clone_string(&v[0]))
    }
}

fn none_if_empty_vec(v: Vec<String>) -> (r: Option<Vec<String>>)
    ensures
        opt_strings_view(r) == none_if_empty(strings_view(v@)),
{
    if v.len() == 0 {
        None
    } else {
        Some(v)
    }
}

impl InputDataTypes {
    /// From the checked input file names and glob patterns (glob matches
    /// before the pattern that produced them), disentangle the file types
    /// and populate [InputDataTypes].
    pub fn new(files: &[CheckedPath]) -> (r: Result<Self, InputFileError>)
        ensures
            match spec_new(checked_view(files@)) {
                Ok(t) => r matches Ok(x) && x@ == t,
                Err(e) => r matches Err(x) && x@ == e,
            },
    {
        let mut temp = InputDataTypesTemp {
            metafits: Vec::new(),
            gpuboxes: Vec::new(),
            mwafs: Vec::new(),
            ms: Vec::new(),
            uvfits: Vec::new(),
        };
        assert(strings_view(temp.metafits@) =~= seq![]);
        assert(strings_view(temp.gpuboxes@) =~= seq![]);
        assert(strings_view(temp.mwafs@) =~= seq![]);
        assert(strings_view(temp.ms@) =~= seq![]);
        assert(strings_view(temp.uvfits@) =~= seq![]);
        assert(temp@ == empty_temp());
        let ghost all = checked_view(files@);
        let mut i: usize = 0;
        assert(all.take(0) =~= seq![]);
        while i < files.len()
            invariant
                0 <= i <= files@.len(),
                all == checked_view(files@),
                spec_check_all(empty_temp(), all.take(i as int)) == Ok::<TempModel, FileErrModel>(
                    temp@,
                ),
            decreases files@.len() - i,
        {
            assert(all.take(i + 1).drop_last() =~= all.take(i as int));
            assert(all.take(i + 1).last() == files@[i as int]@);
            match file_checker(&mut temp, &files[i]) {
                Ok(()) => {},
                Err(e) => {
                    proof {
                        lemma_check_all_stops(all, i as int);
                    }
                    return Err(e);
                },
            }
            i = i + 1;
        }
        assert(all.take(i as int) =~= all);
        if temp.metafits.len() > 1 {
            return Err(InputFileError::MultipleMetafits(temp.metafits));
        }
        if temp.ms.len() > 1 {
            return Err(InputFileError::MultipleMeasurementSets(temp.ms));
        }
        let metafits = first_string(&temp.metafits);
        let ms = first_string(&temp.ms);
        Ok(
            InputDataTypes {
                metafits,
                gpuboxes: none_if_empty_vec(temp.gpuboxes),
                mwafs: none_if_empty_vec(temp.mwafs),
                ms,
                uvfits: none_if_empty_vec(temp.uvfits),
            },
        )
    }
}

/// An error at one checked path is the error of all of them.
proof fn lemma_check_all_stops(all: Seq<CheckedPathModel>, i: int)
    requires
        0 <= i < all.len(),
        spec_check_all(empty_temp(), all.take(i + 1)) is Err,
    ensures
        spec_check_all(empty_temp(), all) == spec_check_all(empty_temp(), all.take(i + 1)),
    decreases all.len() - i,
{
    if i + 1 < all.len() {
        assert(all.take(i + 2).drop_last() =~= all.take(i + 1));
        lemma_check_all_stops(all, i + 1);
    } else {
        assert(all.take(i + 1) =~= all);
    }
}

} // verus!
