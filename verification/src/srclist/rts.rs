//! Reading RTS-style source lists.
//!
//! RTS sources always have a "base source", which can be thought of as a
//! non-optional component. Keywords like SOURCE, COMPONENT, POINT etc. must be
//! at the start of a line (i.e. no preceding space). Coordinates are hour
//! angle (decimal hours) and declination (degrees); flux densities are given
//! in the "list" style.
//!
//! The reader is a state machine fed one line at a time. Numbers stay the
//! words they were written as; what floating point says of each word (does it
//! parse, is it in range) comes with the line as [`NumFacts`]. Where the
//! format needs floating-point work in the middle of a decision (summing the
//! flux densities of a source, sorting flux densities by frequency), the
//! reader stops with a [`Request`] and resumes once the caller has done it.

use vstd::prelude::*;

use crate::text::{split_whitespace, views, words};

verus! {

/// What floating point says of one word of a line: whether it parses as an
/// `f64` and, if it does, how its value compares with the format's limits.
#[derive(Debug, Clone, Copy)]
pub struct NumFacts {
    /// The word parses as an `f64`.
    pub is_float: bool,
    /// The value is not below 0 and not above 24 (an hour angle).
    pub valid_hour_angle: bool,
    /// The value is not below -90 and not above 90 (a declination).
    pub valid_declination: bool,
    /// The value truncated to a `u8`, when it is neither below 0 nor above 255.
    pub coeff_index: Option<u8>,
    /// The value, as degrees converted to radians, lies within 1e-3 of -999:
    /// the marker of an ignored shapelet.
    pub marks_ignored_shapelet: bool,
}

/// A keyword that may only appear inside a source.
#[derive(Debug, Clone, Copy)]
pub enum Keyword {
    Freq,
    Gaussian,
    Shapelet2,
    Shapelet,
    Coeff,
    Component,
}

/// One flux density, as the words of a FREQ line.
#[derive(Debug)]
pub struct RtsFluxDensity {
    pub freq: String,
    pub i: String,
    pub q: String,
    pub u: String,
    pub v: String,
}

/// One shapelet coefficient of a COEFF line.
#[derive(Debug)]
pub struct RtsShapeletCoeff {
    pub n1: u8,
    pub n2: u8,
    pub coeff: String,
}

/// The type of a component.
#[derive(Debug)]
pub enum RtsComponentType {
    Point,
    /// A GAUSSIAN line: position angle (degrees), major and minor axes
    /// (arcminutes).
    Gaussian { pa: String, maj: String, min: String },
    /// A SHAPELET2 line and its coefficients. `marked_ignored` is set when
    /// the position angle is the marker of an ignored shapelet.
    Shapelet2 {
        pa: String,
        maj: String,
        min: String,
        marked_ignored: bool,
        coeffs: Vec<RtsShapeletCoeff>,
    },
    /// A SHAPELET line ("Jenny's shapelet type"), which is ignored: it stands
    /// for a shapelet with zero axes and a position angle of -999.
    IgnoredShapelet { coeffs: Vec<RtsShapeletCoeff> },
}

/// A component: its position (hour angle and declination), type and flux
/// densities.
#[derive(Debug)]
pub struct RtsComponent {
    pub hour_angle: String,
    pub declination: String,
    pub comp_type: RtsComponentType,
    pub flux_densities: Vec<RtsFluxDensity>,
}

/// A named source and its components.
#[derive(Debug)]
pub struct RtsSource {
    pub name: String,
    pub components: Vec<RtsComponent>,
}

/// Errors when reading an RTS source list.
#[derive(Debug)]
pub enum RtsReadError {
    ParseFloat { line_num: u32, string: String },
    FloatToInt { line_num: u32, string: String },
    NestedSources(u32),
    IncompleteSourceLine(u32),
    OutsideSource { line_num: u32, keyword: Keyword },
    IncompleteFluxLine(u32),
    IncompleteGaussianLine(u32),
    IncompleteShapelet2Line(u32),
    MultipleComponentTypes(u32),
    MissingShapeletLine(u32),
    IncompleteCoeffLine(u32),
    NoFluxDensities(u32),
    NestedComponents(u32),
    EarlyEndComponent(u32),
    NoShapeletCoeffs(u32),
    EarlyEndSource(u32),
    MissingEndComponent(u32),
    NoComponents(u32),
    UnrecognisedKeyword { line_num: u32, keyword: String },
    MissingEndSource(u32),
    NoSources(u32),
    InvalidHa(String),
    InvalidDec(String),
}

/// What the reader needs next.
#[derive(Debug, Clone, Copy)]
pub enum Request {
    /// The next line.
    NextLine,
    /// The flux densities of the last component sorted by frequency, given
    /// to [`RtsParser::flux_densities_sorted`].
    SortFluxDensities,
    /// The sign of each Stokes parameter's sum over all flux densities of the
    /// source being closed; when none is negative, a call of
    /// [`RtsParser::flux_sums_checked`].
    CheckFluxSums,
}

/// The step the reader is waiting for.
#[derive(Debug, Clone, Copy)]
pub enum Pending {
    Line,
    SortAtEndComponent,
    FluxSumsAtEndSource,
    SortAtEndSource,
}

// ---------------------------------------------------------------------------
// Models.

pub struct FluxModel {
    pub freq: Seq<char>,
    pub i: Seq<char>,
    pub q: Seq<char>,
    pub u: Seq<char>,
    pub v: Seq<char>,
}

pub struct CoeffModel {
    pub n1: u8,
    pub n2: u8,
    pub coeff: Seq<char>,
}

pub enum CompTypeModel {
    Point,
    Gaussian { pa: Seq<char>, maj: Seq<char>, min: Seq<char> },
    Shapelet2 {
        pa: Seq<char>,
        maj: Seq<char>,
        min: Seq<char>,
        marked_ignored: bool,
        coeffs: Seq<CoeffModel>,
    },
    IgnoredShapelet { coeffs: Seq<CoeffModel> },
}

pub struct CompModel {
    pub hour_angle: Seq<char>,
    pub declination: Seq<char>,
    pub comp_type: CompTypeModel,
    pub flux_densities: Seq<FluxModel>,
}

pub struct SourceModel {
    pub name: Seq<char>,
    pub components: Seq<CompModel>,
}

pub enum ErrModel {
    ParseFloat { line_num: u32, string: Seq<char> },
    FloatToInt { line_num: u32, string: Seq<char> },
    NestedSources(u32),
    IncompleteSourceLine(u32),
    OutsideSource { line_num: u32, keyword: Keyword },
    IncompleteFluxLine(u32),
    IncompleteGaussianLine(u32),
    IncompleteShapelet2Line(u32),
    MultipleComponentTypes(u32),
    MissingShapeletLine(u32),
    IncompleteCoeffLine(u32),
    NoFluxDensities(u32),
    NestedComponents(u32),
    EarlyEndComponent(u32),
    NoShapeletCoeffs(u32),
    EarlyEndSource(u32),
    MissingEndComponent(u32),
    NoComponents(u32),
    UnrecognisedKeyword { line_num: u32, keyword: Seq<char> },
    MissingEndSource(u32),
    NoSources(u32),
    InvalidHa(Seq<char>),
    InvalidDec(Seq<char>),
}

/// The state of the reader.
pub struct ParserModel {
    pub line_num: u32,
    pub in_source: bool,
    pub in_component: bool,
    pub in_shapelet: bool,
    pub in_shapelet2: bool,
    pub component_type_set: bool,
    pub source_name: Seq<char>,
    /// The components of the source being read.
    pub components: Seq<CompModel>,
    /// The sources read so far.
    pub sources: Seq<SourceModel>,
    pub pending: Pending,
}

impl View for RtsFluxDensity {
    type V = FluxModel;

    open spec fn view(&self) -> FluxModel {
        FluxModel { freq: self.freq@, i: self.i@, q: self.q@, u: self.u@, v: self.v@ }
    }
}

impl View for RtsShapeletCoeff {
    type V = CoeffModel;

    open spec fn view(&self) -> CoeffModel {
        CoeffModel { n1: self.n1, n2: self.n2, coeff: self.coeff@ }
    }
}

pub open spec fn coeffs_view(v: Seq<RtsShapeletCoeff>) -> Seq<CoeffModel> {
    v.map_values(|c: RtsShapeletCoeff| c@)
}

pub open spec fn fds_view(v: Seq<RtsFluxDensity>) -> Seq<FluxModel> {
    v.map_values(|f: RtsFluxDensity| f@)
}

impl View for RtsComponentType {
    type V = CompTypeModel;

    open spec fn view(&self) -> CompTypeModel {
        match self {
            RtsComponentType::Point => CompTypeModel::Point,
            RtsComponentType::Gaussian { pa, maj, min } => CompTypeModel::Gaussian {
                pa: pa@,
                maj: maj@,
                min: min@,
            },
            RtsComponentType::Shapelet2 { pa, maj, min, marked_ignored, coeffs } =>
                CompTypeModel::Shapelet2 {
                pa: pa@,
                maj: maj@,
                min: min@,
                marked_ignored: *marked_ignored,
                coeffs: coeffs_view(coeffs@),
            },
            RtsComponentType::IgnoredShapelet { coeffs } => CompTypeModel::IgnoredShapelet {
                coeffs: coeffs_view(coeffs@),
            },
        }
    }
}

impl View for RtsComponent {
    type V = CompModel;

    open spec fn view(&self) -> CompModel {
        CompModel {
            hour_angle: self.hour_angle@,
            declination: self.declination@,
            comp_type: self.comp_type@,
            flux_densities: fds_view(self.flux_densities@),
        }
    }
}

pub open spec fn comps_view(v: Seq<RtsComponent>) -> Seq<CompModel> {
    v.map_values(|c: RtsComponent| c@)
}

impl View for RtsSource {
    type V = SourceModel;

    open spec fn view(&self) -> SourceModel {
        SourceModel { name: self.name@, components: comps_view(self.components@) }
    }
}

pub open spec fn sources_view(v: Seq<RtsSource>) -> Seq<SourceModel> {
    v.map_values(|s: RtsSource| s@)
}

impl View for RtsReadError {
    type V = ErrModel;

    open spec fn view(&self) -> ErrModel {
        match self {
            RtsReadError::ParseFloat { line_num, string } => ErrModel::ParseFloat {
                line_num: *line_num,
                string: string@,
            },
            RtsReadError::FloatToInt { line_num, string } => ErrModel::FloatToInt {
                line_num: *line_num,
                string: string@,
            },
            RtsReadError::NestedSources(n) => ErrModel::NestedSources(*n),
            RtsReadError::IncompleteSourceLine(n) => ErrModel::IncompleteSourceLine(*n),
            RtsReadError::OutsideSource { line_num, keyword } => ErrModel::OutsideSource {
                line_num: *line_num,
                keyword: *keyword,
            },
            RtsReadError::IncompleteFluxLine(n) => ErrModel::IncompleteFluxLine(*n),
            RtsReadError::IncompleteGaussianLine(n) => ErrModel::IncompleteGaussianLine(*n),
            RtsReadError::IncompleteShapelet2Line(n) => ErrModel::IncompleteShapelet2Line(*n),
            RtsReadError::MultipleComponentTypes(n) => ErrModel::MultipleComponentTypes(*n),
            RtsReadError::MissingShapeletLine(n) => ErrModel::MissingShapeletLine(*n),
            RtsReadError::IncompleteCoeffLine(n) => ErrModel::IncompleteCoeffLine(*n),
            RtsReadError::NoFluxDensities(n) => ErrModel::NoFluxDensities(*n),
            RtsReadError::NestedComponents(n) => ErrModel::NestedComponents(*n),
            RtsReadError::EarlyEndComponent(n) => ErrModel::EarlyEndComponent(*n),
            RtsReadError::NoShapeletCoeffs(n) => ErrModel::NoShapeletCoeffs(*n),
            RtsReadError::EarlyEndSource(n) => ErrModel::EarlyEndSource(*n),
            RtsReadError::MissingEndComponent(n) => ErrModel::MissingEndComponent(*n),
            RtsReadError::NoComponents(n) => ErrModel::NoComponents(*n),
            RtsReadError::UnrecognisedKeyword { line_num, keyword } =>
                ErrModel::UnrecognisedKeyword { line_num: *line_num, keyword: keyword@ },
            RtsReadError::MissingEndSource(n) => ErrModel::MissingEndSource(*n),
            RtsReadError::NoSources(n) => ErrModel::NoSources(*n),
            RtsReadError::InvalidHa(s) => ErrModel::InvalidHa(s@),
            RtsReadError::InvalidDec(s) => ErrModel::InvalidDec(s@),
        }
    }
}

// ---------------------------------------------------------------------------
// The format, one line at a time.

/// The result of a step: the new state and request, or the error.
pub type Step = Result<(ParserModel, Request), ErrModel>;

/// Which incomplete-line error a missing number gives.
#[derive(Debug, Clone, Copy)]
pub enum LineKind {
    Source,
    Flux,
    Gaussian,
    Shapelet2,
    Coeff,
}

pub open spec fn incomplete(kind: LineKind, ln: u32) -> ErrModel {
    match kind {
        LineKind::Source => ErrModel::IncompleteSourceLine(ln),
        LineKind::Flux => ErrModel::IncompleteFluxLine(ln),
        LineKind::Gaussian => ErrModel::IncompleteGaussianLine(ln),
        LineKind::Shapelet2 => ErrModel::IncompleteShapelet2Line(ln),
        LineKind::Coeff => ErrModel::IncompleteCoeffLine(ln),
    }
}

/// The first problem with the numbers expected at words `k..end`, read in
/// order: a missing word, or a word that is not a number.
pub open spec fn number_problem(
    t: Seq<Seq<char>>,
    f: Seq<NumFacts>,
    k: int,
    end: int,
    kind: LineKind,
    ln: u32,
) -> Option<ErrModel>
    decreases end - k,
{
    if k >= end {
        None
    } else if k >= t.len() {
        Some(incomplete(kind, ln))
    } else if !f[k].is_float {
        Some(ErrModel::ParseFloat { line_num: ln, string: t[k] })
    } else {
        number_problem(t, f, k + 1, end, kind, ln)
    }
}

pub open spec fn new_point(ha: Seq<char>, dec: Seq<char>) -> CompModel {
    CompModel {
        hour_angle: ha,
        declination: dec,
        comp_type: CompTypeModel::Point,
        flux_densities: seq![],
    }
}

pub open spec fn with_last(comps: Seq<CompModel>, c: CompModel) -> Seq<CompModel> {
    comps.update(comps.len() - 1, c)
}

pub open spec fn is_shapelet(t: CompTypeModel) -> bool {
    t is Shapelet2 || t is IgnoredShapelet
}

pub open spec fn shapelet_coeffs(t: CompTypeModel) -> Seq<CoeffModel> {
    match t {
        CompTypeModel::Shapelet2 { coeffs, .. } => coeffs,
        CompTypeModel::IgnoredShapelet { coeffs } => coeffs,
        _ => seq![],
    }
}

pub open spec fn push_coeff(t: CompTypeModel, c: CoeffModel) -> CompTypeModel {
    match t {
        CompTypeModel::Shapelet2 { pa, maj, min, marked_ignored, coeffs } =>
            CompTypeModel::Shapelet2 { pa, maj, min, marked_ignored, coeffs: coeffs.push(c) },
        CompTypeModel::IgnoredShapelet { coeffs } => CompTypeModel::IgnoredShapelet {
            coeffs: coeffs.push(c),
        },
        _ => t,
    }
}

pub open spec fn spec_source(m: ParserModel, t: Seq<Seq<char>>, f: Seq<NumFacts>) -> Step {
    let ln = m.line_num;
    if m.in_source {
        Err(ErrModel::NestedSources(ln))
    } else if t.len() < 2 {
        Err(ErrModel::IncompleteSourceLine(ln))
    } else if let Some(e) = number_problem(t, f, 2, 4, LineKind::Source, ln) {
        Err(e)
    } else if !f[2].valid_hour_angle {
        Err(ErrModel::InvalidHa(t[2]))
    } else if !f[3].valid_declination {
        Err(ErrModel::InvalidDec(t[3]))
    } else {
        Ok(
            (
                ParserModel {
                    in_source: true,
                    source_name: m.source_name + t[1],
                    components: m.components.push(new_point(t[2], t[3])),
                    ..m
                },
                Request::NextLine,
            ),
        )
    }
}

pub open spec fn spec_freq(m: ParserModel, t: Seq<Seq<char>>, f: Seq<NumFacts>) -> Step {
    let ln = m.line_num;
    if !m.in_source {
        Err(ErrModel::OutsideSource { line_num: ln, keyword: Keyword::Freq })
    } else if let Some(e) = number_problem(t, f, 1, 6, LineKind::Flux, ln) {
        Err(e)
    } else {
        let last = m.components.last();
        let fd = FluxModel { freq: t[1], i: t[2], q: t[3], u: t[4], v: t[5] };
        Ok(
            (
                ParserModel {
                    components: with_last(
                        m.components,
                        CompModel { flux_densities: last.flux_densities.push(fd), ..last },
                    ),
                    ..m
                },
                Request::NextLine,
            ),
        )
    }
}

pub open spec fn spec_gaussian(m: ParserModel, t: Seq<Seq<char>>, f: Seq<NumFacts>) -> Step {
    let ln = m.line_num;
    if !m.in_source {
        Err(ErrModel::OutsideSource { line_num: ln, keyword: Keyword::Gaussian })
    } else if let Some(e) = number_problem(t, f, 1, 4, LineKind::Gaussian, ln) {
        Err(e)
    } else if m.component_type_set {
        Err(ErrModel::MultipleComponentTypes(ln))
    } else {
        let last = m.components.last();
        let ct = CompTypeModel::Gaussian { pa: t[1], maj: t[2], min: t[3] };
        Ok(
            (
                ParserModel {
                    components: with_last(m.components, CompModel { comp_type: ct, ..last }),
                    component_type_set: true,
                    ..m
                },
                Request::NextLine,
            ),
        )
    }
}

pub open spec fn spec_shapelet2(m: ParserModel, t: Seq<Seq<char>>, f: Seq<NumFacts>) -> Step {
    let ln = m.line_num;
    if !m.in_source {
        Err(ErrModel::OutsideSource { line_num: ln, keyword: Keyword::Shapelet2 })
    } else if let Some(e) = number_problem(t, f, 1, 4, LineKind::Shapelet2, ln) {
        Err(e)
    } else if m.component_type_set {
        Err(ErrModel::MultipleComponentTypes(ln))
    } else {
        let last = m.components.last();
        let ct = CompTypeModel::Shapelet2 {
            pa: t[1],
            maj: t[2],
            min: t[3],
            marked_ignored: f[1].marks_ignored_shapelet,
            coeffs: seq![],
        };
        Ok(
            (
                ParserModel {
                    components: with_last(m.components, CompModel { comp_type: ct, ..last }),
                    component_type_set: true,
                    in_shapelet2: true,
                    ..m
                },
                Request::NextLine,
            ),
        )
    }
}

pub open spec fn spec_shapelet(m: ParserModel) -> Step {
    let ln = m.line_num;
    if !m.in_source {
        Err(ErrModel::OutsideSource { line_num: ln, keyword: Keyword::Shapelet })
    } else {
        let last = m.components.last();
        let ct = CompTypeModel::IgnoredShapelet { coeffs: seq![] };
        Ok(
            (
                ParserModel {
                    components: with_last(m.components, CompModel { comp_type: ct, ..last }),
                    component_type_set: true,
                    in_shapelet: true,
                    ..m
                },
                Request::NextLine,
            ),
        )
    }
}

pub open spec fn spec_coeff(m: ParserModel, t: Seq<Seq<char>>, f: Seq<NumFacts>) -> Step {
    let ln = m.line_num;
    if !m.in_source {
        Err(ErrModel::OutsideSource { line_num: ln, keyword: Keyword::Coeff })
    } else if !m.in_shapelet && !m.in_shapelet2 {
        Err(ErrModel::MissingShapeletLine(ln))
    } else if let Some(e) = number_problem(t, f, 1, 4, LineKind::Coeff, ln) {
        Err(e)
    } else if !m.in_shapelet2 {
        Ok((m, Request::NextLine))
    } else if f[1].coeff_index is None {
        Err(ErrModel::FloatToInt { line_num: ln, string: t[1] })
    } else if f[2].coeff_index is None {
        Err(ErrModel::FloatToInt { line_num: ln, string: t[2] })
    } else {
        let last = m.components.last();
        if !is_shapelet(last.comp_type) {
            Err(ErrModel::MissingShapeletLine(ln))
        } else {
            let c = CoeffModel {
                n1: f[1].coeff_index->0,
                n2: f[2].coeff_index->0,
                coeff: t[3],
            };
            Ok(
                (
                    ParserModel {
                        components: with_last(
                            m.components,
                            CompModel { comp_type: push_coeff(last.comp_type, c), ..last },
                        ),
                        ..m
                    },
                    Request::NextLine,
                ),
            )
        }
    }
}

pub open spec fn spec_component(m: ParserModel, t: Seq<Seq<char>>, f: Seq<NumFacts>) -> Step {
    let ln = m.line_num;
    if !m.in_source {
        Err(ErrModel::OutsideSource { line_num: ln, keyword: Keyword::Component })
    } else if m.components.last().flux_densities.len() == 0 {
        Err(ErrModel::NoFluxDensities(ln))
    } else if m.in_component {
        Err(ErrModel::NestedComponents(ln))
    } else if let Some(e) = number_problem(t, f, 1, 3, LineKind::Source, ln) {
        Err(e)
    } else {
        Ok(
            (
                ParserModel {
                    in_component: true,
                    components: m.components.push(new_point(t[1], t[2])),
                    in_shapelet: false,
                    in_shapelet2: false,
                    component_type_set: false,
                    ..m
                },
                Request::NextLine,
            ),
        )
    }
}

pub open spec fn spec_end_component(m: ParserModel) -> Step {
    let ln = m.line_num;
    if !m.in_component {
        Err(ErrModel::EarlyEndComponent(ln))
    } else if m.components.last().flux_densities.len() == 0 {
        Err(ErrModel::NoFluxDensities(ln))
    } else {
        Ok((ParserModel { pending: Pending::SortAtEndComponent, ..m }, Request::SortFluxDensities))
    }
}

pub open spec fn spec_end_source(m: ParserModel) -> Step {
    let ln = m.line_num;
    if !m.in_source {
        Err(ErrModel::EarlyEndSource(ln))
    } else if m.in_component {
        Err(ErrModel::MissingEndComponent(ln))
    } else {
        Ok((ParserModel { pending: Pending::FluxSumsAtEndSource, ..m }, Request::CheckFluxSums))
    }
}

pub open spec fn is_word(w: Seq<char>, lit: &str) -> bool {
    w == lit@
}

/// One step on a line whose words are `t`, after the line count went up.
pub open spec fn spec_keyword(m: ParserModel, t: Seq<Seq<char>>, f: Seq<NumFacts>) -> Step {
    if t.len() == 0 {
        Ok((m, Request::NextLine))
    } else if is_word(t[0], "SOURCE") {
        spec_source(m, t, f)
    } else if is_word(t[0], "FREQ") {
        spec_freq(m, t, f)
    } else if is_word(t[0], "GAUSSIAN") {
        spec_gaussian(m, t, f)
    } else if is_word(t[0], "SHAPELET2") {
        spec_shapelet2(m, t, f)
    } else if is_word(t[0], "SHAPELET") {
        spec_shapelet(m)
    } else if is_word(t[0], "COEFF") {
        spec_coeff(m, t, f)
    } else if is_word(t[0], "COMPONENT") {
        spec_component(m, t, f)
    } else if is_word(t[0], "ENDCOMPONENT") {
        spec_end_component(m)
    } else if is_word(t[0], "ENDSOURCE") {
        spec_end_source(m)
    } else {
        Err(ErrModel::UnrecognisedKeyword { line_num: m.line_num, keyword: t[0] })
    }
}

/// Lines that are skipped: comments, blank lines and lines that start with
/// whitespace.
pub open spec fn is_skipped(line: Seq<char>) -> bool {
    line.len() > 0 && (line[0] == '#' || line[0] == '\n' || line[0] == ' ' || line[0] == '\t')
}

/// Reading one line (as `read_line` gives it, with its newline), with the
/// facts of its words.
pub open spec fn spec_feed_line(m: ParserModel, line: Seq<char>, f: Seq<NumFacts>) -> Step {
    let m1 = ParserModel { line_num: (m.line_num + 1) as u32, ..m };
    if is_skipped(line) {
        Ok((m1, Request::NextLine))
    } else {
        spec_keyword(m1, words(line), f)
    }
}

/// A component that is an ignored shapelet: a SHAPELET component, or a
/// SHAPELET2 component whose position angle marks it ignored.
pub open spec fn is_ignored(c: CompModel) -> bool {
    match c.comp_type {
        CompTypeModel::IgnoredShapelet { .. } => true,
        CompTypeModel::Shapelet2 { marked_ignored, .. } => marked_ignored,
        _ => false,
    }
}

/// The indices `k..` of components that are ignored shapelets, from the
/// highest down, so that removing them one after another removes each.
pub open spec fn ignored_from(comps: Seq<CompModel>, k: int) -> Seq<usize>
    decreases comps.len() - k,
{
    if k < 0 || k >= comps.len() {
        seq![]
    } else {
        let rest = ignored_from(comps, k + 1);
        if is_ignored(comps[k]) {
            rest.push(k as usize)
        } else {
            rest
        }
    }
}

/// Removing, one after another, the elements at the given indices.
pub open spec fn remove_all<A>(s: Seq<A>, idx: Seq<usize>) -> Seq<A>
    decreases idx.len(),
{
    if idx.len() == 0 || idx[0] >= s.len() {
        s
    } else {
        remove_all(s.remove(idx[0] as int), idx.drop_first())
    }
}

/// Every removal finds its index in range.
pub open spec fn removals_in_range<A>(s: Seq<A>, idx: Seq<usize>) -> bool
    decreases idx.len(),
{
    idx.len() == 0 || (idx[0] < s.len() && removals_in_range(
        s.remove(idx[0] as int),
        idx.drop_first(),
    ))
}

/// The indices of the ignored shapelets of the source being closed.
pub open spec fn closing_found(m: ParserModel) -> Seq<usize> {
    ignored_from(m.components, 0)
}

/// The components of the source being closed once ignored shapelets are
/// removed.
pub open spec fn closing_components(m: ParserModel) -> Seq<CompModel> {
    remove_all(m.components, closing_found(m))
}

/// The indices are strictly decreasing.
pub open spec fn strictly_decreasing(idx: Seq<usize>) -> bool {
    forall|i: int, j: int| 0 <= i < j < idx.len() ==> #[trigger] idx[i] > #[trigger] idx[j]
}

/// The ignored shapelets from `k` on are indices from `k` up to the last
/// component, from the highest down.
proof fn lemma_ignored_from_shape(comps: Seq<CompModel>, k: int)
    requires
        0 <= k <= comps.len(),
        comps.len() <= usize::MAX,
    ensures
        strictly_decreasing(ignored_from(comps, k)),
        forall|i: int|
            0 <= i < ignored_from(comps, k).len() ==> k <= #[trigger] ignored_from(comps, k)[i]
                < comps.len(),
    decreases comps.len() - k,
{
    if k < comps.len() {
        lemma_ignored_from_shape(comps, k + 1);
        let rest = ignored_from(comps, k + 1);
        if is_ignored(comps[k]) {
            let r = rest.push(k as usize);
            assert(ignored_from(comps, k) == r);
            assert forall|i: int, j: int| 0 <= i < j < r.len() implies #[trigger] r[i]
                > #[trigger] r[j] by {
                if j < rest.len() {
                    assert(r[i] == rest[i] && r[j] == rest[j]);
                } else {
                    assert(r[i] == rest[i]);
                }
            }
            assert forall|i: int| 0 <= i < r.len() implies k <= #[trigger] r[i] < comps.len() by {
                if i < rest.len() {
                    assert(r[i] == rest[i]);
                }
            }
        }
    }
}

/// Removing strictly decreasing indices, all in range, one after another
/// finds each index in range.
proof fn lemma_decreasing_in_range<A>(s: Seq<A>, idx: Seq<usize>)
    requires
        strictly_decreasing(idx),
        forall|i: int| 0 <= i < idx.len() ==> #[trigger] idx[i] < s.len(),
    ensures
        removals_in_range(s, idx),
    decreases idx.len(),
{
    if idx.len() > 0 {
        let rest = idx.drop_first();
        assert forall|i: int| 0 <= i < rest.len() implies #[trigger] rest[i] < s.remove(
            idx[0] as int,
        ).len() by {
            assert(rest[i] == idx[i + 1]);
            assert(idx[0] > idx[i + 1]);
        }
        assert forall|i: int, j: int| 0 <= i < j < rest.len() implies #[trigger] rest[i]
            > #[trigger] rest[j] by {
            assert(rest[i] == idx[i + 1] && rest[j] == idx[j + 1]);
        }
        lemma_decreasing_in_range(s.remove(idx[0] as int), rest);
    }
}

/// Closing a source removes each of its ignored shapelets: every removal
/// finds its index among the source's components.
pub proof fn lemma_removals_in_range(m: ParserModel)
    requires
        m.components.len() <= usize::MAX,
    ensures
        removals_in_range(m.components, closing_found(m)),
{
    lemma_ignored_from_shape(m.components, 0);
    lemma_decreasing_in_range(m.components, closing_found(m));
}

/// Closing the source would abort: while reading a SHAPELET2 component, a
/// last remaining component that is missing or is no shapelet.
pub open spec fn spec_end_source_panics(m: ParserModel) -> bool {
    let comps = closing_components(m);
    ||| (comps.len() == 0 && closing_found(m).len() > 0 && m.in_shapelet2)
    ||| (comps.len() > 0 && comps.last().flux_densities.len() > 0 && m.in_shapelet2
        && !is_shapelet(comps.last().comp_type))
}

/// The position of the last source named `name`, or -1.
pub open spec fn source_index(sources: Seq<SourceModel>, name: Seq<char>) -> int
    decreases sources.len(),
{
    if sources.len() == 0 {
        -1
    } else if sources.last().name == name {
        sources.len() - 1
    } else {
        source_index(sources.drop_last(), name)
    }
}

/// `sources` with `s` stored under its name: replacing the source of that
/// name, or added at the end.
pub open spec fn insert_source(sources: Seq<SourceModel>, s: SourceModel) -> Seq<SourceModel> {
    let i = source_index(sources, s.name);
    if i >= 0 {
        sources.update(i, s)
    } else {
        sources.push(s)
    }
}

/// The state after a source closes with the components `comps`.
pub open spec fn closed(m: ParserModel, comps: Seq<CompModel>) -> ParserModel {
    ParserModel {
        sources: if comps.len() > 0 {
            insert_source(m.sources, SourceModel { name: m.source_name, components: comps })
        } else {
            m.sources
        },
        in_source: false,
        in_shapelet: false,
        in_shapelet2: false,
        component_type_set: false,
        source_name: seq![],
        components: seq![],
        pending: Pending::Line,
        ..m
    }
}

/// The last part of closing a source (after its last component's flux
/// densities are sorted).
pub open spec fn spec_close_source(m: ParserModel) -> Step {
    if m.in_shapelet2 && shapelet_coeffs(m.components.last().comp_type).len() == 0 {
        Err(ErrModel::NoShapeletCoeffs(m.line_num))
    } else {
        Ok((closed(m, m.components), Request::NextLine))
    }
}

/// Closing a source once its flux-density sums are known not to be
/// negative.
pub open spec fn spec_flux_sums_checked(m: ParserModel) -> Step {
    let found = closing_found(m);
    let comps = closing_components(m);
    let m1 = ParserModel { components: comps, ..m };
    if comps.len() == 0 && found.len() == 0 {
        Err(ErrModel::NoComponents(m.line_num))
    } else if comps.len() > 0 && comps.last().flux_densities.len() == 0 {
        Err(ErrModel::NoFluxDensities(m.line_num))
    } else if comps.len() > 0 {
        Ok((ParserModel { pending: Pending::SortAtEndSource, ..m1 }, Request::SortFluxDensities))
    } else {
        Ok((closed(m1, comps), Request::NextLine))
    }
}

/// `order` lists each index below `n` once.
pub open spec fn is_permutation(order: Seq<usize>, n: nat) -> bool {
    &&& order.len() == n
    &&& forall|j: int| 0 <= j < n ==> #[trigger] order[j] < n
    &&& forall|j: int, k: int| 0 <= j < k < n ==> order[j] != order[k]
}

/// `fds` in the order given.
pub open spec fn reordered(fds: Seq<FluxModel>, order: Seq<usize>) -> Seq<FluxModel> {
    Seq::new(order.len(), |j: int| fds[order[j] as int])
}

/// Continuing once the last component's flux densities are sorted.
pub open spec fn spec_sorted(m: ParserModel, order: Seq<usize>) -> Step {
    let last = m.components.last();
    let m1 = ParserModel {
        components: with_last(
            m.components,
            CompModel { flux_densities: reordered(last.flux_densities, order), ..last },
        ),
        ..m
    };
    match m.pending {
        Pending::SortAtEndComponent => if m1.in_shapelet2 && shapelet_coeffs(
            m1.components.last().comp_type,
        ).len() == 0 {
            Err(ErrModel::NoShapeletCoeffs(m.line_num))
        } else {
            Ok(
                (
                    ParserModel {
                        in_component: false,
                        in_shapelet: false,
                        in_shapelet2: false,
                        component_type_set: false,
                        pending: Pending::Line,
                        ..m1
                    },
                    Request::NextLine,
                ),
            )
        },
        _ => spec_close_source(m1),
    }
}

/// The end of the input.
pub open spec fn spec_finish(m: ParserModel) -> Result<Seq<SourceModel>, ErrModel> {
    if m.in_source {
        Err(ErrModel::MissingEndSource(m.line_num))
    } else if m.sources.len() == 0 {
        Err(ErrModel::NoSources(m.line_num))
    } else {
        Ok(m.sources)
    }
}

pub open spec fn initial_model() -> ParserModel {
    ParserModel {
        line_num: 0,
        in_source: false,
        in_component: false,
        in_shapelet: false,
        in_shapelet2: false,
        component_type_set: false,
        source_name: seq![],
        components: seq![],
        sources: seq![],
        pending: Pending::Line,
    }
}

// ---------------------------------------------------------------------------
// What every state keeps.

/// Every component has flux densities, every source has components, and no
/// two sources share a name.
pub open spec fn sources_ok(sources: Seq<SourceModel>) -> bool {
    &&& forall|i: int| 0 <= i < sources.len() ==> #[trigger] sources[i].components.len() > 0
    &&& forall|i: int, j: int|
        0 <= i < sources.len() && 0 <= j < sources[i].components.len()
            ==> #[trigger] sources[i].components[j].flux_densities.len() > 0
    &&& forall|i: int, j: int|
        0 <= i < j < sources.len() ==> #[trigger] sources[i].name != #[trigger] sources[j].name
}

/// All components but the last have flux densities.
pub open spec fn all_but_last_have_fds(comps: Seq<CompModel>) -> bool {
    forall|i: int| 0 <= i < comps.len() - 1 ==> #[trigger] comps[i].flux_densities.len() > 0
}

pub open spec fn inv(m: ParserModel) -> bool {
    &&& m.in_component ==> m.in_source
    &&& m.in_source <==> m.components.len() > 0
    &&& m.in_shapelet2 ==> m.in_source && m.component_type_set
    &&& m.in_shapelet2 ==> is_shapelet(m.components.last().comp_type)
    &&& all_but_last_have_fds(m.components)
    &&& (m.components.len() > 1 && !m.in_component) ==> m.components.last().flux_densities.len()
        > 0
    &&& sources_ok(m.sources)
    &&& match m.pending {
        Pending::Line => true,
        Pending::SortAtEndComponent => m.in_component
            && m.components.last().flux_densities.len() > 0,
        Pending::FluxSumsAtEndSource => m.in_source && !m.in_component,
        Pending::SortAtEndSource => m.in_source && !m.in_component
            && m.components.last().flux_densities.len() > 0
            && forall|i: int|
            0 <= i < m.components.len() ==> #[trigger] m.components[i].flux_densities.len() > 0,
    }
}

// ---------------------------------------------------------------------------
// The reader.

/// The reader's state.
pub struct RtsParser {
    line_num: u32,
    in_source: bool,
    in_component: bool,
    in_shapelet: bool,
    in_shapelet2: bool,
    component_type_set: bool,
    source_name: String,
    components: Vec<RtsComponent>,
    sources: Vec<RtsSource>,
    pending: Pending,
}

impl View for RtsParser {
    type V = ParserModel;

    closed spec fn view(&self) -> ParserModel {
        ParserModel {
            line_num: self.line_num,
            in_source: self.in_source,
            in_component: self.in_component,
            in_shapelet: self.in_shapelet,
            in_shapelet2: self.in_shapelet2,
            component_type_set: self.component_type_set,
            source_name: self.source_name@,
            components: comps_view(self.components@),
            sources: sources_view(self.sources@),
            pending: self.pending,
        }
    }
}

/// How a step's outcome stands against what the format says.
pub open spec fn step_is(m: ParserModel, r: Result<Request, RtsReadError>, s: Step) -> bool {
    match r {
        Ok(q) => s == Ok::<(ParserModel, Request), ErrModel>((m, q)),
        Err(e) => s == Err::<(ParserModel, Request), ErrModel>(e@),
    }
}

fn word_is(w: &String, lit: &str) -> (b: bool)
    ensures
        b == is_word(w@, lit),
{
    let k = String::from_str(lit);
    *w == k
}

fn incomplete_error(kind: LineKind, ln: u32) -> (e: RtsReadError)
    ensures
        e@ == incomplete(kind, ln),
{
    match kind {
        LineKind::Source => RtsReadError::IncompleteSourceLine(ln),
        LineKind::Flux => RtsReadError::IncompleteFluxLine(ln),
        LineKind::Gaussian => RtsReadError::IncompleteGaussianLine(ln),
        LineKind::Shapelet2 => RtsReadError::IncompleteShapelet2Line(ln),
        LineKind::Coeff => RtsReadError::IncompleteCoeffLine(ln),
    }
}

/// The first problem with the numbers expected at words `k..end`.
fn check_numbers(
    toks: &Vec<String>,
    facts: &[NumFacts],
    k: usize,
    end: usize,
    kind: LineKind,
    ln: u32,
) -> (r: Option<RtsReadError>)
    requires
        facts@.len() == toks@.len(),
        k <= end,
    ensures
        match number_problem(views(toks@), facts@, k as int, end as int, kind, ln) {
            None => r is None,
            Some(e) => r matches Some(x) && x@ == e,
        },
    decreases end - k,
{
    if k >= end {
        None
    } else if k >= toks.len() {
        Some(incomplete_error(kind, ln))
    } else if !facts[k].is_float {
        Some(RtsReadError::ParseFloat { line_num: ln, string: toks[k].clone() })
    } else {
        check_numbers(toks, facts, k + 1, end, kind, ln)
    }
}

/// No problem with the numbers at `k..end` means they are all there and all
/// numbers.
proof fn lemma_numbers_present(
    t: Seq<Seq<char>>,
    f: Seq<NumFacts>,
    k: int,
    end: int,
    kind: LineKind,
    ln: u32,
)
    requires
        k <= end,
        number_problem(t, f, k, end, kind, ln) is None,
    ensures
        k < end ==> end <= t.len(),
        forall|j: int| k <= j < end ==> #[trigger] f[j].is_float,
    decreases end - k,
{
    if k < end {
        lemma_numbers_present(t, f, k + 1, end, kind, ln);
    }
}

proof fn lemma_comps_len(v: Seq<RtsComponent>)
    requires
        v.len() <= usize::MAX,
    ensures
        comps_view(v).len() <= usize::MAX,
{
}

proof fn lemma_comps_push(v: Seq<RtsComponent>, c: RtsComponent)
    ensures
        comps_view(v.push(c)) == comps_view(v).push(c@),
{
    assert(comps_view(v.push(c)) =~= comps_view(v).push(c@));
}

proof fn lemma_comps_drop_last(v: Seq<RtsComponent>)
    requires
        v.len() > 0,
    ensures
        comps_view(v.drop_last()) == comps_view(v).drop_last(),
        comps_view(v).last() == v.last()@,
{
    assert(comps_view(v.drop_last()) =~= comps_view(v).drop_last());
}

proof fn lemma_with_last(comps: Seq<CompModel>, c: CompModel)
    requires
        comps.len() > 0,
    ensures
        with_last(comps, c) == comps.drop_last().push(c),
{
    assert(with_last(comps, c) =~= comps.drop_last().push(c));
}

proof fn lemma_fds_push(v: Seq<RtsFluxDensity>, f: RtsFluxDensity)
    ensures
        fds_view(v.push(f)) == fds_view(v).push(f@),
{
    assert(fds_view(v.push(f)) =~= fds_view(v).push(f@));
}

proof fn lemma_coeffs_push(v: Seq<RtsShapeletCoeff>, c: RtsShapeletCoeff)
    ensures
        coeffs_view(v.push(c)) == coeffs_view(v).push(c@),
{
    assert(coeffs_view(v.push(c)) =~= coeffs_view(v).push(c@));
}

impl RtsParser {
    /// A reader before the first line.
    pub fn new() -> (p: Self)
        ensures
            p@ == initial_model(),
            inv(p@),
    {
        let p = RtsParser {
            line_num: 0,
            in_source: false,
            in_component: false,
            in_shapelet: false,
            in_shapelet2: false,
            component_type_set: false,
            source_name: String::new(),
            components: Vec::new(),
            sources: Vec::new(),
            pending: Pending::Line,
        };
        assert(comps_view(p.components@) =~= seq![]);
        assert(sources_view(p.sources@) =~= seq![]);
        p
    }

    /// The number of lines read so far.
    pub fn line_num(&self) -> (n: u32)
        ensures
            n == self@.line_num,
    {
        self.line_num
    }

    /// The step the reader waits for.
    pub fn pending(&self) -> (p: Pending)
        ensures
            p == self@.pending,
    {
        self.pending
    }

    /// The name of the source being read (empty outside a source).
    pub fn source_name(&self) -> (n: &String)
        ensures
            n@ == self@.source_name,
    {
        &self.source_name
    }

    /// The components of the source being read (or closed).
    pub fn components(&self) -> (c: &Vec<RtsComponent>)
        ensures
            comps_view(c@) == self@.components,
    {
        &self.components
    }

    /// Replaces the last component's type (a component exists).
    fn set_last_type(&mut self, ct: RtsComponentType)
        requires
            old(self).components@.len() > 0,
        ensures
            final(self)@ == (ParserModel {
                components: with_last(
                    old(self)@.components,
                    CompModel { comp_type: ct@, ..old(self)@.components.last() },
                ),
                ..old(self)@
            }),
    {
        let ghost old_comps = self.components@;
        let mut last = self.components.pop().unwrap();
        proof {
            lemma_comps_drop_last(old_comps);
        }
        last.comp_type = ct;
        self.components.push(last);
        proof {
            lemma_comps_push(old_comps.drop_last(), last);
            lemma_with_last(comps_view(old_comps), last@);
        }
    }

    fn on_source(&mut self, toks: &Vec<String>, facts: &[NumFacts]) -> (r: Result<Request, RtsReadError>)
        requires
            facts@.len() == toks@.len(),
            toks@.len() > 0,
        ensures
            step_is(final(self)@, r, spec_source(old(self)@, views(toks@), facts@)),
    {
        let ln = self.line_num;
        if self.in_source {
            return Err(RtsReadError::NestedSources(ln));
        }
        if toks.len() < 2 {
            return Err(RtsReadError::IncompleteSourceLine(ln));
        }
        if let Some(e) = check_numbers(toks, facts, 2, 4, LineKind::Source, ln) {
            return Err(e);
        }
        proof {
            lemma_numbers_present(views(toks@), facts@, 2, 4, LineKind::Source, ln);
        }
        if !facts[2].valid_hour_angle {
            return Err(RtsReadError::InvalidHa(toks[2].clone()));
        }
        if !facts[3].valid_declination {
            return Err(RtsReadError::InvalidDec(toks[3].clone()));
        }
        let ghost old_comps = self.components@;
        self.in_source = true;
        self.source_name.append(toks[1].as_str());
        let c = RtsComponent {
            hour_angle: toks[2].clone(),
            declination: toks[3].clone(),
            comp_type: RtsComponentType::Point,
            flux_densities: Vec::new(),
        };
        assert(fds_view(c.flux_densities@) =~= seq![]);
        self.components.push(c);
        proof {
            lemma_comps_push(old_comps, c);
        }
        Ok(Request::NextLine)
    }

    fn on_freq(&mut self, toks: &Vec<String>, facts: &[NumFacts]) -> (r: Result<Request, RtsReadError>)
        requires
            facts@.len() == toks@.len(),
            inv(old(self)@),
        ensures
            step_is(final(self)@, r, spec_freq(old(self)@, views(toks@), facts@)),
    {
        let ln = self.line_num;
        if !self.in_source {
            return Err(RtsReadError::OutsideSource { line_num: ln, keyword: Keyword::Freq });
        }
        if let Some(e) = check_numbers(toks, facts, 1, 6, LineKind::Flux, ln) {
            return Err(e);
        }
        proof {
            lemma_numbers_present(views(toks@), facts@, 1, 6, LineKind::Flux, ln);
        }
        let fd = RtsFluxDensity {
            freq: toks[1].clone(),
            i: toks[2].clone(),
            q: toks[3].clone(),
            u: toks[4].clone(),
            v: toks[5].clone(),
        };
        let ghost old_comps = self.components@;
        let mut last = self.components.pop().unwrap();
        proof {
            lemma_comps_drop_last(old_comps);
        }
        let ghost old_fds = last.flux_densities@;
        last.flux_densities.push(fd);
        proof {
            lemma_fds_push(old_fds, fd);
        }
        self.components.push(last);
        proof {
            lemma_comps_push(old_comps.drop_last(), last);
            lemma_with_last(comps_view(old_comps), last@);
        }
        Ok(Request::NextLine)
    }

    fn on_gaussian(&mut self, toks: &Vec<String>, facts: &[NumFacts]) -> (r: Result<
        Request,
        RtsReadError,
    >)
        requires
            facts@.len() == toks@.len(),
            inv(old(self)@),
        ensures
            step_is(final(self)@, r, spec_gaussian(old(self)@, views(toks@), facts@)),
    {
        let ln = self.line_num;
        if !self.in_source {
            return Err(RtsReadError::OutsideSource { line_num: ln, keyword: Keyword::Gaussian });
        }
        if let Some(e) = check_numbers(toks, facts, 1, 4, LineKind::Gaussian, ln) {
            return Err(e);
        }
        proof {
            lemma_numbers_present(views(toks@), facts@, 1, 4, LineKind::Gaussian, ln);
        }
        if self.component_type_set {
            return Err(RtsReadError::MultipleComponentTypes(ln));
        }
        let ct = RtsComponentType::Gaussian {
            pa: toks[1].clone(),
            maj: toks[2].clone(),
            min: toks[3].clone(),
        };
        self.set_last_type(ct);
        self.component_type_set = true;
        Ok(Request::NextLine)
    }

    fn on_shapelet2(&mut self, toks: &Vec<String>, facts: &[NumFacts]) -> (r: Result<
        Request,
        RtsReadError,
    >)
        requires
            facts@.len() == toks@.len(),
            inv(old(self)@),
        ensures
            step_is(final(self)@, r, spec_shapelet2(old(self)@, views(toks@), facts@)),
    {
        let ln = self.line_num;
        if !self.in_source {
            return Err(RtsReadError::OutsideSource { line_num: ln, keyword: Keyword::Shapelet2 });
        }
        if let Some(e) = check_numbers(toks, facts, 1, 4, LineKind::Shapelet2, ln) {
            return Err(e);
        }
        proof {
            lemma_numbers_present(views(toks@), facts@, 1, 4, LineKind::Shapelet2, ln);
        }
        if self.component_type_set {
            return Err(RtsReadError::MultipleComponentTypes(ln));
        }
        let ct = RtsComponentType::Shapelet2 {
            pa: toks[1].clone(),
            maj: toks[2].clone(),
            min: toks[3].clone(),
            marked_ignored: facts[1].marks_ignored_shapelet,
            coeffs: Vec::new(),
        };
        proof {
            assert(coeffs_view(Seq::<RtsShapeletCoeff>::empty()) =~= seq![]);
        }
        self.set_last_type(ct);
        self.component_type_set = true;
        self.in_shapelet2 = true;
        Ok(Request::NextLine)
    }

    fn on_shapelet(&mut self) -> (r: Result<Request, RtsReadError>)
        requires
            inv(old(self)@),
        ensures
            step_is(final(self)@, r, spec_shapelet(old(self)@)),
    {
        let ln = self.line_num;
        if !self.in_source {
            return Err(RtsReadError::OutsideSource { line_num: ln, keyword: Keyword::Shapelet });
        }
        let ct = RtsComponentType::IgnoredShapelet { coeffs: Vec::new() };
        proof {
            assert(coeffs_view(Seq::<RtsShapeletCoeff>::empty()) =~= seq![]);
        }
        self.set_last_type(ct);
        self.component_type_set = true;
        self.in_shapelet = true;
        Ok(Request::NextLine)
    }

    fn on_coeff(&mut self, toks: &Vec<String>, facts: &[NumFacts]) -> (r: Result<
        Request,
        RtsReadError,
    >)
        requires
            facts@.len() == toks@.len(),
            inv(old(self)@),
        ensures
            step_is(final(self)@, r, spec_coeff(old(self)@, views(toks@), facts@)),
    {
        let ln = self.line_num;
        if !self.in_source {
            return Err(RtsReadError::OutsideSource { line_num: ln, keyword: Keyword::Coeff });
        }
        if !self.in_shapelet && !self.in_shapelet2 {
            return Err(RtsReadError::MissingShapeletLine(ln));
        }
        if let Some(e) = check_numbers(toks, facts, 1, 4, LineKind::Coeff, ln) {
            return Err(e);
        }
        proof {
            lemma_numbers_present(views(toks@), facts@, 1, 4, LineKind::Coeff, ln);
        }
        if !self.in_shapelet2 {
            return Ok(Request::NextLine);
        }
        let n1 = match facts[1].coeff_index {
            Some(n) => n,
            None => {
                return Err(RtsReadError::FloatToInt { line_num: ln, string: toks[1].clone() });
            },
        };
        let n2 = match facts[2].coeff_index {
            Some(n) => n,
            None => {
                return Err(RtsReadError::FloatToInt { line_num: ln, string: toks[2].clone() });
            },
        };
        let c = RtsShapeletCoeff { n1, n2, coeff: toks[3].clone() };
        let ghost old_comps = self.components@;
        let mut last = self.components.pop().unwrap();
        proof {
            lemma_comps_drop_last(old_comps);
        }
        let ghost old_last = last;
        let ct = match last.comp_type {
            RtsComponentType::Shapelet2 { pa, maj, min, marked_ignored, mut coeffs } => {
                let ghost old_coeffs = coeffs@;
                coeffs.push(c);
                proof {
                    lemma_coeffs_push(old_coeffs, c);
                }
                RtsComponentType::Shapelet2 { pa, maj, min, marked_ignored, coeffs }
            },
            RtsComponentType::IgnoredShapelet { mut coeffs } => {
                let ghost old_coeffs = coeffs@;
                coeffs.push(c);
                proof {
                    lemma_coeffs_push(old_coeffs, c);
                }
                RtsComponentType::IgnoredShapelet { coeffs }
            },
            _ => {
                return Err(RtsReadError::MissingShapeletLine(ln));
            },
        };
        let new_last = RtsComponent {
            hour_angle: last.hour_angle,
            declination: last.declination,
            comp_type: ct,
            flux_densities: last.flux_densities,
        };
        assert(new_last@ == CompModel {
            comp_type: push_coeff(old_last@.comp_type, c@),
            ..old_last@
        });
        self.components.push(new_last);
        proof {
            lemma_comps_push(old_comps.drop_last(), new_last);
            lemma_with_last(comps_view(old_comps), new_last@);
        }
        Ok(Request::NextLine)
    }

    fn on_component(&mut self, toks: &Vec<String>, facts: &[NumFacts]) -> (r: Result<
        Request,
        RtsReadError,
    >)
        requires
            facts@.len() == toks@.len(),
            inv(old(self)@),
        ensures
            step_is(final(self)@, r, spec_component(old(self)@, views(toks@), facts@)),
    {
        let ln = self.line_num;
        if !self.in_source {
            return Err(RtsReadError::OutsideSource { line_num: ln, keyword: Keyword::Component });
        }
        let n = self.components.len();
        proof {
            lemma_comps_drop_last(self.components@);
        }
        if self.components[n - 1].flux_densities.len() == 0 {
            return Err(RtsReadError::NoFluxDensities(ln));
        }
        if self.in_component {
            return Err(RtsReadError::NestedComponents(ln));
        }
        if let Some(e) = check_numbers(toks, facts, 1, 3, LineKind::Source, ln) {
            return Err(e);
        }
        proof {
            lemma_numbers_present(views(toks@), facts@, 1, 3, LineKind::Source, ln);
        }
        let ghost old_comps = self.components@;
        self.in_component = true;
        let c = RtsComponent {
            hour_angle: toks[1].clone(),
            declination: toks[2].clone(),
            comp_type: RtsComponentType::Point,
            flux_densities: Vec::new(),
        };
        assert(fds_view(c.flux_densities@) =~= seq![]);
        self.components.push(c);
        proof {
            lemma_comps_push(old_comps, c);
        }
        self.in_shapelet = false;
        self.in_shapelet2 = false;
        self.component_type_set = false;
        Ok(Request::NextLine)
    }

    fn on_end_component(&mut self) -> (r: Result<Request, RtsReadError>)
        requires
            inv(old(self)@),
        ensures
            step_is(final(self)@, r, spec_end_component(old(self)@)),
    {
        let ln = self.line_num;
        if !self.in_component {
            return Err(RtsReadError::EarlyEndComponent(ln));
        }
        let n = self.components.len();
        proof {
            lemma_comps_drop_last(self.components@);
        }
        if self.components[n - 1].flux_densities.len() == 0 {
            return Err(RtsReadError::NoFluxDensities(ln));
        }
        self.pending = Pending::SortAtEndComponent;
        Ok(Request::SortFluxDensities)
    }

    fn on_end_source(&mut self) -> (r: Result<Request, RtsReadError>)
        requires
            inv(old(self)@),
        ensures
            step_is(final(self)@, r, spec_end_source(old(self)@)),
    {
        let ln = self.line_num;
        if !self.in_source {
            return Err(RtsReadError::EarlyEndSource(ln));
        }
        if self.in_component {
            return Err(RtsReadError::MissingEndComponent(ln));
        }
        self.pending = Pending::FluxSumsAtEndSource;
        Ok(Request::CheckFluxSums)
    }

    /// Reads one line, as `read_line` gives it (with its newline), with the
    /// facts of each of its whitespace-separated words.
    pub fn feed_line(&mut self, line: &str, facts: &[NumFacts]) -> (r: Result<
        Request,
        RtsReadError,
    >)
        requires
            inv(old(self)@),
            old(self)@.pending is Line,
            old(self)@.line_num < u32::MAX,
            facts@.len() == words(line@).len(),
        ensures
            step_is(final(self)@, r, spec_feed_line(old(self)@, line@, facts@)),
            r is Ok ==> inv(final(self)@),
    {
        self.line_num = self.line_num + 1;
        let ghost m1 = self@;
        proof {
            lemma_keyword_keeps_inv(m1, words(line@), facts@);
        }
        let cs = crate::text::chars_of(line);
        if cs.len() > 0 && (cs[0] == '#' || cs[0] == '\n' || cs[0] == ' ' || cs[0] == '\t') {
            return Ok(Request::NextLine);
        }
        let toks = split_whitespace(line);
        if toks.len() == 0 {
            return Ok(Request::NextLine);
        }
        let k = &toks[0];
        if word_is(k, "SOURCE") {
            self.on_source(&toks, facts)
        } else if word_is(k, "FREQ") {
            self.on_freq(&toks, facts)
        } else if word_is(k, "GAUSSIAN") {
            self.on_gaussian(&toks, facts)
        } else if word_is(k, "SHAPELET2") {
            self.on_shapelet2(&toks, facts)
        } else if word_is(k, "SHAPELET") {
            self.on_shapelet()
        } else if word_is(k, "COEFF") {
            self.on_coeff(&toks, facts)
        } else if word_is(k, "COMPONENT") {
            self.on_component(&toks, facts)
        } else if word_is(k, "ENDCOMPONENT") {
            self.on_end_component()
        } else if word_is(k, "ENDSOURCE") {
            self.on_end_source()
        } else {
            Err(RtsReadError::UnrecognisedKeyword { line_num: self.line_num, keyword: k.clone() })
        }
    }
}

impl RtsParser {
    /// The indices of the ignored shapelets among the components of the
    /// source being closed, from the highest down.
    fn collect_ignored(&self) -> (found: Vec<usize>)
        ensures
            found@ == ignored_from(self@.components, 0),
    {
        let n = self.components.len();
        let ghost comps = self@.components;
        let mut found: Vec<usize> = Vec::new();
        let mut i: usize = n;
        proof {
            assert(comps.len() == n);
        }
        while i > 0
            invariant
                0 <= i <= n,
                n == comps.len(),
                comps == self@.components,
                found@ == ignored_from(comps, i as int),
            decreases i,
        {
            i = i - 1;
            proof {
                lemma_comps_index(self.components@, i as int);
            }
            let ignored = match &self.components[i].comp_type {
                RtsComponentType::IgnoredShapelet { .. } => true,
                RtsComponentType::Shapelet2 { marked_ignored, .. } => *marked_ignored,
                _ => false,
            };
            if ignored {
                found.push(i);
            }
        }
        found
    }

    /// Whether closing the source now would abort (see
    /// [`spec_end_source_panics`]); the caller aborts instead of calling
    /// [`RtsParser::flux_sums_checked`] when it would.
    pub fn end_source_would_panic(&self) -> (b: bool)
        requires
            inv(self@),
            self@.pending is FluxSumsAtEndSource,
        ensures
            b == spec_end_source_panics(self@),
    {
        let found = self.collect_ignored();
        let ghost all = found@;
        assert(all == closing_found(self@));
        let n = self.components.len();
        let mut ids: Vec<usize> = Vec::new();
        let mut j: usize = 0;
        while j < n
            invariant
                0 <= j <= n,
                n == self.components@.len(),
                ids@ == ident(j as nat),
            decreases n - j,
        {
            ids.push(j);
            assert(ident((j + 1) as nat) =~= ident(j as nat).push(j));
            j = j + 1;
        }
        let ghost comps = self@.components;
        proof {
            lemma_ident_maps_to(comps);
            lemma_remove_all_map(ident(n as nat), pick(comps), all);
        }
        let mut r: usize = 0;
        assert(all.skip(0) =~= all);
        while r < found.len()
            invariant
                0 <= r <= all.len(),
                found@ == all,
                n == comps.len(),
                forall|q: int| 0 <= q < ids@.len() ==> #[trigger] ids@[q] < n,
                removals_in_range(ident(n as nat), all) == removals_in_range(ids@, all.skip(r as int)),
                removals_in_range(comps, all) == removals_in_range(ident(n as nat), all),
                comps == self@.components,
                all == closing_found(self@),
                remove_all(ident(n as nat), all) == remove_all(ids@, all.skip(r as int)),
            decreases all.len() - r,
        {
            let idx = found[r];
            assert(all.skip(r as int)[0] == idx);
            assert(all.skip(r as int).drop_first() =~= all.skip(r + 1));
            if idx >= ids.len() {
                assert(!removals_in_range(ids@, all.skip(r as int)));
                assert(!removals_in_range(ident(n as nat), all));
                proof {
                    lemma_comps_len(self.components@);
                    lemma_removals_in_range(self@);
                }
                assert(false);
                return true;
            }
            let ghost before = ids@;
            ids.remove(idx);
            assert(forall|q: int| 0 <= q < ids@.len() ==> #[trigger] ids@[q] == (if q < idx { before[q] } else { before[q + 1] }));
            r = r + 1;
        }
        assert(all.skip(r as int) =~= seq![]);
        let ghost rest = remove_all(ident(n as nat), all);
        assert(closing_components(self@) == rest.map_values(pick(comps)));
        if !self.in_shapelet2 {
            return false;
        }
        if ids.len() == 0 {
            return found.len() > 0;
        }
        let last = ids[ids.len() - 1];
        proof {
            lemma_comps_index(self.components@, last as int);
        }
        let c = &self.components[last];
        if c.flux_densities.len() == 0 {
            return false;
        }
        match &c.comp_type {
            RtsComponentType::Shapelet2 { .. } => false,
            RtsComponentType::IgnoredShapelet { .. } => false,
            _ => true,
        }
    }
}

/// The component at an index.
pub open spec fn pick(comps: Seq<CompModel>) -> spec_fn(usize) -> CompModel {
    |q: usize| comps[q as int]
}

impl RtsParser {
    /// Stores the source being closed (when it has components) and leaves
    /// the source.
    fn close(&mut self)
        requires
            sources_ok(old(self)@.sources),
            old(self)@.components.len() > 0 ==> forall|j: int|
                0 <= j < old(self)@.components.len()
                    ==> #[trigger] old(self)@.components[j].flux_densities.len() > 0,
        ensures
            final(self)@ == closed(old(self)@, old(self)@.components),
            sources_ok(final(self)@.sources),
    {
        let ghost m = self@;
        let mut comps: Vec<RtsComponent> = Vec::new();
        std::mem::swap(&mut comps, &mut self.components);
        if comps.len() > 0 {
            let name = self.source_name.clone();
            let at = find_source(&self.sources, &name);
            proof {
                lemma_source_index(m.sources, m.source_name);
            }
            let ghost src_model = SourceModel { name: m.source_name, components: m.components };
            let src = RtsSource { name, components: comps };
            assert(src@ == src_model);
            match at {
                Some(i) => {
                    self.sources.set(i, src);
                    assert(sources_view(self.sources@) =~= m.sources.update(i as int, src_model));
                },
                None => {
                    self.sources.push(src);
                    assert(sources_view(self.sources@) =~= m.sources.push(src_model));
                },
            }
            proof {
                lemma_insert_keeps_ok(m.sources, src_model);
            }
        }
        self.in_source = false;
        self.in_shapelet = false;
        self.in_shapelet2 = false;
        self.component_type_set = false;
        self.source_name = String::new();
        self.pending = Pending::Line;
        assert(comps_view(self.components@) =~= seq![]);
    }

    /// Closes the source once the caller found that no Stokes parameter's
    /// flux densities sum to a negative value.
    pub fn flux_sums_checked(&mut self) -> (r: Result<Request, RtsReadError>)
        requires
            inv(old(self)@),
            old(self)@.pending is FluxSumsAtEndSource,
            !spec_end_source_panics(old(self)@),
        ensures
            step_is(final(self)@, r, spec_flux_sums_checked(old(self)@)),
            r is Ok ==> inv(final(self)@),
    {
        let ghost m = self@;
        let found = self.collect_ignored();
        let ghost all = found@;
        assert(all == closing_found(m));
        let num_comps = self.components.len();
        proof {
            assert(self.components@.len() == num_comps);
            lemma_comps_len(self.components@);
            lemma_removals_in_range(m);
        }
        let mut r: usize = 0;
        assert(all.skip(0) =~= all);
        while r < found.len()
            invariant
                0 <= r <= all.len(),
                found@ == all,
                self.line_num == m.line_num,
                self@.pending == m.pending,
                removals_in_range(self@.components, all.skip(r as int)),
                remove_all(m.components, all) == remove_all(self@.components, all.skip(r as int)),
                all_but_last_have_fds(m.components) ==> all_but_last_have_fds(self@.components),
                self@ == (ParserModel { components: self@.components, ..m }),
            decreases all.len() - r,
        {
            let idx = found[r];
            assert(all.skip(r as int)[0] == idx);
            assert(all.skip(r as int).drop_first() =~= all.skip(r + 1));
            let ghost before = self.components@;
            let _removed = self.components.remove(idx);
            proof {
                assert(comps_view(self.components@) =~= comps_view(before).remove(idx as int));
                lemma_remove_keeps_fds(comps_view(before), idx as int);
            }
            r = r + 1;
        }
        assert(all.skip(r as int) =~= seq![]);
        let ghost comps2 = self@.components;
        assert(comps2 == closing_components(m));
        let ln = self.line_num;
        let n = self.components.len();
        if n == 0 && found.len() == 0 {
            return Err(RtsReadError::NoComponents(ln));
        }
        if n > 0 {
            proof {
                lemma_comps_drop_last(self.components@);
            }
            if self.components[n - 1].flux_densities.len() == 0 {
                return Err(RtsReadError::NoFluxDensities(ln));
            }
            self.pending = Pending::SortAtEndSource;
            proof {
                assert forall|i: int| 0 <= i < comps2.len() implies #[trigger] comps2[i].flux_densities.len() > 0 by {
                    if i < comps2.len() - 1 {
                        assert(all_but_last_have_fds(comps2));
                    }
                }
            }
            return Ok(Request::SortFluxDensities);
        }
        self.close();
        Ok(Request::NextLine)
    }

    /// Whether `order` lists each index of the last component's flux
    /// densities once.
    pub fn is_order_of_last(&self, order: &[usize]) -> (b: bool)
        requires
            self@.components.len() > 0,
        ensures
            b == is_permutation(order@, self@.components.last().flux_densities.len()),
    {
        let k = self.components.len() - 1;
        proof {
            lemma_comps_drop_last(self.components@);
        }
        let n = self.components[k].flux_densities.len();
        if order.len() != n {
            return false;
        }
        let mut seen: Vec<bool> = Vec::new();
        let mut j: usize = 0;
        while j < n
            invariant
                0 <= j <= n,
                seen@.len() == j,
                forall|q: int| 0 <= q < j ==> !#[trigger] seen@[q],
            decreases n - j,
        {
            seen.push(false);
            j = j + 1;
        }
        let mut i: usize = 0;
        while i < n
            invariant
                0 <= i <= n,
                order@.len() == n,
                seen@.len() == n,
                forall|q: int| 0 <= q < i ==> #[trigger] order@[q] < n,
                forall|q: int, p: int| 0 <= q < p < i ==> order@[q] != order@[p],
                forall|v: int| 0 <= v < n ==> (#[trigger] seen@[v] <==> exists|q: int| 0 <= q < i && order@[q] == v),
            decreases n - i,
        {
            let o = order[i];
            if o >= n {
                return false;
            }
            if seen[o] {
                let ghost q = choose|q: int| 0 <= q < i && order@[q] == o;
                assert(order@[q] == order@[i as int]);
                return false;
            }
            seen.set(o, true);
            i = i + 1;
            proof {
                assert forall|v: int| 0 <= v < n implies (#[trigger] seen@[v] <==> exists|q: int| 0 <= q < i && order@[q] == v) by {
                    if v == o {
                        assert(order@[i - 1] == v);
                    } else {
                        if exists|q: int| 0 <= q < i && order@[q] == v {
                            let q = choose|q: int| 0 <= q < i && order@[q] == v;
                            assert(q != i - 1);
                        }
                    }
                }
            }
        }
        true
    }

    /// Continues once the last component's flux densities are sorted by
    /// frequency: `order[j]` is the position, before sorting, of the flux
    /// density that comes `j`th.
    pub fn flux_densities_sorted(&mut self, order: &[usize]) -> (r: Result<Request, RtsReadError>)
        requires
            inv(old(self)@),
            old(self)@.pending is SortAtEndComponent || old(self)@.pending is SortAtEndSource,
            is_permutation(order@, old(self)@.components.last().flux_densities.len()),
        ensures
            step_is(final(self)@, r, spec_sorted(old(self)@, order@)),
            r is Ok ==> inv(final(self)@),
    {
        let ghost m = self@;
        let ghost old_comps = self.components@;
        let mut last = self.components.pop().unwrap();
        proof {
            lemma_comps_drop_last(old_comps);
        }
        let mut fds: Vec<RtsFluxDensity> = Vec::new();
        std::mem::swap(&mut fds, &mut last.flux_densities);
        let ghost old_fds = fds_view(fds@);
        let mut sorted: Vec<RtsFluxDensity> = Vec::new();
        let mut j: usize = 0;
        while j < order.len()
            invariant
                0 <= j <= order@.len(),
                is_permutation(order@, old_fds.len()),
                old_fds == fds_view(fds@),
                fds_view(sorted@) == reordered(old_fds, order@).take(j as int),
            decreases order@.len() - j,
        {
            let k = order[j];
            let f = &fds[k];
            let g = RtsFluxDensity {
                freq: f.freq.clone(),
                i: f.i.clone(),
                q: f.q.clone(),
                u: f.u.clone(),
                v: f.v.clone(),
            };
            let ghost before = sorted@;
            sorted.push(g);
            proof {
                lemma_fds_push(before, g);
                assert(fds_view(sorted@) =~= reordered(old_fds, order@).take(j + 1));
            }
            j = j + 1;
        }
        assert(reordered(old_fds, order@).take(j as int) =~= reordered(old_fds, order@));
        last.flux_densities = sorted;
        let ghost new_last = last@;
        self.components.push(last);
        proof {
            lemma_comps_push(old_comps.drop_last(), last);
            lemma_with_last(comps_view(old_comps), new_last);
            lemma_with_last_keeps(m.components, new_last);
        }
        let needs_coeffs = self.in_shapelet2 && match &last_ref(&self.components).comp_type {
            RtsComponentType::Shapelet2 { coeffs, .. } => coeffs.len() == 0,
            RtsComponentType::IgnoredShapelet { coeffs } => coeffs.len() == 0,
            _ => false,
        };
        if needs_coeffs {
            return Err(RtsReadError::NoShapeletCoeffs(self.line_num));
        }
        match self.pending {
            Pending::SortAtEndComponent => {
                assert(new_last.flux_densities.len() == old_comps.last()@.flux_densities.len());
                self.in_component = false;
                self.in_shapelet = false;
                self.in_shapelet2 = false;
                self.component_type_set = false;
                self.pending = Pending::Line;
                Ok(Request::NextLine)
            },
            _ => {
                proof {
                    assert forall|i: int| 0 <= i < self@.components.len() implies #[trigger] self@.components[i].flux_densities.len() > 0 by {
                        if i < self@.components.len() - 1 {
                            assert(self@.components[i] == m.components[i]);
                        }
                    }
                }
                self.close();
                Ok(Request::NextLine)
            },
        }
    }

    /// The end of the input: the sources read.
    pub fn finish(self) -> (r: Result<Vec<RtsSource>, RtsReadError>)
        requires
            inv(self@),
            self@.pending is Line,
        ensures
            match spec_finish(self@) {
                Ok(s) => r matches Ok(v) && sources_view(v@) == s,
                Err(e) => r matches Err(x) && x@ == e,
            },
            // Every source read has components, every component has flux
            // densities, and no two sources share a name.
            r matches Ok(v) ==> sources_ok(sources_view(v@)),
    {
        if self.in_source {
            return Err(RtsReadError::MissingEndSource(self.line_num));
        }
        if self.sources.len() == 0 {
            return Err(RtsReadError::NoSources(self.line_num));
        }
        Ok(self.sources)
    }
}

/// The position of the last source named `name`.
fn find_source(sources: &Vec<RtsSource>, name: &String) -> (r: Option<usize>)
    ensures
        match r {
            Some(i) => i as int == source_index(sources_view(sources@), name@),
            None => source_index(sources_view(sources@), name@) == -1,
        },
{
    let ghost all = sources_view(sources@);
    let mut k: usize = sources.len();
    assert(all.take(k as int) =~= all);
    while k > 0
        invariant
            0 <= k <= sources@.len(),
            all == sources_view(sources@),
            source_index(all, name@) == source_index(all.take(k as int), name@),
        decreases k,
    {
        let ghost pre = all.take(k as int);
        assert(pre.drop_last() =~= all.take(k - 1));
        assert(pre.last() == all[k - 1]);
        assert(sources@[k - 1]@ == all[k - 1]);
        if sources[k - 1].name == *name {
            return Some(k - 1);
        }
        k = k - 1;
    }
    assert(all.take(0) =~= seq![]);
    None
}

fn last_ref(v: &Vec<RtsComponent>) -> (c: &RtsComponent)
    requires
        v@.len() > 0,
    ensures
        c@ == comps_view(v@).last(),
{
    proof {
        lemma_comps_drop_last(v@);
    }
    &v[v.len() - 1]
}

/// Removing an element keeps all but the last with flux densities.
proof fn lemma_remove_keeps_fds(comps: Seq<CompModel>, i: int)
    requires
        0 <= i < comps.len(),
    ensures
        all_but_last_have_fds(comps) ==> all_but_last_have_fds(comps.remove(i)),
{
    if all_but_last_have_fds(comps) {
        assert forall|k: int| 0 <= k < comps.remove(i).len() - 1 implies #[trigger] comps.remove(i)[k].flux_densities.len() > 0 by {
            if k < i {
                assert(comps.remove(i)[k] == comps[k]);
            } else {
                assert(comps.remove(i)[k] == comps[k + 1]);
            }
        }
    }
}

/// Where `source_index` points.
proof fn lemma_source_index(s: Seq<SourceModel>, name: Seq<char>)
    ensures
        -1 <= source_index(s, name) < s.len(),
        source_index(s, name) >= 0 ==> s[source_index(s, name)].name == name,
        source_index(s, name) == -1 ==> forall|j: int| 0 <= j < s.len() ==> #[trigger] s[j].name != name,
    decreases s.len(),
{
    if s.len() > 0 && s.last().name != name {
        lemma_source_index(s.drop_last(), name);
        if source_index(s, name) == -1 {
            assert forall|j: int| 0 <= j < s.len() implies #[trigger] s[j].name != name by {
                if j < s.len() - 1 {
                    assert(s[j] == s.drop_last()[j]);
                }
            }
        }
    }
}

/// Storing a source with components that all have flux densities keeps the
/// sources well formed.
proof fn lemma_insert_keeps_ok(s: Seq<SourceModel>, x: SourceModel)
    requires
        sources_ok(s),
        x.components.len() > 0,
        forall|j: int| 0 <= j < x.components.len() ==> #[trigger] x.components[j].flux_densities.len() > 0,
    ensures
        sources_ok(insert_source(s, x)),
{
    lemma_source_index(s, x.name);
    let t = insert_source(s, x);
    let i = source_index(s, x.name);
    assert forall|a: int, b: int| 0 <= a < b < t.len() implies #[trigger] t[a].name != #[trigger] t[b].name by {
        if i >= 0 {
            assert(t[a].name == s[a].name);
            assert(t[b].name == s[b].name);
        } else {
            if b == s.len() {
                assert(t[a] == s[a]);
            } else {
                assert(t[a] == s[a] && t[b] == s[b]);
            }
        }
    }
    assert forall|a: int| 0 <= a < t.len() implies #[trigger] t[a].components.len() > 0 by {
        if t[a] != x {
            assert(t[a] == s[a]);
        }
    }
    assert forall|a: int, b: int| 0 <= a < t.len() && 0 <= b < t[a].components.len() implies #[trigger] t[a].components[b].flux_densities.len() > 0 by {
        if t[a] != x {
            assert(t[a] == s[a]);
        }
    }
}

/// The indices below `n`, in order.
pub open spec fn ident(n: nat) -> Seq<usize> {
    Seq::new(n, |k: int| k as usize)
}

proof fn lemma_ident_maps_to(comps: Seq<CompModel>)
    requires
        comps.len() <= usize::MAX,
    ensures
        ident(comps.len()).map_values(pick(comps)) == comps,
{
    assert forall|q: int| 0 <= q < comps.len() implies #[trigger] ident(comps.len())[q] as int == q by {}
    assert(ident(comps.len()).map_values(pick(comps)) =~= comps);
}

proof fn lemma_comps_index(v: Seq<RtsComponent>, i: int)
    requires
        0 <= i < v.len(),
    ensures
        comps_view(v)[i] == v[i]@,
        comps_view(v).len() == v.len(),
{
}

/// Removing commutes with mapping.
proof fn lemma_remove_all_map<A, B>(s: Seq<A>, g: spec_fn(A) -> B, idx: Seq<usize>)
    ensures
        remove_all(s.map_values(g), idx) == remove_all(s, idx).map_values(g),
        removals_in_range(s.map_values(g), idx) == removals_in_range(s, idx),
    decreases idx.len(),
{
    if idx.len() > 0 && idx[0] < s.len() {
        assert(s.map_values(g).remove(idx[0] as int) =~= s.remove(idx[0] as int).map_values(g));
        lemma_remove_all_map(s.remove(idx[0] as int), g, idx.drop_first());
    }
}

/// A GAUSSIAN line read inside a source, before the component has a type
/// and with three numbers after the keyword, makes the component being read
/// a Gaussian whose position angle is the first number, major axis the
/// second and minor axis the third; nothing else of the components changes.
pub proof fn lemma_gaussian_line(m: ParserModel, line: Seq<char>, f: Seq<NumFacts>)
    requires
        inv(m),
        m.pending is Line,
        m.in_source,
        !m.component_type_set,
        !is_skipped(line),
        words(line).len() >= 4,
        words(line)[0] == "GAUSSIAN"@,
        f.len() == words(line).len(),
        f[1].is_float,
        f[2].is_float,
        f[3].is_float,
    ensures
        spec_feed_line(m, line, f) matches Ok((m2, q)) && q is NextLine && {
            let t = words(line);
            &&& m2.components.len() == m.components.len()
            &&& m2.components.last().comp_type == (CompTypeModel::Gaussian {
                pa: t[1],
                maj: t[2],
                min: t[3],
            })
            &&& m2.components.last().hour_angle == m.components.last().hour_angle
            &&& m2.components.last().declination == m.components.last().declination
            &&& m2.components.last().flux_densities == m.components.last().flux_densities
            &&& forall|j: int|
                0 <= j < m.components.len() - 1 ==> #[trigger] m2.components[j] == m.components[j]
            &&& m2.sources == m.sources
        },
{
    let t = words(line);
    reveal_strlit("GAUSSIAN");
    reveal_strlit("SOURCE");
    reveal_strlit("FREQ");
    assert(t[0] != "SOURCE"@) by {
        assert(t[0].len() != "SOURCE"@.len());
    }
    assert(t[0] != "FREQ"@) by {
        assert(t[0].len() != "FREQ"@.len());
    }
    let m1 = ParserModel { line_num: (m.line_num + 1) as u32, ..m };
    assert(number_problem(t, f, 4, 4, LineKind::Gaussian, m1.line_num) is None);
    assert(number_problem(t, f, 3, 4, LineKind::Gaussian, m1.line_num) is None);
    assert(number_problem(t, f, 2, 4, LineKind::Gaussian, m1.line_num) is None);
    assert(number_problem(t, f, 1, 4, LineKind::Gaussian, m1.line_num) is None);
    let last = m.components.last();
    lemma_with_last_keeps(
        m.components,
        CompModel { comp_type: CompTypeModel::Gaussian { pa: t[1], maj: t[2], min: t[3] }, ..last },
    );
}

/// A SOURCE line read outside a source, with a name and a valid hour angle
/// and declination, opens a source of that name whose base component is a
/// point at that hour angle (the first number after the name) and
/// declination (the second), with no flux densities yet.
pub proof fn lemma_source_line(m: ParserModel, line: Seq<char>, f: Seq<NumFacts>)
    requires
        inv(m),
        m.pending is Line,
        !m.in_source,
        !is_skipped(line),
        words(line).len() >= 4,
        words(line)[0] == "SOURCE"@,
        f.len() == words(line).len(),
        f[2].is_float,
        f[3].is_float,
        f[2].valid_hour_angle,
        f[3].valid_declination,
    ensures
        spec_feed_line(m, line, f) matches Ok((m2, q)) && q is NextLine && {
            let t = words(line);
            &&& m2.in_source
            &&& m2.source_name == m.source_name + t[1]
            &&& m2.components.len() == 1
            &&& m2.components[0].hour_angle == t[2]
            &&& m2.components[0].declination == t[3]
            &&& m2.components[0].comp_type is Point
            &&& m2.components[0].flux_densities.len() == 0
            &&& m2.sources == m.sources
        },
{
    let t = words(line);
    let ln = (m.line_num + 1) as u32;
    assert(number_problem(t, f, 4, 4, LineKind::Source, ln) is None);
    assert(number_problem(t, f, 3, 4, LineKind::Source, ln) is None);
    assert(number_problem(t, f, 2, 4, LineKind::Source, ln) is None);
    assert(m.components.len() == 0);
}

/// A FREQ line read inside a source, with five numbers after the keyword,
/// adds to the component being read the flux density whose frequency is the
/// first number and whose Stokes I, Q, U and V are the next four, in that
/// order; nothing else of the components changes.
pub proof fn lemma_freq_line(m: ParserModel, line: Seq<char>, f: Seq<NumFacts>)
    requires
        inv(m),
        m.pending is Line,
        m.in_source,
        !is_skipped(line),
        words(line).len() >= 6,
        words(line)[0] == "FREQ"@,
        f.len() == words(line).len(),
        forall|k: int| 1 <= k < 6 ==> #[trigger] f[k].is_float,
    ensures
        spec_feed_line(m, line, f) matches Ok((m2, q)) && q is NextLine && {
            let t = words(line);
            let last = m.components.last();
            &&& m2.components.len() == m.components.len()
            &&& m2.components.last().flux_densities == last.flux_densities.push(
                FluxModel { freq: t[1], i: t[2], q: t[3], u: t[4], v: t[5] },
            )
            &&& m2.components.last().comp_type == last.comp_type
            &&& m2.components.last().hour_angle == last.hour_angle
            &&& m2.components.last().declination == last.declination
            &&& forall|j: int|
                0 <= j < m.components.len() - 1 ==> #[trigger] m2.components[j] == m.components[j]
            &&& m2.sources == m.sources
        },
{
    let t = words(line);
    reveal_strlit("FREQ");
    reveal_strlit("SOURCE");
    assert(t[0] != "SOURCE"@) by {
        assert(t[0].len() != "SOURCE"@.len());
    }
    let ln = (m.line_num + 1) as u32;
    assert(f[5].is_float && f[4].is_float && f[3].is_float && f[2].is_float && f[1].is_float);
    assert(number_problem(t, f, 6, 6, LineKind::Flux, ln) is None);
    assert(number_problem(t, f, 5, 6, LineKind::Flux, ln) is None);
    assert(number_problem(t, f, 4, 6, LineKind::Flux, ln) is None);
    assert(number_problem(t, f, 3, 6, LineKind::Flux, ln) is None);
    assert(number_problem(t, f, 2, 6, LineKind::Flux, ln) is None);
    assert(number_problem(t, f, 1, 6, LineKind::Flux, ln) is None);
    let last = m.components.last();
    lemma_with_last_keeps(
        m.components,
        CompModel {
            flux_densities: last.flux_densities.push(
                FluxModel { freq: t[1], i: t[2], q: t[3], u: t[4], v: t[5] },
            ),
            ..last
        },
    );
}

/// A SHAPELET2 line read inside a source, before the component has a type
/// and with three numbers after the keyword, makes the component being read
/// a shapelet with no coefficients yet, whose position angle is the first
/// number, major axis the second and minor axis the third.
pub proof fn lemma_shapelet2_line(m: ParserModel, line: Seq<char>, f: Seq<NumFacts>)
    requires
        inv(m),
        m.pending is Line,
        m.in_source,
        !m.component_type_set,
        !is_skipped(line),
        words(line).len() >= 4,
        words(line)[0] == "SHAPELET2"@,
        f.len() == words(line).len(),
        f[1].is_float,
        f[2].is_float,
        f[3].is_float,
    ensures
        spec_feed_line(m, line, f) matches Ok((m2, q)) && q is NextLine && {
            let t = words(line);
            &&& m2.components.len() == m.components.len()
            &&& m2.components.last().comp_type == (CompTypeModel::Shapelet2 {
                pa: t[1],
                maj: t[2],
                min: t[3],
                marked_ignored: f[1].marks_ignored_shapelet,
                coeffs: seq![],
            })
            &&& m2.components.last().flux_densities == m.components.last().flux_densities
            &&& forall|j: int|
                0 <= j < m.components.len() - 1 ==> #[trigger] m2.components[j] == m.components[j]
            &&& m2.sources == m.sources
        },
{
    let t = words(line);
    reveal_strlit("SHAPELET2");
    reveal_strlit("SOURCE");
    reveal_strlit("FREQ");
    reveal_strlit("GAUSSIAN");
    assert(t[0] != "SOURCE"@) by {
        assert(t[0].len() != "SOURCE"@.len());
    }
    assert(t[0] != "FREQ"@) by {
        assert(t[0].len() != "FREQ"@.len());
    }
    assert(t[0] != "GAUSSIAN"@) by {
        assert(t[0].len() != "GAUSSIAN"@.len());
    }
    let ln = (m.line_num + 1) as u32;
    assert(number_problem(t, f, 4, 4, LineKind::Shapelet2, ln) is None);
    assert(number_problem(t, f, 3, 4, LineKind::Shapelet2, ln) is None);
    assert(number_problem(t, f, 2, 4, LineKind::Shapelet2, ln) is None);
    assert(number_problem(t, f, 1, 4, LineKind::Shapelet2, ln) is None);
    let last = m.components.last();
    lemma_with_last_keeps(
        m.components,
        CompModel {
            comp_type: CompTypeModel::Shapelet2 {
                pa: t[1],
                maj: t[2],
                min: t[3],
                marked_ignored: f[1].marks_ignored_shapelet,
                coeffs: seq![],
            },
            ..last
        },
    );
}

/// A COEFF line read in a SHAPELET2 component, with three numbers of which
/// the first two fit a `u8`, adds to the component's coefficients the one
/// whose indices are the first two numbers and whose value is the third.
pub proof fn lemma_coeff_line(m: ParserModel, line: Seq<char>, f: Seq<NumFacts>)
    requires
        inv(m),
        m.pending is Line,
        m.in_shapelet2,
        !is_skipped(line),
        words(line).len() >= 4,
        words(line)[0] == "COEFF"@,
        f.len() == words(line).len(),
        f[1].is_float,
        f[2].is_float,
        f[3].is_float,
        f[1].coeff_index is Some,
        f[2].coeff_index is Some,
    ensures
        spec_feed_line(m, line, f) matches Ok((m2, q)) && q is NextLine && {
            let t = words(line);
            let last = m.components.last();
            &&& m2.components.len() == m.components.len()
            &&& shapelet_coeffs(m2.components.last().comp_type) == shapelet_coeffs(
                last.comp_type,
            ).push(
                CoeffModel { n1: f[1].coeff_index->0, n2: f[2].coeff_index->0, coeff: t[3] },
            )
            &&& m2.components.last().flux_densities == last.flux_densities
            &&& forall|j: int|
                0 <= j < m.components.len() - 1 ==> #[trigger] m2.components[j] == m.components[j]
            &&& m2.sources == m.sources
        },
{
    let t = words(line);
    reveal_strlit("COEFF");
    reveal_strlit("SOURCE");
    reveal_strlit("FREQ");
    reveal_strlit("GAUSSIAN");
    reveal_strlit("SHAPELET2");
    reveal_strlit("SHAPELET");
    assert(t[0] != "SOURCE"@) by {
        assert(t[0].len() != "SOURCE"@.len());
    }
    assert(t[0] != "FREQ"@) by {
        assert(t[0].len() != "FREQ"@.len());
    }
    assert(t[0] != "GAUSSIAN"@) by {
        assert(t[0].len() != "GAUSSIAN"@.len());
    }
    assert(t[0] != "SHAPELET2"@) by {
        assert(t[0].len() != "SHAPELET2"@.len());
    }
    assert(t[0] != "SHAPELET"@) by {
        assert(t[0].len() != "SHAPELET"@.len());
    }
    let ln = (m.line_num + 1) as u32;
    assert(number_problem(t, f, 4, 4, LineKind::Coeff, ln) is None);
    assert(number_problem(t, f, 3, 4, LineKind::Coeff, ln) is None);
    assert(number_problem(t, f, 2, 4, LineKind::Coeff, ln) is None);
    assert(number_problem(t, f, 1, 4, LineKind::Coeff, ln) is None);
    let last = m.components.last();
    let c = CoeffModel { n1: f[1].coeff_index->0, n2: f[2].coeff_index->0, coeff: t[3] };
    lemma_with_last_keeps(
        m.components,
        CompModel { comp_type: push_coeff(last.comp_type, c), ..last },
    );
}

/// A COMPONENT line read inside a source, outside a component, after the
/// current component has flux densities and with two numbers after the
/// keyword, adds a point component at that hour angle (the first number) and
/// declination (the second), with no flux densities yet, keeping the
/// components before it.
pub proof fn lemma_component_line(m: ParserModel, line: Seq<char>, f: Seq<NumFacts>)
    requires
        inv(m),
        m.pending is Line,
        m.in_source,
        !m.in_component,
        m.components.last().flux_densities.len() > 0,
        !is_skipped(line),
        words(line).len() >= 3,
        words(line)[0] == "COMPONENT"@,
        f.len() == words(line).len(),
        f[1].is_float,
        f[2].is_float,
    ensures
        spec_feed_line(m, line, f) matches Ok((m2, q)) && q is NextLine && {
            let t = words(line);
            &&& m2.in_component
            &&& m2.components.len() == m.components.len() + 1
            &&& m2.components.last().hour_angle == t[1]
            &&& m2.components.last().declination == t[2]
            &&& m2.components.last().comp_type is Point
            &&& m2.components.last().flux_densities.len() == 0
            &&& forall|j: int|
                0 <= j < m.components.len() ==> #[trigger] m2.components[j] == m.components[j]
            &&& m2.sources == m.sources
        },
{
    let t = words(line);
    reveal_strlit("COMPONENT");
    reveal_strlit("SOURCE");
    reveal_strlit("FREQ");
    reveal_strlit("GAUSSIAN");
    reveal_strlit("SHAPELET2");
    reveal_strlit("SHAPELET");
    reveal_strlit("COEFF");
    assert(t[0] != "SOURCE"@) by {
        assert(t[0].len() != "SOURCE"@.len());
    }
    assert(t[0] != "FREQ"@) by {
        assert(t[0].len() != "FREQ"@.len());
    }
    assert(t[0] != "GAUSSIAN"@) by {
        assert(t[0].len() != "GAUSSIAN"@.len());
    }
    assert(t[0] != "SHAPELET2"@) by {
        assert(t[0][0] != "SHAPELET2"@[0]);
    }
    assert(t[0] != "SHAPELET"@) by {
        assert(t[0].len() != "SHAPELET"@.len());
    }
    assert(t[0] != "COEFF"@) by {
        assert(t[0].len() != "COEFF"@.len());
    }
    let ln = (m.line_num + 1) as u32;
    assert(number_problem(t, f, 3, 3, LineKind::Source, ln) is None);
    assert(number_problem(t, f, 2, 3, LineKind::Source, ln) is None);
    assert(number_problem(t, f, 1, 3, LineKind::Source, ln) is None);
}

/// Comments, blank lines and lines that start with whitespace change
/// nothing but the line count: keywords must be at the start of a line.
pub proof fn lemma_skipped_lines_only_count(m: ParserModel, line: Seq<char>, f: Seq<NumFacts>)
    requires
        is_skipped(line),
    ensures
        spec_feed_line(m, line, f) == Ok::<(ParserModel, Request), ErrModel>(
            (ParserModel { line_num: (m.line_num + 1) as u32, ..m }, Request::NextLine),
        ),
{
}

/// A reader that has read no source cannot finish: an input without
/// sources is an error.
pub proof fn lemma_no_sources_no_list(m: ParserModel)
    requires
        m.sources.len() == 0,
    ensures
        spec_finish(m) is Err,
{
}

/// Reading a line keeps what every state keeps.
proof fn lemma_keyword_keeps_inv(m: ParserModel, t: Seq<Seq<char>>, f: Seq<NumFacts>)
    requires
        inv(m),
        m.pending is Line,
    ensures
        spec_keyword(m, t, f) matches Ok((m2, _)) ==> inv(m2),
{
    if m.components.len() > 0 {
        lemma_with_last_keeps(m.components, m.components.last());
    }
    if t.len() == 0 {
    } else if is_word(t[0], "SOURCE") {
        if let Ok((m2, _)) = spec_source(m, t, f) {
            assert(m.components.len() == 0);
            assert(m2.components =~= seq![new_point(t[2], t[3])]);
            assert(inv(m2));
        }
    } else if is_word(t[0], "FREQ") {
        if let Ok((m2, _)) = spec_freq(m, t, f) {
            let last = m.components.last();
            lemma_with_last_keeps(m.components, CompModel { flux_densities: last.flux_densities.push(FluxModel { freq: t[1], i: t[2], q: t[3], u: t[4], v: t[5] }), ..last });
            assert(inv(m2));
        }
    } else if is_word(t[0], "GAUSSIAN") {
        if let Ok((m2, _)) = spec_gaussian(m, t, f) {
            let last = m.components.last();
            lemma_with_last_keeps(m.components, CompModel { comp_type: CompTypeModel::Gaussian { pa: t[1], maj: t[2], min: t[3] }, ..last });
            assert(inv(m2));
        }
    } else if is_word(t[0], "SHAPELET2") {
        if let Ok((m2, _)) = spec_shapelet2(m, t, f) {
            let last = m.components.last();
            let ct = CompTypeModel::Shapelet2 {
                pa: t[1],
                maj: t[2],
                min: t[3],
                marked_ignored: f[1].marks_ignored_shapelet,
                coeffs: seq![],
            };
            lemma_with_last_keeps(m.components, CompModel { comp_type: ct, ..last });
            assert(inv(m2));
        }
    } else if is_word(t[0], "SHAPELET") {
        if let Ok((m2, _)) = spec_shapelet(m) {
            let last = m.components.last();
            let ct = CompTypeModel::IgnoredShapelet { coeffs: seq![] };
            lemma_with_last_keeps(m.components, CompModel { comp_type: ct, ..last });
            assert(inv(m2));
        }
    } else if is_word(t[0], "COEFF") {
        if let Ok((m2, _)) = spec_coeff(m, t, f) {
            if m.in_shapelet2 {
                let last = m.components.last();
                let c = CoeffModel {
                    n1: f[1].coeff_index->0,
                    n2: f[2].coeff_index->0,
                    coeff: t[3],
                };
                lemma_with_last_keeps(m.components, CompModel { comp_type: push_coeff(last.comp_type, c), ..last });
            }
            assert(inv(m2));
        }
    } else if is_word(t[0], "COMPONENT") {
        if let Ok((m2, _)) = spec_component(m, t, f) {
            let c = new_point(t[1], t[2]);
            assert(m2.components == m.components.push(c));
            assert(all_but_last_have_fds(m2.components)) by {
                assert forall|i: int| 0 <= i < m2.components.len() - 1 implies #[trigger] m2.components[i].flux_densities.len() > 0 by {
                    if i < m.components.len() - 1 {
                        assert(m2.components[i] == m.components[i]);
                    }
                }
            }
            assert(inv(m2));
        }
    } else if is_word(t[0], "ENDCOMPONENT") {
    } else if is_word(t[0], "ENDSOURCE") {
    } else {
    }
}

/// Replacing the last component keeps all earlier ones.
proof fn lemma_with_last_keeps(comps: Seq<CompModel>, c: CompModel)
    requires
        comps.len() > 0,
    ensures
        with_last(comps, c).len() == comps.len(),
        with_last(comps, c).last() == c,
        all_but_last_have_fds(comps) ==> all_but_last_have_fds(with_last(comps, c)),
{
    assert(all_but_last_have_fds(comps) ==> all_but_last_have_fds(with_last(comps, c))) by {
        if all_but_last_have_fds(comps) {
            assert forall|i: int| 0 <= i < comps.len() - 1 implies #[trigger] with_last(comps, c)[i].flux_densities.len() > 0 by {
                assert(with_last(comps, c)[i] == comps[i]);
            }
        }
    }
}

} // verus!
