//! Writing WODEN-style text source lists.
//!
//! WODEN only allows for a single flux density per component. For this
//! reason, only the first flux density in a list of flux densities is
//! written. Numbers arrive already written as text (angles in degrees, axes
//! in arcminutes, frequencies in the `{:+e}` style); this module lays out
//! the lines.

use vstd::prelude::*;

use crate::text::{decimal, push_decimal, replace_spaces, spaces_to_underscores};

verus! {

/// A flux density: frequency and Stokes I, Q, U, V.
#[derive(Debug)]
pub struct WodenFluxDensity {
    pub freq: String,
    pub i: String,
    pub q: String,
    pub u: String,
    pub v: String,
}

/// The flux-density type of a component.
#[derive(Debug)]
pub enum WodenFluxType {
    List { fds: Vec<WodenFluxDensity> },
    PowerLaw { fd: WodenFluxDensity, si: String },
    CurvedPowerLaw,
}

/// A shapelet coefficient.
#[derive(Debug)]
pub struct WodenShapeletCoeff {
    pub n1: u8,
    pub n2: u8,
    pub coeff: String,
}

/// The type of a component: position angle (degrees), major and minor axes
/// (arcminutes).
#[derive(Debug)]
pub enum WodenCompType {
    Point,
    Gaussian { maj: String, min: String, pa: String },
    Shapelet { maj: String, min: String, pa: String, coeffs: Vec<WodenShapeletCoeff> },
}

/// A component: right ascension (hours) and declination (degrees).
#[derive(Debug)]
pub struct WodenComponent {
    pub ra: String,
    pub dec: String,
    pub comp_type: WodenCompType,
    pub flux_type: WodenFluxType,
}

/// A named source.
#[derive(Debug)]
pub struct WodenSource {
    pub name: String,
    pub components: Vec<WodenComponent>,
}

/// Errors when writing a source list.
#[derive(Debug)]
pub enum WriteSourceListError {
    UnsupportedFluxDensityType { source_list_type: &'static str, fd_type: &'static str },
}

// The text of each part.

pub open spec fn sp() -> Seq<char> {
    seq![' ']
}

pub open spec fn nl() -> Seq<char> {
    seq!['\n']
}

pub open spec fn fd_words(fd: WodenFluxDensity) -> Seq<char> {
    fd.freq@ + sp() + fd.i@ + sp() + fd.q@ + sp() + fd.u@ + sp() + fd.v@
}

/// Flux densities with a list of them have a first one.
pub open spec fn lists_nonempty(ft: WodenFluxType) -> bool {
    ft matches WodenFluxType::List { fds } ==> fds@.len() > 0
}

/// The lines of a flux-density type, or `None` for a curved power law, which
/// WODEN cannot take.
pub open spec fn flux_type_text(ft: WodenFluxType) -> Option<Seq<char>> {
    match ft {
        WodenFluxType::List { fds } => Some("FREQ "@ + fd_words(fds@[0]) + nl()),
        WodenFluxType::PowerLaw { fd, si } => Some(
            "LINEAR "@ + fd_words(fd) + sp() + si@ + nl(),
        ),
        WodenFluxType::CurvedPowerLaw => None,
    }
}

pub open spec fn params_text(pa: String, maj: String, min: String) -> Seq<char> {
    pa@ + sp() + maj@ + sp() + min@ + nl()
}

pub open spec fn coeff_text(c: WodenShapeletCoeff) -> Seq<char> {
    "SCOEFF "@ + decimal(c.n1 as nat) + sp() + decimal(c.n2 as nat) + sp() + c.coeff@ + nl()
}

pub open spec fn coeffs_text(cs: Seq<WodenShapeletCoeff>) -> Seq<char>
    decreases cs.len(),
{
    if cs.len() == 0 {
        seq![]
    } else {
        coeffs_text(cs.drop_last()) + coeff_text(cs.last())
    }
}

/// The lines of a component type.
pub open spec fn comp_type_text(ct: WodenCompType) -> Seq<char> {
    match ct {
        WodenCompType::Point => seq![],
        WodenCompType::Gaussian { maj, min, pa } => "GPARAMS "@ + params_text(pa, maj, min),
        WodenCompType::Shapelet { maj, min, pa, coeffs } => "SPARAMS "@ + params_text(pa, maj, min)
            + coeffs_text(coeffs@),
    }
}

pub open spec fn comp_type_word(ct: WodenCompType) -> Seq<char> {
    match ct {
        WodenCompType::Point => "POINT"@,
        WodenCompType::Gaussian { .. } => "GAUSSIAN"@,
        WodenCompType::Shapelet { .. } => "SHAPELET"@,
    }
}

/// The text of a component, and whether it was written whole (it stops
/// after its COMPONENT line when its flux-density type is not supported).
pub open spec fn component_text(c: WodenComponent) -> (Seq<char>, bool) {
    let head = "COMPONENT "@ + comp_type_word(c.comp_type) + sp() + c.ra@ + sp() + c.dec@ + nl();
    match flux_type_text(c.flux_type) {
        None => (head, false),
        Some(ft) => (head + ft + comp_type_text(c.comp_type) + "ENDCOMPONENT\n"@, true),
    }
}

/// The text of the components, up to the first one not written whole.
pub open spec fn components_text(cs: Seq<WodenComponent>) -> (Seq<char>, bool)
    decreases cs.len(),
{
    if cs.len() == 0 {
        (seq![], true)
    } else {
        let (prev, ok) = components_text(cs.drop_last());
        if !ok {
            (prev, false)
        } else {
            let (t, ok2) = component_text(cs.last());
            (prev + t, ok2)
        }
    }
}

pub open spec fn count_points(cs: Seq<WodenComponent>) -> nat
    decreases cs.len(),
{
    if cs.len() == 0 {
        0
    } else {
        count_points(cs.drop_last()) + if cs.last().comp_type is Point {
            1nat
        } else {
            0nat
        }
    }
}

pub open spec fn count_gaussians(cs: Seq<WodenComponent>) -> nat
    decreases cs.len(),
{
    if cs.len() == 0 {
        0
    } else {
        count_gaussians(cs.drop_last()) + if cs.last().comp_type is Gaussian {
            1nat
        } else {
            0nat
        }
    }
}

pub open spec fn count_shapelets(cs: Seq<WodenComponent>) -> nat
    decreases cs.len(),
{
    if cs.len() == 0 {
        0
    } else {
        count_shapelets(cs.drop_last()) + if cs.last().comp_type is Shapelet {
            1nat
        } else {
            0nat
        }
    }
}

pub open spec fn count_coeffs(cs: Seq<WodenComponent>) -> nat
    decreases cs.len(),
{
    if cs.len() == 0 {
        0
    } else {
        count_coeffs(cs.drop_last()) + match cs.last().comp_type {
            WodenCompType::Shapelet { coeffs, .. } => coeffs@.len(),
            _ => 0,
        }
    }
}

/// The SOURCE line: the name with spaces made underscores, and how many
/// points, Gaussians, shapelets and shapelet coefficients follow.
pub open spec fn source_line(s: WodenSource) -> Seq<char> {
    let cs = s.components@;
    "SOURCE "@ + spaces_to_underscores(s.name@) + " P "@ + decimal(count_points(cs)) + " G "@
        + decimal(count_gaussians(cs)) + " S "@ + decimal(count_shapelets(cs)) + sp() + decimal(
        count_coeffs(cs),
    ) + nl()
}

/// The text of a source, and whether it was written whole.
pub open spec fn source_text(s: WodenSource) -> (Seq<char>, bool) {
    let (body, ok) = components_text(s.components@);
    if ok {
        (source_line(s) + body + "ENDSOURCE\n"@, true)
    } else {
        (source_line(s) + body, false)
    }
}

/// Whether a source has a component with a curved power law, which WODEN
/// cannot take.
pub open spec fn has_curved(s: WodenSource) -> bool {
    exists|j: int|
        0 <= j < s.components@.len() && #[trigger] s.components@[j].flux_type is CurvedPowerLaw
}

/// The text of the sources: each source in turn, leaving out those with a
/// curved power law.
pub open spec fn source_list_text(sl: Seq<WodenSource>) -> Seq<char>
    decreases sl.len(),
{
    if sl.len() == 0 {
        seq![]
    } else if has_curved(sl.last()) {
        source_list_text(sl.drop_last())
    } else {
        source_list_text(sl.drop_last()) + source_text(sl.last()).0
    }
}

/// A source whose counts fit the counters and whose lists of flux densities
/// have a first one.
pub open spec fn writable(s: WodenSource) -> bool {
    let cs = s.components@;
    &&& count_points(cs) <= i32::MAX
    &&& count_gaussians(cs) <= i32::MAX
    &&& count_shapelets(cs) <= i32::MAX
    &&& count_coeffs(cs) <= u32::MAX
    &&& forall|j: int| 0 <= j < cs.len() ==> lists_nonempty(#[trigger] cs[j].flux_type)
}

pub open spec fn is_unsupported_curved(e: WriteSourceListError) -> bool {
    e matches WriteSourceListError::UnsupportedFluxDensityType { source_list_type, fd_type }
        && source_list_type@ == "WODEN"@ && fd_type@ == "curved power law"@
}

fn push_str(buf: &mut String, s: &str)
    ensures
        final(buf)@ == old(buf)@ + s@,
{
    buf.append(s);
}

fn push_fd_words(buf: &mut String, fd: &WodenFluxDensity)
    ensures
        final(buf)@ == old(buf)@ + fd_words(*fd),
{
    push_str(buf, fd.freq.as_str());
    push_str(buf, " ");
    push_str(buf, fd.i.as_str());
    push_str(buf, " ");
    push_str(buf, fd.q.as_str());
    push_str(buf, " ");
    push_str(buf, fd.u.as_str());
    push_str(buf, " ");
    push_str(buf, fd.v.as_str());
    proof {
        reveal_strlit(" ");
    }
    assert(final(buf)@ =~= old(buf)@ + fd_words(*fd));
}

fn push_params(buf: &mut String, pa: &String, maj: &String, min: &String)
    ensures
        final(buf)@ == old(buf)@ + params_text(*pa, *maj, *min),
{
    push_str(buf, pa.as_str());
    push_str(buf, " ");
    push_str(buf, maj.as_str());
    push_str(buf, " ");
    push_str(buf, min.as_str());
    push_str(buf, "\n");
    proof {
        reveal_strlit(" ");
        reveal_strlit("\n");
    }
    assert(final(buf)@ =~= old(buf)@ + params_text(*pa, *maj, *min));
}

/// Writes the lines of a component type.
pub fn write_comp_type(buf: &mut String, comp_type: &WodenCompType)
    ensures
        final(buf)@ == old(buf)@ + comp_type_text(*comp_type),
{
    match comp_type {
        WodenCompType::Point => {
            assert(old(buf)@ + seq![] =~= old(buf)@);
        },
        WodenCompType::Gaussian { maj, min, pa } => {
            push_str(buf, "GPARAMS ");
            push_params(buf, pa, maj, min);
            assert(final(buf)@ =~= old(buf)@ + comp_type_text(*comp_type));
        },
        WodenCompType::Shapelet { maj, min, pa, coeffs } => {
            push_str(buf, "SPARAMS ");
            push_params(buf, pa, maj, min);
            let ghost start = buf@;
            let mut k: usize = 0;
            assert(coeffs@.take(0) =~= seq![]);
            while k < coeffs.len()
                invariant
                    0 <= k <= coeffs@.len(),
                    buf@ == start + coeffs_text(coeffs@.take(k as int)),
                decreases coeffs@.len() - k,
            {
                let c = &coeffs[k];
                push_str(buf, "SCOEFF ");
                push_decimal(buf, c.n1 as u64);
                push_str(buf, " ");
                push_decimal(buf, c.n2 as u64);
                push_str(buf, " ");
                push_str(buf, c.coeff.as_str());
                push_str(buf, "\n");
                proof {
                    reveal_strlit(" ");
                    reveal_strlit("\n");
                    assert(coeffs@.take(k + 1).drop_last() =~= coeffs@.take(k as int));
                }
                k = k + 1;
                assert(buf@ =~= start + coeffs_text(coeffs@.take(k as int)));
            }
            assert(coeffs@.take(k as int) =~= coeffs@);
            assert(final(buf)@ =~= old(buf)@ + comp_type_text(*comp_type));
        },
    }
}

/// Writes the line of a flux-density type (for a list, its first flux
/// density); a curved power law is an error.
pub fn write_flux_type(buf: &mut String, flux_type: &WodenFluxType) -> (r: Result<
    (),
    WriteSourceListError,
>)
    requires
        lists_nonempty(*flux_type),
    ensures
        match flux_type_text(*flux_type) {
            Some(t) => r is Ok && final(buf)@ == old(buf)@ + t,
            None => r matches Err(e) && is_unsupported_curved(e) && final(buf)@ == old(buf)@,
        },
{
    match flux_type {
        WodenFluxType::List { fds } => {
            // Only use the first. WODEN can't use multiple.
            let fd = &fds[0];
            push_str(buf, "FREQ ");
            push_fd_words(buf, fd);
            push_str(buf, "\n");
            proof {
                reveal_strlit("\n");
            }
            assert(final(buf)@ =~= old(buf)@ + flux_type_text(*flux_type)->0);
        },
        WodenFluxType::PowerLaw { fd, si } => {
            push_str(buf, "LINEAR ");
            push_fd_words(buf, fd);
            push_str(buf, " ");
            push_str(buf, si.as_str());
            push_str(buf, "\n");
            proof {
                reveal_strlit(" ");
                reveal_strlit("\n");
            }
            assert(final(buf)@ =~= old(buf)@ + flux_type_text(*flux_type)->0);
        },
        WodenFluxType::CurvedPowerLaw => {
            return Err(
                WriteSourceListError::UnsupportedFluxDensityType {
                    source_list_type: "WODEN",
                    fd_type: "curved power law",
                },
            );
        },
    }
    Ok(())
}

/// Writes one component; an error when its flux-density type is not
/// supported (after its COMPONENT line).
fn write_component(buf: &mut String, comp: &WodenComponent) -> (r: Result<
    (),
    WriteSourceListError,
>)
    requires
        lists_nonempty(comp.flux_type),
    ensures
        final(buf)@ == old(buf)@ + component_text(*comp).0,
        r is Ok <==> component_text(*comp).1,
        r matches Err(e) ==> is_unsupported_curved(e),
{
    push_str(buf, "COMPONENT ");
    match comp.comp_type {
        WodenCompType::Point => push_str(buf, "POINT"),
        WodenCompType::Gaussian { .. } => push_str(buf, "GAUSSIAN"),
        WodenCompType::Shapelet { .. } => push_str(buf, "SHAPELET"),
    }
    push_str(buf, " ");
    push_str(buf, comp.ra.as_str());
    push_str(buf, " ");
    push_str(buf, comp.dec.as_str());
    push_str(buf, "\n");
    proof {
        reveal_strlit(" ");
        reveal_strlit("\n");
    }
    let ghost head = buf@;
    assert(head =~= old(buf)@ + ("COMPONENT "@ + comp_type_word(comp.comp_type) + sp() + comp.ra@
        + sp() + comp.dec@ + nl()));
    match write_flux_type(buf, &comp.flux_type) {
        Ok(()) => {},
        Err(e) => {
            return Err(e);
        },
    }
    write_comp_type(buf, &comp.comp_type);
    push_str(buf, "ENDCOMPONENT\n");
    assert(final(buf)@ =~= old(buf)@ + component_text(*comp).0);
    Ok(())
}

/// Whether a source has a component with a curved power law.
fn has_curved_power_law(source: &WodenSource) -> (b: bool)
    ensures
        b == has_curved(*source),
{
    let cs = &source.components;
    let mut k: usize = 0;
    while k < cs.len()
        invariant
            0 <= k <= cs@.len(),
            cs@ == source.components@,
            forall|j: int| 0 <= j < k ==> !(#[trigger] cs@[j].flux_type is CurvedPowerLaw),
        decreases cs@.len() - k,
    {
        if let WodenFluxType::CurvedPowerLaw = cs[k].flux_type {
            assert(cs@[k as int].flux_type is CurvedPowerLaw);
            return true;
        }
        k = k + 1;
    }
    false
}

/// Components without a curved power law are all written whole.
proof fn lemma_no_curved_written_whole(cs: Seq<WodenComponent>)
    requires
        forall|j: int| 0 <= j < cs.len() ==> !(#[trigger] cs[j].flux_type is CurvedPowerLaw),
    ensures
        components_text(cs).1,
    decreases cs.len(),
{
    if cs.len() > 0 {
        let p = cs.drop_last();
        assert forall|j: int| 0 <= j < p.len() implies !(#[trigger] p[j].flux_type is CurvedPowerLaw) by {
            assert(p[j] == cs[j]);
        }
        lemma_no_curved_written_whole(p);
        assert(!(cs[cs.len() - 1].flux_type is CurvedPowerLaw));
    }
}

/// Writes a WODEN-style source list: each source's SOURCE line (with the
/// counts of each component type and of shapelet coefficients), its
/// components and ENDSOURCE. WODEN cannot take curved power laws: a source
/// with one is left out.
pub fn write_source_list(buf: &mut String, sl: &[WodenSource]) -> (r: Result<
    (),
    WriteSourceListError,
>)
    requires
        forall|i: int| 0 <= i < sl@.len() && !has_curved(#[trigger] sl@[i]) ==> writable(sl@[i]),
    ensures
        final(buf)@ == old(buf)@ + source_list_text(sl@),
        r is Ok,
{
    let mut i: usize = 0;
    assert(sl@.take(0) =~= seq![]);
    assert(old(buf)@ + seq![] =~= old(buf)@);
    while i < sl.len()
        invariant
            0 <= i <= sl@.len(),
            forall|q: int| 0 <= q < sl@.len() && !has_curved(#[trigger] sl@[q]) ==> writable(sl@[q]),
            buf@ == old(buf)@ + source_list_text(sl@.take(i as int)),
        decreases sl@.len() - i,
    {
        let source = &sl[i];
        assert(sl@.take(i + 1).drop_last() =~= sl@.take(i as int));
        assert(sl@.take(i + 1).last() == *source);
        if !has_curved_power_law(source) {
            proof {
                lemma_no_curved_written_whole(source.components@);
            }
            let _ = write_source(buf, source);
        }
        i = i + 1;
        assert(buf@ =~= old(buf)@ + source_list_text(sl@.take(i as int)));
    }
    assert(sl@.take(i as int) =~= sl@);
    Ok(())
}

/// The counts on a SOURCE line cover every component once: points,
/// Gaussians and shapelets add up to the number of components.
pub proof fn lemma_counts_cover_components(cs: Seq<WodenComponent>)
    ensures
        count_points(cs) + count_gaussians(cs) + count_shapelets(cs) == cs.len(),
    decreases cs.len(),
{
    if cs.len() > 0 {
        lemma_counts_cover_components(cs.drop_last());
    }
}

/// The counts on a SOURCE line add up over the components: the counts of
/// two runs of components together are the sums of their counts, so the
/// shapelet-coefficient count is the total number of coefficients (one
/// SCOEFF line each) over all shapelet components.
pub proof fn lemma_counts_add(a: Seq<WodenComponent>, b: Seq<WodenComponent>)
    ensures
        count_points(a + b) == count_points(a) + count_points(b),
        count_gaussians(a + b) == count_gaussians(a) + count_gaussians(b),
        count_shapelets(a + b) == count_shapelets(a) + count_shapelets(b),
        count_coeffs(a + b) == count_coeffs(a) + count_coeffs(b),
    decreases b.len(),
{
    if b.len() == 0 {
        assert(a + b =~= a);
    } else {
        assert((a + b).drop_last() =~= a + b.drop_last());
        assert((a + b).last() == b.last());
        lemma_counts_add(a, b.drop_last());
    }
}

/// Writing two lists of sources one after the other writes the text of
/// the first list followed by that of the second; a list of one source
/// writes that source whole, or nothing when it has a curved power law.
pub proof fn lemma_source_list_text_appends(a: Seq<WodenSource>, b: Seq<WodenSource>)
    ensures
        source_list_text(a + b) == source_list_text(a) + source_list_text(b),
        forall|s: WodenSource|
            #[trigger] source_list_text(seq![s]) == if has_curved(s) {
                Seq::<char>::empty()
            } else {
                source_text(s).0
            },
    decreases b.len(),
{
    if b.len() == 0 {
        assert(a + b =~= a);
        assert(source_list_text(a) + seq![] =~= source_list_text(a));
    } else {
        assert((a + b).drop_last() =~= a + b.drop_last());
        assert((a + b).last() == b.last());
        lemma_source_list_text_appends(a, b.drop_last());
        if !has_curved(b.last()) {
            assert(source_list_text(a) + source_list_text(b.drop_last()) + source_text(b.last()).0
                =~= source_list_text(a) + (source_list_text(b.drop_last()) + source_text(
                b.last(),
            ).0));
        }
    }
    assert forall|s: WodenSource|
        #[trigger] source_list_text(seq![s]) == if has_curved(s) {
            Seq::<char>::empty()
        } else {
            source_text(s).0
        } by {
        let e = Seq::<WodenSource>::empty();
        assert(seq![s].drop_last() =~= e);
        assert(seq![s].last() == s);
        assert(source_list_text(e) == Seq::<char>::empty());
        assert(Seq::<char>::empty() + source_text(s).0 =~= source_text(s).0);
        assert(seq![s].len() == 1);
    }
}

/// One component counts once, as its type, and a shapelet brings its
/// number of coefficients.
pub proof fn lemma_counts_one(c: WodenComponent)
    ensures
        count_points(seq![c]) == (if c.comp_type is Point { 1int } else { 0int }),
        count_gaussians(seq![c]) == (if c.comp_type is Gaussian { 1int } else { 0int }),
        count_shapelets(seq![c]) == (if c.comp_type is Shapelet { 1int } else { 0int }),
        count_coeffs(seq![c]) == match c.comp_type {
            WodenCompType::Shapelet { coeffs, .. } => coeffs@.len() as int,
            _ => 0int,
        },
{
    let e = Seq::<WodenComponent>::empty();
    assert(seq![c].drop_last() =~= e);
    assert(seq![c].last() == c);
    assert(count_points(e) == 0 && count_gaussians(e) == 0 && count_shapelets(e) == 0
        && count_coeffs(e) == 0);
}

/// A component not written whole ends the components' text.
proof fn lemma_components_stop(cs: Seq<WodenComponent>, i: int)
    requires
        0 <= i < cs.len(),
        !components_text(cs.take(i + 1)).1,
    ensures
        components_text(cs) == components_text(cs.take(i + 1)),
    decreases cs.len() - i,
{
    if i + 1 < cs.len() {
        assert(cs.take(i + 2).drop_last() =~= cs.take(i + 1));
        lemma_components_stop(cs, i + 1);
    } else {
        assert(cs.take(i + 1) =~= cs);
    }
}

fn write_source(buf: &mut String, source: &WodenSource) -> (r: Result<(), WriteSourceListError>)
    requires
        writable(*source),
    ensures
        final(buf)@ == old(buf)@ + source_text(*source).0,
        r is Ok <==> source_text(*source).1,
        r matches Err(e) ==> is_unsupported_curved(e),
{
    let cs = &source.components;
    let ghost csv = cs@;
    // Get the counts of each type of component.
    let mut num_points: u64 = 0;
    let mut num_gaussians: u64 = 0;
    let mut num_shapelets: u64 = 0;
    let mut num_shapelet_coeffs: u64 = 0;
    let mut k: usize = 0;
    assert(csv.take(0) =~= seq![]);
    while k < cs.len()
        invariant
            0 <= k <= csv.len(),
            csv == cs@,
            writable(*source),
            csv == source.components@,
            num_points == count_points(csv.take(k as int)),
            num_gaussians == count_gaussians(csv.take(k as int)),
            num_shapelets == count_shapelets(csv.take(k as int)),
            num_shapelet_coeffs == count_coeffs(csv.take(k as int)),
        decreases csv.len() - k,
    {
        assert(csv.take(k + 1).drop_last() =~= csv.take(k as int));
        proof {
            lemma_counts_grow(csv, k as int);
        }
        match &cs[k].comp_type {
            WodenCompType::Point => num_points = num_points + 1,
            WodenCompType::Gaussian { .. } => num_gaussians = num_gaussians + 1,
            WodenCompType::Shapelet { coeffs, .. } => {
                num_shapelets = num_shapelets + 1;
                num_shapelet_coeffs = num_shapelet_coeffs + coeffs.len() as u64;
            },
        }
        k = k + 1;
    }
    assert(csv.take(k as int) =~= csv);
    let name = replace_spaces(source.name.as_str());
    push_str(buf, "SOURCE ");
    push_str(buf, name.as_str());
    push_str(buf, " P ");
    push_decimal(buf, num_points);
    push_str(buf, " G ");
    push_decimal(buf, num_gaussians);
    push_str(buf, " S ");
    push_decimal(buf, num_shapelets);
    push_str(buf, " ");
    push_decimal(buf, num_shapelet_coeffs);
    push_str(buf, "\n");
    proof {
        reveal_strlit(" ");
        reveal_strlit("\n");
    }
    let ghost head = buf@;
    assert(head =~= old(buf)@ + source_line(*source));
    // Write out the components.
    let mut j: usize = 0;
    assert(head + components_text(csv.take(0)).0 =~= head);
    while j < cs.len()
        invariant
            0 <= j <= csv.len(),
            csv == cs@,
            writable(*source),
            csv == source.components@,
            components_text(csv.take(j as int)).1,
            head == old(buf)@ + source_line(*source),
            buf@ == head + components_text(csv.take(j as int)).0,
        decreases csv.len() - j,
    {
        assert(csv.take(j + 1).drop_last() =~= csv.take(j as int));
        assert(csv.take(j + 1).last() == csv[j as int]);
        assert(lists_nonempty(csv[j as int].flux_type));
        let r = write_component(buf, &cs[j]);
        j = j + 1;
        assert(buf@ =~= head + components_text(csv.take(j as int)).0);
        if r.is_err() {
            proof {
                lemma_components_stop(csv, (j - 1) as int);
            }
            assert(!source_text(*source).1);
            assert(buf@ =~= old(buf)@ + source_text(*source).0);
            return r;
        }
    }
    assert(csv.take(j as int) =~= csv);
    push_str(buf, "ENDSOURCE\n");
    assert(final(buf)@ =~= old(buf)@ + source_text(*source).0);
    Ok(())
}

/// The counts of a prefix one longer.
proof fn lemma_counts_grow(cs: Seq<WodenComponent>, k: int)
    requires
        0 <= k < cs.len(),
    ensures
        count_points(cs.take(k)) <= count_points(cs),
        count_gaussians(cs.take(k)) <= count_gaussians(cs),
        count_shapelets(cs.take(k)) <= count_shapelets(cs),
        count_coeffs(cs.take(k + 1)) <= count_coeffs(cs),
        count_points(cs.take(k + 1)) <= count_points(cs),
        count_gaussians(cs.take(k + 1)) <= count_gaussians(cs),
        count_shapelets(cs.take(k + 1)) <= count_shapelets(cs),
    decreases cs.len() - k,
{
    lemma_counts_mono(cs, k + 1);
    lemma_counts_mono(cs, k);
}

proof fn lemma_counts_mono(cs: Seq<WodenComponent>, k: int)
    requires
        0 <= k <= cs.len(),
    ensures
        count_points(cs.take(k)) <= count_points(cs),
        count_gaussians(cs.take(k)) <= count_gaussians(cs),
        count_shapelets(cs.take(k)) <= count_shapelets(cs),
        count_coeffs(cs.take(k)) <= count_coeffs(cs),
    decreases cs.len() - k,
{
    if k < cs.len() {
        lemma_counts_mono(cs, k + 1);
        assert(cs.take(k + 1).drop_last() =~= cs.take(k));
    } else {
        assert(cs.take(k) =~= cs);
    }
}

} // verus!
