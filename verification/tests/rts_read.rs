use std::f64::consts::PI;

use mwa_hyperdrive::srclist::rts::{
    NumFacts, Request, RtsComponentType, RtsParser, RtsReadError, RtsSource,
};
use mwa_hyperdrive::text::split_whitespace;

/// Decimal hours to radians.
const DH2R: f64 = PI / 12.0;

fn num_facts(word: &str) -> NumFacts {
    match word.parse::<f64>() {
        Ok(v) => NumFacts {
            is_float: true,
            valid_hour_angle: !(v < 0.0 || v > 24.0),
            valid_declination: !(v < -90.0 || v > 90.0),
            coeff_index: if v < 0.0 || v > u8::MAX as f64 { None } else { Some(v as u8) },
            marks_ignored_shapelet: (v.to_radians() + 999.0).abs() < 1e-3,
        },
        Err(_) => NumFacts {
            is_float: false,
            valid_hour_angle: false,
            valid_declination: false,
            coeff_index: None,
            marks_ignored_shapelet: false,
        },
    }
}

#[derive(Debug)]
enum ParseError {
    Rts(RtsReadError),
    FluxSum { source_name: String, stokes: &'static str, sum: f64 },
}

impl std::fmt::Display for ParseError {
    fn fmt(&self, f: &mut std::fmt::Formatter<'_>) -> std::fmt::Result {
        match self {
            ParseError::Rts(e) => f.write_str(&format!("{:?}", e)),
            ParseError::FluxSum { source_name, stokes, sum } => f.write_str(&format!(
                "Source {}: The sum of all Stokes {} flux densities was negative ({})",
                source_name, stokes, sum
            )),
        }
    }
}

fn parse_f64(s: &str) -> f64 {
    s.parse().unwrap()
}

/// Reads an RTS source list held in memory, doing the floating-point work
/// the reader asks for.
fn parse_source_list(text: &str) -> Result<Vec<RtsSource>, ParseError> {
    let mut parser = RtsParser::new();
    for line in text.split_inclusive('\n') {
        let words = split_whitespace(line);
        let facts: Vec<NumFacts> = words.iter().map(|w| num_facts(w)).collect();
        let mut request = parser.feed_line(line, &facts).map_err(ParseError::Rts)?;
        loop {
            match request {
                Request::NextLine => break,
                Request::SortFluxDensities => {
                    let fds = &parser.components().last().unwrap().flux_densities;
                    let mut order: Vec<usize> = (0..fds.len()).collect();
                    order.sort_unstable_by(|&a, &b| {
                        parse_f64(&fds[a].freq).partial_cmp(&parse_f64(&fds[b].freq)).unwrap()
                    });
                    assert!(parser.is_order_of_last(&order));
                    request = parser.flux_densities_sorted(&order).map_err(ParseError::Rts)?;
                }
                Request::CheckFluxSums => {
                    let mut sums = [0.0f64; 4];
                    for c in parser.components() {
                        for fd in &c.flux_densities {
                            sums[0] += parse_f64(&fd.i);
                            sums[1] += parse_f64(&fd.q);
                            sums[2] += parse_f64(&fd.u);
                            sums[3] += parse_f64(&fd.v);
                        }
                    }
                    for (sum, stokes) in sums.iter().zip(["I", "Q", "U", "V"]) {
                        if *sum < 0.0 {
                            return Err(ParseError::FluxSum {
                                source_name: parser.source_name().clone(),
                                stokes,
                                sum: *sum,
                            });
                        }
                    }
                    assert!(!parser.end_source_would_panic());
                    request = parser.flux_sums_checked().map_err(ParseError::Rts)?;
                }
            }
        }
    }
    parser.finish().map_err(ParseError::Rts)
}

fn get<'a>(sl: &'a [RtsSource], name: &str) -> &'a RtsSource {
    sl.iter().find(|s| s.name == name).unwrap()
}

fn contains_key(sl: &[RtsSource], name: &str) -> bool {
    sl.iter().any(|s| s.name == name)
}

fn close(a: f64, b: f64) -> bool {
    (a - b).abs() <= f64::EPSILON
}

#[test]
fn parse_source_1() {
    let sl = "SOURCE VLA_ForA 3.40182 -37.5551
FREQ 180e+6 1.0 0 0 0
ENDSOURCE
SOURCE VLA_ForB 3.40166 -37.0551
FREQ 180e+6 2.0 0 0 0
ENDSOURCE
";
    let result = parse_source_list(sl);
    assert!(result.is_ok(), "{:?}", result);
    let sl = result.unwrap();
    assert_eq!(sl.len(), 2);

    assert!(contains_key(&sl, "VLA_ForA"));
    let s = get(&sl, "VLA_ForA");
    assert_eq!(s.components.len(), 1);
    let comp = &s.components[0];
    assert!(close(parse_f64(&comp.hour_angle) * DH2R, 3.40182 * DH2R));
    assert!(close(parse_f64(&comp.declination).to_radians(), -37.5551_f64.to_radians()));
    let fds = &comp.flux_densities;
    assert!(close(parse_f64(&fds[0].freq), 180e6));
    assert!(close(parse_f64(&fds[0].i), 1.0));
    assert!(close(parse_f64(&fds[0].q), 0.0));

    assert!(contains_key(&sl, "VLA_ForB"));
    let s = get(&sl, "VLA_ForB");
    assert_eq!(s.components.len(), 1);
    let comp = &s.components[0];
    assert!(close(parse_f64(&comp.hour_angle) * DH2R, 3.40166 * DH2R));
    assert!(close(parse_f64(&comp.declination).to_radians(), -37.0551_f64.to_radians()));
    let fds = &comp.flux_densities;
    assert!(close(parse_f64(&fds[0].freq), 180e6));
    assert!(close(parse_f64(&fds[0].i), 2.0));
    assert!(close(parse_f64(&fds[0].q), 0.0));
}

#[test]
fn parse_source_1_no_trailing_newline() {
    let sl = "SOURCE VLA_ForA 3.40182 -37.5551
FREQ 180e+6 1.0 0 0 0
ENDSOURCE
SOURCE VLA_ForB 3.40166 -37.0551
FREQ 180e+6 2.0 0 0 0
ENDSOURCE";
    let result = parse_source_list(sl);
    assert!(result.is_ok(), "{:?}", result);
    let sl = result.unwrap();
    assert_eq!(sl.len(), 2);
    assert!(contains_key(&sl, "VLA_ForA"));
    assert!(contains_key(&sl, "VLA_ForB"));
}

#[test]
fn parse_source_2() {
    let sl = "SOURCE VLA_ForA 3.40182 -37.5551
FREQ 180e+6 1.0 0 0 0
FREQ 190e+6 0.123 0.5 0 0
COMPONENT 3.40200 -37.6
GAUSSIAN 90 1.0 0.5
FREQ 180e+6 0.5 0 0 0
FREQ 170e+6 1.0 0 0.2 0
ENDCOMPONENT
COMPONENT 3.40200 -37.6
SHAPELET2 70 1.5 0.75
COEFF 0.0e+00   0.0e+00   5.0239939e-02
COEFF 9.0e+00   0.0e+00  -8.7418484e-03
FREQ 180e+6 0.5 0 0 0
FREQ 170e+6 1.0 0 0.2 0
ENDCOMPONENT
ENDSOURCE
SOURCE VLA_ForB 3.40166 -37.0551
FREQ 180e+6 2.0 0 0 0
ENDSOURCE
";
    let result = parse_source_list(sl);
    assert!(result.is_ok(), "{:?}", result);
    let sl = result.unwrap();
    assert_eq!(sl.len(), 2);

    assert!(contains_key(&sl, "VLA_ForA"));
    let s = get(&sl, "VLA_ForA");
    assert_eq!(s.components.len(), 3);
    let comp = &s.components[0];
    assert!(close(parse_f64(&comp.hour_angle) * DH2R, 3.40182 * DH2R));
    assert!(close(parse_f64(&comp.declination).to_radians(), -37.5551_f64.to_radians()));
    let fds = &comp.flux_densities;
    assert!(close(parse_f64(&fds[0].freq), 180e6));
    assert!(close(parse_f64(&fds[0].i), 1.0));
    assert!(close(parse_f64(&fds[0].q), 0.0));
    assert!(close(parse_f64(&fds[1].i), 0.123));
    assert!(close(parse_f64(&fds[1].q), 0.5));

    let comp = &s.components[1];
    assert!(close(parse_f64(&comp.hour_angle) * DH2R, 3.402 * DH2R));
    assert!(close(parse_f64(&comp.declination).to_radians(), -37.6_f64.to_radians()));
    let fds = &comp.flux_densities;
    // Note that 180 MHz isn't the first FREQ specified; the list has been
    // sorted.
    assert!(close(parse_f64(&fds[0].freq), 170e6));
    assert!(close(parse_f64(&fds[0].i), 1.0));
    assert!(close(parse_f64(&fds[0].q), 0.0));
    assert!(close(parse_f64(&fds[0].u), 0.2));
    assert!(close(parse_f64(&fds[1].freq), 180e6));
    assert!(close(parse_f64(&fds[1].i), 0.5));
    assert!(close(parse_f64(&fds[1].u), 0.0));

    assert!(contains_key(&sl, "VLA_ForB"));
    let s = get(&sl, "VLA_ForB");
    assert_eq!(s.components.len(), 1);
    let comp = &s.components[0];
    assert!(close(parse_f64(&comp.hour_angle) * DH2R, 3.40166 * DH2R));
    assert!(close(parse_f64(&comp.declination).to_radians(), -37.0551_f64.to_radians()));
    let fds = &comp.flux_densities;
    assert!(close(parse_f64(&fds[0].i), 2.0));
    assert!(close(parse_f64(&fds[0].q), 0.0));
}

#[test]
fn parse_source_2_comps_freqs_swapped() {
    let sl = "SOURCE VLA_ForA 3.40182 -37.5551
FREQ 180e+6 1.0 0 0 0
FREQ 190e+6 0.123 0.5 0 0
COMPONENT 3.40200 -37.6
FREQ 180e+6 0.5 0 0 0
FREQ 170e+6 1.0 0 0.2 0
GAUSSIAN 90 1.0 0.5
ENDCOMPONENT
COMPONENT 3.40200 -37.6
FREQ 180e+6 0.5 0 0 0
FREQ 170e+6 1.0 0 0.2 0
SHAPELET2 70 1.5 0.75
COEFF 0.0e+00   0.0e+00   5.0239939e-02
COEFF 9.0e+00   0.0e+00  -8.7418484e-03
ENDCOMPONENT
ENDSOURCE
SOURCE VLA_ForB 3.40166 -37.0551
FREQ 180e+6 2.0 0 0 0
ENDSOURCE
";
    let result = parse_source_list(sl);
    assert!(result.is_ok(), "{:?}", result);
    let sl = result.unwrap();
    assert_eq!(sl.len(), 2);
}

#[test]
fn parse_source_3() {
    let sl = "SOURCE VLA_ForA 3.40182 -37.5551
FREQ 180e+6 1.0 0 0 0
# FREQ 190e+6 0.123 0.5 0 0
ENDSOURCE
SOURCE VLA_ForB 3.40166 -37.0551 # Fornax B >>> Fornax A
GAUSSIAN 90 1.0 0.5
# FREQ 180e+6 0.5 0 0 0
FREQ 170e+6 1.0 0 0.2 0
ENDSOURCE
";
    let result = parse_source_list(sl);
    assert!(result.is_ok(), "{:?}", result);
    let sl = result.unwrap();
    assert_eq!(sl.len(), 2);
}

#[test]
fn parse_source_4() {
    let sl = "SOURCE VLA_ForA 3.40182 -37.5551
FREQ 180e+6 1.0 0 0 0
GAUSSIAN 90 1.0 0.5
COMPONENT 3.40166 -37.0551
GAUSSIAN 90 1.0 0.5
FREQ 170e+6 1.0 0 0.2 0
ENDCOMPONENT
ENDSOURCE
";
    let result = parse_source_list(sl);
    assert!(result.is_ok(), "{:?}", result);
    let sl = result.unwrap();
    assert_eq!(sl.len(), 1);
    let comps = &get(&sl, "VLA_ForA").components;
    assert_eq!(comps.len(), 2);
}

#[test]
fn parse_flawed_source_commented() {
    let sl = "# SOURCE VLA_ForA 3.40182 -37.5551
FREQ 190e+6 0.123 0.5 0 0
ENDSOURCE
";
    let result = parse_source_list(sl);
    assert!(&result.is_err(), "{:?}", &result);
}

#[test]
fn parse_flawed_freq_commented() {
    let sl = "SOURCE VLA_ForA 3.40182 -37.5551
# FREQ 190e+6 0.123 0.5 0 0
ENDSOURCE
";
    let result = parse_source_list(sl);
    assert!(&result.is_err(), "{:?}", &result);
}

#[test]
fn parse_flawed_endsource_commented() {
    let sl = "SOURCE VLA_ForA 3.40182 -37.5551
FREQ 190e+6 0.123 0.5 0 0
# ENDSOURCE
";
    let result = parse_source_list(sl);
    assert!(&result.is_err(), "{:?}", &result);
}

#[test]
fn parse_flawed_endsource_indented() {
    let sl = "SOURCE VLA_ForA 3.40182 -37.5551
FREQ 190e+6 0.123 0.5 0 0
 ENDSOURCE
";
    let result = parse_source_list(sl);
    assert!(&result.is_err(), "{:?}", &result);
}

#[test]
fn parse_flawed_shapelet() {
    // Because we ignore SHAPELET components, this source list has no sources.
    let sl = "SOURCE VLA_ForA 3.40182 -37.5551
FREQ 170e6 235.71 0 0 0
SHAPELET -77.99222 8.027761 4.820640
COEFF 0.0e+00   0.0e+00   5.0239939e-02
COEFF 0.0e+00   2.0e+00   2.0790306e-02
ENDSOURCE
";
    let result = parse_source_list(sl);
    assert!(&result.is_err(), "{:?}", &result);
}

#[test]
fn parse_flawed_shapelet_comp() {
    // Because we ignore SHAPELET components, this source list has one
    // component.
    let sl = "SOURCE VLA_ForA 3.40182 -37.5551
FREQ 170e6 235.71 0 0 0
COMPONENT 3.40200 -37.6
FREQ 170e6 200 0 0 0
SHAPELET -77.99222 8.027761 4.820640
COEFF 0.0e+00   0.0e+00   5.0239939e-02
COEFF 0.0e+00   2.0e+00   2.0790306e-02
ENDCOMPONENT
ENDSOURCE
";
    let result = parse_source_list(sl);
    assert!(&result.is_ok(), "{:?}", &result);
    let sl = result.unwrap();
    assert_eq!(sl.len(), 1);
    let comps = &get(&sl, "VLA_ForA").components;
    assert_eq!(comps.len(), 1);
}

#[test]
fn parse_flawed_no_shapelet2_coeffs() {
    // No shapelet COEFFs.
    let sl = "SOURCE VLA_ForA 3.40182 -37.5551
FREQ 170e6 235.71 0 0 0
SHAPELET2 -77.99222 8.027761 4.820640
# COEFF 0.0e+00   0.0e+00   5.0239939e-02
# COEFF 0.0e+00   2.0e+00   2.0790306e-02
ENDSOURCE
";
    let result = parse_source_list(sl);
    assert!(&result.is_err(), "{:?}", &result);
}

#[test]
fn parse_flawed_no_shapelet2_coeffs_comp() {
    let sl = "SOURCE VLA_ForA 3.40182 -37.5551
FREQ 170e6 235.71 0 0 0
COMPONENT 3.40200 -37.6
FREQ 170e6 200 0 0 0
SHAPELET2 -77.99222 8.027761 4.820640
# COEFF 0.0e+00   0.0e+00   5.0239939e-02
# COEFF 0.0e+00   2.0e+00   2.0790306e-02
ENDCOMPONENT
ENDSOURCE
";
    let result = parse_source_list(sl);
    assert!(&result.is_err(), "{:?}", &result);
}

#[test]
fn parse_flawed_endcomponent_commented() {
    let sl = "SOURCE VLA_ForA 3.40182 -37.5551
FREQ 190e+6 0.123 0.5 0 0
COMPONENT 3.40200 -37.6
FREQ 180e+6 0.5 0 0 0
# ENDCOMPONENT
ENDSOURCE
";
    let result = parse_source_list(sl);
    assert!(&result.is_err(), "{:?}", &result);
}

#[test]
fn parse_flawed_endcomponent_indented() {
    let sl = "SOURCE VLA_ForA 3.40182 -37.5551
FREQ 190e+6 0.123 0.5 0 0
COMPONENT 3.40200 -37.6
FREQ 180e+6 0.5 0 0 0
\tENDCOMPONENT
ENDSOURCE
";
    let result = parse_source_list(sl);
    assert!(&result.is_err(), "{:?}", &result);
}

#[test]
fn invalid_flux_sum1() {
    let sl = "SOURCE VLA_ForA 3.40182 -37.5551
FREQ 180e+6 0 1.0 0 0
ENDSOURCE
SOURCE VLA_ForB 3.40166 -37.0551
FREQ 180e+6 0 -2.0 0 0
ENDSOURCE
";
    let result = parse_source_list(sl);
    assert!(result.is_err(), "{:?}", result);
    let err_message = format!("{}", result.unwrap_err());
    assert_eq!(
        err_message,
        "Source VLA_ForB: The sum of all Stokes Q flux densities was negative (-2)"
    );
}

#[test]
fn invalid_flux_sum2() {
    let sl = "SOURCE VLA_ForA 3.40182 -37.5551
FREQ 180e+6 0 1.0 0 0
COMPONENT 3.40166 -37.0551
FREQ 180e+6 0 -2.0 0 0
ENDCOMPONENT
ENDSOURCE
";
    let result = parse_source_list(sl);
    assert!(result.is_err(), "{:?}", result);
    let err_message = format!("{}", result.unwrap_err());
    assert_eq!(
        err_message,
        "Source VLA_ForA: The sum of all Stokes Q flux densities was negative (-1)"
    );
}

#[test]
fn rts_errors_name_their_lines() {
    let cases: [(&str, fn(&RtsReadError) -> bool); 10] = [
        ("SOURCE a 1 2\nSOURCE b 1 2\n", |e| matches!(e, RtsReadError::NestedSources(2))),
        ("SOURCE a 1\n", |e| matches!(e, RtsReadError::IncompleteSourceLine(1))),
        ("SOURCE a 1 x\n", |e| {
            matches!(e, RtsReadError::ParseFloat { line_num: 1, string } if string == "x")
        }),
        ("SOURCE a 25 2\n", |e| matches!(e, RtsReadError::InvalidHa(s) if s == "25")),
        ("SOURCE a 1 -91\n", |e| matches!(e, RtsReadError::InvalidDec(s) if s == "-91")),
        ("FREQ 1 2 3 4 5\n", |e| matches!(e, RtsReadError::OutsideSource { line_num: 1, .. })),
        ("SOURCE a 1 2\nFREQ 1 2 3 4\n", |e| matches!(e, RtsReadError::IncompleteFluxLine(2))),
        ("SOURCE a 1 2\nPOINT\n", |e| {
            matches!(e, RtsReadError::UnrecognisedKeyword { line_num: 2, keyword } if keyword == "POINT")
        }),
        ("\n# nothing\n", |e| matches!(e, RtsReadError::NoSources(2))),
        ("SOURCE a 1 2\nFREQ 1 2 3 4 5\n", |e| matches!(e, RtsReadError::MissingEndSource(2))),
    ];
    for (text, check) in cases {
        match parse_source_list(text) {
            Err(ParseError::Rts(e)) => assert!(check(&e), "{}: {:?}", text, e),
            other => panic!("{}: {:?}", text, other),
        }
    }
}

#[test]
fn rts_component_and_shapelet_errors() {
    let base = "SOURCE a 1 2\nFREQ 1 2 3 4 5\n";
    let cases: [(&str, fn(&RtsReadError) -> bool); 8] = [
        ("GAUSSIAN 1 2 3\nGAUSSIAN 1 2 3\n", |e| matches!(e, RtsReadError::MultipleComponentTypes(4))),
        ("GAUSSIAN 1 2\n", |e| matches!(e, RtsReadError::IncompleteGaussianLine(3))),
        ("SHAPELET2 1 2\n", |e| matches!(e, RtsReadError::IncompleteShapelet2Line(3))),
        ("COEFF 1 2 3\n", |e| matches!(e, RtsReadError::MissingShapeletLine(3))),
        ("SHAPELET2 1 2 3\nCOEFF 300 0 1\n", |e| {
            matches!(e, RtsReadError::FloatToInt { line_num: 4, string } if string == "300")
        }),
        ("ENDCOMPONENT\n", |e| matches!(e, RtsReadError::EarlyEndComponent(3))),
        ("COMPONENT 1 2\nCOMPONENT 1 2\n", |e| matches!(e, RtsReadError::NoFluxDensities(4))),
        ("COMPONENT 1 2\nENDSOURCE\n", |e| matches!(e, RtsReadError::MissingEndComponent(4))),
    ];
    for (rest, check) in cases {
        let text = format!("{}{}", base, rest);
        match parse_source_list(&text) {
            Err(ParseError::Rts(e)) => assert!(check(&e), "{}: {:?}", text, e),
            other => panic!("{}: {:?}", text, other),
        }
    }
}

#[test]
fn rts_shapelet_coefficients_are_kept() {
    let sl = "SOURCE a 1 2
FREQ 150e6 1 0 0 0
SHAPELET2 10 2 1
COEFF 0 1 0.5
COEFF 2.7 3 -0.25
ENDSOURCE
";
    let sl = parse_source_list(sl).unwrap();
    let comp = &get(&sl, "a").components[0];
    match &comp.comp_type {
        RtsComponentType::Shapelet2 { pa, maj, min, marked_ignored, coeffs } => {
            assert_eq!((pa.as_str(), maj.as_str(), min.as_str()), ("10", "2", "1"));
            assert!(!marked_ignored);
            assert_eq!(coeffs.len(), 2);
            assert_eq!((coeffs[0].n1, coeffs[0].n2, coeffs[0].coeff.as_str()), (0, 1, "0.5"));
            assert_eq!((coeffs[1].n1, coeffs[1].n2, coeffs[1].coeff.as_str()), (2, 3, "-0.25"));
        }
        other => panic!("{:?}", other),
    }
}

#[test]
fn rts_later_source_replaces_one_of_the_same_name() {
    let sl = "SOURCE a 1 2
FREQ 150e6 1 0 0 0
ENDSOURCE
SOURCE a 3 4
FREQ 150e6 2 0 0 0
ENDSOURCE
";
    let sl = parse_source_list(sl).unwrap();
    assert_eq!(sl.len(), 1);
    assert_eq!(get(&sl, "a").components[0].hour_angle, "3");
}

#[test]
fn rts_ignored_shapelets_are_removed_per_source() {
    let sl = "SOURCE a 1.0 2.0
FREQ 1e8 1 0 0 0
COMPONENT 1.0 2.0
SHAPELET 0 0 0
FREQ 1e8 1 0 0 0
ENDCOMPONENT
COMPONENT 1.0 2.0
SHAPELET 0 0 0
FREQ 1e8 1 0 0 0
ENDCOMPONENT
ENDSOURCE
SOURCE b 1.0 2.0
FREQ 1e8 1 0 0 0
COMPONENT 1.0 2.0
FREQ 1e8 2 0 0 0
ENDCOMPONENT
COMPONENT 1.0 2.0
SHAPELET 0 0 0
FREQ 1e8 1 0 0 0
ENDCOMPONENT
ENDSOURCE
";
    let sl = parse_source_list(sl).unwrap();
    assert_eq!(sl.len(), 2);
    let a = get(&sl, "a");
    assert_eq!(a.components.len(), 1);
    assert!(matches!(a.components[0].comp_type, RtsComponentType::Point));
    let b = get(&sl, "b");
    assert_eq!(b.components.len(), 2);
    assert!(b.components.iter().all(|c| matches!(c.comp_type, RtsComponentType::Point)));
    assert_eq!(b.components[1].flux_densities[0].i, "2");
}
