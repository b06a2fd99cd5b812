use mwa_hyperdrive::srclist::woden::{
    write_comp_type, write_flux_type, write_source_list, WodenCompType, WodenComponent,
    WodenFluxDensity, WodenFluxType, WodenShapeletCoeff, WodenSource, WriteSourceListError,
};

fn fd(freq: &str, i: &str) -> WodenFluxDensity {
    WodenFluxDensity {
        freq: freq.to_string(),
        i: i.to_string(),
        q: "0".to_string(),
        u: "0".to_string(),
        v: "0".to_string(),
    }
}

#[test]
fn woden_flux_types() {
    let mut buf = String::new();
    let list = WodenFluxType::List { fds: vec![fd("+1.8e8", "1"), fd("+1.9e8", "2")] };
    write_flux_type(&mut buf, &list).unwrap();
    // Only the first flux density of a list is written.
    assert_eq!(buf, "FREQ +1.8e8 1 0 0 0\n");

    let mut buf = String::new();
    let pl = WodenFluxType::PowerLaw { fd: fd("+1.5e8", "3.5"), si: "-0.8".to_string() };
    write_flux_type(&mut buf, &pl).unwrap();
    assert_eq!(buf, "LINEAR +1.5e8 3.5 0 0 0 -0.8\n");

    let mut buf = String::new();
    let result = write_flux_type(&mut buf, &WodenFluxType::CurvedPowerLaw);
    match result {
        Err(WriteSourceListError::UnsupportedFluxDensityType { source_list_type, fd_type }) => {
            assert_eq!(source_list_type, "WODEN");
            assert_eq!(fd_type, "curved power law");
        }
        other => panic!("{:?}", other),
    }
    assert_eq!(buf, "");
}

#[test]
fn woden_comp_types() {
    let mut buf = String::new();
    write_comp_type(&mut buf, &WodenCompType::Point);
    assert_eq!(buf, "");

    let mut buf = String::new();
    let g = WodenCompType::Gaussian {
        maj: "1.5".to_string(),
        min: "0.75".to_string(),
        pa: "90".to_string(),
    };
    write_comp_type(&mut buf, &g);
    assert_eq!(buf, "GPARAMS 90 1.5 0.75\n");

    let mut buf = String::new();
    let s = WodenCompType::Shapelet {
        maj: "1".to_string(),
        min: "2".to_string(),
        pa: "3".to_string(),
        coeffs: vec![
            WodenShapeletCoeff { n1: 0, n2: 1, coeff: "0.5".to_string() },
            WodenShapeletCoeff { n1: 12, n2: 255, coeff: "-1".to_string() },
        ],
    };
    write_comp_type(&mut buf, &s);
    assert_eq!(buf, "SPARAMS 3 1 2\nSCOEFF 0 1 0.5\nSCOEFF 12 255 -1\n");
}

fn component(comp_type: WodenCompType, flux_type: WodenFluxType) -> WodenComponent {
    WodenComponent { ra: "3.4".to_string(), dec: "-37.5".to_string(), comp_type, flux_type }
}

#[test]
fn woden_source_list() {
    let sl = vec![
        WodenSource {
            name: "VLA ForA".to_string(),
            components: vec![
                component(
                    WodenCompType::Point,
                    WodenFluxType::List { fds: vec![fd("+1.8e8", "1")] },
                ),
                component(
                    WodenCompType::Shapelet {
                        maj: "1".to_string(),
                        min: "2".to_string(),
                        pa: "3".to_string(),
                        coeffs: vec![
                            WodenShapeletCoeff { n1: 0, n2: 0, coeff: "0.5".to_string() },
                            WodenShapeletCoeff { n1: 1, n2: 0, coeff: "0.25".to_string() },
                        ],
                    },
                    WodenFluxType::PowerLaw { fd: fd("+1.5e8", "2"), si: "-0.7".to_string() },
                ),
            ],
        },
        WodenSource {
            name: "b".to_string(),
            components: vec![component(
                WodenCompType::Gaussian {
                    maj: "1".to_string(),
                    min: "2".to_string(),
                    pa: "3".to_string(),
                },
                WodenFluxType::List { fds: vec![fd("+1.7e8", "4")] },
            )],
        },
    ];
    let mut buf = String::new();
    write_source_list(&mut buf, &sl).unwrap();
    assert_eq!(
        buf,
        "SOURCE VLA_ForA P 1 G 0 S 1 2
COMPONENT POINT 3.4 -37.5
FREQ +1.8e8 1 0 0 0
ENDCOMPONENT
COMPONENT SHAPELET 3.4 -37.5
LINEAR +1.5e8 2 0 0 0 -0.7
SPARAMS 3 1 2
SCOEFF 0 0 0.5
SCOEFF 1 0 0.25
ENDCOMPONENT
ENDSOURCE
SOURCE b P 0 G 1 S 0 0
COMPONENT GAUSSIAN 3.4 -37.5
FREQ +1.7e8 4 0 0 0
GPARAMS 3 1 2
ENDCOMPONENT
ENDSOURCE
"
    );
}

#[test]
fn woden_leaves_out_curved_power_laws() {
    let sl = vec![
        WodenSource {
            name: "a".to_string(),
            components: vec![component(
                WodenCompType::Point,
                WodenFluxType::List { fds: vec![fd("+1.8e8", "1")] },
            )],
        },
        WodenSource {
            name: "b".to_string(),
            components: vec![
                component(WodenCompType::Point, WodenFluxType::CurvedPowerLaw),
                component(WodenCompType::Point, WodenFluxType::List { fds: vec![fd("+1e8", "1")] }),
            ],
        },
        WodenSource {
            name: "c".to_string(),
            components: vec![component(
                WodenCompType::Point,
                WodenFluxType::PowerLaw { fd: fd("+1.5e8", "2"), si: "-0.7".to_string() },
            )],
        },
    ];
    let mut buf = String::new();
    let result = write_source_list(&mut buf, &sl);
    assert!(result.is_ok());
    assert_eq!(
        buf,
        "SOURCE a P 1 G 0 S 0 0
COMPONENT POINT 3.4 -37.5
FREQ +1.8e8 1 0 0 0
ENDCOMPONENT
ENDSOURCE
SOURCE c P 1 G 0 S 0 0
COMPONENT POINT 3.4 -37.5
LINEAR +1.5e8 2 0 0 0 -0.7
ENDCOMPONENT
ENDSOURCE
"
    );
}

#[test]
fn woden_write_keeps_only_power_laws() {
    let power_law = || WodenFluxType::PowerLaw { fd: fd("+1.5e8", "2"), si: "-0.7".to_string() };
    let types = || {
        vec![
            WodenCompType::Point,
            WodenCompType::Gaussian { maj: "1".to_string(), min: "2".to_string(), pa: "3".to_string() },
            WodenCompType::Shapelet {
                maj: "1".to_string(),
                min: "2".to_string(),
                pa: "3".to_string(),
                coeffs: vec![WodenShapeletCoeff { n1: 0, n2: 0, coeff: "0.5".to_string() }],
            },
        ]
    };
    let mut sl = vec![];
    for i in 0..5 {
        for (k, ct) in types().into_iter().enumerate() {
            sl.push(WodenSource { name: format!("power-law-{k}-{i}"), components: vec![component(ct, power_law())] });
        }
        for (k, ct) in types().into_iter().enumerate() {
            sl.push(WodenSource {
                name: format!("curved-{k}-{i}"),
                components: vec![component(ct, WodenFluxType::CurvedPowerLaw)],
            });
        }
    }
    assert_eq!(sl.len(), 30);
    let mut buf = String::new();
    write_source_list(&mut buf, &sl).unwrap();
    assert_eq!(buf.lines().filter(|l| l.starts_with("SOURCE ")).count(), 15);
    assert!(!buf.contains("curved"));
}
