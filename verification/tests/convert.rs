use asselect::state::{AirType, Airspace, Format, Options, Settings};
use asselect::yaixm::convert::{
    airfilter, do_boundary, do_freq, do_name, do_type, find_volume, format_distance,
    format_latlon, format_level, merge_loa, merge_services, norm_level, openair, openair_checked,
};
use asselect::yaixm::{
    Arc, Boundary, Circle, Feature, IcaoClass, IcaoType, Loa, LoaArea, LocalType, Release,
    Replace, Rule, Service, Volume, Yaixm,
};

fn settings() -> Settings {
    Settings {
        airspace: Airspace::default(),
        options: Options::default(),
        loa: Vec::new(),
        rat: Vec::new(),
        wave: Vec::new(),
    }
}

fn line(points: &[&str]) -> Vec<Boundary> {
    vec![Boundary::Line(points.iter().map(|p| p.to_string()).collect())]
}

fn volume(lower: &str, upper: &str) -> Volume {
    Volume {
        id: None,
        name: None,
        lower: lower.to_string(),
        upper: upper.to_string(),
        icao_class: None,
        rules: None,
        seqno: None,
        subseq: None,
        frequency: None,
        boundary: line(&["510000N 0010000W", "520000N 0010000W", "520000N 0020000W"]),
    }
}

fn feature(name: &str, icao_type: IcaoType, local_type: Option<LocalType>) -> Feature {
    Feature {
        id: None,
        name: name.to_string(),
        icao_type,
        local_type,
        icao_class: None,
        rules: None,
        geometry: vec![volume("SFC", "FL65")],
    }
}

fn release() -> Release {
    Release {
        airac_date: "2024-01-25".to_string(),
        timestamp: "now".to_string(),
        schema_version: 1,
        note: "test".to_string(),
        commit: "unknown".to_string(),
    }
}

fn dataset(airspace: Vec<Feature>) -> Yaixm {
    Yaixm {
        airspace,
        rat: Vec::new(),
        loa: Vec::new(),
        obstacle: Vec::new(),
        service: Vec::new(),
        release: release(),
    }
}

#[test]
fn determinism_identical_runs() {
    let y = dataset(vec![feature("DAVENTRY CTA", IcaoType::Cta, None)]);
    let s = settings();
    let a = openair(&y, &s);
    let b = openair(&y, &s);
    assert_eq!(a, b);
    assert!(!a.is_empty());
}

#[test]
fn level_normalization() {
    assert_eq!(norm_level("FL65"), 65);
    assert_eq!(norm_level("6500 ft"), 65);
    assert_eq!(norm_level("SFC"), 0);
    assert_eq!(norm_level("FL195"), 195);
}

#[test]
fn level_formatting() {
    assert_eq!(format_level("2000 ft"), "2000ALT");
    assert_eq!(format_level("FL65"), "FL65");
    assert_eq!(format_level("SFC"), "SFC");
}

#[test]
fn latlon_formatting() {
    assert_eq!(format_latlon("510203N 0040506W"), "51:02:03 N 004:05:06 W");
}

#[test]
fn distance_formatting() {
    assert_eq!(format_distance("2 nm"), "2");
    assert_eq!(format_distance("1.852 km"), "1.000");
    assert_eq!(format_distance("10 km"), "5.400");
    assert_eq!(format_distance("nounit"), "");
}

#[test]
fn frequency_formatting() {
    assert_eq!(do_freq(122905), "AF 122.905\n");
    assert_eq!(do_freq(130000), "AF 130.000\n");
}

#[test]
fn altitude_ceiling_filters() {
    let s = settings();
    let f = feature("TEST", IcaoType::Cta, None);
    let mut high = volume("FL600", "FL660");
    assert!(!airfilter(&f, &high, &s));
    high.lower = "FL100".to_string();
    assert!(airfilter(&f, &high, &s));
}

#[test]
fn raising_ceiling_keeps_volume() {
    let f = feature("TEST", IcaoType::Cta, None);
    let v = volume("FL100", "FL200");
    let mut s = settings();
    s.options.max_level = 150;
    assert!(airfilter(&f, &v, &s));
    s.options.max_level = 600;
    assert!(airfilter(&f, &v, &s));
}

#[test]
fn home_site_exemption() {
    let mut s = settings();
    s.airspace.gliding = None; // gliding sites excluded
    s.airspace.home = Some("LASHAM".to_string());
    let f = feature("LASHAM", IcaoType::Other, Some(LocalType::Glider));
    assert!(airfilter(&f, &f.geometry[0], &s));
    let other = feature("RIVAR HILL", IcaoType::Other, Some(LocalType::Glider));
    assert!(!airfilter(&other, &other.geometry[0], &s));
}

#[test]
fn boundary_closure() {
    let b = line(&["510000N 0010000W", "520000N 0010000W", "520000N 0020000W"]);
    let text = do_boundary(&b);
    let points: Vec<&str> = text.lines().filter(|l| l.starts_with("DP ")).collect();
    assert_eq!(points.len(), 4);
    assert_eq!(points.first(), points.last());
}

#[test]
fn boundary_closure_already_closed() {
    let b = line(&["510000N 0010000W", "520000N 0010000W", "510000N 0010000W"]);
    let text = do_boundary(&b);
    let points: Vec<&str> = text.lines().filter(|l| l.starts_with("DP ")).collect();
    assert_eq!(points.len(), 3);
    assert_eq!(points.first(), points.last());
}

#[test]
fn arc_rendering() {
    let b = vec![
        Boundary::Line(vec![
            "510000N 0010000W".to_string(),
            "520000N 0010000W".to_string(),
        ]),
        Boundary::Arc(Arc {
            centre: "513000N 0013000W".to_string(),
            dir: "cw".to_string(),
            radius: "5 nm".to_string(),
            to: "510000N 0010000W".to_string(),
        }),
    ];
    let text = do_boundary(&b);
    assert!(text.contains("V D=+\n"));
    assert!(text.contains("V X=51:30:00 N 001:30:00 W\n"));
    assert!(text.contains("DB 52:00:00 N 001:00:00 W, 51:00:00 N 001:00:00 W\n"));
}

#[test]
fn arc_counterclockwise() {
    let b = vec![
        Boundary::Line(vec![
            "510000N 0010000W".to_string(),
            "520000N 0010000W".to_string(),
        ]),
        Boundary::Arc(Arc {
            centre: "513000N 0013000W".to_string(),
            dir: "ccw".to_string(),
            radius: "5 nm".to_string(),
            to: "510000N 0010000W".to_string(),
        }),
    ];
    assert!(do_boundary(&b).contains("V D=-\n"));
}

#[test]
fn circle_rendering() {
    let b = vec![Boundary::Circle(Circle {
        centre: "513000N 0013000W".to_string(),
        radius: "2 nm".to_string(),
    })];
    let text = do_boundary(&b);
    assert_eq!(text, "V X=51:30:00 N 001:30:00 W\nDC 2\n");
}

#[test]
fn replace_semantics() {
    let mut f = feature("TRA 1", IcaoType::Other, None);
    f.geometry[0].id = Some("v1".to_string());
    f.geometry[0].seqno = Some(3);
    let mut airspace = vec![f];

    let rep_vol_a = volume("SFC", "FL55");
    let rep_vol_b = volume("FL55", "FL105");
    let loa = Loa {
        name: "TEST LOA".to_string(),
        default: None,
        areas: vec![LoaArea {
            name: "AREA".to_string(),
            add: None,
            replace: Some(vec![Replace {
                id: "v1".to_string(),
                geometry: vec![rep_vol_a, rep_vol_b],
            }]),
        }],
    };
    let loas = vec![&loa];
    merge_loa(&mut airspace, &loas);

    assert_eq!(airspace.len(), 1);
    assert_eq!(airspace[0].geometry.len(), 2);
    assert_eq!(airspace[0].geometry[0].seqno, Some(3));
    assert_eq!(airspace[0].geometry[1].seqno, Some(3));
    assert!(find_volume(&airspace, "v1").is_none());
}

#[test]
fn replace_missing_id_is_noop() {
    let f = feature("TRA 1", IcaoType::Other, None);
    let mut airspace = vec![f];
    let loa = Loa {
        name: "TEST LOA".to_string(),
        default: None,
        areas: vec![LoaArea {
            name: "AREA".to_string(),
            add: None,
            replace: Some(vec![Replace {
                id: "missing".to_string(),
                geometry: vec![volume("SFC", "FL55")],
            }]),
        }],
    };
    let loas = vec![&loa];
    merge_loa(&mut airspace, &loas);
    assert_eq!(airspace.len(), 1);
    assert_eq!(airspace[0].geometry.len(), 1);
}

#[test]
fn loa_add_tags_rule() {
    let mut airspace: Vec<Feature> = Vec::new();
    let loa = Loa {
        name: "TEST LOA".to_string(),
        default: Some(true),
        areas: vec![LoaArea {
            name: "AREA".to_string(),
            add: Some(vec![feature("NEW BOX", IcaoType::Other, None)]),
            replace: None,
        }],
    };
    let loas = vec![&loa];
    merge_loa(&mut airspace, &loas);
    assert_eq!(airspace.len(), 1);
    assert_eq!(airspace[0].name, "NEW BOX");
    assert!(airspace[0].rules.as_ref().unwrap().contains(&Rule::Loa));
}

#[test]
fn frequency_precedence() {
    let mut f = feature("ZONE", IcaoType::Cta, None);
    f.id = Some("f1".to_string());
    f.geometry[0].id = Some("v1".to_string());
    let mut airspace = vec![f];
    let services = vec![
        Service {
            callsign: "ZONE INFO".to_string(),
            frequency: 130000,
            controls: vec!["f1".to_string()],
        },
        Service {
            callsign: "ZONE RADAR".to_string(),
            frequency: 125905,
            controls: vec!["v1".to_string()],
        },
    ];
    merge_services(&mut airspace, &services);
    assert_eq!(airspace[0].geometry[0].frequency, Some(125905));
}

#[test]
fn frequency_last_write_wins() {
    let mut f = feature("ZONE", IcaoType::Cta, None);
    f.geometry[0].id = Some("v1".to_string());
    let mut airspace = vec![f];
    let services = vec![
        Service {
            callsign: "FIRST".to_string(),
            frequency: 120000,
            controls: vec!["v1".to_string()],
        },
        Service {
            callsign: "SECOND".to_string(),
            frequency: 121000,
            controls: vec!["v1".to_string()],
        },
    ];
    merge_services(&mut airspace, &services);
    assert_eq!(airspace[0].geometry[0].frequency, Some(121000));
}

#[test]
fn feature_frequency_fallback() {
    let mut f = feature("ZONE", IcaoType::Cta, None);
    f.id = Some("f1".to_string());
    let mut airspace = vec![f];
    let services = vec![Service {
        callsign: "ZONE INFO".to_string(),
        frequency: 130000,
        controls: vec!["f1".to_string()],
    }];
    merge_services(&mut airspace, &services);
    assert_eq!(airspace[0].geometry[0].frequency, Some(130000));
}

#[test]
fn qualifier_suffix_si_notam() {
    let s = settings();
    let mut f = feature("DANGER AREA", IcaoType::D, None);
    f.rules = Some(vec![Rule::Notam]);
    let mut v = volume("SFC", "FL65");
    v.rules = Some(vec![Rule::Si]);
    let name = do_name(&f, &v, 0, &s);
    assert_eq!(name, "AN DANGER AREA (SI/NOTAM)\n");
}

#[test]
fn qualifier_suffix_single() {
    let s = settings();
    let mut f = feature("DANGER AREA", IcaoType::D, None);
    f.rules = Some(vec![Rule::Si]);
    let v = volume("SFC", "FL65");
    assert_eq!(do_name(&f, &v, 0, &s), "AN DANGER AREA (SI)\n");
}

#[test]
fn competition_sequencing() {
    let mut s = settings();
    s.options.format = Format::Competition;
    let mut f = feature("BIG TMA", IcaoType::Tma, None);
    f.geometry = vec![
        volume("SFC", "FL65"),
        volume("FL65", "FL105"),
        volume("FL105", "FL195"),
    ];
    let names: Vec<String> = (0..3).map(|n| do_name(&f, &f.geometry[n], n, &s)).collect();
    assert_eq!(names[0], "AN BIG TMA-A\n");
    assert_eq!(names[1], "AN BIG TMA-B\n");
    assert_eq!(names[2], "AN BIG TMA-C\n");
}

#[test]
fn explicit_seqno_wins() {
    let mut s = settings();
    s.options.format = Format::Competition;
    let mut f = feature("BIG TMA", IcaoType::Tma, None);
    let mut v2 = volume("FL65", "FL105");
    v2.seqno = Some(7);
    v2.subseq = Some('b');
    f.geometry = vec![volume("SFC", "FL65"), v2];
    assert_eq!(do_name(&f, &f.geometry[1], 1, &s), "AN BIG TMA-7b\n");
}

#[test]
fn name_suffixes() {
    let s = settings();
    let f = feature("POPHAM", IcaoType::Other, Some(LocalType::NoAtz));
    let v = volume("SFC", "FL65");
    assert_eq!(do_name(&f, &v, 0, &s), "AN POPHAM A/F\n");
    let f = feature("ODIHAM", IcaoType::Other, Some(LocalType::Matz));
    assert_eq!(do_name(&f, &v, 0, &s), "AN ODIHAM MATZ\n");
    let f = feature("LUTON", IcaoType::Atz, None);
    assert_eq!(do_name(&f, &v, 0, &s), "AN LUTON ATZ\n");
}

#[test]
fn name_override_verbatim() {
    let s = settings();
    let f = feature("BASE", IcaoType::Atz, None);
    let mut v = volume("SFC", "FL65");
    v.name = Some("CUSTOM NAME".to_string());
    assert_eq!(do_name(&f, &v, 0, &s), "AN CUSTOM NAME\n");
}

#[test]
fn radio_annotation() {
    let mut s = settings();
    s.options.radio = true;
    let f = feature("ZONE", IcaoType::Cta, None);
    let mut v = volume("SFC", "FL65");
    v.frequency = Some(122905);
    assert_eq!(do_name(&f, &v, 0, &s), "AN ZONE 122.905\n");
}

#[test]
fn classification_notam_wins() {
    let s = settings();
    let mut f = feature("ANY", IcaoType::P, None);
    f.rules = Some(vec![Rule::Notam]);
    let v = volume("SFC", "FL65");
    assert_eq!(do_type(&f, &v, &s), "AC G\n");
}

#[test]
fn classification_by_icao_type() {
    let s = settings();
    let v = volume("SFC", "FL65");
    assert_eq!(do_type(&feature("A", IcaoType::Atz, None), &v, &s), "AC CTR\n");
    assert_eq!(do_type(&feature("A", IcaoType::D, None), &v, &s), "AC Q\n");
    assert_eq!(do_type(&feature("A", IcaoType::P, None), &v, &s), "AC P\n");
    assert_eq!(do_type(&feature("A", IcaoType::R, None), &v, &s), "AC R\n");
    assert_eq!(
        do_type(&feature("A", IcaoType::Other, Some(LocalType::Matz)), &v, &s),
        "AC MATZ\n"
    );
    assert_eq!(
        do_type(&feature("A", IcaoType::Other, Some(LocalType::Rat)), &v, &s),
        "AC P\n"
    );
}

#[test]
fn classification_danger_competition() {
    let mut s = settings();
    let mut f = feature("D123", IcaoType::D, None);
    f.rules = Some(vec![Rule::Si]);
    let v = volume("SFC", "FL65");
    assert_eq!(do_type(&f, &v, &s), "AC Q\n");
    s.options.format = Format::Competition;
    assert_eq!(do_type(&f, &v, &s), "AC P\n");
}

#[test]
fn classification_class_fallback() {
    let s = settings();
    let mut f = feature("AIRWAY", IcaoType::Awy, None);
    f.icao_class = Some(IcaoClass::A);
    let mut v = volume("SFC", "FL65");
    assert_eq!(do_type(&f, &v, &s), "AC A\n");
    v.icao_class = Some(IcaoClass::C);
    assert_eq!(do_type(&f, &v, &s), "AC C\n");
    let bare = feature("AIRWAY", IcaoType::Awy, None);
    assert_eq!(do_type(&bare, &volume("SFC", "FL65"), &s), "AC G\n");
}

#[test]
fn wave_box_selection() {
    let mut s = settings();
    let f = feature("ABERDEEN WAVE", IcaoType::DOther, Some(LocalType::Glider));
    assert!(!airfilter(&f, &f.geometry[0], &s));
    s.wave.push("ABERDEEN WAVE".to_string());
    assert!(airfilter(&f, &f.geometry[0], &s));
}

#[test]
fn end_to_end_excluded_glider_site() {
    let y = dataset(vec![feature("LASHAM", IcaoType::Other, Some(LocalType::Glider))]);
    let s = settings(); // gliding None, home None
    assert_eq!(openair(&y, &s), "");
}

#[test]
fn end_to_end_record() {
    let y = dataset(vec![feature("DAVENTRY CTA", IcaoType::Cta, None)]);
    let mut s = settings();
    s.airspace.atz = AirType::Ctr;
    let out = openair(&y, &s);
    let expected = "*\nAC G\nAN DAVENTRY CTA\nAL SFC\nAH FL65\n\
        DP 51:00:00 N 001:00:00 W\nDP 52:00:00 N 001:00:00 W\nDP 52:00:00 N 002:00:00 W\n\
        DP 51:00:00 N 001:00:00 W\n";
    assert_eq!(out, expected);
}

#[test]
fn checked_conversion_rejects_malformed() {
    let mut f = feature("BROKEN", IcaoType::Cta, None);
    f.geometry[0].boundary = Vec::new();
    let y = dataset(vec![f]);
    let s = settings();
    assert!(openair_checked(&y, &s).is_none());

    let y_ok = dataset(vec![feature("OK", IcaoType::Cta, None)]);
    let out = openair_checked(&y_ok, &s);
    assert!(out.is_some());
    assert_eq!(out.unwrap(), openair(&y_ok, &s));
}

#[test]
fn default_loa_applies_without_selection() {
    let mut y = dataset(vec![]);
    y.loa.push(Loa {
        name: "DEFAULT LOA".to_string(),
        default: Some(true),
        areas: vec![LoaArea {
            name: "AREA".to_string(),
            add: Some(vec![feature("ADDED BOX", IcaoType::Cta, None)]),
            replace: None,
        }],
    });
    let s = settings();
    let out = openair(&y, &s);
    assert!(out.contains("AN ADDED BOX\n"));
}

#[test]
fn unselected_loa_ignored() {
    let mut y = dataset(vec![]);
    y.loa.push(Loa {
        name: "OPTIONAL LOA".to_string(),
        default: None,
        areas: vec![LoaArea {
            name: "AREA".to_string(),
            add: Some(vec![feature("ADDED BOX", IcaoType::Cta, None)]),
            replace: None,
        }],
    });
    let s = settings();
    assert_eq!(openair(&y, &s), "");
    let mut s2 = settings();
    s2.loa.push("OPTIONAL LOA".to_string());
    assert!(openair(&y, &s2).contains("AN ADDED BOX\n"));
}
