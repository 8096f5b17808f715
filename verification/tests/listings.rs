use asselect::yaixm::util::{gliding_sites, loa_names, rat_names, wav_names};
use asselect::yaixm::{Feature, IcaoType, Loa, LocalType, Release, Volume, Yaixm};

fn volume() -> Volume {
    Volume {
        id: None,
        name: None,
        lower: "SFC".to_string(),
        upper: "FL65".to_string(),
        icao_class: None,
        rules: None,
        seqno: None,
        subseq: None,
        frequency: None,
        boundary: Vec::new(),
    }
}

fn feature(name: &str, icao_type: IcaoType, local_type: Option<LocalType>) -> Feature {
    Feature {
        id: None,
        name: name.to_string(),
        icao_type,
        local_type,
        icao_class: None,
        rules: None,
        geometry: vec![volume()],
    }
}

fn dataset() -> Yaixm {
    Yaixm {
        airspace: vec![
            feature("LASHAM", IcaoType::Other, Some(LocalType::Glider)),
            feature("ABERDEEN WAVE", IcaoType::DOther, Some(LocalType::Glider)),
            feature("DAVENTRY CTA", IcaoType::Cta, None),
        ],
        rat: vec![feature("AIR SHOW", IcaoType::Other, Some(LocalType::Rat))],
        loa: vec![
            Loa {
                name: "ALWAYS ON".to_string(),
                default: Some(true),
                areas: Vec::new(),
            },
            Loa {
                name: "OPTIONAL".to_string(),
                default: None,
                areas: Vec::new(),
            },
        ],
        obstacle: Vec::new(),
        service: Vec::new(),
        release: Release {
            airac_date: "2024-01-25".to_string(),
            timestamp: "now".to_string(),
            schema_version: 1,
            note: "test".to_string(),
            commit: "unknown".to_string(),
        },
    }
}

#[test]
fn rat_listing() {
    assert_eq!(rat_names(&dataset()), vec!["AIR SHOW".to_string()]);
}

#[test]
fn loa_listing_skips_defaults() {
    assert_eq!(loa_names(&dataset()), vec!["OPTIONAL".to_string()]);
}

#[test]
fn wave_listing() {
    assert_eq!(wav_names(&dataset()), vec!["ABERDEEN WAVE".to_string()]);
}

#[test]
fn gliding_site_listing() {
    assert_eq!(gliding_sites(&dataset()), vec!["LASHAM".to_string()]);
}
