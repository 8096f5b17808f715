use asselect::state::{Action, AirType, Format, State, default_set};

#[test]
fn default_set_mapping() {
    assert_eq!(default_set("classf"), Some(AirType::ClassF));
    assert_eq!(default_set("classg"), Some(AirType::ClassG));
    assert_eq!(default_set("danger"), Some(AirType::Danger));
    assert_eq!(default_set("restricted"), Some(AirType::Restricted));
    assert_eq!(default_set("gsec"), Some(AirType::Gliding));
    assert_eq!(default_set("exclude"), None);
}

#[test]
fn default_settings() {
    let st = State::default();
    assert_eq!(st.settings.airspace.atz, AirType::Ctr);
    assert_eq!(st.settings.options.max_level, 600);
    assert!(!st.settings.options.radio);
    assert_eq!(st.settings.options.format, Format::OpenAir);
    assert!(st.settings.loa.is_empty());
}

#[test]
fn reduce_set_values() {
    let st = State::default();
    let st = st.reduce(Action::SetValue {
        name: "max_level".to_string(),
        value: "195".to_string(),
    });
    assert_eq!(st.settings.options.max_level, 195);
    let st = st.reduce(Action::SetValue {
        name: "format".to_string(),
        value: "competition".to_string(),
    });
    assert_eq!(st.settings.options.format, Format::Competition);
    let st = st.reduce(Action::SetValue {
        name: "gliding".to_string(),
        value: "gsec".to_string(),
    });
    assert_eq!(st.settings.airspace.gliding, Some(AirType::Gliding));
    let st = st.reduce(Action::SetValue {
        name: "home".to_string(),
        value: "LASHAM".to_string(),
    });
    assert_eq!(st.settings.airspace.home, Some("LASHAM".to_string()));
    let st = st.reduce(Action::SetValue {
        name: "home".to_string(),
        value: "None".to_string(),
    });
    assert_eq!(st.settings.airspace.home, None);
    let st = st.reduce(Action::SetValue {
        name: "atz".to_string(),
        value: "classd".to_string(),
    });
    assert_eq!(st.settings.airspace.atz, AirType::ClassD);
    let st = st.reduce(Action::SetValue {
        name: "radio".to_string(),
        value: "yes".to_string(),
    });
    assert!(st.settings.options.radio);
}

#[test]
fn reduce_category_values() {
    let st = State::default();
    let st = st.reduce(Action::SetValue {
        name: "unlicensed".to_string(),
        value: "classf".to_string(),
    });
    assert_eq!(st.settings.airspace.unlicensed, Some(AirType::ClassF));
    let st = st.reduce(Action::SetValue {
        name: "microlight".to_string(),
        value: "danger".to_string(),
    });
    assert_eq!(st.settings.airspace.microlight, Some(AirType::Danger));
    let st = st.reduce(Action::SetValue {
        name: "hirta_gvs".to_string(),
        value: "restricted".to_string(),
    });
    assert_eq!(st.settings.airspace.hirta_gvs, Some(AirType::Restricted));
    let st = st.reduce(Action::SetValue {
        name: "obstacle".to_string(),
        value: "include".to_string(),
    });
    assert!(st.settings.airspace.obstacle);
    let st = st.reduce(Action::SetValue {
        name: "unlicensed".to_string(),
        value: "exclude".to_string(),
    });
    assert_eq!(st.settings.airspace.unlicensed, None);
}

#[test]
fn reduce_unknown_name_is_noop() {
    let st = State::default();
    let st2 = st.reduce(Action::SetValue {
        name: "unknown".to_string(),
        value: "whatever".to_string(),
    });
    assert_eq!(st2.settings.options.max_level, 600);
}

#[test]
fn reduce_overlay_sets() {
    let st = State::default();
    let st = st.reduce(Action::SetLoa {
        name: "CAMBRIDGE".to_string(),
        checked: true,
    });
    assert_eq!(st.settings.loa, vec!["CAMBRIDGE".to_string()]);
    // inserting again does not duplicate
    let st = st.reduce(Action::SetLoa {
        name: "CAMBRIDGE".to_string(),
        checked: true,
    });
    assert_eq!(st.settings.loa.len(), 1);
    let st = st.reduce(Action::SetWave {
        name: "ABERDEEN WAVE".to_string(),
        checked: true,
    });
    assert_eq!(st.settings.wave, vec!["ABERDEEN WAVE".to_string()]);
    let st = st.reduce(Action::SetLoa {
        name: "CAMBRIDGE".to_string(),
        checked: false,
    });
    assert!(st.settings.loa.is_empty());
    let st = st.reduce(Action::ClearWave);
    assert!(st.settings.wave.is_empty());
}

#[test]
fn reduce_clear_groups() {
    let st = State::default();
    let st = st.reduce(Action::SetRat {
        name: "RED ARROWS".to_string(),
        checked: true,
    });
    assert_eq!(st.settings.rat.len(), 1);
    let st = st.reduce(Action::ClearRat);
    assert!(st.settings.rat.is_empty());
}
