//! User settings: output categories, options, selected overlays, and the
//! reducer that applies one settings action.

use vstd::prelude::*;
use crate::text::{spec_parse_u16, parse_u16, str_eq};
use crate::yaixm::{clone_opt_string, clone_strings, strs_view};

verus! {

/// An output airspace category.
#[derive(Clone, Copy, Debug, PartialEq, Eq, Structural)]
pub enum AirType {
    ClassA,
    ClassB,
    ClassC,
    ClassD,
    ClassE,
    ClassF,
    ClassG,
    Danger,
    Cta,
    Ctr,
    Gliding,
    Matz,
    Other,
    Prohibited,
    Restricted,
    Rmz,
    Tmz,
}

/// The selected output format.
#[derive(Clone, Copy, Debug, PartialEq, Eq, Structural)]
pub enum Format {
    OpenAir,
    RatOnly,
    Competition,
}

/// Per-category airspace classification choices.
pub struct Airspace {
    pub atz: AirType,
    pub ils: Option<AirType>,
    pub unlicensed: Option<AirType>,
    pub microlight: Option<AirType>,
    pub gliding: Option<AirType>,
    pub home: Option<String>,
    pub hirta_gvs: Option<AirType>,
    pub obstacle: bool,
}

/// Additional output options.
pub struct Options {
    pub max_level: u16,
    pub radio: bool,
    pub format: Format,
}

/// The complete set of user choices for one conversion.
pub struct Settings {
    pub airspace: Airspace,
    pub options: Options,
    pub loa: Vec<String>,
    pub rat: Vec<String>,
    pub wave: Vec<String>,
}

/// Application state: the current settings.
pub struct State {
    pub settings: Settings,
}

/// One settings change requested by the user interface.
pub enum Action {
    SetValue { name: String, value: String },
    SetLoa { name: String, checked: bool },
    SetRat { name: String, checked: bool },
    SetWave { name: String, checked: bool },
    ClearLoa,
    ClearRat,
    ClearWave,
}

// ---------------------------------------------------------------------------
// Views
// ---------------------------------------------------------------------------

#[verifier::ext_equal]
pub struct AirspaceView {
    pub atz: AirType,
    pub ils: Option<AirType>,
    pub unlicensed: Option<AirType>,
    pub microlight: Option<AirType>,
    pub gliding: Option<AirType>,
    pub home: Option<Seq<char>>,
    pub hirta_gvs: Option<AirType>,
    pub obstacle: bool,
}

#[verifier::ext_equal]
pub struct OptionsView {
    pub max_level: u16,
    pub radio: bool,
    pub format: Format,
}

#[verifier::ext_equal]
pub struct SettingsView {
    pub airspace: AirspaceView,
    pub options: OptionsView,
    pub loa: Seq<Seq<char>>,
    pub rat: Seq<Seq<char>>,
    pub wave: Seq<Seq<char>>,
}

#[verifier::ext_equal]
pub struct StateView {
    pub settings: SettingsView,
}

#[verifier::ext_equal]
pub enum ActionView {
    SetValue { name: Seq<char>, value: Seq<char> },
    SetLoa { name: Seq<char>, checked: bool },
    SetRat { name: Seq<char>, checked: bool },
    SetWave { name: Seq<char>, checked: bool },
    ClearLoa,
    ClearRat,
    ClearWave,
}

impl View for Airspace {
    type V = AirspaceView;

    open spec fn view(&self) -> AirspaceView {
        AirspaceView {
            atz: self.atz,
            ils: self.ils,
            unlicensed: self.unlicensed,
            microlight: self.microlight,
            gliding: self.gliding,
            home: crate::yaixm::opt_str_view(self.home),
            hirta_gvs: self.hirta_gvs,
            obstacle: self.obstacle,
        }
    }
}

impl View for Options {
    type V = OptionsView;

    open spec fn view(&self) -> OptionsView {
        OptionsView { max_level: self.max_level, radio: self.radio, format: self.format }
    }
}

impl View for Settings {
    type V = SettingsView;

    open spec fn view(&self) -> SettingsView {
        SettingsView {
            airspace: self.airspace@,
            options: self.options@,
            loa: crate::yaixm::strs_view(self.loa@),
            rat: crate::yaixm::strs_view(self.rat@),
            wave: crate::yaixm::strs_view(self.wave@),
        }
    }
}

impl View for State {
    type V = StateView;

    open spec fn view(&self) -> StateView {
        StateView { settings: self.settings@ }
    }
}

impl View for Action {
    type V = ActionView;

    open spec fn view(&self) -> ActionView {
        match self {
            Action::SetValue { name, value } => ActionView::SetValue { name: name@, value: value@ },
            Action::SetLoa { name, checked } => ActionView::SetLoa {
                name: name@,
                checked: *checked,
            },
            Action::SetRat { name, checked } => ActionView::SetRat {
                name: name@,
                checked: *checked,
            },
            Action::SetWave { name, checked } => ActionView::SetWave {
                name: name@,
                checked: *checked,
            },
            Action::ClearLoa => ActionView::ClearLoa,
            Action::ClearRat => ActionView::ClearRat,
            Action::ClearWave => ActionView::ClearWave,
        }
    }
}

// ---------------------------------------------------------------------------
// Defaults
// ---------------------------------------------------------------------------

/// The default airspace classification settings.
pub open spec fn spec_default_airspace() -> AirspaceView {
    AirspaceView {
        atz: AirType::Ctr,
        ils: None,
        unlicensed: None,
        microlight: None,
        gliding: None,
        home: None,
        hirta_gvs: None,
        obstacle: false,
    }
}

/// The default output options.
pub open spec fn spec_default_options() -> OptionsView {
    OptionsView { max_level: 600, radio: false, format: Format::OpenAir }
}

impl Default for Airspace {
    fn default() -> (r: Self)
        ensures
            r@ == spec_default_airspace(),
    {
        Airspace {
            atz: AirType::Ctr,
            ils: None,
            unlicensed: None,
            microlight: None,
            gliding: None,
            home: None,
            hirta_gvs: None,
            obstacle: false,
        }
    }
}

impl Default for Options {
    fn default() -> (r: Self)
        ensures
            r@ == spec_default_options(),
    {
        Options { max_level: 600, radio: false, format: Format::OpenAir }
    }
}

impl Default for Settings {
    fn default() -> (r: Self)
        ensures
            r@.airspace == spec_default_airspace(),
            r@.options == spec_default_options(),
            r@.loa == Seq::<Seq<char>>::empty(),
            r@.rat == Seq::<Seq<char>>::empty(),
            r@.wave == Seq::<Seq<char>>::empty(),
    {
        let r = Settings {
            airspace: Airspace::default(),
            options: Options::default(),
            loa: Vec::new(),
            rat: Vec::new(),
            wave: Vec::new(),
        };
        proof {
            assert(r@.loa =~= Seq::<Seq<char>>::empty());
            assert(r@.rat =~= Seq::<Seq<char>>::empty());
            assert(r@.wave =~= Seq::<Seq<char>>::empty());
        }
        r
    }
}

// ---------------------------------------------------------------------------
// The settings reducer
// ---------------------------------------------------------------------------

/// The category a selection value stands for, if any.
pub open spec fn spec_default_set(value: Seq<char>) -> Option<AirType> {
    if value == "classf"@ {
        Some(AirType::ClassF)
    } else if value == "classg"@ {
        Some(AirType::ClassG)
    } else if value == "danger"@ {
        Some(AirType::Danger)
    } else if value == "restricted"@ {
        Some(AirType::Restricted)
    } else if value == "gsec"@ {
        Some(AirType::Gliding)
    } else {
        None
    }
}

/// Maps a selection value to an airspace category.
pub fn default_set(value: &str) -> (r: Option<AirType>)
    ensures
        r == spec_default_set(value@),
{
    if str_eq(value, "classf") {
        Some(AirType::ClassF)
    } else if str_eq(value, "classg") {
        Some(AirType::ClassG)
    } else if str_eq(value, "danger") {
        Some(AirType::Danger)
    } else if str_eq(value, "restricted") {
        Some(AirType::Restricted)
    } else if str_eq(value, "gsec") {
        Some(AirType::Gliding)
    } else {
        None
    }
}

/// A name set with `name` added, if not yet present.
pub open spec fn spec_set_insert(set: Seq<Seq<char>>, name: Seq<char>) -> Seq<Seq<char>> {
    if set.contains(name) {
        set
    } else {
        set.push(name)
    }
}

/// The first position of `name` in a name set.
pub open spec fn spec_find_name(set: Seq<Seq<char>>, name: Seq<char>) -> Option<int>
    decreases set.len(),
{
    if set.len() == 0 {
        None
    } else if set[0] == name {
        Some(0)
    } else {
        match spec_find_name(set.drop_first(), name) {
            Some(i) => Some(i + 1),
            None => None,
        }
    }
}

/// A name set with the first occurrence of `name` removed.
pub open spec fn spec_set_remove(set: Seq<Seq<char>>, name: Seq<char>) -> Seq<Seq<char>> {
    match spec_find_name(set, name) {
        None => set,
        Some(i) => set.remove(i),
    }
}

/// A found name position lies within the set and carries the name.
proof fn lemma_find_name(set: Seq<Seq<char>>, name: Seq<char>)
    ensures
        match spec_find_name(set, name) {
            Some(i) => 0 <= i < set.len() && set[i] == name,
            None => true,
        },
    decreases set.len(),
{
    if set.len() > 0 && set[0] != name {
        lemma_find_name(set.drop_first(), name);
    }
}

#[verifier::loop_isolation(false)]
fn names_insert(v: &mut Vec<String>, name: String)
    ensures
        strs_view(final(v)@) == spec_set_insert(strs_view(old(v)@), name@),
{
    let ghost sv = strs_view(v@);
    let mut i: usize = 0;
    while i < v.len()
        invariant
            i <= v@.len(),
            v@ == old(v)@,
            forall|j: int| 0 <= j < i ==> sv[j] != name@,
        decreases v@.len() - i,
    {
        proof {
            assert(sv[i as int] == v@[i as int]@);
        }
        if str_eq(v[i].as_str(), name.as_str()) {
            proof {
                assert(sv.contains(name@));
            }
            return ;
        }
        i = i + 1;
    }
    proof {
        assert(!sv.contains(name@));
    }
    let ghost pre = v@;
    v.push(name);
    proof {
        assert forall|j: int| 0 <= j < v@.len() implies strs_view(v@)[j] == spec_set_insert(
            sv,
            name@,
        )[j] by {
            if j < pre.len() {
                assert(v@[j] == pre[j]);
            }
        }
        assert(strs_view(v@) =~= spec_set_insert(sv, name@));
    }
}

#[verifier::loop_isolation(false)]
fn names_remove(v: &mut Vec<String>, name: &str)
    ensures
        strs_view(final(v)@) == spec_set_remove(strs_view(old(v)@), name@),
{
    let ghost sv = strs_view(v@);
    let mut i: usize = 0;
    proof {
        assert(sv.skip(0) =~= sv);
    }
    while i < v.len()
        invariant
            i <= v@.len(),
            v@ == old(v)@,
            spec_find_name(sv, name@) == match spec_find_name(sv.skip(i as int), name@) {
                Some(j) => Some(i + j),
                None => None::<int>,
            },
        decreases v@.len() - i,
    {
        proof {
            assert(sv.skip(i as int)[0] == sv[i as int]);
            assert(sv.skip(i as int).drop_first() =~= sv.skip(i + 1));
            assert(sv[i as int] == v@[i as int]@);
        }
        if str_eq(v[i].as_str(), name) {
            let ghost pre = v@;
            v.remove(i);
            proof {
                assert(spec_find_name(sv, name@) == Some(i as int));
                assert forall|j: int| 0 <= j < v@.len() implies strs_view(v@)[j] == sv.remove(
                    i as int,
                )[j] by {
                    if j < i {
                        assert(v@[j] == pre[j]);
                    } else {
                        assert(v@[j] == pre[j + 1]);
                    }
                }
                assert(strs_view(v@) =~= sv.remove(i as int));
            }
            return ;
        }
        i = i + 1;
    }
    proof {
        assert(sv.skip(v@.len() as int) =~= Seq::<Seq<char>>::empty());
    }
}

fn clone_airspace(a: &Airspace) -> (r: Airspace)
    ensures
        r@ == a@,
{
    let r = Airspace {
        atz: a.atz,
        ils: a.ils,
        unlicensed: a.unlicensed,
        microlight: a.microlight,
        gliding: a.gliding,
        home: clone_opt_string(&a.home),
        hirta_gvs: a.hirta_gvs,
        obstacle: a.obstacle,
    };
    proof {
        assert(r@ =~= a@);
    }
    r
}

fn clone_settings(s: &Settings) -> (r: Settings)
    ensures
        r@ == s@,
{
    let r = Settings {
        airspace: clone_airspace(&s.airspace),
        options: Options { max_level: s.options.max_level, radio: s.options.radio, format: s.options.format },
        loa: clone_strings(&s.loa),
        rat: clone_strings(&s.rat),
        wave: clone_strings(&s.wave),
    };
    proof {
        assert(r@ =~= s@);
    }
    r
}

/// The settings after one action: a named value change, one overlay
/// selection toggled, or one overlay group cleared.
pub open spec fn spec_reduce(st: SettingsView, a: ActionView) -> SettingsView {
    match a {
        ActionView::SetValue { name, value } => {
            if name == "unlicensed"@ {
                SettingsView {
                    airspace: AirspaceView { unlicensed: spec_default_set(value), ..st.airspace },
                    ..st
                }
            } else if name == "microlight"@ {
                SettingsView {
                    airspace: AirspaceView { microlight: spec_default_set(value), ..st.airspace },
                    ..st
                }
            } else if name == "gliding"@ {
                SettingsView {
                    airspace: AirspaceView { gliding: spec_default_set(value), ..st.airspace },
                    ..st
                }
            } else if name == "hirta_gvs"@ {
                SettingsView {
                    airspace: AirspaceView { hirta_gvs: spec_default_set(value), ..st.airspace },
                    ..st
                }
            } else if name == "obstacle"@ {
                SettingsView {
                    airspace: AirspaceView { obstacle: value == "include"@, ..st.airspace },
                    ..st
                }
            } else if name == "max_level"@ {
                SettingsView {
                    options: OptionsView {
                        max_level: match spec_parse_u16(value) {
                            Some(x) => x,
                            None => st.options.max_level,
                        },
                        ..st.options
                    },
                    ..st
                }
            } else if name == "radio"@ {
                SettingsView {
                    options: OptionsView { radio: value == "yes"@, ..st.options },
                    ..st
                }
            } else if name == "atz"@ {
                SettingsView {
                    airspace: AirspaceView {
                        atz: if value == "classd"@ {
                            AirType::ClassD
                        } else {
                            AirType::Ctr
                        },
                        ..st.airspace
                    },
                    ..st
                }
            } else if name == "home"@ {
                SettingsView {
                    airspace: AirspaceView {
                        home: if value == "None"@ {
                            None
                        } else {
                            Some(value)
                        },
                        ..st.airspace
                    },
                    ..st
                }
            } else if name == "format"@ {
                SettingsView {
                    options: OptionsView {
                        format: if value == "ratonly"@ {
                            Format::RatOnly
                        } else if value == "competition"@ {
                            Format::Competition
                        } else {
                            Format::OpenAir
                        },
                        ..st.options
                    },
                    ..st
                }
            } else {
                st
            }
        },
        ActionView::SetLoa { name, checked } => SettingsView {
            loa: if checked {
                spec_set_insert(st.loa, name)
            } else {
                spec_set_remove(st.loa, name)
            },
            ..st
        },
        ActionView::SetRat { name, checked } => SettingsView {
            rat: if checked {
                spec_set_insert(st.rat, name)
            } else {
                spec_set_remove(st.rat, name)
            },
            ..st
        },
        ActionView::SetWave { name, checked } => SettingsView {
            wave: if checked {
                spec_set_insert(st.wave, name)
            } else {
                spec_set_remove(st.wave, name)
            },
            ..st
        },
        ActionView::ClearLoa => SettingsView { loa: Seq::empty(), ..st },
        ActionView::ClearRat => SettingsView { rat: Seq::empty(), ..st },
        ActionView::ClearWave => SettingsView { wave: Seq::empty(), ..st },
    }
}

impl State {
    /// Applies one settings action, leaving this state untouched.
    #[verifier::rlimit(100)]
    pub fn reduce(&self, action: Action) -> (r: State)
        ensures
            r@.settings == spec_reduce(self@.settings, action@),
    {
        let ghost st = self@.settings;
        let ghost av = action@;
        let mut set = clone_settings(&self.settings);
        match action {
            Action::SetValue { name, value } => {
                if str_eq(name.as_str(), "unlicensed") {
                    set.airspace.unlicensed = default_set(value.as_str());
                } else if str_eq(name.as_str(), "microlight") {
                    set.airspace.microlight = default_set(value.as_str());
                } else if str_eq(name.as_str(), "gliding") {
                    set.airspace.gliding = default_set(value.as_str());
                } else if str_eq(name.as_str(), "hirta_gvs") {
                    set.airspace.hirta_gvs = default_set(value.as_str());
                } else if str_eq(name.as_str(), "obstacle") {
                    set.airspace.obstacle = str_eq(value.as_str(), "include");
                } else if str_eq(name.as_str(), "max_level") {
                    match parse_u16(value.as_str()) {
                        Some(x) => set.options.max_level = x,
                        None => {},
                    }
                } else if str_eq(name.as_str(), "radio") {
                    set.options.radio = str_eq(value.as_str(), "yes");
                } else if str_eq(name.as_str(), "atz") {
                    set.airspace.atz = if str_eq(value.as_str(), "classd") {
                        AirType::ClassD
                    } else {
                        AirType::Ctr
                    };
                } else if str_eq(name.as_str(), "home") {
                    set.airspace.home = if str_eq(value.as_str(), "None") {
                        None
                    } else {
                        Some(value)
                    };
                } else if str_eq(name.as_str(), "format") {
                    set.options.format = if str_eq(value.as_str(), "ratonly") {
                        Format::RatOnly
                    } else if str_eq(value.as_str(), "competition") {
                        Format::Competition
                    } else {
                        Format::OpenAir
                    };
                }
                proof {
                    assert(set@ =~= spec_reduce(st, av));
                }
            },
            Action::SetLoa { name, checked } => {
                if checked {
                    names_insert(&mut set.loa, name);
                } else {
                    names_remove(&mut set.loa, name.as_str());
                }
                proof {
                    assert(set@ =~= spec_reduce(st, av));
                }
            },
            Action::SetRat { name, checked } => {
                if checked {
                    names_insert(&mut set.rat, name);
                } else {
                    names_remove(&mut set.rat, name.as_str());
                }
                proof {
                    assert(set@ =~= spec_reduce(st, av));
                }
            },
            Action::SetWave { name, checked } => {
                if checked {
                    names_insert(&mut set.wave, name);
                } else {
                    names_remove(&mut set.wave, name.as_str());
                }
                proof {
                    assert(set@ =~= spec_reduce(st, av));
                }
            },
            Action::ClearLoa => {
                set.loa = Vec::new();
                proof {
                    assert(strs_view(set.loa@) =~= Seq::<Seq<char>>::empty());
                    assert(set@ =~= spec_reduce(st, av));
                }
            },
            Action::ClearRat => {
                set.rat = Vec::new();
                proof {
                    assert(strs_view(set.rat@) =~= Seq::<Seq<char>>::empty());
                    assert(set@ =~= spec_reduce(st, av));
                }
            },
            Action::ClearWave => {
                set.wave = Vec::new();
                proof {
                    assert(strs_view(set.wave@) =~= Seq::<Seq<char>>::empty());
                    assert(set@ =~= spec_reduce(st, av));
                }
            },
        }
        State { settings: set }
    }
}

impl Default for State {
    fn default() -> (r: Self)
        ensures
            r@.settings.airspace == spec_default_airspace(),
            r@.settings.options == spec_default_options(),
            r@.settings.loa == Seq::<Seq<char>>::empty(),
            r@.settings.rat == Seq::<Seq<char>>::empty(),
            r@.settings.wave == Seq::<Seq<char>>::empty(),
    {
        State { settings: Settings::default() }
    }
}

} // verus!
