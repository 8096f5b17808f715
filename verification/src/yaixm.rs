//! The airspace data model: features, volumes, boundaries, overlays and
//! services, together with the mathematical views the contracts speak of.

pub mod convert;
pub mod util;

use vstd::prelude::*;

verus! {

/// ICAO airspace class.
#[derive(Clone, Copy, Debug, PartialEq, Eq, Structural)]
pub enum IcaoClass {
    A,
    B,
    C,
    D,
    E,
    F,
    G,
}

/// ICAO airspace type of a feature.
#[derive(Clone, Copy, Debug, PartialEq, Eq, Structural)]
pub enum IcaoType {
    Atz,
    Awy,
    Cta,
    Ctr,
    D,
    DOther,
    Other,
    P,
    R,
    Tma,
}

/// Local refinement of the ICAO type.
#[derive(Clone, Copy, Debug, PartialEq, Eq, Structural)]
pub enum LocalType {
    Dz,
    Glider,
    Gvs,
    Hirta,
    Ils,
    Laser,
    Matz,
    NoAtz,
    Rat,
    Rmz,
    Ul,
    Tmz,
}

/// Rule flags that may apply to a feature or a volume.
#[derive(Clone, Copy, Debug, PartialEq, Eq, Structural)]
pub enum Rule {
    Intense,
    Loa,
    NoSsr,
    Notam,
    Raz,
    Rmz,
    Si,
    Tra,
    Tmz,
}

/// A circular boundary segment.
pub struct Circle {
    pub centre: String,
    pub radius: String,
}

/// An arc boundary segment; its start is the previous segment's endpoint.
pub struct Arc {
    pub centre: String,
    pub dir: String,
    pub radius: String,
    pub to: String,
}

/// One lateral boundary segment.
pub enum Boundary {
    Circle(Circle),
    Arc(Arc),
    Line(Vec<String>),
}

/// One vertical slice of a feature.
pub struct Volume {
    pub id: Option<String>,
    pub name: Option<String>,
    pub lower: String,
    pub upper: String,
    pub icao_class: Option<IcaoClass>,
    pub rules: Option<Vec<Rule>>,
    pub seqno: Option<u8>,
    pub subseq: Option<char>,
    /// Radio frequency in kHz (thousandths of a MHz).
    pub frequency: Option<u32>,
    pub boundary: Vec<Boundary>,
}

/// One named airspace entity.
pub struct Feature {
    pub id: Option<String>,
    pub name: String,
    pub icao_type: IcaoType,
    pub local_type: Option<LocalType>,
    pub icao_class: Option<IcaoClass>,
    pub rules: Option<Vec<Rule>>,
    pub geometry: Vec<Volume>,
}

/// A directive replacing the volume with the given id by new geometry.
pub struct Replace {
    pub id: String,
    pub geometry: Vec<Volume>,
}

/// One area of a letter of agreement.
pub struct LoaArea {
    pub name: String,
    pub add: Option<Vec<Feature>>,
    pub replace: Option<Vec<Replace>>,
}

/// A letter of agreement overlay.
pub struct Loa {
    pub name: String,
    pub default: Option<bool>,
    pub areas: Vec<LoaArea>,
}

/// An obstacle record.
pub struct Obstacle {
    pub elevation: String,
    pub id: String,
    pub position: String,
}

/// A radio service and the feature/volume ids it controls.
pub struct Service {
    pub callsign: String,
    /// Frequency in kHz (thousandths of a MHz).
    pub frequency: u32,
    pub controls: Vec<String>,
}

/// Release metadata of the dataset.
pub struct Release {
    pub airac_date: String,
    pub timestamp: String,
    pub schema_version: u8,
    pub note: String,
    pub commit: String,
}

/// The whole source dataset.
pub struct Yaixm {
    pub airspace: Vec<Feature>,
    pub rat: Vec<Feature>,
    pub loa: Vec<Loa>,
    pub obstacle: Vec<Obstacle>,
    pub service: Vec<Service>,
    pub release: Release,
}

// ---------------------------------------------------------------------------
// Views
// ---------------------------------------------------------------------------

#[verifier::ext_equal]
pub struct CircleView {
    pub centre: Seq<char>,
    pub radius: Seq<char>,
}

#[verifier::ext_equal]
pub struct ArcView {
    pub centre: Seq<char>,
    pub dir: Seq<char>,
    pub radius: Seq<char>,
    pub to: Seq<char>,
}

#[verifier::ext_equal]
pub enum BoundaryView {
    Circle(CircleView),
    Arc(ArcView),
    Line(Seq<Seq<char>>),
}

#[verifier::ext_equal]
pub struct VolumeView {
    pub id: Option<Seq<char>>,
    pub name: Option<Seq<char>>,
    pub lower: Seq<char>,
    pub upper: Seq<char>,
    pub icao_class: Option<IcaoClass>,
    pub rules: Option<Seq<Rule>>,
    pub seqno: Option<u8>,
    pub subseq: Option<char>,
    pub frequency: Option<u32>,
    pub boundary: Seq<BoundaryView>,
}

#[verifier::ext_equal]
pub struct FeatureView {
    pub id: Option<Seq<char>>,
    pub name: Seq<char>,
    pub icao_type: IcaoType,
    pub local_type: Option<LocalType>,
    pub icao_class: Option<IcaoClass>,
    pub rules: Option<Seq<Rule>>,
    pub geometry: Seq<VolumeView>,
}

#[verifier::ext_equal]
pub struct ReplaceView {
    pub id: Seq<char>,
    pub geometry: Seq<VolumeView>,
}

#[verifier::ext_equal]
pub struct LoaAreaView {
    pub name: Seq<char>,
    pub add: Option<Seq<FeatureView>>,
    pub replace: Option<Seq<ReplaceView>>,
}

#[verifier::ext_equal]
pub struct LoaView {
    pub name: Seq<char>,
    pub default: Option<bool>,
    pub areas: Seq<LoaAreaView>,
}

#[verifier::ext_equal]
pub struct ServiceView {
    pub callsign: Seq<char>,
    pub frequency: u32,
    pub controls: Seq<Seq<char>>,
}

#[verifier::ext_equal]
pub struct YaixmView {
    pub airspace: Seq<FeatureView>,
    pub rat: Seq<FeatureView>,
    pub loa: Seq<LoaView>,
    pub service: Seq<ServiceView>,
}

/// The views of a sequence of viewable values.
pub open spec fn views_of<T: View>(s: Seq<T>) -> Seq<T::V> {
    Seq::new(s.len(), |i: int| s[i]@)
}

/// Pushing a value appends its view.
pub proof fn lemma_views_push<T: View>(pre: Seq<T>, x: T)
    ensures
        views_of(pre.push(x)) =~= views_of(pre) + seq![x@],
{
    assert forall|j: int| 0 <= j < pre.len() + 1 implies views_of(pre.push(x))[j] == (views_of(pre)
        + seq![x@])[j] by {
        if j < pre.len() {
            assert(pre.push(x)[j] == pre[j]);
        } else {
            assert(pre.push(x)[j] == x);
        }
    }
}

/// Removing a value removes its view.
pub proof fn lemma_views_remove<T: View>(s: Seq<T>, i: int)
    requires
        0 <= i < s.len(),
    ensures
        views_of(s.remove(i)) =~= views_of(s).remove(i),
{
    assert forall|j: int| 0 <= j < s.len() - 1 implies views_of(s.remove(i))[j] == views_of(
        s,
    ).remove(i)[j] by {
        if j < i {
            assert(s.remove(i)[j] == s[j]);
        } else {
            assert(s.remove(i)[j] == s[j + 1]);
        }
    }
}

/// Inserting a value inserts its view.
pub proof fn lemma_views_insert<T: View>(s: Seq<T>, i: int, x: T)
    requires
        0 <= i <= s.len(),
    ensures
        views_of(s.insert(i, x)) =~= views_of(s).insert(i, x@),
{
    assert forall|j: int| 0 <= j < s.len() + 1 implies views_of(s.insert(i, x))[j] == views_of(
        s,
    ).insert(i, x@)[j] by {
        if j < i {
            assert(s.insert(i, x)[j] == s[j]);
        } else if j == i {
            assert(s.insert(i, x)[j] == x);
        } else {
            assert(s.insert(i, x)[j] == s[j - 1]);
        }
    }
}

/// The view of an optional string.
pub open spec fn opt_str_view(s: Option<String>) -> Option<Seq<char>> {
    match s {
        Some(x) => Some(x@),
        None => None,
    }
}

/// The views of a vector of strings.
pub open spec fn strs_view(v: Seq<String>) -> Seq<Seq<char>> {
    Seq::new(v.len(), |i: int| v[i]@)
}

impl View for Circle {
    type V = CircleView;

    open spec fn view(&self) -> CircleView {
        CircleView { centre: self.centre@, radius: self.radius@ }
    }
}

impl View for Arc {
    type V = ArcView;

    open spec fn view(&self) -> ArcView {
        ArcView {
            centre: self.centre@,
            dir: self.dir@,
            radius: self.radius@,
            to: self.to@,
        }
    }
}

impl View for Boundary {
    type V = BoundaryView;

    open spec fn view(&self) -> BoundaryView {
        match self {
            Boundary::Circle(c) => BoundaryView::Circle(c@),
            Boundary::Arc(a) => BoundaryView::Arc(a@),
            Boundary::Line(l) => BoundaryView::Line(strs_view(l@)),
        }
    }
}

impl View for Volume {
    type V = VolumeView;

    open spec fn view(&self) -> VolumeView {
        VolumeView {
            id: opt_str_view(self.id),
            name: opt_str_view(self.name),
            lower: self.lower@,
            upper: self.upper@,
            icao_class: self.icao_class,
            rules: match self.rules {
                Some(r) => Some(r@),
                None => None,
            },
            seqno: self.seqno,
            subseq: self.subseq,
            frequency: self.frequency,
            boundary: Seq::new(self.boundary@.len(), |i: int| self.boundary@[i]@),
        }
    }
}

impl View for Feature {
    type V = FeatureView;

    open spec fn view(&self) -> FeatureView {
        FeatureView {
            id: opt_str_view(self.id),
            name: self.name@,
            icao_type: self.icao_type,
            local_type: self.local_type,
            icao_class: self.icao_class,
            rules: match self.rules {
                Some(r) => Some(r@),
                None => None,
            },
            geometry: Seq::new(self.geometry@.len(), |i: int| self.geometry@[i]@),
        }
    }
}

impl View for Replace {
    type V = ReplaceView;

    open spec fn view(&self) -> ReplaceView {
        ReplaceView {
            id: self.id@,
            geometry: Seq::new(self.geometry@.len(), |i: int| self.geometry@[i]@),
        }
    }
}

impl View for LoaArea {
    type V = LoaAreaView;

    open spec fn view(&self) -> LoaAreaView {
        LoaAreaView {
            name: self.name@,
            add: match self.add {
                Some(a) => Some(Seq::new(a@.len(), |i: int| a@[i]@)),
                None => None,
            },
            replace: match self.replace {
                Some(r) => Some(Seq::new(r@.len(), |i: int| r@[i]@)),
                None => None,
            },
        }
    }
}

impl View for Loa {
    type V = LoaView;

    open spec fn view(&self) -> LoaView {
        LoaView {
            name: self.name@,
            default: self.default,
            areas: Seq::new(self.areas@.len(), |i: int| self.areas@[i]@),
        }
    }
}

impl View for Service {
    type V = ServiceView;

    open spec fn view(&self) -> ServiceView {
        ServiceView {
            callsign: self.callsign@,
            frequency: self.frequency,
            controls: strs_view(self.controls@),
        }
    }
}

impl View for Yaixm {
    type V = YaixmView;

    open spec fn view(&self) -> YaixmView {
        YaixmView {
            airspace: Seq::new(self.airspace@.len(), |i: int| self.airspace@[i]@),
            rat: Seq::new(self.rat@.len(), |i: int| self.rat@[i]@),
            loa: Seq::new(self.loa@.len(), |i: int| self.loa@[i]@),
            service: Seq::new(self.service@.len(), |i: int| self.service@[i]@),
        }
    }
}

// ---------------------------------------------------------------------------
// Deep copies, specified through the views
// ---------------------------------------------------------------------------

/// Copies an optional string.
pub fn clone_opt_string(s: &Option<String>) -> (r: Option<String>)
    ensures
        opt_str_view(r) == opt_str_view(*s),
{
    match s {
        Some(x) => Some(x.clone()),
        None => None,
    }
}

/// Copies a vector of strings.
pub fn clone_strings(v: &Vec<String>) -> (r: Vec<String>)
    ensures
        strs_view(r@) == strs_view(v@),
{
    let mut r: Vec<String> = Vec::new();
    let mut i: usize = 0;
    while i < v.len()
        invariant
            i <= v@.len(),
            r@.len() == i,
            forall|j: int| 0 <= j < i ==> r@[j]@ == v@[j]@,
        decreases v@.len() - i,
    {
        r.push(v[i].clone());
        i = i + 1;
    }
    proof {
        assert(strs_view(r@) =~= strs_view(v@));
    }
    r
}

/// Copies an optional rule list.
pub fn clone_rules(rules: &Option<Vec<Rule>>) -> (r: Option<Vec<Rule>>)
    ensures
        match (r, rules) {
            (Some(a), Some(b)) => a@ == b@,
            (None, None) => true,
            _ => false,
        },
{
    match rules {
        Some(rs) => {
            let mut out: Vec<Rule> = Vec::new();
            let mut i: usize = 0;
            while i < rs.len()
                invariant
                    i <= rs@.len(),
                    out@ =~= rs@.take(i as int),
                decreases rs@.len() - i,
            {
                out.push(rs[i]);
                i = i + 1;
                proof {
                    assert(out@ =~= rs@.take(i as int));
                }
            }
            proof {
                assert(rs@.take(rs@.len() as int) =~= rs@);
            }
            Some(out)
        },
        None => None,
    }
}

/// Copies a boundary segment.
pub fn clone_boundary(b: &Boundary) -> (r: Boundary)
    ensures
        r@ == b@,
{
    match b {
        Boundary::Circle(c) => Boundary::Circle(Circle {
            centre: c.centre.clone(),
            radius: c.radius.clone(),
        }),
        Boundary::Arc(a) => Boundary::Arc(Arc {
            centre: a.centre.clone(),
            dir: a.dir.clone(),
            radius: a.radius.clone(),
            to: a.to.clone(),
        }),
        Boundary::Line(l) => {
            let r = Boundary::Line(clone_strings(l));
            proof {
                assert(r@ =~= b@);
            }
            r
        },
    }
}

/// Copies a volume.
pub fn clone_volume(v: &Volume) -> (r: Volume)
    ensures
        r@ == v@,
{
    let mut boundary: Vec<Boundary> = Vec::new();
    let mut i: usize = 0;
    while i < v.boundary.len()
        invariant
            i <= v.boundary@.len(),
            boundary@.len() == i,
            forall|j: int| 0 <= j < i ==> boundary@[j]@ == v.boundary@[j]@,
        decreases v.boundary@.len() - i,
    {
        boundary.push(clone_boundary(&v.boundary[i]));
        i = i + 1;
    }
    let r = Volume {
        id: clone_opt_string(&v.id),
        name: clone_opt_string(&v.name),
        lower: v.lower.clone(),
        upper: v.upper.clone(),
        icao_class: v.icao_class,
        rules: clone_rules(&v.rules),
        seqno: v.seqno,
        subseq: v.subseq,
        frequency: v.frequency,
        boundary,
    };
    proof {
        assert(r@ =~= v@);
    }
    r
}

/// Copies a feature.
pub fn clone_feature(f: &Feature) -> (r: Feature)
    ensures
        r@ == f@,
{
    let mut geometry: Vec<Volume> = Vec::new();
    let mut i: usize = 0;
    while i < f.geometry.len()
        invariant
            i <= f.geometry@.len(),
            geometry@.len() == i,
            forall|j: int| 0 <= j < i ==> geometry@[j]@ == f.geometry@[j]@,
        decreases f.geometry@.len() - i,
    {
        geometry.push(clone_volume(&f.geometry[i]));
        i = i + 1;
    }
    let r = Feature {
        id: clone_opt_string(&f.id),
        name: f.name.clone(),
        icao_type: f.icao_type,
        local_type: f.local_type,
        icao_class: f.icao_class,
        rules: clone_rules(&f.rules),
        geometry,
    };
    proof {
        assert(r@ =~= f@);
    }
    r
}

} // verus!
