//! The conversion engine: filtering, classification, naming and boundary
//! rendering of airspace volumes into the OpenAir text format.

use vstd::prelude::*;
use vstd::string::StringExecFns;
use vstd::string::StrSliceExecFns;
use crate::state::{AirType, Format, Settings, SettingsView};
use crate::text::{
    all_digits, digits_val, spec_dec, spec_pad3, lemma_digits_val_nonneg, parse_digits_range,
    pad3_to_string, push_char, str_eq, u64_to_string,
};
use crate::yaixm::{
    clone_feature, clone_opt_string, clone_rules, clone_volume, Arc, ArcView, Boundary,
    BoundaryView, Circle, CircleView, Feature, FeatureView, IcaoClass, IcaoType, Loa, LoaAreaView,
    LoaView, LocalType, Replace, ReplaceView, Rule, Service, ServiceView, Volume, VolumeView,
    Yaixm, YaixmView,
};

verus! {

// ---------------------------------------------------------------------------
// Category and rule names
// ---------------------------------------------------------------------------

/// The name of an ICAO class.
pub open spec fn spec_icao_class_str(c: IcaoClass) -> Seq<char> {
    match c {
        IcaoClass::A => "A"@,
        IcaoClass::B => "B"@,
        IcaoClass::C => "C"@,
        IcaoClass::D => "D"@,
        IcaoClass::E => "E"@,
        IcaoClass::F => "F"@,
        IcaoClass::G => "G"@,
    }
}

impl IcaoClass {
    /// The name of this ICAO class.
    pub fn as_str(&self) -> (r: &'static str)
        ensures
            r@ == spec_icao_class_str(*self),
    {
        match self {
            IcaoClass::A => "A",
            IcaoClass::B => "B",
            IcaoClass::C => "C",
            IcaoClass::D => "D",
            IcaoClass::E => "E",
            IcaoClass::F => "F",
            IcaoClass::G => "G",
        }
    }
}

/// The name of a local type.
pub open spec fn spec_local_type_str(t: LocalType) -> Seq<char> {
    match t {
        LocalType::Dz => "DZ"@,
        LocalType::Glider => "GLIDER"@,
        LocalType::Gvs => "GVS"@,
        LocalType::Hirta => "HIRTA"@,
        LocalType::Ils => "ILS"@,
        LocalType::Laser => "LASER"@,
        LocalType::Matz => "MATZ"@,
        LocalType::NoAtz => "NOATZ"@,
        LocalType::Rat => "RAT"@,
        LocalType::Rmz => "RMZ"@,
        LocalType::Ul => "UL"@,
        LocalType::Tmz => "TMZ"@,
    }
}

impl LocalType {
    /// The name of this local type.
    pub fn as_str(&self) -> (r: &'static str)
        ensures
            r@ == spec_local_type_str(*self),
    {
        match self {
            LocalType::Dz => "DZ",
            LocalType::Glider => "GLIDER",
            LocalType::Gvs => "GVS",
            LocalType::Hirta => "HIRTA",
            LocalType::Ils => "ILS",
            LocalType::Laser => "LASER",
            LocalType::Matz => "MATZ",
            LocalType::NoAtz => "NOATZ",
            LocalType::Rat => "RAT",
            LocalType::Rmz => "RMZ",
            LocalType::Ul => "UL",
            LocalType::Tmz => "TMZ",
        }
    }
}

/// The name of a rule flag.
pub open spec fn spec_rule_str(r: Rule) -> Seq<char> {
    match r {
        Rule::Intense => "INTENSE"@,
        Rule::Loa => "LOA"@,
        Rule::NoSsr => "NOSSR"@,
        Rule::Notam => "NOTAM"@,
        Rule::Raz => "RAZ"@,
        Rule::Rmz => "RMZ"@,
        Rule::Si => "SI"@,
        Rule::Tra => "TRA"@,
        Rule::Tmz => "TMZ"@,
    }
}

impl Rule {
    /// The name of this rule flag.
    pub fn as_str(&self) -> (r: &'static str)
        ensures
            r@ == spec_rule_str(*self),
    {
        match self {
            Rule::Intense => "INTENSE",
            Rule::Loa => "LOA",
            Rule::NoSsr => "NOSSR",
            Rule::Notam => "NOTAM",
            Rule::Raz => "RAZ",
            Rule::Rmz => "RMZ",
            Rule::Si => "SI",
            Rule::Tra => "TRA",
            Rule::Tmz => "TMZ",
        }
    }
}

/// The output category code of an airspace type.
pub open spec fn spec_air_type_str(t: AirType) -> Seq<char> {
    match t {
        AirType::ClassA => "A"@,
        AirType::ClassB => "B"@,
        AirType::ClassC => "C"@,
        AirType::ClassD => "D"@,
        AirType::ClassE => "E"@,
        AirType::ClassF => "F"@,
        AirType::ClassG => "G"@,
        AirType::Prohibited => "P"@,
        AirType::Danger => "Q"@,
        AirType::Restricted => "R"@,
        AirType::Gliding => "W"@,
        AirType::Cta => "CTA"@,
        AirType::Ctr => "CTR"@,
        AirType::Matz => "MATZ"@,
        AirType::Other => "OTHER"@,
        AirType::Rmz => "RMZ"@,
        AirType::Tmz => "RMZ"@,
    }
}

impl AirType {
    /// The output category code of this airspace type.
    pub fn as_str(&self) -> (r: &'static str)
        ensures
            r@ == spec_air_type_str(*self),
    {
        match self {
            AirType::ClassA => "A",
            AirType::ClassB => "B",
            AirType::ClassC => "C",
            AirType::ClassD => "D",
            AirType::ClassE => "E",
            AirType::ClassF => "F",
            AirType::ClassG => "G",
            AirType::Prohibited => "P",
            AirType::Danger => "Q",
            AirType::Restricted => "R",
            AirType::Gliding => "W",
            AirType::Cta => "CTA",
            AirType::Ctr => "CTR",
            AirType::Matz => "MATZ",
            AirType::Other => "OTHER",
            AirType::Rmz => "RMZ",
            AirType::Tmz => "RMZ",
        }
    }
}

// ---------------------------------------------------------------------------
// Finding characters
// ---------------------------------------------------------------------------

/// The index of the first occurrence of `c` in `s`, if any.
pub open spec fn spec_find_char(s: Seq<char>, c: char) -> Option<int>
    decreases s.len(),
{
    if s.len() == 0 {
        None
    } else if s[0] == c {
        Some(0)
    } else {
        match spec_find_char(s.drop_first(), c) {
            Some(i) => Some(i + 1),
            None => None,
        }
    }
}

/// What a found index means: it carries `c` and nothing before it does.
pub proof fn lemma_find_char(s: Seq<char>, c: char)
    ensures
        match spec_find_char(s, c) {
            Some(i) => 0 <= i < s.len() && s[i] == c && forall|j: int| 0 <= j < i ==> s[j] != c,
            None => forall|j: int| 0 <= j < s.len() ==> s[j] != c,
        },
    decreases s.len(),
{
    if s.len() > 0 && s[0] != c {
        lemma_find_char(s.drop_first(), c);
        assert forall|j: int| 1 <= j < s.len() implies s.drop_first()[j - 1] == s[j] by {}
    }
}

/// Finds the first occurrence of `c` in `s`.
fn find_char(s: &str, c: char) -> (r: Option<usize>)
    ensures
        match r {
            Some(i) => spec_find_char(s@, c) == Some(i as int),
            None => spec_find_char(s@, c) == None::<int>,
        },
{
    let len = s.unicode_len();
    let mut i: usize = 0;
    proof {
        assert(s@.skip(0) =~= s@);
    }
    while i < len
        invariant
            0 <= i <= len,
            len == s@.len(),
            spec_find_char(s@, c) == match spec_find_char(s@.skip(i as int), c) {
                Some(j) => Some(i + j),
                None => None::<int>,
            },
        decreases len - i,
    {
        let ch = s.get_char(i);
        proof {
            assert(s@.skip(i as int).len() > 0);
            assert(s@.skip(i as int)[0] == s@[i as int]);
        }
        if ch == c {
            return Some(i);
        }
        proof {
            assert(s@.skip(i as int).drop_first() =~= s@.skip(i + 1));
        }
        i = i + 1;
    }
    proof {
        assert(s@.skip(len as int) =~= Seq::<char>::empty());
    }
    None
}

// ---------------------------------------------------------------------------
// Levels
// ---------------------------------------------------------------------------

/// Does `s` begin with a flight-level prefix?
pub open spec fn spec_starts_fl(s: Seq<char>) -> bool {
    s.len() >= 2 && s[0] == 'F' && s[1] == 'L'
}

/// Does `s` end with an altitude-in-feet marker?
pub open spec fn spec_ends_ft(s: Seq<char>) -> bool {
    s.len() >= 3 && s[s.len() - 3] == ' ' && s[s.len() - 2] == 'f' && s[s.len() - 1] == 't'
}

/// A level token the conversion can normalize without failing: a
/// flight-level token or feet token carries a number that fits in `u16`;
/// anything else normalizes to zero.
pub open spec fn wf_level(s: Seq<char>) -> bool {
    if spec_starts_fl(s) {
        let d = s.skip(2);
        d.len() > 0 && all_digits(d) && digits_val(d) <= u16::MAX
    } else if spec_ends_ft(s) {
        match spec_find_char(s, ' ') {
            Some(i) => {
                let d = s.take(i);
                d.len() > 0 && all_digits(d) && digits_val(d) <= u16::MAX
            },
            None => false,
        }
    } else {
        true
    }
}

/// A level token normalized to a flight level: flight levels map directly,
/// feet divide by one hundred, anything else is zero.
pub open spec fn spec_norm_level(s: Seq<char>) -> u16 {
    if spec_starts_fl(s) {
        digits_val(s.skip(2)) as u16
    } else if spec_ends_ft(s) {
        match spec_find_char(s, ' ') {
            Some(i) => (digits_val(s.take(i)) / 100) as u16,
            None => 0,
        }
    } else {
        0
    }
}

/// Normalizes a level token to a flight level.
pub fn norm_level(value: &str) -> (r: u16)
    requires
        wf_level(value@),
    ensures
        r == spec_norm_level(value@),
{
    let len = value.unicode_len();
    if len >= 2 && value.get_char(0) == 'F' && value.get_char(1) == 'L' {
        proof {
            assert(value@.skip(2) =~= value@.subrange(2, len as int));
        }
        parse_digits_range(value, 2, len)
    } else if len >= 3 && value.get_char(len - 3) == ' ' && value.get_char(len - 2) == 'f'
        && value.get_char(len - 1) == 't' {
        let sp = match find_char(value, ' ') {
            Some(i) => i,
            None => {
                proof {
                    assert(false);
                }
                0
            },
        };
        proof {
            lemma_find_char(value@, ' ');
            assert(value@.take(sp as int) =~= value@.subrange(0, sp as int));
            assert(spec_find_char(value@, ' ') == Some(sp as int));
        }
        let v = parse_digits_range(value, 0, sp);
        v / 100
    } else {
        0
    }
}

/// The OpenAir form of a level token: feet become an ALT suffix, all other
/// tokens pass through unchanged.
pub open spec fn spec_format_level(s: Seq<char>) -> Seq<char> {
    if spec_ends_ft(s) {
        s.take(s.len() - 3) + "ALT"@
    } else {
        s
    }
}

/// Renders a level token in its OpenAir form.
pub fn format_level(level: &str) -> (r: String)
    ensures
        r@ == spec_format_level(level@),
{
    let len = level.unicode_len();
    if len >= 3 && level.get_char(len - 3) == ' ' && level.get_char(len - 2) == 'f'
        && level.get_char(len - 1) == 't' {
        let mut r = level.substring_char(0, len - 3).to_owned();
        r.append("ALT");
        proof {
            assert(level@.subrange(0, len - 3) =~= level@.take(len - 3));
        }
        r
    } else {
        level.to_owned()
    }
}

// ---------------------------------------------------------------------------
// Coordinates
// ---------------------------------------------------------------------------

/// A coordinate token the renderer accepts: ASCII, with at least the
/// sixteen positions the fixed-width encoding uses.
pub open spec fn wf_latlon(s: Seq<char>) -> bool {
    vstd::utf8::is_ascii_chars(s) && s.len() >= 16
}

/// A coordinate pair reformatted from the fixed-width encoding into
/// colon-separated degree, minute and second fields.
pub open spec fn spec_format_latlon(s: Seq<char>) -> Seq<char> {
    s.subrange(0, 2) + ":"@ + s.subrange(2, 4) + ":"@ + s.subrange(4, 6) + " "@ + s.subrange(6, 7)
        + " "@ + s.subrange(8, 11) + ":"@ + s.subrange(11, 13) + ":"@ + s.subrange(13, 15) + " "@
        + s.subrange(15, 16)
}

/// Renders a coordinate pair in its OpenAir form.
pub fn format_latlon(latlon: &str) -> (r: String)
    requires
        wf_latlon(latlon@),
    ensures
        r@ == spec_format_latlon(latlon@),
{
    let mut r = latlon.substring_ascii(0, 2).to_owned();
    r.append(":");
    r.append(latlon.substring_ascii(2, 4));
    r.append(":");
    r.append(latlon.substring_ascii(4, 6));
    r.append(" ");
    r.append(latlon.substring_ascii(6, 7));
    r.append(" ");
    r.append(latlon.substring_ascii(8, 11));
    r.append(":");
    r.append(latlon.substring_ascii(11, 13));
    r.append(":");
    r.append(latlon.substring_ascii(13, 15));
    r.append(" ");
    r.append(latlon.substring_ascii(15, 16));
    r
}

// ---------------------------------------------------------------------------
// Distances
// ---------------------------------------------------------------------------

/// A decimal number token: digits with at most one decimal point, at most
/// ten characters in all.
pub open spec fn wf_decimal(s: Seq<char>) -> bool {
    1 <= s.len() <= 10 && match spec_find_char(s, '.') {
        None => all_digits(s),
        Some(p) => s.len() >= 2 && all_digits(s.take(p)) && all_digits(s.skip(p + 1)),
    }
}

/// The digits of a decimal token with the point removed.
pub open spec fn spec_decimal_digits(s: Seq<char>) -> Seq<char> {
    match spec_find_char(s, '.') {
        None => s,
        Some(p) => s.take(p) + s.skip(p + 1),
    }
}

/// The numerator of a decimal token.
pub open spec fn spec_decimal_num(s: Seq<char>) -> int {
    digits_val(spec_decimal_digits(s))
}

/// The number of digits after the decimal point.
pub open spec fn spec_decimal_scale(s: Seq<char>) -> nat {
    match spec_find_char(s, '.') {
        None => 0,
        Some(p) => (s.len() - p - 1) as nat,
    }
}

/// A kilometre value converted to thousandths of a nautical mile, rounding
/// half up: the token's value divided by 1.852, times one thousand.
pub open spec fn spec_km_nm_millis(s: Seq<char>) -> int {
    let n = spec_decimal_num(s);
    let d = 1852 * crate::text::pow10(spec_decimal_scale(s));
    (2 * n * 1000000 + d) / (2 * d)
}

/// A distance token the renderer accepts: if the unit is kilometres, the
/// number must be a well-formed decimal token.
pub open spec fn wf_distance(s: Seq<char>) -> bool {
    match spec_find_char(s, ' ') {
        None => true,
        Some(i) => s.skip(i + 1) == "km"@ ==> wf_decimal(s.take(i)),
    }
}

/// A distance token in its OpenAir form: kilometres become nautical miles
/// with three decimals, any other unit passes the number through, and a
/// token without a unit renders as nothing.
pub open spec fn spec_format_distance(s: Seq<char>) -> Seq<char> {
    match spec_find_char(s, ' ') {
        None => Seq::empty(),
        Some(i) => {
            if s.skip(i + 1) == "km"@ {
                let m = spec_km_nm_millis(s.take(i));
                spec_dec((m / 1000) as nat) + "."@ + spec_pad3((m % 1000) as nat)
            } else {
                s.take(i)
            }
        },
    }
}

/// Reads a decimal token as a numerator and a scale.
fn parse_decimal(s: &str) -> (r: (u64, u32))
    requires
        wf_decimal(s@),
    ensures
        r.0 == spec_decimal_num(s@),
        r.0 < crate::text::pow10(10),
        r.1 == spec_decimal_scale(s@),
        r.1 <= 9,
{
    let len = s.unicode_len();
    match find_char(s, '.') {
        None => {
            proof {
                assert(s@.subrange(0, len as int) =~= s@);
                crate::text::lemma_pow10_le(s@.len() as nat, 10);
            }
            let n = crate::text::parse_digits_u64(s, 0, len);
            (n, 0)
        },
        Some(p) => {
            proof {
                lemma_find_char(s@, '.');
                assert(s@.subrange(0, p as int) =~= s@.take(p as int));
                assert(s@.subrange(p + 1, len as int) =~= s@.skip(p + 1));
            }
            let a = crate::text::parse_digits_u64(s, 0, p);
            let b = crate::text::parse_digits_u64(s, p + 1, len);
            let k: u32 = (len - p - 1) as u32;
            let scale = crate::text::pow10_u64(k);
            proof {
                let x = s@.take(p as int);
                let y = s@.skip(p + 1);
                crate::text::lemma_digits_val_concat(x, y);
                crate::text::lemma_digits_val_nonneg(x);
                crate::text::lemma_digits_val_nonneg(y);
                crate::text::lemma_pow10_mul(x.len() as nat, y.len() as nat);
                crate::text::lemma_pow10_le((x.len() + y.len()) as nat, 10);
                crate::text::lemma_pow10_pos(y.len() as nat);
                assert(a * scale + b == digits_val(x) * crate::text::pow10(y.len() as nat)
                    + digits_val(y));
                assert(digits_val(x) * crate::text::pow10(y.len() as nat) + digits_val(y)
                    < crate::text::pow10(x.len() as nat) * crate::text::pow10(y.len() as nat)) by {
                    assert(digits_val(x) <= crate::text::pow10(x.len() as nat) - 1);
                    assert(digits_val(y) < crate::text::pow10(y.len() as nat));
                    assert(digits_val(x) * crate::text::pow10(y.len() as nat) <= (crate::text::pow10(
                        x.len() as nat,
                    ) - 1) * crate::text::pow10(y.len() as nat)) by (nonlinear_arith)
                        requires
                            digits_val(x) <= crate::text::pow10(x.len() as nat) - 1,
                            crate::text::pow10(y.len() as nat) >= 1,
                    ;
                    assert((crate::text::pow10(x.len() as nat) - 1) * crate::text::pow10(
                        y.len() as nat,
                    ) == crate::text::pow10(x.len() as nat) * crate::text::pow10(y.len() as nat)
                        - crate::text::pow10(y.len() as nat)) by (nonlinear_arith);
                }
                assert(crate::text::pow10(10) == 10000000000) by {
                    assert(crate::text::pow10(0) == 1);
                    assert(crate::text::pow10(1) == 10);
                    assert(crate::text::pow10(2) == 100);
                    assert(crate::text::pow10(3) == 1000);
                    assert(crate::text::pow10(4) == 10000);
                    assert(crate::text::pow10(5) == 100000);
                    assert(crate::text::pow10(6) == 1000000);
                    assert(crate::text::pow10(7) == 10000000);
                    assert(crate::text::pow10(8) == 100000000);
                    assert(crate::text::pow10(9) == 1000000000);
                }
            }
            let n = a * scale + b;
            (n, k)
        },
    }
}

/// Renders a distance token in its OpenAir form.
pub fn format_distance(distance: &str) -> (r: String)
    requires
        wf_distance(distance@),
    ensures
        r@ == spec_format_distance(distance@),
{
    let len = distance.unicode_len();
    match find_char(distance, ' ') {
        None => String::new(),
        Some(i) => {
            proof {
                lemma_find_char(distance@, ' ');
            }
            let dist = distance.substring_char(0, i);
            let unit = distance.substring_char(i + 1, len);
            proof {
                assert(dist@ =~= distance@.take(i as int));
                assert(unit@ =~= distance@.skip(i + 1));
            }
            if str_eq(unit, "km") {
                let (n, k) = parse_decimal(dist);
                let scale = crate::text::pow10_u64(k);
                proof {
                    assert(crate::text::pow10(10) == 10000000000) by {
                        assert(crate::text::pow10(0) == 1);
                        assert(crate::text::pow10(1) == 10);
                        assert(crate::text::pow10(2) == 100);
                        assert(crate::text::pow10(3) == 1000);
                        assert(crate::text::pow10(4) == 10000);
                        assert(crate::text::pow10(5) == 100000);
                        assert(crate::text::pow10(6) == 1000000);
                        assert(crate::text::pow10(7) == 10000000);
                        assert(crate::text::pow10(8) == 100000000);
                        assert(crate::text::pow10(9) == 1000000000);
                    }
                    crate::text::lemma_pow10_le(k as nat, 9);
                    crate::text::lemma_pow10_pos(k as nat);
                }
                let d: u64 = 1852 * scale;
                let millis: u64 = (2 * n * 1000000 + d) / (2 * d);
                let mut r = u64_to_string(millis / 1000);
                r.append(".");
                let frac = pad3_to_string(millis % 1000);
                r.append(frac.as_str());
                r
            } else {
                dist.to_owned()
            }
        },
    }
}

// ---------------------------------------------------------------------------
// Rule membership
// ---------------------------------------------------------------------------

/// Does an optional rule list contain `r`?
pub open spec fn rules_contain(rules: Option<Seq<Rule>>, r: Rule) -> bool {
    match rules {
        Some(rs) => rs.contains(r),
        None => false,
    }
}

/// Does the combined rule set of a feature and one of its volumes contain
/// `r`?
pub open spec fn spec_has_rule(f: FeatureView, v: VolumeView, r: Rule) -> bool {
    rules_contain(f.rules, r) || rules_contain(v.rules, r)
}

/// The view of an optional rule list.
pub open spec fn opt_rules_view(rules: Option<Vec<Rule>>) -> Option<Seq<Rule>> {
    match rules {
        Some(rs) => Some(rs@),
        None => None,
    }
}

fn vec_rules_contain(rules: &Option<Vec<Rule>>, r: Rule) -> (b: bool)
    ensures
        b == rules_contain(opt_rules_view(*rules), r),
{
    match rules.as_ref() {
        Some(rs) => {
            proof {
                assert(opt_rules_view(*rules) == Some(rs@));
            }
            let mut i: usize = 0;
            while i < rs.len()
                invariant
                    i <= rs@.len(),
                    opt_rules_view(*rules) == Some(rs@),
                    forall|j: int| 0 <= j < i ==> rs@[j] != r,
                decreases rs@.len() - i,
            {
                if rs[i] == r {
                    proof {
                        assert(rs@[i as int] == r);
                        assert(rs@.contains(r));
                    }
                    return true;
                }
                i = i + 1;
            }
            proof {
                assert(!rs@.contains(r));
            }
            false
        },
        None => false,
    }
}

/// Tests the combined rule set of a feature and a volume for `r`.
pub fn has_rule(feature: &Feature, volume: &Volume, r: Rule) -> (b: bool)
    ensures
        b == spec_has_rule(feature@, volume@, r),
{
    vec_rules_contain(&feature.rules, r) || vec_rules_contain(&volume.rules, r)
}

/// Does a list of names contain `name`?
fn names_contain(names: &Vec<String>, name: &str) -> (b: bool)
    ensures
        b == crate::yaixm::strs_view(names@).contains(name@),
{
    let mut i: usize = 0;
    while i < names.len()
        invariant
            i <= names@.len(),
            forall|j: int| 0 <= j < i ==> names@[j]@ != name@,
        decreases names@.len() - i,
    {
        if str_eq(names[i].as_str(), name) {
            proof {
                assert(crate::yaixm::strs_view(names@)[i as int] == name@);
            }
            return true;
        }
        i = i + 1;
    }
    proof {
        assert(forall|j: int|
            0 <= j < names@.len() ==> crate::yaixm::strs_view(names@)[j] == names@[j]@);
    }
    false
}

// ---------------------------------------------------------------------------
// Filtering
// ---------------------------------------------------------------------------

/// Does the volume survive the user's filter settings and altitude ceiling?
pub open spec fn spec_airfilter(f: FeatureView, v: VolumeView, s: SettingsView) -> bool {
    let exclude = match f.local_type {
        Some(LocalType::NoAtz) => s.airspace.unlicensed is None,
        Some(LocalType::Ul) => s.airspace.microlight is None,
        Some(LocalType::Glider) => {
            if f.icao_type == IcaoType::DOther {
                !s.wave.contains(f.name)
            } else {
                s.airspace.gliding is None && s.airspace.home != Some(f.name)
            }
        },
        Some(LocalType::Hirta) => s.airspace.hirta_gvs is None,
        Some(LocalType::Gvs) => s.airspace.hirta_gvs is None,
        Some(LocalType::Laser) => s.airspace.hirta_gvs is None,
        _ => false,
    };
    !exclude && spec_norm_level(v.lower) < s.options.max_level
}

/// Decides whether a volume is kept, per the filter settings and the
/// altitude ceiling; a home gliding site is always kept.
pub fn airfilter(feature: &Feature, vol: &Volume, settings: &Settings) -> (b: bool)
    requires
        wf_level(vol.lower@),
    ensures
        b == spec_airfilter(feature@, vol@, settings@),
{
    let exclude = match feature.local_type {
        Some(LocalType::NoAtz) => settings.airspace.unlicensed.is_none(),
        Some(LocalType::Ul) => settings.airspace.microlight.is_none(),
        Some(LocalType::Glider) => {
            if feature.icao_type == IcaoType::DOther {
                !names_contain(&settings.wave, feature.name.as_str())
            } else {
                let home_match = match &settings.airspace.home {
                    Some(h) => str_eq(h.as_str(), feature.name.as_str()),
                    None => false,
                };
                settings.airspace.gliding.is_none() && !home_match
            }
        },
        Some(LocalType::Hirta) | Some(LocalType::Gvs) | Some(LocalType::Laser) => {
            settings.airspace.hirta_gvs.is_none()
        },
        _ => false,
    };
    !(exclude || norm_level(vol.lower.as_str()) >= settings.options.max_level)
}

// ---------------------------------------------------------------------------
// Classification
// ---------------------------------------------------------------------------

/// An optional category, or a fallback.
pub open spec fn air_or(x: Option<AirType>, d: AirType) -> AirType {
    match x {
        Some(a) => a,
        None => d,
    }
}

/// The output category of a volume, under the classification precedence
/// policy: NOTAM activation first, then the ICAO type, refined by the local
/// type, the rule flags and the user's category choices.
pub open spec fn spec_openair_type(f: FeatureView, v: VolumeView, s: SettingsView) -> Seq<char> {
    let comp = s.options.format == Format::Competition;
    if spec_has_rule(f, v, Rule::Notam) {
        "G"@
    } else {
        match f.icao_type {
            IcaoType::Atz => spec_air_type_str(s.airspace.atz),
            IcaoType::D => {
                if comp && spec_has_rule(f, v, Rule::Si) {
                    "P"@
                } else {
                    "Q"@
                }
            },
            IcaoType::DOther => {
                if comp && f.local_type == Some(LocalType::Dz) && spec_has_rule(
                    f,
                    v,
                    Rule::Intense,
                ) {
                    "P"@
                } else {
                    match f.local_type {
                        Some(LocalType::Hirta) | Some(LocalType::Gvs) | Some(LocalType::Laser) => {
                            spec_air_type_str(air_or(s.airspace.hirta_gvs, AirType::Other))
                        },
                        Some(LocalType::Glider) => "W"@,
                        _ => "Q"@,
                    }
                }
            },
            IcaoType::Other => match f.local_type {
                Some(LocalType::Glider) => {
                    if spec_has_rule(f, v, Rule::Loa) {
                        "W"@
                    } else {
                        spec_air_type_str(air_or(s.airspace.gliding, AirType::Other))
                    }
                },
                Some(LocalType::Ils) => spec_air_type_str(air_or(s.airspace.ils, s.airspace.atz)),
                Some(LocalType::Matz) => "MATZ"@,
                Some(LocalType::NoAtz) => spec_air_type_str(
                    air_or(s.airspace.unlicensed, AirType::Other),
                ),
                Some(LocalType::Rat) => "P"@,
                Some(LocalType::Tmz) => "TMZ"@,
                Some(LocalType::Ul) => spec_air_type_str(
                    air_or(s.airspace.microlight, AirType::Other),
                ),
                Some(LocalType::Rmz) => "RMZ"@,
                _ => "OTHER"@,
            },
            IcaoType::P => "P"@,
            IcaoType::R => "R"@,
            _ => {
                if spec_has_rule(f, v, Rule::Tmz) {
                    "TMZ"@
                } else if spec_has_rule(f, v, Rule::Rmz) {
                    "RMZ"@
                } else {
                    let c = match v.icao_class {
                        Some(c) => c,
                        None => match f.icao_class {
                            Some(c) => c,
                            None => IcaoClass::G,
                        },
                    };
                    spec_icao_class_str(c)
                }
            },
        }
    }
}

/// The classification line of a volume.
pub open spec fn spec_do_type(f: FeatureView, v: VolumeView, s: SettingsView) -> Seq<char> {
    "AC "@ + spec_openair_type(f, v, s) + "\n"@
}

fn air_type_or<'a>(x: &Option<AirType>, d: AirType) -> (r: AirType)
    ensures
        r == air_or(*x, d),
{
    match x {
        Some(a) => *a,
        None => d,
    }
}

/// Renders the classification line of a volume.
pub fn do_type(feature: &Feature, volume: &Volume, settings: &Settings) -> (r: String)
    ensures
        r@ == spec_do_type(feature@, volume@, settings@),
{
    let comp = matches!(settings.options.format, Format::Competition);
    let openair_type: &str = if has_rule(feature, volume, Rule::Notam) {
        "G"
    } else {
        match feature.icao_type {
            IcaoType::Atz => settings.airspace.atz.as_str(),
            IcaoType::D => {
                if comp && has_rule(feature, volume, Rule::Si) {
                    "P"
                } else {
                    "Q"
                }
            },
            IcaoType::DOther => {
                if comp && matches!(feature.local_type, Some(LocalType::Dz)) && has_rule(
                    feature,
                    volume,
                    Rule::Intense,
                ) {
                    "P"
                } else {
                    match feature.local_type {
                        Some(LocalType::Hirta) | Some(LocalType::Gvs) | Some(LocalType::Laser) => {
                            air_type_or(&settings.airspace.hirta_gvs, AirType::Other).as_str()
                        },
                        Some(LocalType::Glider) => "W",
                        _ => "Q",
                    }
                }
            },
            IcaoType::Other => match feature.local_type {
                Some(LocalType::Glider) => {
                    if has_rule(feature, volume, Rule::Loa) {
                        "W"
                    } else {
                        air_type_or(&settings.airspace.gliding, AirType::Other).as_str()
                    }
                },
                Some(LocalType::Ils) => air_type_or(
                    &settings.airspace.ils,
                    settings.airspace.atz,
                ).as_str(),
                Some(LocalType::Matz) => "MATZ",
                Some(LocalType::NoAtz) => air_type_or(
                    &settings.airspace.unlicensed,
                    AirType::Other,
                ).as_str(),
                Some(LocalType::Rat) => "P",
                Some(LocalType::Tmz) => "TMZ",
                Some(LocalType::Ul) => air_type_or(
                    &settings.airspace.microlight,
                    AirType::Other,
                ).as_str(),
                Some(LocalType::Rmz) => "RMZ",
                _ => "OTHER",
            },
            IcaoType::P => "P",
            IcaoType::R => "R",
            _ => {
                if has_rule(feature, volume, Rule::Tmz) {
                    "TMZ"
                } else if has_rule(feature, volume, Rule::Rmz) {
                    "RMZ"
                } else {
                    let c = match volume.icao_class {
                        Some(c) => c,
                        None => match feature.icao_class {
                            Some(c) => c,
                            None => IcaoClass::G,
                        },
                    };
                    c.as_str()
                }
            },
        }
    };
    let mut r = "AC ".to_owned();
    r.append(openair_type);
    r.append("\n");
    r
}

// ---------------------------------------------------------------------------
// Naming
// ---------------------------------------------------------------------------

/// The local-type or rule suffix appended to a feature name, chosen by a
/// fixed precedence: airfield marker, named local type, ATZ, radio-advisory.
pub open spec fn spec_name_suffix(f: FeatureView, v: VolumeView) -> Seq<char> {
    match f.local_type {
        Some(LocalType::NoAtz) => " A/F"@,
        Some(LocalType::Ul) => " A/F"@,
        Some(LocalType::Matz) => " MATZ"@,
        Some(LocalType::Dz) => " DZ"@,
        Some(LocalType::Gvs) => " GVS"@,
        Some(LocalType::Hirta) => " HIRTA"@,
        Some(LocalType::Ils) => " ILS"@,
        Some(LocalType::Laser) => " LASER"@,
        _ => {
            if f.icao_type == IcaoType::Atz {
                " ATZ"@
            } else if spec_has_rule(f, v, Rule::Raz) {
                " RAZ"@
            } else {
                Seq::empty()
            }
        },
    }
}

/// The letter standing for the zero-based position `n`.
pub open spec fn spec_letter(n: int) -> char {
    (('A' as int) + n) as char
}

/// The sequence suffix of a volume name: only in competition format and
/// only for features with several volumes; an explicit sequence number (and
/// optional sub-sequence letter) wins over a synthesized position letter.
pub open spec fn spec_seq_suffix(f: FeatureView, v: VolumeView, n: int, s: SettingsView) -> Seq<
    char,
> {
    if s.options.format == Format::Competition && f.geometry.len() > 1 {
        seq!['-'] + match v.seqno {
            Some(q) => spec_dec(q as nat) + match v.subseq {
                Some(c) => seq![c],
                None => Seq::<char>::empty(),
            },
            None => seq![spec_letter(n)],
        }
    } else {
        Seq::empty()
    }
}

/// The parenthesized qualifier suffix: the applicable tokens of the
/// statutory-instrument and NOTAM rules, slash-joined in reverse
/// alphabetical order.
pub open spec fn spec_qual_suffix(f: FeatureView, v: VolumeView) -> Seq<char> {
    let si = spec_has_rule(f, v, Rule::Si);
    let notam = spec_has_rule(f, v, Rule::Notam);
    if si && notam {
        " (SI/NOTAM)"@
    } else if si {
        " (SI)"@
    } else if notam {
        " (NOTAM)"@
    } else {
        Seq::empty()
    }
}

/// A frequency in kHz rendered in MHz with three decimals.
pub open spec fn spec_freq(khz: u32) -> Seq<char> {
    spec_dec((khz / 1000) as nat) + "."@ + spec_pad3((khz % 1000) as nat)
}

/// The frequency suffix of a volume name, present only when radio
/// annotation is on and the volume carries a frequency.
pub open spec fn spec_freq_suffix(v: VolumeView, s: SettingsView) -> Seq<char> {
    if s.options.radio {
        match v.frequency {
            Some(q) => " "@ + spec_freq(q),
            None => Seq::empty(),
        }
    } else {
        Seq::empty()
    }
}

/// The display name of a volume: an explicit name override verbatim, else
/// the feature name with suffixes.
pub open spec fn spec_volume_name(f: FeatureView, v: VolumeView, n: int, s: SettingsView) -> Seq<
    char,
> {
    match v.name {
        Some(nm) => nm,
        None => f.name + spec_name_suffix(f, v) + spec_seq_suffix(f, v, n, s) + spec_qual_suffix(
            f,
            v,
        ) + spec_freq_suffix(v, s),
    }
}

/// The name line of a volume.
pub open spec fn spec_do_name(f: FeatureView, v: VolumeView, n: int, s: SettingsView) -> Seq<
    char,
> {
    "AN "@ + spec_volume_name(f, v, n, s) + "\n"@
}

fn freq_to_string(khz: u32) -> (r: String)
    ensures
        r@ == spec_freq(khz),
{
    let mut r = u64_to_string((khz / 1000) as u64);
    r.append(".");
    let frac = pad3_to_string((khz % 1000) as u64);
    r.append(frac.as_str());
    r
}

/// Renders the name line of a volume at position `n` among its feature's
/// volumes.
#[verifier::rlimit(100)]
pub fn do_name(feature: &Feature, vol: &Volume, n: usize, settings: &Settings) -> (r: String)
    requires
        (settings@.options.format == Format::Competition && feature@.geometry.len() > 1
            && vol@.seqno is None && vol@.name is None) ==> n < 26,
    ensures
        r@ == spec_do_name(feature@, vol@, n as int, settings@),
{
    let name: String = match vol.name.as_ref() {
        Some(nm) => nm.clone(),
        None => {
            let mut name = feature.name.clone();
            match feature.local_type {
                Some(LocalType::NoAtz) => name.append(" A/F"),
                Some(LocalType::Ul) => name.append(" A/F"),
                Some(LocalType::Matz) => name.append(" MATZ"),
                Some(LocalType::Dz) => name.append(" DZ"),
                Some(LocalType::Gvs) => name.append(" GVS"),
                Some(LocalType::Hirta) => name.append(" HIRTA"),
                Some(LocalType::Ils) => name.append(" ILS"),
                Some(LocalType::Laser) => name.append(" LASER"),
                _ => {
                    if matches!(feature.icao_type, IcaoType::Atz) {
                        name.append(" ATZ");
                    } else if has_rule(feature, vol, Rule::Raz) {
                        name.append(" RAZ");
                    }
                },
            }
            proof {
                assert(name@ =~= feature@.name + spec_name_suffix(feature@, vol@));
            }
            let ghost base = name@;
            if matches!(settings.options.format, Format::Competition) && feature.geometry.len()
                > 1 {
                push_char(&mut name, '-');
                match vol.seqno {
                    Some(q) => {
                        let qs = u64_to_string(q as u64);
                        name.append(qs.as_str());
                        match vol.subseq {
                            Some(c) => push_char(&mut name, c),
                            None => {},
                        }
                    },
                    None => {
                        let letter = (65u8 + (n as u8)) as char;
                        proof {
                            assert(letter == spec_letter(n as int));
                        }
                        push_char(&mut name, letter);
                    },
                }
            }
            proof {
                assert(name@ =~= base + spec_seq_suffix(feature@, vol@, n as int, settings@));
            }
            let ghost with_seq = name@;
            let si = has_rule(feature, vol, Rule::Si);
            let notam = has_rule(feature, vol, Rule::Notam);
            if si && notam {
                name.append(" (SI/NOTAM)");
            } else if si {
                name.append(" (SI)");
            } else if notam {
                name.append(" (NOTAM)");
            }
            proof {
                assert(name@ =~= with_seq + spec_qual_suffix(feature@, vol@));
            }
            let ghost with_qual = name@;
            if settings.options.radio {
                match vol.frequency {
                    Some(q) => {
                        name.append(" ");
                        let fs = freq_to_string(q);
                        name.append(fs.as_str());
                    },
                    None => {},
                }
            }
            proof {
                assert(name@ =~= with_qual + spec_freq_suffix(vol@, settings@));
                assert(name@ =~= spec_volume_name(feature@, vol@, n as int, settings@));
            }
            name
        },
    };
    let mut r = "AN ".to_owned();
    r.append(name.as_str());
    r.append("\n");
    r
}

// ---------------------------------------------------------------------------
// Levels and frequency lines
// ---------------------------------------------------------------------------

/// The lower and upper level lines of a volume.
pub open spec fn spec_do_levels(v: VolumeView) -> Seq<char> {
    "AL "@ + spec_format_level(v.lower) + "\nAH "@ + spec_format_level(v.upper) + "\n"@
}

/// Renders the lower and upper level lines of a volume.
pub fn do_levels(volume: &Volume) -> (r: String)
    ensures
        r@ == spec_do_levels(volume@),
{
    let mut r = "AL ".to_owned();
    let lo = format_level(volume.lower.as_str());
    r.append(lo.as_str());
    r.append("\nAH ");
    let hi = format_level(volume.upper.as_str());
    r.append(hi.as_str());
    r.append("\n");
    r
}

/// The frequency line of a volume.
pub open spec fn spec_do_freq(khz: u32) -> Seq<char> {
    "AF "@ + spec_freq(khz) + "\n"@
}

/// Renders the frequency line.
pub fn do_freq(freq: u32) -> (r: String)
    ensures
        r@ == spec_do_freq(freq),
{
    let mut r = "AF ".to_owned();
    let fs = freq_to_string(freq);
    r.append(fs.as_str());
    r.append("\n");
    r
}

// ---------------------------------------------------------------------------
// Boundary rendering
// ---------------------------------------------------------------------------

/// One boundary point command.
pub open spec fn spec_do_point(p: Seq<char>) -> Seq<char> {
    "DP "@ + spec_format_latlon(p) + "\n"@
}

/// The point commands of a line segment.
pub open spec fn spec_do_line(l: Seq<Seq<char>>) -> Seq<char>
    decreases l.len(),
{
    if l.len() == 0 {
        Seq::empty()
    } else {
        spec_do_point(l[0]) + spec_do_line(l.drop_first())
    }
}

/// The centre and radius commands of a circle segment.
pub open spec fn spec_do_circle(c: CircleView) -> Seq<char> {
    "V X="@ + spec_format_latlon(c.centre) + "\nDC "@ + spec_format_distance(c.radius) + "\n"@
}

/// The direction, centre and from/to commands of an arc segment, starting
/// from the previous segment's endpoint.
pub open spec fn spec_do_arc(a: ArcView, from: Seq<char>) -> Seq<char> {
    let dir: Seq<char> = if a.dir == "cw"@ {
        "+"@
    } else {
        "-"@
    };
    "V D="@ + dir + "\nV X="@ + spec_format_latlon(a.centre) + "\nDB "@ + spec_format_latlon(from)
        + ", "@ + spec_format_latlon(a.to) + "\n"@
}

/// Renders one boundary point command.
pub fn do_point(point: &str) -> (r: String)
    requires
        wf_latlon(point@),
    ensures
        r@ == spec_do_point(point@),
{
    let mut r = "DP ".to_owned();
    let p = format_latlon(point);
    r.append(p.as_str());
    r.append("\n");
    r
}

/// A line segment whose points the renderer accepts.
pub open spec fn wf_line(l: Seq<Seq<char>>) -> bool {
    l.len() > 0 && forall|i: int| 0 <= i < l.len() ==> wf_latlon(#[trigger] l[i])
}

/// Renders the point commands of a line segment.
pub fn do_line(line: &Vec<String>) -> (r: String)
    requires
        wf_line(crate::yaixm::strs_view(line@)),
    ensures
        r@ == spec_do_line(crate::yaixm::strs_view(line@)),
{
    let ghost lv = crate::yaixm::strs_view(line@);
    let mut out = String::new();
    let mut i: usize = 0;
    proof {
        assert(lv.skip(0) =~= lv);
    }
    while i < line.len()
        invariant
            i <= line@.len(),
            lv == crate::yaixm::strs_view(line@),
            wf_line(lv),
            out@ + spec_do_line(lv.skip(i as int)) =~= spec_do_line(lv),
        decreases line@.len() - i,
    {
        proof {
            assert(lv.skip(i as int)[0] == lv[i as int]);
            assert(lv.skip(i as int).drop_first() =~= lv.skip(i + 1));
            assert(lv[i as int] == line@[i as int]@);
        }
        let p = do_point(line[i].as_str());
        out.append(p.as_str());
        i = i + 1;
    }
    proof {
        assert(lv.skip(line@.len() as int) =~= Seq::<Seq<char>>::empty());
        assert(out@ =~= spec_do_line(lv));
    }
    out
}

/// Renders the commands of a circle segment.
pub fn do_circle(circle: &Circle) -> (r: String)
    requires
        wf_latlon(circle@.centre),
        wf_distance(circle@.radius),
    ensures
        r@ == spec_do_circle(circle@),
{
    let mut r = "V X=".to_owned();
    let c = format_latlon(circle.centre.as_str());
    r.append(c.as_str());
    r.append("\nDC ");
    let d = format_distance(circle.radius.as_str());
    r.append(d.as_str());
    r.append("\n");
    r
}

/// Renders the commands of an arc segment.
pub fn do_arc(arc: &Arc, from: &str) -> (r: String)
    requires
        wf_latlon(arc@.centre),
        wf_latlon(arc@.to),
        wf_latlon(from@),
    ensures
        r@ == spec_do_arc(arc@, from@),
{
    let dir: &str = if str_eq(arc.dir.as_str(), "cw") {
        "+"
    } else {
        "-"
    };
    let mut r = "V D=".to_owned();
    r.append(dir);
    r.append("\nV X=");
    let c = format_latlon(arc.centre.as_str());
    r.append(c.as_str());
    r.append("\nDB ");
    let f = format_latlon(from);
    r.append(f.as_str());
    r.append(", ");
    let t = format_latlon(arc.to.as_str());
    r.append(t.as_str());
    r.append("\n");
    r
}

/// A boundary segment whose tokens the renderer accepts.
pub open spec fn wf_segment(b: BoundaryView) -> bool {
    match b {
        BoundaryView::Line(l) => wf_line(l),
        BoundaryView::Arc(a) => wf_latlon(a.centre) && wf_latlon(a.to),
        BoundaryView::Circle(c) => wf_latlon(c.centre) && wf_distance(c.radius),
    }
}

/// A boundary the renderer accepts: non-empty, with well-formed segments,
/// and with a line before any arc so that every arc has a start point.
pub open spec fn wf_boundary(b: Seq<BoundaryView>) -> bool {
    b.len() > 0 && (forall|i: int| 0 <= i < b.len() ==> wf_segment(#[trigger] b[i])) && (forall|
        i: int,
    |
        0 <= i < b.len() && b[i] is Arc ==> exists|j: int| 0 <= j < i && #[trigger] b[j] is Line)
}

/// The body of a boundary: each segment's commands in order, each arc
/// starting where the previous line or arc ended.
pub open spec fn spec_boundary_body(b: Seq<BoundaryView>, prev: Seq<char>) -> Seq<char>
    decreases b.len(),
{
    if b.len() == 0 {
        Seq::empty()
    } else {
        match b[0] {
            BoundaryView::Line(l) => spec_do_line(l) + spec_boundary_body(b.drop_first(), l.last()),
            BoundaryView::Arc(a) => spec_do_arc(a, prev) + spec_boundary_body(b.drop_first(), a.to),
            BoundaryView::Circle(c) => spec_do_circle(c) + spec_boundary_body(b.drop_first(), prev),
        }
    }
}

/// The point reached after walking a boundary.
pub open spec fn spec_boundary_end(b: Seq<BoundaryView>, prev: Seq<char>) -> Seq<char>
    decreases b.len(),
{
    if b.len() == 0 {
        prev
    } else {
        match b[0] {
            BoundaryView::Line(l) => spec_boundary_end(b.drop_first(), l.last()),
            BoundaryView::Arc(a) => spec_boundary_end(b.drop_first(), a.to),
            BoundaryView::Circle(c) => spec_boundary_end(b.drop_first(), prev),
        }
    }
}

/// A whole boundary: its body, plus one closing point command when the
/// boundary starts with a line whose first point was not reached again.
pub open spec fn spec_do_boundary(b: Seq<BoundaryView>) -> Seq<char> {
    let body = spec_boundary_body(b, Seq::empty());
    let end = spec_boundary_end(b, Seq::empty());
    body + match b[0] {
        BoundaryView::Line(l) => {
            if l[0] != end {
                spec_do_point(l[0])
            } else {
                Seq::empty()
            }
        },
        _ => Seq::empty(),
    }
}

/// Renders a whole boundary, closing the polygon if needed.
pub fn do_boundary(boundary: &Vec<Boundary>) -> (r: String)
    requires
        wf_boundary(Seq::new(boundary@.len(), |i: int| boundary@[i]@)),
    ensures
        r@ == spec_do_boundary(Seq::new(boundary@.len(), |i: int| boundary@[i]@)),
{
    let ghost bv = Seq::new(boundary@.len(), |i: int| boundary@[i]@);
    let mut out = String::new();
    let mut prev = String::new();
    let mut i: usize = 0;
    proof {
        assert(bv.skip(0) =~= bv);
    }
    while i < boundary.len()
        invariant
            i <= boundary@.len(),
            bv == Seq::new(boundary@.len(), |k: int| boundary@[k]@),
            wf_boundary(bv),
            out@ + spec_boundary_body(bv.skip(i as int), prev@) =~= spec_boundary_body(
                bv,
                Seq::empty(),
            ),
            spec_boundary_end(bv.skip(i as int), prev@) == spec_boundary_end(bv, Seq::empty()),
            (exists|j: int| 0 <= j < i && #[trigger] bv[j] is Line) ==> wf_latlon(prev@),
        decreases boundary@.len() - i,
    {
        proof {
            assert(bv.skip(i as int)[0] == bv[i as int]);
            assert(bv.skip(i as int).drop_first() =~= bv.skip(i + 1));
            assert(wf_segment(bv[i as int]));
        }
        match &boundary[i] {
            Boundary::Line(line) => {
                proof {
                    assert(bv[i as int] == boundary@[i as int]@);
                }
                let text = do_line(line);
                out.append(text.as_str());
                let last = line[line.len() - 1].clone();
                prev = last;
                proof {
                    let lv = crate::yaixm::strs_view(line@);
                    assert(prev@ == lv.last());
                    assert(bv[i as int] is Line);
                }
            },
            Boundary::Arc(arc) => {
                proof {
                    assert(bv[i as int] == boundary@[i as int]@);
                    assert(bv[i as int] is Arc);
                    assert(exists|j: int| 0 <= j < i && #[trigger] bv[j] is Line);
                    assert(wf_latlon(prev@));
                }
                let text = do_arc(arc, prev.as_str());
                out.append(text.as_str());
                prev = arc.to.clone();
            },
            Boundary::Circle(circle) => {
                proof {
                    assert(bv[i as int] == boundary@[i as int]@);
                }
                let text = do_circle(circle);
                out.append(text.as_str());
            },
        }
        i = i + 1;
    }
    proof {
        assert(bv.skip(boundary@.len() as int) =~= Seq::<BoundaryView>::empty());
        assert(out@ =~= spec_boundary_body(bv, Seq::empty()));
        assert(prev@ == spec_boundary_end(bv, Seq::empty()));
    }
    match &boundary[0] {
        Boundary::Line(line) => {
            proof {
                assert(bv[0] == boundary@[0]@);
                assert(wf_segment(bv[0]));
                assert(crate::yaixm::strs_view(line@)[0] == line@[0]@);
            }
            if !str_eq(line[0].as_str(), prev.as_str()) {
                let p = do_point(line[0].as_str());
                out.append(p.as_str());
            }
        },
        _ => {},
    }
    proof {
        assert(out@ =~= spec_do_boundary(bv));
    }
    out
}

// ---------------------------------------------------------------------------
// Frequency merging
// ---------------------------------------------------------------------------

/// The frequency registered for `id` by the services, later services
/// overwriting earlier ones.
pub open spec fn spec_freq_lookup(ss: Seq<ServiceView>, id: Seq<char>) -> Option<u32>
    decreases ss.len(),
{
    if ss.len() == 0 {
        None
    } else if ss.last().controls.contains(id) {
        Some(ss.last().frequency)
    } else {
        spec_freq_lookup(ss.drop_last(), id)
    }
}

/// The frequency a volume ends up with: its own id's entry first, then its
/// feature's, else none.
pub open spec fn spec_merged_freq(f: FeatureView, v: VolumeView, ss: Seq<ServiceView>) -> Option<
    u32,
> {
    let vf = match v.id {
        Some(id) => spec_freq_lookup(ss, id),
        None => None,
    };
    let ff = match f.id {
        Some(id) => spec_freq_lookup(ss, id),
        None => None,
    };
    if vf is Some {
        vf
    } else {
        ff
    }
}

/// A volume with its frequency replaced.
pub open spec fn spec_set_freq(v: VolumeView, freq: Option<u32>) -> VolumeView {
    VolumeView { frequency: freq, ..v }
}

/// A feature with every volume's frequency stamped from the services.
pub open spec fn spec_merge_services_feature(f: FeatureView, ss: Seq<ServiceView>) -> FeatureView {
    FeatureView {
        geometry: Seq::new(
            f.geometry.len(),
            |i: int| spec_set_freq(f.geometry[i], spec_merged_freq(f, f.geometry[i], ss)),
        ),
        ..f
    }
}

/// The whole feature list with frequencies stamped.
pub open spec fn spec_merge_services(airspace: Seq<FeatureView>, ss: Seq<ServiceView>) -> Seq<
    FeatureView,
> {
    Seq::new(airspace.len(), |i: int| spec_merge_services_feature(airspace[i], ss))
}

/// Looks `id` up in the services, later services winning.
fn lookup_freq(services: &Vec<Service>, id: &str) -> (r: Option<u32>)
    ensures
        r == spec_freq_lookup(crate::yaixm::views_of(services@), id@),
{
    let ghost sv = crate::yaixm::views_of(services@);
    let mut i: usize = services.len();
    proof {
        assert(sv.take(services@.len() as int) =~= sv);
    }
    while i > 0
        invariant
            i <= services@.len(),
            sv == crate::yaixm::views_of(services@),
            spec_freq_lookup(sv, id@) == spec_freq_lookup(sv.take(i as int), id@),
        decreases i,
    {
        i = i - 1;
        proof {
            assert(sv.take(i + 1).last() == sv[i as int]);
            assert(sv.take(i + 1).drop_last() =~= sv.take(i as int));
            assert(sv[i as int].controls == crate::yaixm::strs_view(services@[i as int].controls@));
        }
        if names_contain(&services[i].controls, id) {
            return Some(services[i].frequency);
        }
    }
    proof {
        assert(sv.take(0) =~= Seq::<ServiceView>::empty());
    }
    None
}

/// Stamps every volume with the frequency its id or its feature's id is
/// registered under, if any; a volume's own entry takes precedence.
pub fn merge_services(airspace: &mut Vec<Feature>, services: &Vec<Service>)
    ensures
        crate::yaixm::views_of(final(airspace)@) == spec_merge_services(
            crate::yaixm::views_of(old(airspace)@),
            crate::yaixm::views_of(services@),
        ),
{
    let ghost av = crate::yaixm::views_of(airspace@);
    let ghost sv = crate::yaixm::views_of(services@);
    let mut out: Vec<Feature> = Vec::new();
    let mut fi: usize = 0;
    while fi < airspace.len()
        invariant
            fi <= airspace@.len(),
            av == crate::yaixm::views_of(airspace@),
            sv == crate::yaixm::views_of(services@),
            crate::yaixm::views_of(out@) =~= spec_merge_services(av, sv).take(fi as int),
        decreases airspace@.len() - fi,
    {
        let f = &airspace[fi];
        proof {
            assert(f@ == av[fi as int]);
        }
        let mut geom: Vec<Volume> = Vec::new();
        let mut vi: usize = 0;
        let ffreq: Option<u32> = match f.id.as_ref() {
            Some(id) => lookup_freq(services, id.as_str()),
            None => None,
        };
        proof {
            assert(ffreq == match f@.id {
                Some(id) => spec_freq_lookup(sv, id),
                None => None::<u32>,
            });
        }
        while vi < f.geometry.len()
            invariant
                vi <= f.geometry@.len(),
                av == crate::yaixm::views_of(airspace@),
                sv == crate::yaixm::views_of(services@),
                fi < airspace@.len(),
                f == &airspace@[fi as int],
                f@ == av[fi as int],
                ffreq == match f@.id {
                    Some(id) => spec_freq_lookup(sv, id),
                    None => None::<u32>,
                },
                geom@.len() == vi,
                forall|j: int|
                    0 <= j < vi ==> crate::yaixm::views_of(geom@)[j]
                        == spec_merge_services_feature(f@, sv).geometry[j],
            decreases f.geometry@.len() - vi,
        {
            let vol = &f.geometry[vi];
            proof {
                assert(vol@ == f@.geometry[vi as int]);
            }
            let vfreq: Option<u32> = match vol.id.as_ref() {
                Some(id) => lookup_freq(services, id.as_str()),
                None => None,
            };
            let freq: Option<u32> = match vfreq {
                Some(x) => Some(x),
                None => ffreq,
            };
            proof {
                assert(freq == spec_merged_freq(f@, vol@, sv));
            }
            let mut nv = clone_volume(vol);
            nv.frequency = freq;
            proof {
                assert(nv@ =~= spec_set_freq(vol@, spec_merged_freq(f@, vol@, sv)));
            }
            let ghost gpre = geom@;
            geom.push(nv);
            vi = vi + 1;
            proof {
                assert forall|j: int| 0 <= j < vi implies crate::yaixm::views_of(geom@)[j]
                    == spec_merge_services_feature(f@, sv).geometry[j] by {
                    if j < vi - 1 {
                        assert(geom@[j] == gpre[j]);
                        assert(crate::yaixm::views_of(gpre)[j] == gpre[j]@);
                    } else {
                        assert(geom@[j] == nv);
                    }
                }
            }
        }
        let nf = Feature {
            id: clone_opt_string(&f.id),
            name: f.name.clone(),
            icao_type: f.icao_type,
            local_type: f.local_type,
            icao_class: f.icao_class,
            rules: clone_rules(&f.rules),
            geometry: geom,
        };
        proof {
            let target = spec_merge_services_feature(f@, sv);
            assert(nf@.id == f@.id);
            assert(nf@.name == f@.name);
            assert(nf@.rules == f@.rules);
            assert(nf@.geometry.len() == target.geometry.len());
            assert forall|j: int| 0 <= j < nf@.geometry.len() implies nf@.geometry[j]
                == target.geometry[j] by {
                assert(nf@.geometry[j] == crate::yaixm::views_of(nf.geometry@)[j]);
            }
            assert(nf@.geometry =~= target.geometry);
            assert(nf@ =~= target);
        }
        let ghost opre = out@;
        out.push(nf);
        fi = fi + 1;
        proof {
            assert(crate::yaixm::views_of(opre).len() == opre.len());
            assert(opre.len() == fi - 1);
            assert(out@ == opre.push(nf));
            assert forall|j: int| 0 <= j < fi implies crate::yaixm::views_of(out@)[j]
                == spec_merge_services(av, sv).take(fi as int)[j] by {
                if j < fi - 1 {
                    assert(out@[j] == opre[j]);
                    assert(crate::yaixm::views_of(opre)[j] == opre[j]@);
                    assert(crate::yaixm::views_of(opre)[j] == spec_merge_services(av, sv).take(
                        fi - 1,
                    )[j]);
                } else {
                    assert(out@[j] == nf);
                }
            }
            assert(crate::yaixm::views_of(out@) =~= spec_merge_services(av, sv).take(fi as int));
        }
    }
    proof {
        assert(spec_merge_services(av, sv).take(airspace@.len() as int) =~= spec_merge_services(
            av,
            sv,
        ));
    }
    *airspace = out;
    proof {
        assert(crate::yaixm::views_of(airspace@) =~= spec_merge_services(av, sv));
    }
}

// ---------------------------------------------------------------------------
// Volume search
// ---------------------------------------------------------------------------

/// The first volume of a feature bearing `id`.
pub open spec fn spec_find_in_geometry(geom: Seq<VolumeView>, id: Seq<char>) -> Option<int>
    decreases geom.len(),
{
    if geom.len() == 0 {
        None
    } else if geom[0].id == Some(id) {
        Some(0)
    } else {
        match spec_find_in_geometry(geom.drop_first(), id) {
            Some(v) => Some(v + 1),
            None => None,
        }
    }
}

/// The first (feature, volume) position bearing `id`.
pub open spec fn spec_find_volume(airspace: Seq<FeatureView>, id: Seq<char>) -> Option<(int, int)>
    decreases airspace.len(),
{
    if airspace.len() == 0 {
        None
    } else {
        match spec_find_in_geometry(airspace[0].geometry, id) {
            Some(v) => Some((0, v)),
            None => match spec_find_volume(airspace.drop_first(), id) {
                Some(p) => Some((p.0 + 1, p.1)),
                None => None,
            },
        }
    }
}

fn find_in_geometry(geometry: &Vec<Volume>, volume_id: &str) -> (r: Option<usize>)
    ensures
        match r {
            Some(v) => spec_find_in_geometry(crate::yaixm::views_of(geometry@), volume_id@)
                == Some(v as int),
            None => spec_find_in_geometry(crate::yaixm::views_of(geometry@), volume_id@)
                == None::<int>,
        },
{
    let ghost gv = crate::yaixm::views_of(geometry@);
    let mut vi: usize = 0;
    proof {
        assert(gv.skip(0) =~= gv);
    }
    while vi < geometry.len()
        invariant
            vi <= geometry@.len(),
            gv == crate::yaixm::views_of(geometry@),
            spec_find_in_geometry(gv, volume_id@) == match spec_find_in_geometry(
                gv.skip(vi as int),
                volume_id@,
            ) {
                Some(v) => Some(v + vi),
                None => None::<int>,
            },
        decreases geometry@.len() - vi,
    {
        let vol = &geometry[vi];
        proof {
            assert(gv.skip(vi as int)[0] == gv[vi as int]);
            assert(gv.skip(vi as int).drop_first() =~= gv.skip(vi + 1));
            assert(gv[vi as int] == vol@);
        }
        let matches_id = match vol.id.as_ref() {
            Some(vid) => str_eq(vid.as_str(), volume_id),
            None => false,
        };
        proof {
            assert(matches_id == (vol@.id == Some(volume_id@)));
        }
        if matches_id {
            return Some(vi);
        }
        vi = vi + 1;
    }
    proof {
        assert(gv.skip(geometry@.len() as int) =~= Seq::<VolumeView>::empty());
    }
    None
}

/// Finds the feature and volume indices of the volume bearing `volume_id`.
pub fn find_volume(airspace: &Vec<Feature>, volume_id: &str) -> (r: Option<(usize, usize)>)
    ensures
        match r {
            Some(p) => spec_find_volume(crate::yaixm::views_of(airspace@), volume_id@) == Some(
                (p.0 as int, p.1 as int),
            ) && p.0 < airspace@.len() && p.1 < airspace@[p.0 as int]@.geometry.len(),
            None => spec_find_volume(crate::yaixm::views_of(airspace@), volume_id@) == None::<
                (int, int),
            >,
        },
{
    let ghost av = crate::yaixm::views_of(airspace@);
    let mut fi: usize = 0;
    proof {
        assert(av.skip(0) =~= av);
    }
    while fi < airspace.len()
        invariant
            fi <= airspace@.len(),
            av == crate::yaixm::views_of(airspace@),
            spec_find_volume(av, volume_id@) == match spec_find_volume(
                av.skip(fi as int),
                volume_id@,
            ) {
                Some(p) => Some((p.0 + fi, p.1)),
                None => None::<(int, int)>,
            },
        decreases airspace@.len() - fi,
    {
        let f = &airspace[fi];
        proof {
            assert(av.skip(fi as int)[0] == av[fi as int]);
            assert(av.skip(fi as int).drop_first() =~= av.skip(fi + 1));
            assert(av[fi as int] == f@);
        }
        match find_in_geometry(&f.geometry, volume_id) {
            Some(vi) => {
                proof {
                    assert(crate::yaixm::views_of(f.geometry@) =~= f@.geometry);
                    lemma_find_in_geometry_bounds(f@.geometry, volume_id@);
                }
                return Some((fi, vi));
            },
            None => {
                proof {
                    assert(crate::yaixm::views_of(f.geometry@) =~= f@.geometry);
                }
            },
        }
        fi = fi + 1;
    }
    proof {
        assert(av.skip(airspace@.len() as int) =~= Seq::<FeatureView>::empty());
    }
    None
}

// ---------------------------------------------------------------------------
// Letter-of-agreement merging
// ---------------------------------------------------------------------------

/// A rule list with the letter-of-agreement rule added.
pub open spec fn spec_add_loa_rule(rules: Option<Seq<Rule>>) -> Seq<Rule> {
    match rules {
        None => seq![Rule::Loa],
        Some(rs) => if rs.contains(Rule::Loa) {
            rs
        } else {
            rs.push(Rule::Loa)
        },
    }
}

/// An added feature, tagged with the letter-of-agreement rule.
pub open spec fn spec_loa_feature(f: FeatureView) -> FeatureView {
    FeatureView { rules: Some(spec_add_loa_rule(f.rules)), ..f }
}

/// The features one area adds.
pub open spec fn spec_area_adds(a: LoaAreaView) -> Seq<FeatureView> {
    match a.add {
        Some(fs) => fs.map_values(|f: FeatureView| spec_loa_feature(f)),
        None => Seq::empty(),
    }
}

/// The features the areas of one agreement add, in order.
pub open spec fn spec_areas_adds(areas: Seq<LoaAreaView>) -> Seq<FeatureView>
    decreases areas.len(),
{
    if areas.len() == 0 {
        Seq::empty()
    } else {
        spec_area_adds(areas[0]) + spec_areas_adds(areas.drop_first())
    }
}

/// The features the selected agreements add, in order.
pub open spec fn spec_loa_adds(loas: Seq<LoaView>) -> Seq<FeatureView>
    decreases loas.len(),
{
    if loas.len() == 0 {
        Seq::empty()
    } else {
        spec_areas_adds(loas[0].areas) + spec_loa_adds(loas.drop_first())
    }
}

/// The replace directives of one area.
pub open spec fn spec_area_replaces(a: LoaAreaView) -> Seq<ReplaceView> {
    match a.replace {
        Some(rs) => rs,
        None => Seq::empty(),
    }
}

/// The replace directives of the areas of one agreement, in order.
pub open spec fn spec_areas_replaces(areas: Seq<LoaAreaView>) -> Seq<ReplaceView>
    decreases areas.len(),
{
    if areas.len() == 0 {
        Seq::empty()
    } else {
        spec_area_replaces(areas[0]) + spec_areas_replaces(areas.drop_first())
    }
}

/// The replace directives of the selected agreements, in order.
pub open spec fn spec_loa_replaces(loas: Seq<LoaView>) -> Seq<ReplaceView>
    decreases loas.len(),
{
    if loas.len() == 0 {
        Seq::empty()
    } else {
        spec_areas_replaces(loas[0].areas) + spec_loa_replaces(loas.drop_first())
    }
}

/// One replace directive applied: the target volume's geometry entry is
/// removed, the replacement volumes are appended carrying the target's
/// sequence number, and a feature left without geometry disappears; a
/// directive whose id is not found does nothing.
pub open spec fn spec_apply_replace(airspace: Seq<FeatureView>, rep: ReplaceView) -> Seq<
    FeatureView,
> {
    match spec_find_volume(airspace, rep.id) {
        None => airspace,
        Some(p) => {
            let old_f = airspace[p.0];
            let target = old_f.geometry[p.1];
            let new_geom = old_f.geometry.remove(p.1) + rep.geometry.map_values(
                |rv: VolumeView| VolumeView { seqno: target.seqno, ..rv },
            );
            if new_geom.len() == 0 {
                airspace.remove(p.0)
            } else {
                airspace.update(p.0, FeatureView { geometry: new_geom, ..old_f })
            }
        },
    }
}

/// Replace directives applied in order.
pub open spec fn spec_apply_replaces(airspace: Seq<FeatureView>, reps: Seq<ReplaceView>) -> Seq<
    FeatureView,
>
    decreases reps.len(),
{
    if reps.len() == 0 {
        airspace
    } else {
        spec_apply_replaces(spec_apply_replace(airspace, reps[0]), reps.drop_first())
    }
}

/// Applying concatenated directive lists applies them in sequence.
pub proof fn lemma_apply_replaces_concat(
    airspace: Seq<FeatureView>,
    x: Seq<ReplaceView>,
    y: Seq<ReplaceView>,
)
    ensures
        spec_apply_replaces(airspace, x + y) == spec_apply_replaces(
            spec_apply_replaces(airspace, x),
            y,
        ),
    decreases x.len(),
{
    if x.len() == 0 {
        assert(x + y =~= y);
    } else {
        assert((x + y)[0] == x[0]);
        assert((x + y).drop_first() =~= x.drop_first() + y);
        lemma_apply_replaces_concat(spec_apply_replace(airspace, x[0]), x.drop_first(), y);
    }
}

/// The merged feature list: the selected agreements' additions appended,
/// then their replace directives applied in input order.
pub open spec fn spec_merge_loa(airspace: Seq<FeatureView>, loas: Seq<LoaView>) -> Seq<
    FeatureView,
> {
    spec_apply_replaces(airspace + spec_loa_adds(loas), spec_loa_replaces(loas))
}

fn add_loa_rules(rules: &Option<Vec<Rule>>) -> (r: Vec<Rule>)
    ensures
        r@ == spec_add_loa_rule(opt_rules_view(*rules)),
{
    match rules.as_ref() {
        None => {
            let mut out: Vec<Rule> = Vec::new();
            out.push(Rule::Loa);
            proof {
                assert(out@ =~= seq![Rule::Loa]);
            }
            out
        },
        Some(rs) => {
            proof {
                assert(opt_rules_view(*rules) == Some(rs@));
            }
            let mut out: Vec<Rule> = Vec::new();
            let mut i: usize = 0;
            while i < rs.len()
                invariant
                    i <= rs@.len(),
                    out@ =~= rs@.take(i as int),
                decreases rs@.len() - i,
            {
                out.push(rs[i]);
                i = i + 1;
                proof {
                    assert(out@ =~= rs@.take(i as int));
                }
            }
            proof {
                assert(rs@.take(rs@.len() as int) =~= rs@);
            }
            if !vec_rules_contain(rules, Rule::Loa) {
                out.push(Rule::Loa);
            }
            out
        },
    }
}

/// Applies one replace directive to the feature list.
fn apply_one_replace(airspace: &mut Vec<Feature>, rep: &Replace)
    ensures
        crate::yaixm::views_of(final(airspace)@) == spec_apply_replace(
            crate::yaixm::views_of(old(airspace)@),
            rep@,
        ),
{
    let ghost av = crate::yaixm::views_of(airspace@);
    match find_volume(airspace, rep.id.as_str()) {
        None => {},
        Some((f, v)) => {
            let feat = &airspace[f];
            let glen = feat.geometry.len();
            proof {
                assert(feat@ == av[f as int]);
                assert(crate::yaixm::views_of(feat.geometry@) =~= feat@.geometry);
                assert(feat@.geometry.len() == feat.geometry@.len());
                assert((v as int) < feat@.geometry.len());
                assert(v < glen);
            }
            let ghost gv = feat@.geometry;
            let ghost tseq = gv[v as int].seqno;
            let seqno = feat.geometry[v].seqno;
            proof {
                assert(seqno == tseq);
            }
            let mut new_geom: Vec<Volume> = Vec::new();
            let mut j: usize = 0;
            while j < v
                invariant
                    j <= v,
                    v < feat.geometry@.len(),
                    feat == &airspace@[f as int],
                    f < airspace@.len(),
                    gv == crate::yaixm::views_of(feat.geometry@),
                    crate::yaixm::views_of(new_geom@) =~= gv.take(j as int),
                decreases v - j,
            {
                let nv = clone_volume(&feat.geometry[j]);
                proof {
                    crate::yaixm::lemma_views_push(new_geom@, nv);
                }
                new_geom.push(nv);
                j = j + 1;
                proof {
                    assert(crate::yaixm::views_of(new_geom@) =~= gv.take(j as int));
                }
            }
            let mut j: usize = v + 1;
            while j < feat.geometry.len()
                invariant
                    v < j <= feat.geometry@.len(),
                    feat == &airspace@[f as int],
                    f < airspace@.len(),
                    gv == crate::yaixm::views_of(feat.geometry@),
                    crate::yaixm::views_of(new_geom@) =~= gv.take(v as int) + gv.subrange(
                        v + 1,
                        j as int,
                    ),
                decreases feat.geometry@.len() - j,
            {
                let nv = clone_volume(&feat.geometry[j]);
                proof {
                    crate::yaixm::lemma_views_push(new_geom@, nv);
                }
                new_geom.push(nv);
                j = j + 1;
                proof {
                    assert(crate::yaixm::views_of(new_geom@) =~= gv.take(v as int) + gv.subrange(
                        v + 1,
                        j as int,
                    ));
                }
            }
            proof {
                assert(gv.take(v as int) + gv.subrange(v + 1, gv.len() as int) =~= gv.remove(
                    v as int,
                ));
            }
            let ghost repv = rep@;
            let mut k: usize = 0;
            while k < rep.geometry.len()
                invariant
                    k <= rep.geometry@.len(),
                    repv == rep@,
                    crate::yaixm::views_of(new_geom@) =~= gv.remove(v as int)
                        + repv.geometry.subrange(0, k as int).map_values(
                        |rv: VolumeView| VolumeView { seqno: tseq, ..rv },
                    ),
                    seqno == tseq,
                decreases rep.geometry@.len() - k,
            {
                let mut nv = clone_volume(&rep.geometry[k]);
                nv.seqno = seqno;
                proof {
                    assert(nv@ =~= VolumeView { seqno: tseq, ..repv.geometry[k as int] });
                    crate::yaixm::lemma_views_push(new_geom@, nv);
                }
                new_geom.push(nv);
                k = k + 1;
                proof {
                    assert(crate::yaixm::views_of(new_geom@) =~= gv.remove(v as int)
                        + repv.geometry.subrange(0, k as int).map_values(
                        |rv: VolumeView| VolumeView { seqno: tseq, ..rv },
                    ));
                }
            }
            proof {
                assert(repv.geometry.subrange(0, repv.geometry.len() as int) =~= repv.geometry);
                assert(crate::yaixm::views_of(new_geom@) =~= gv.remove(v as int)
                    + repv.geometry.map_values(|rv: VolumeView| VolumeView { seqno: tseq, ..rv }));
            }
            let ghost spec_geom = gv.remove(v as int) + repv.geometry.map_values(
                |rv: VolumeView| VolumeView { seqno: tseq, ..rv },
            );
            if new_geom.len() == 0 {
                proof {
                    assert(spec_geom.len() == 0);
                    crate::yaixm::lemma_views_remove(airspace@, f as int);
                }
                airspace.remove(f);
                proof {
                    assert(crate::yaixm::views_of(airspace@) =~= av.remove(f as int));
                }
            } else {
                let nf = Feature {
                    id: clone_opt_string(&feat.id),
                    name: feat.name.clone(),
                    icao_type: feat.icao_type,
                    local_type: feat.local_type,
                    icao_class: feat.icao_class,
                    rules: clone_rules(&feat.rules),
                    geometry: new_geom,
                };
                proof {
                    assert(nf@.geometry =~= crate::yaixm::views_of(nf.geometry@));
                    assert(nf@ =~= FeatureView { geometry: spec_geom, ..av[f as int] });
                    assert(spec_geom.len() != 0);
                }
                let ghost pre = airspace@;
                proof {
                    crate::yaixm::lemma_views_remove(pre, f as int);
                }
                airspace.remove(f);
                let ghost mid = airspace@;
                proof {
                    crate::yaixm::lemma_views_insert(mid, f as int, nf);
                }
                airspace.insert(f, nf);
                proof {
                    assert(crate::yaixm::views_of(airspace@) =~= av.remove(f as int).insert(
                        f as int,
                        FeatureView { geometry: spec_geom, ..av[f as int] },
                    ));
                    assert(av.remove(f as int).insert(
                        f as int,
                        FeatureView { geometry: spec_geom, ..av[f as int] },
                    ) =~= av.update(f as int, FeatureView { geometry: spec_geom, ..av[f as int] }));
                }
            }
        },
    }
}

/// Merges the selected letters of agreement into the feature list: their
/// added features are appended (tagged with the letter-of-agreement rule),
/// then their replace directives are applied in input order.
#[verifier::loop_isolation(false)]
#[verifier::rlimit(100)]
pub fn merge_loa(airspace: &mut Vec<Feature>, loas: &Vec<&Loa>)
    ensures
        crate::yaixm::views_of(final(airspace)@) == spec_merge_loa(
            crate::yaixm::views_of(old(airspace)@),
            crate::yaixm::views_of(loas@),
        ),
{
    let ghost a0 = crate::yaixm::views_of(airspace@);
    let ghost lv = crate::yaixm::views_of(loas@);
    let ghost ga = a0 + spec_loa_adds(lv);
    proof {
        assert(lv.skip(0) =~= lv);
    }
    let mut li: usize = 0;
    while li < loas.len()
        invariant
            li <= loas@.len(),
            crate::yaixm::views_of(airspace@) + spec_loa_adds(lv.skip(li as int)) =~= ga,
        decreases loas@.len() - li,
    {
        let loa: &Loa = loas[li];
        proof {
            assert(lv.skip(li as int)[0] == lv[li as int]);
            assert(lv.skip(li as int).drop_first() =~= lv.skip(li + 1));
            assert(lv[li as int] == loas@[li as int]@);
        }
        let ghost areasv = lv[li as int].areas;
        proof {
            assert(areasv =~= crate::yaixm::views_of(loa.areas@));
            assert(areasv.skip(0) =~= areasv);
        }
        let mut ai: usize = 0;
        while ai < loa.areas.len()
            invariant
                ai <= loa.areas@.len(),
                crate::yaixm::views_of(airspace@) + spec_areas_adds(areasv.skip(ai as int))
                    + spec_loa_adds(lv.skip(li + 1)) =~= ga,
            decreases loa.areas@.len() - ai,
        {
            let area = &loa.areas[ai];
            proof {
                assert(areasv.skip(ai as int)[0] == areasv[ai as int]);
                assert(areasv.skip(ai as int).drop_first() =~= areasv.skip(ai + 1));
                assert(areasv[ai as int] == loa.areas@[ai as int]@);
                assert(area@ == areasv[ai as int]);
            }
            match area.add.as_ref() {
                None => {
                    proof {
                        assert(spec_area_adds(area@) =~= Seq::<FeatureView>::empty());
                    }
                },
                Some(adds) => {
                    proof {
                        assert(area@.add == Some(
                            Seq::new(adds@.len(), |i: int| adds@[i]@),
                        ));
                    }
                    let ghost fsv = crate::yaixm::views_of(adds@);
                    proof {
                        assert(fsv =~= Seq::new(adds@.len(), |i: int| adds@[i]@));
                        assert(spec_area_adds(area@) == fsv.map_values(
                            |f: FeatureView| spec_loa_feature(f),
                        ));
                        assert(fsv.skip(0) =~= fsv);
                    }
                    let mut fi: usize = 0;
                    while fi < adds.len()
                        invariant
                            fi <= adds@.len(),
                            crate::yaixm::views_of(airspace@) + fsv.skip(fi as int).map_values(
                                |f: FeatureView| spec_loa_feature(f),
                            ) + spec_areas_adds(areasv.skip(ai + 1)) + spec_loa_adds(
                                lv.skip(li + 1),
                            ) =~= ga,
                        decreases adds@.len() - fi,
                    {
                        let src = &adds[fi];
                        let mut nf = clone_feature(src);
                        let newrules = add_loa_rules(&src.rules);
                        nf.rules = Some(newrules);
                        proof {
                            assert(src@ == fsv[fi as int]);
                            assert(nf@ =~= spec_loa_feature(fsv[fi as int]));
                            crate::yaixm::lemma_views_push(airspace@, nf);
                            assert(fsv.skip(fi as int).map_values(
                                |f: FeatureView| spec_loa_feature(f),
                            ) =~= seq![spec_loa_feature(fsv[fi as int])] + fsv.skip(
                                fi + 1,
                            ).map_values(|f: FeatureView| spec_loa_feature(f)));
                        }
                        airspace.push(nf);
                        fi = fi + 1;
                    }
                    proof {
                        assert(fsv.skip(adds@.len() as int) =~= Seq::<FeatureView>::empty());
                        assert(Seq::<FeatureView>::empty().map_values(
                            |f: FeatureView| spec_loa_feature(f),
                        ) =~= Seq::<FeatureView>::empty());
                    }
                },
            }
            ai = ai + 1;
        }
        proof {
            assert(areasv.skip(loa.areas@.len() as int) =~= Seq::<LoaAreaView>::empty());
        }
        li = li + 1;
    }
    proof {
        assert(lv.skip(loas@.len() as int) =~= Seq::<LoaView>::empty());
        assert(crate::yaixm::views_of(airspace@) =~= ga);
    }
    // Apply the replace directives in input order.
    let ghost final_target = spec_apply_replaces(ga, spec_loa_replaces(lv));
    let mut li: usize = 0;
    while li < loas.len()
        invariant
            li <= loas@.len(),
            spec_apply_replaces(
                crate::yaixm::views_of(airspace@),
                spec_loa_replaces(lv.skip(li as int)),
            ) == final_target,
        decreases loas@.len() - li,
    {
        let loa: &Loa = loas[li];
        proof {
            assert(lv.skip(li as int)[0] == lv[li as int]);
            assert(lv.skip(li as int).drop_first() =~= lv.skip(li + 1));
            assert(lv[li as int] == loas@[li as int]@);
        }
        let ghost areasv = lv[li as int].areas;
        proof {
            assert(areasv =~= crate::yaixm::views_of(loa.areas@));
            assert(areasv.skip(0) =~= areasv);
            lemma_apply_replaces_concat(
                crate::yaixm::views_of(airspace@),
                spec_areas_replaces(areasv),
                spec_loa_replaces(lv.skip(li + 1)),
            );
        }
        let ghost after_loa = spec_apply_replaces(
            crate::yaixm::views_of(airspace@),
            spec_areas_replaces(areasv),
        );
        let mut ai: usize = 0;
        while ai < loa.areas.len()
            invariant
                ai <= loa.areas@.len(),
                spec_apply_replaces(
                    crate::yaixm::views_of(airspace@),
                    spec_areas_replaces(areasv.skip(ai as int)),
                ) == after_loa,
            decreases loa.areas@.len() - ai,
        {
            let area = &loa.areas[ai];
            proof {
                assert(areasv.skip(ai as int)[0] == areasv[ai as int]);
                assert(areasv.skip(ai as int).drop_first() =~= areasv.skip(ai + 1));
                assert(areasv[ai as int] == loa.areas@[ai as int]@);
                assert(area@ == areasv[ai as int]);
                lemma_apply_replaces_concat(
                    crate::yaixm::views_of(airspace@),
                    spec_area_replaces(area@),
                    spec_areas_replaces(areasv.skip(ai + 1)),
                );
            }
            let ghost after_area = spec_apply_replaces(
                crate::yaixm::views_of(airspace@),
                spec_area_replaces(area@),
            );
            match area.replace.as_ref() {
                None => {
                    proof {
                        assert(spec_area_replaces(area@) =~= Seq::<ReplaceView>::empty());
                    }
                },
                Some(reps) => {
                    proof {
                        assert(area@.replace == Some(
                            Seq::new(reps@.len(), |i: int| reps@[i]@),
                        ));
                    }
                    let ghost repsv = crate::yaixm::views_of(reps@);
                    proof {
                        assert(repsv =~= Seq::new(reps@.len(), |i: int| reps@[i]@));
                        assert(spec_area_replaces(area@) == repsv);
                        assert(repsv.skip(0) =~= repsv);
                    }
                    let mut ri: usize = 0;
                    while ri < reps.len()
                        invariant
                            ri <= reps@.len(),
                            spec_apply_replaces(
                                crate::yaixm::views_of(airspace@),
                                repsv.skip(ri as int),
                            ) == after_area,
                        decreases reps@.len() - ri,
                    {
                        let rep = &reps[ri];
                        proof {
                            assert(repsv.skip(ri as int)[0] == repsv[ri as int]);
                            assert(repsv.skip(ri as int).drop_first() =~= repsv.skip(ri + 1));
                            assert(rep@ == repsv[ri as int]);
                        }
                        apply_one_replace(airspace, rep);
                        ri = ri + 1;
                    }
                    proof {
                        assert(repsv.skip(reps@.len() as int) =~= Seq::<ReplaceView>::empty());
                    }
                },
            }
            ai = ai + 1;
        }
        proof {
            assert(areasv.skip(loa.areas@.len() as int) =~= Seq::<LoaAreaView>::empty());
        }
        li = li + 1;
    }
    proof {
        assert(lv.skip(loas@.len() as int) =~= Seq::<LoaView>::empty());
    }
}

/// A found volume index lies within the geometry.
proof fn lemma_find_in_geometry_bounds(geom: Seq<VolumeView>, id: Seq<char>)
    ensures
        match spec_find_in_geometry(geom, id) {
            Some(v) => 0 <= v < geom.len(),
            None => true,
        },
    decreases geom.len(),
{
    if geom.len() > 0 && !(geom[0].id == Some(id)) {
        lemma_find_in_geometry_bounds(geom.drop_first(), id);
    }
}

// ---------------------------------------------------------------------------
// The conversion pipeline
// ---------------------------------------------------------------------------

/// Is this agreement active: by default, or selected by the user?
pub open spec fn spec_loa_selected(l: LoaView, s: SettingsView) -> bool {
    l.default == Some(true) || s.loa.contains(l.name)
}

/// The active agreements, in input order.
pub open spec fn spec_selected_loas(loas: Seq<LoaView>, s: SettingsView) -> Seq<LoaView>
    decreases loas.len(),
{
    if loas.len() == 0 {
        Seq::empty()
    } else {
        let rest = spec_selected_loas(loas.drop_first(), s);
        if spec_loa_selected(loas[0], s) {
            seq![loas[0]] + rest
        } else {
            rest
        }
    }
}

/// Picks the active agreements.
#[verifier::loop_isolation(false)]
fn select_loas<'a>(loas: &'a Vec<Loa>, settings: &Settings) -> (r: Vec<&'a Loa>)
    ensures
        crate::yaixm::views_of(r@) == spec_selected_loas(
            crate::yaixm::views_of(loas@),
            settings@,
        ),
{
    let ghost lv = crate::yaixm::views_of(loas@);
    let mut out: Vec<&'a Loa> = Vec::new();
    let mut i: usize = 0;
    proof {
        assert(lv.skip(0) =~= lv);
        assert(crate::yaixm::views_of(out@) =~= Seq::<LoaView>::empty());
    }
    while i < loas.len()
        invariant
            i <= loas@.len(),
            crate::yaixm::views_of(out@) + spec_selected_loas(lv.skip(i as int), settings@)
                =~= spec_selected_loas(lv, settings@),
        decreases loas@.len() - i,
    {
        let l = &loas[i];
        proof {
            assert(lv.skip(i as int)[0] == lv[i as int]);
            assert(lv.skip(i as int).drop_first() =~= lv.skip(i + 1));
            assert(l@ == lv[i as int]);
        }
        let selected = matches!(l.default, Some(true)) || names_contain(
            &settings.loa,
            l.name.as_str(),
        );
        proof {
            assert(selected == spec_loa_selected(lv[i as int], settings@));
        }
        if selected {
            proof {
                crate::yaixm::lemma_views_push(out@, l);
            }
            out.push(l);
        }
        i = i + 1;
    }
    proof {
        assert(lv.skip(loas@.len() as int) =~= Seq::<LoaView>::empty());
        assert(crate::yaixm::views_of(out@) =~= spec_selected_loas(lv, settings@));
    }
    out
}

/// A volume the renderer accepts.
pub open spec fn wf_volume(v: VolumeView) -> bool {
    wf_level(v.lower) && wf_boundary(v.boundary)
}

/// A feature the renderer accepts: every volume well formed, and in
/// competition format a volume without an explicit sequence number or name
/// override must sit within the first twenty-six.
pub open spec fn wf_feature(f: FeatureView, comp: bool) -> bool {
    (forall|i: int| 0 <= i < f.geometry.len() ==> wf_volume(#[trigger] f.geometry[i])) && (comp
        && f.geometry.len() > 1 ==> forall|i: int|
        0 <= i < f.geometry.len() && (#[trigger] f.geometry[i]).seqno is None
            && f.geometry[i].name is None ==> i < 26)
}

/// A feature list the renderer accepts.
pub open spec fn wf_airspace(fs: Seq<FeatureView>, comp: bool) -> bool {
    forall|i: int| 0 <= i < fs.len() ==> wf_feature(#[trigger] fs[i], comp)
}

/// Competition format?
pub open spec fn spec_comp(s: SettingsView) -> bool {
    s.options.format == Format::Competition
}

/// One rendered volume record: separator, classification, name, optional
/// frequency, levels, boundary.
pub open spec fn spec_render_volume(f: FeatureView, v: VolumeView, n: int, s: SettingsView) -> Seq<
    char,
> {
    "*\n"@ + spec_do_type(f, v, s) + spec_do_name(f, v, n, s) + (match v.frequency {
        Some(q) => spec_do_freq(q),
        None => Seq::empty(),
    }) + spec_do_levels(v) + spec_do_boundary(v.boundary)
}

/// The records of a feature's surviving volumes, from position `n` on.
pub open spec fn spec_render_vols(f: FeatureView, s: SettingsView, n: int) -> Seq<char>
    decreases f.geometry.len() - n,
{
    if n < 0 || n >= f.geometry.len() {
        Seq::empty()
    } else {
        (if spec_airfilter(f, f.geometry[n], s) {
            spec_render_volume(f, f.geometry[n], n, s)
        } else {
            Seq::empty()
        }) + spec_render_vols(f, s, n + 1)
    }
}

/// The records of all surviving volumes, in input order.
pub open spec fn spec_render_features(fs: Seq<FeatureView>, s: SettingsView) -> Seq<char>
    decreases fs.len(),
{
    if fs.len() == 0 {
        Seq::empty()
    } else {
        spec_render_vols(fs[0], s, 0) + spec_render_features(fs.drop_first(), s)
    }
}

/// The feature list after overlay and frequency merging.
pub open spec fn spec_merged_airspace(y: YaixmView, s: SettingsView) -> Seq<FeatureView> {
    spec_merge_services(
        spec_merge_loa(y.airspace, spec_selected_loas(y.loa, s)),
        y.service,
    )
}

/// The whole OpenAir output for a dataset and settings.
pub open spec fn spec_openair(y: YaixmView, s: SettingsView) -> Seq<char> {
    spec_render_features(spec_merged_airspace(y, s), s)
}

/// Builds the merged feature list of a conversion run.
#[verifier::loop_isolation(false)]
fn merge_airspace(yaixm: &Yaixm, settings: &Settings) -> (r: Vec<Feature>)
    ensures
        crate::yaixm::views_of(r@) == spec_merged_airspace(yaixm@, settings@),
{
    let mut airspace: Vec<Feature> = Vec::new();
    let mut i: usize = 0;
    proof {
        assert(yaixm@.airspace =~= crate::yaixm::views_of(yaixm.airspace@));
        assert(crate::yaixm::views_of(airspace@) =~= yaixm@.airspace.take(0));
    }
    while i < yaixm.airspace.len()
        invariant
            i <= yaixm.airspace@.len(),
            crate::yaixm::views_of(airspace@) =~= yaixm@.airspace.take(i as int),
        decreases yaixm.airspace@.len() - i,
    {
        let nf = clone_feature(&yaixm.airspace[i]);
        proof {
            crate::yaixm::lemma_views_push(airspace@, nf);
            assert(nf@ == yaixm@.airspace[i as int]);
        }
        airspace.push(nf);
        i = i + 1;
        proof {
            assert(crate::yaixm::views_of(airspace@) =~= yaixm@.airspace.take(i as int));
        }
    }
    proof {
        assert(yaixm@.airspace.take(yaixm.airspace@.len() as int) =~= yaixm@.airspace);
    }
    let loas = select_loas(&yaixm.loa, settings);
    proof {
        assert(crate::yaixm::views_of(yaixm.loa@) =~= yaixm@.loa);
    }
    merge_loa(&mut airspace, &loas);
    proof {
        assert(crate::yaixm::views_of(yaixm.service@) =~= yaixm@.service);
    }
    merge_services(&mut airspace, &yaixm.service);
    airspace
}

/// Renders every surviving volume of a merged feature list.
#[verifier::loop_isolation(false)]
#[verifier::rlimit(100)]
fn render_airspace(airspace: &Vec<Feature>, settings: &Settings) -> (r: String)
    requires
        wf_airspace(crate::yaixm::views_of(airspace@), spec_comp(settings@)),
    ensures
        r@ == spec_render_features(crate::yaixm::views_of(airspace@), settings@),
{
    let ghost av = crate::yaixm::views_of(airspace@);
    let ghost total = spec_render_features(av, settings@);
    let mut out = String::new();
    let mut fi: usize = 0;
    proof {
        assert(av.skip(0) =~= av);
    }
    while fi < airspace.len()
        invariant
            fi <= airspace@.len(),
            out@ + spec_render_features(av.skip(fi as int), settings@) =~= total,
        decreases airspace@.len() - fi,
    {
        let feature = &airspace[fi];
        proof {
            assert(av.skip(fi as int)[0] == av[fi as int]);
            assert(av.skip(fi as int).drop_first() =~= av.skip(fi + 1));
            assert(feature@ == av[fi as int]);
            assert(wf_feature(feature@, spec_comp(settings@)));
        }
        let mut vi: usize = 0;
        while vi < feature.geometry.len()
            invariant
                vi <= feature.geometry@.len(),
                out@ + spec_render_vols(feature@, settings@, vi as int) + spec_render_features(
                    av.skip(fi + 1),
                    settings@,
                ) =~= total,
            decreases feature.geometry@.len() - vi,
        {
            let volume = &feature.geometry[vi];
            proof {
                assert(volume@ == feature@.geometry[vi as int]);
                assert(wf_volume(volume@));
            }
            if airfilter(feature, volume, settings) {
                out.append("*\n");
                let t = do_type(feature, volume, settings);
                out.append(t.as_str());
                proof {
                    if spec_comp(settings@) && feature@.geometry.len() > 1 && volume@.seqno
                        is None && volume@.name is None {
                        assert(vi < 26);
                    }
                }
                let nm = do_name(feature, volume, vi, settings);
                out.append(nm.as_str());
                match volume.frequency {
                    Some(q) => {
                        let fq = do_freq(q);
                        out.append(fq.as_str());
                    },
                    None => {},
                }
                let lv = do_levels(volume);
                out.append(lv.as_str());
                proof {
                    assert(Seq::new(volume.boundary@.len(), |i: int| volume.boundary@[i]@)
                        =~= volume@.boundary);
                }
                let b = do_boundary(&volume.boundary);
                out.append(b.as_str());
            }
            vi = vi + 1;
        }
        fi = fi + 1;
    }
    proof {
        assert(av.skip(airspace@.len() as int) =~= Seq::<FeatureView>::empty());
        assert(out@ =~= total);
    }
    out
}

// ---------------------------------------------------------------------------
// Input checking
// ---------------------------------------------------------------------------

/// Tests whether a level token is one the conversion can normalize.
pub fn check_level(value: &str) -> (b: bool)
    ensures
        b == wf_level(value@),
{
    let len = value.unicode_len();
    if len >= 2 && value.get_char(0) == 'F' && value.get_char(1) == 'L' {
        let d = value.substring_char(2, len);
        proof {
            assert(d@ =~= value@.skip(2));
        }
        crate::text::parse_u16(d).is_some()
    } else if len >= 3 && value.get_char(len - 3) == ' ' && value.get_char(len - 2) == 'f'
        && value.get_char(len - 1) == 't' {
        match find_char(value, ' ') {
            Some(i) => {
                proof {
                    lemma_find_char(value@, ' ');
                }
                let d = value.substring_char(0, i);
                proof {
                    assert(d@ =~= value@.take(i as int));
                }
                crate::text::parse_u16(d).is_some()
            },
            None => false,
        }
    } else {
        true
    }
}

/// Tests whether a coordinate token is one the renderer accepts.
pub fn check_latlon(value: &str) -> (b: bool)
    ensures
        b == wf_latlon(value@),
{
    value.is_ascii() && value.unicode_len() >= 16
}

fn check_decimal(s: &str) -> (b: bool)
    ensures
        b == wf_decimal(s@),
{
    let len = s.unicode_len();
    if len < 1 || len > 10 {
        return false;
    }
    match find_char(s, '.') {
        None => {
            proof {
                assert(s@.subrange(0, len as int) =~= s@);
            }
            crate::text::digits_range_check(s, 0, len)
        },
        Some(p) => {
            proof {
                lemma_find_char(s@, '.');
                assert(s@.subrange(0, p as int) =~= s@.take(p as int));
                assert(s@.subrange(p + 1, len as int) =~= s@.skip(p + 1));
            }
            len >= 2 && crate::text::digits_range_check(s, 0, p) && crate::text::digits_range_check(
                s,
                p + 1,
                len,
            )
        },
    }
}

/// Tests whether a distance token is one the renderer accepts.
pub fn check_distance(value: &str) -> (b: bool)
    ensures
        b == wf_distance(value@),
{
    let len = value.unicode_len();
    match find_char(value, ' ') {
        None => true,
        Some(i) => {
            proof {
                lemma_find_char(value@, ' ');
            }
            let unit = value.substring_char(i + 1, len);
            proof {
                assert(unit@ =~= value@.skip(i + 1));
            }
            if str_eq(unit, "km") {
                let dist = value.substring_char(0, i);
                proof {
                    assert(dist@ =~= value@.take(i as int));
                }
                check_decimal(dist)
            } else {
                true
            }
        },
    }
}

/// Tests whether a boundary is one the renderer accepts.
#[verifier::loop_isolation(false)]
pub fn check_boundary(boundary: &Vec<Boundary>) -> (b: bool)
    ensures
        b == wf_boundary(Seq::new(boundary@.len(), |i: int| boundary@[i]@)),
{
    let ghost bv = Seq::new(boundary@.len(), |i: int| boundary@[i]@);
    if boundary.len() == 0 {
        return false;
    }
    let mut seen_line = false;
    let mut i: usize = 0;
    while i < boundary.len()
        invariant
            i <= boundary@.len(),
            forall|j: int| 0 <= j < i ==> wf_segment(#[trigger] bv[j]),
            seen_line == exists|j: int| 0 <= j < i && #[trigger] bv[j] is Line,
            forall|j: int|
                0 <= j < i && #[trigger] bv[j] is Arc ==> exists|k: int|
                    0 <= k < j && #[trigger] bv[k] is Line,
        decreases boundary@.len() - i,
    {
        proof {
            assert(bv[i as int] == boundary@[i as int]@);
        }
        match &boundary[i] {
            Boundary::Line(l) => {
                let ghost lv = crate::yaixm::strs_view(l@);
                proof {
                    assert(bv[i as int] == BoundaryView::Line(lv));
                }
                if l.len() == 0 {
                    proof {
                        assert(!wf_segment(bv[i as int]));
                    }
                    return false;
                }
                let mut j: usize = 0;
                while j < l.len()
                    invariant
                        j <= l@.len(),
                        lv == crate::yaixm::strs_view(l@),
                        forall|k: int| 0 <= k < j ==> wf_latlon(#[trigger] lv[k]),
                    decreases l@.len() - j,
                {
                    proof {
                        assert(lv[j as int] == l@[j as int]@);
                    }
                    if !check_latlon(l[j].as_str()) {
                        proof {
                            assert(!wf_latlon(lv[j as int]));
                            assert(!wf_segment(bv[i as int]));
                        }
                        return false;
                    }
                    j = j + 1;
                }
                proof {
                    assert(wf_segment(bv[i as int]));
                }
                seen_line = true;
            },
            Boundary::Arc(a) => {
                proof {
                    assert(bv[i as int] is Arc);
                }
                if !seen_line {
                    proof {
                        assert(forall|k: int| 0 <= k < i ==> !(#[trigger] bv[k] is Line));
                        assert(!wf_boundary(bv));
                    }
                    return false;
                }
                if !(check_latlon(a.centre.as_str()) && check_latlon(a.to.as_str())) {
                    proof {
                        assert(!wf_segment(bv[i as int]));
                    }
                    return false;
                }
                proof {
                    assert(wf_segment(bv[i as int]));
                }
            },
            Boundary::Circle(c) => {
                proof {
                    assert(bv[i as int] is Circle);
                }
                if !(check_latlon(c.centre.as_str()) && check_distance(c.radius.as_str())) {
                    proof {
                        assert(!wf_segment(bv[i as int]));
                    }
                    return false;
                }
                proof {
                    assert(wf_segment(bv[i as int]));
                }
            },
        }
        i = i + 1;
    }
    true
}

/// Tests whether a feature is one the renderer accepts under the given
/// format.
#[verifier::loop_isolation(false)]
pub fn check_feature(feature: &Feature, comp: bool) -> (b: bool)
    ensures
        b == wf_feature(feature@, comp),
{
    let multi = comp && feature.geometry.len() > 1;
    let mut vi: usize = 0;
    while vi < feature.geometry.len()
        invariant
            vi <= feature.geometry@.len(),
            forall|j: int| 0 <= j < vi ==> wf_volume(#[trigger] feature@.geometry[j]),
            multi ==> forall|j: int|
                0 <= j < vi && (#[trigger] feature@.geometry[j]).seqno is None
                    && feature@.geometry[j].name is None ==> j < 26,
        decreases feature.geometry@.len() - vi,
    {
        let vol = &feature.geometry[vi];
        proof {
            assert(vol@ == feature@.geometry[vi as int]);
        }
        if !check_level(vol.lower.as_str()) {
            proof {
                assert(!wf_volume(feature@.geometry[vi as int]));
            }
            return false;
        }
        proof {
            assert(Seq::new(vol.boundary@.len(), |i: int| vol.boundary@[i]@) =~= vol@.boundary);
        }
        if !check_boundary(&vol.boundary) {
            proof {
                assert(!wf_volume(feature@.geometry[vi as int]));
            }
            return false;
        }
        if multi && vi >= 26 && vol.seqno.is_none() && vol.name.is_none() {
            proof {
                assert(feature@.geometry[vi as int].seqno is None);
                assert(feature@.geometry[vi as int].name is None);
                assert(!wf_feature(feature@, comp));
            }
            return false;
        }
        vi = vi + 1;
    }
    true
}

/// Tests whether a merged feature list is one the renderer accepts.
#[verifier::loop_isolation(false)]
pub fn check_airspace(airspace: &Vec<Feature>, comp: bool) -> (b: bool)
    ensures
        b == wf_airspace(crate::yaixm::views_of(airspace@), comp),
{
    let ghost av = crate::yaixm::views_of(airspace@);
    let mut i: usize = 0;
    while i < airspace.len()
        invariant
            i <= airspace@.len(),
            forall|j: int| 0 <= j < i ==> wf_feature(#[trigger] av[j], comp),
        decreases airspace@.len() - i,
    {
        proof {
            assert(av[i as int] == airspace@[i as int]@);
        }
        if !check_feature(&airspace[i], comp) {
            proof {
                assert(!wf_feature(av[i as int], comp));
            }
            return false;
        }
        i = i + 1;
    }
    true
}

/// Converts a dataset under the given settings into OpenAir text, first
/// checking that the merged feature list is well formed; a malformed
/// dataset yields nothing rather than partial output.
pub fn openair_checked(yaixm: &Yaixm, settings: &Settings) -> (r: Option<String>)
    ensures
        match r {
            Some(text) => wf_airspace(spec_merged_airspace(yaixm@, settings@), spec_comp(settings@))
                && text@ == spec_openair(yaixm@, settings@),
            None => !wf_airspace(spec_merged_airspace(yaixm@, settings@), spec_comp(settings@)),
        },
{
    let airspace = merge_airspace(yaixm, settings);
    let comp = matches!(settings.options.format, Format::Competition);
    if check_airspace(&airspace, comp) {
        Some(render_airspace(&airspace, settings))
    } else {
        None
    }
}

/// Converts a dataset under the given settings into OpenAir text.
pub fn openair(yaixm: &Yaixm, settings: &Settings) -> (r: String)
    requires
        wf_airspace(spec_merged_airspace(yaixm@, settings@), spec_comp(settings@)),
    ensures
        r@ == spec_openair(yaixm@, settings@),
{
    let airspace = merge_airspace(yaixm, settings);
    render_airspace(&airspace, settings)
}

// ---------------------------------------------------------------------------
// Laws
// ---------------------------------------------------------------------------

/// Determinism: conversion is a pure function of the dataset and settings,
/// so identical inputs yield byte-identical output.
pub proof fn lemma_openair_deterministic(
    y1: YaixmView,
    s1: SettingsView,
    y2: YaixmView,
    s2: SettingsView,
)
    requires
        y1 == y2,
        s1 == s2,
    ensures
        spec_openair(y1, s1) == spec_openair(y2, s2),
{
}

/// Inclusion monotonicity: raising the altitude ceiling, with all other
/// settings unchanged, never removes a volume that was included.
pub proof fn lemma_inclusion_monotone(
    f: FeatureView,
    v: VolumeView,
    s1: SettingsView,
    s2: SettingsView,
)
    requires
        s2.airspace == s1.airspace,
        s2.wave == s1.wave,
        s1.options.max_level <= s2.options.max_level,
        spec_airfilter(f, v, s1),
    ensures
        spec_airfilter(f, v, s2),
{
}

/// Home-site exemption: a gliding site whose name equals the configured
/// home site passes the filter whatever the gliding category setting, as
/// long as it lies below the altitude ceiling.
pub proof fn lemma_home_site_included(f: FeatureView, v: VolumeView, s: SettingsView)
    requires
        f.local_type == Some(LocalType::Glider),
        f.icao_type != IcaoType::DOther,
        s.airspace.home == Some(f.name),
        spec_norm_level(v.lower) < s.options.max_level,
    ensures
        spec_airfilter(f, v, s),
{
}

/// The end point of a rendered boundary, with the closing command counted.
pub open spec fn spec_closed_end(b: Seq<BoundaryView>) -> Seq<char> {
    match b[0] {
        BoundaryView::Line(l) => {
            if l[0] != spec_boundary_end(b, Seq::empty()) {
                l[0]
            } else {
                spec_boundary_end(b, Seq::empty())
            }
        },
        _ => spec_boundary_end(b, Seq::empty()),
    }
}

/// Closure: a boundary that starts with a line opens with that line's
/// first point command, and the walk, counting the closing command, ends
/// on that same point.
pub proof fn lemma_boundary_closure(b: Seq<BoundaryView>)
    requires
        wf_boundary(b),
        b[0] is Line,
    ensures
        spec_do_boundary(b).take(spec_do_point(b[0]->Line_0[0]).len() as int) == spec_do_point(
            b[0]->Line_0[0],
        ),
        spec_closed_end(b) == b[0]->Line_0[0],
{
    let l = b[0]->Line_0;
    assert(wf_segment(b[0]));
    assert(l.len() > 0);
    let p = spec_do_point(l[0]);
    let body = spec_boundary_body(b, Seq::empty());
    assert(body == spec_do_line(l) + spec_boundary_body(b.drop_first(), l.last()));
    assert(spec_do_line(l) == p + spec_do_line(l.drop_first()));
    assert(spec_do_boundary(b).take(p.len() as int) =~= p);
}

/// Frequency precedence: a volume whose own id is registered uses that
/// entry, whatever its feature's id maps to.
pub proof fn lemma_frequency_precedence(
    f: FeatureView,
    v: VolumeView,
    ss: Seq<ServiceView>,
    vid: Seq<char>,
)
    requires
        v.id == Some(vid),
        spec_freq_lookup(ss, vid) is Some,
    ensures
        spec_merged_freq(f, v, ss) == spec_freq_lookup(ss, vid),
{
}

/// Frequency stamping is idempotent: running it again changes nothing,
/// since it reads only the ids, which it never touches.
pub proof fn lemma_merge_services_idempotent(airspace: Seq<FeatureView>, ss: Seq<ServiceView>)
    ensures
        spec_merge_services(spec_merge_services(airspace, ss), ss) == spec_merge_services(
            airspace,
            ss,
        ),
{
    let once = spec_merge_services(airspace, ss);
    let twice = spec_merge_services(once, ss);
    assert forall|i: int| 0 <= i < once.len() implies twice[i] == once[i] by {
        let f = airspace[i];
        let f1 = spec_merge_services_feature(f, ss);
        let f2 = spec_merge_services_feature(f1, ss);
        assert forall|j: int| 0 <= j < f1.geometry.len() implies f2.geometry[j]
            == f1.geometry[j] by {
            assert(f1.geometry[j].id == f.geometry[j].id);
            assert(spec_merged_freq(f1, f1.geometry[j], ss) == spec_merged_freq(
                f,
                f.geometry[j],
                ss,
            ));
        }
        assert(f2.geometry =~= f1.geometry);
        assert(f2 =~= f1);
    }
    assert(twice =~= once);
}

/// Naming qualifiers: a volume whose combined rules carry both the
/// statutory-instrument and the NOTAM flag gets exactly the reverse
/// alphabetical slash-joined qualifier suffix.
pub proof fn lemma_qualifiers_si_notam(f: FeatureView, v: VolumeView)
    requires
        spec_has_rule(f, v, Rule::Si),
        spec_has_rule(f, v, Rule::Notam),
    ensures
        spec_qual_suffix(f, v) == " (SI/NOTAM)"@,
{
}

/// Competition sequencing: in competition format, a volume of a
/// multi-volume feature without an explicit sequence number or name
/// override is named with a hyphen and the letter of its position.
pub proof fn lemma_competition_letter(f: FeatureView, v: VolumeView, n: int, s: SettingsView)
    requires
        s.options.format == Format::Competition,
        f.geometry.len() > 1,
        v.seqno is None,
        v.name is None,
        0 <= n < 26,
    ensures
        spec_volume_name(f, v, n, s) == f.name + spec_name_suffix(f, v) + seq![
            '-',
            spec_letter(n),
        ] + spec_qual_suffix(f, v) + spec_freq_suffix(v, s),
{
    assert(spec_seq_suffix(f, v, n, s) =~= seq!['-', spec_letter(n)]);
}

} // verus!
