//! Listings derived from a dataset: overlay names, wave boxes and gliding
//! sites, for a caller to present as choices.

use vstd::prelude::*;
use crate::yaixm::{strs_view, FeatureView, LoaView, Yaixm};
use crate::yaixm::{IcaoType, LocalType};

verus! {

/// The names of the temporary restriction features.
pub open spec fn spec_rat_names(rat: Seq<FeatureView>) -> Seq<Seq<char>>
    decreases rat.len(),
{
    if rat.len() == 0 {
        Seq::empty()
    } else {
        seq![rat[0].name] + spec_rat_names(rat.drop_first())
    }
}

/// The names of the agreements that are not active by default.
pub open spec fn spec_loa_names(loas: Seq<LoaView>) -> Seq<Seq<char>>
    decreases loas.len(),
{
    if loas.len() == 0 {
        Seq::empty()
    } else {
        (if loas[0].default == Some(true) {
            Seq::empty()
        } else {
            seq![loas[0].name]
        }) + spec_loa_names(loas.drop_first())
    }
}

/// The names of the wave boxes.
pub open spec fn spec_wav_names(fs: Seq<FeatureView>) -> Seq<Seq<char>>
    decreases fs.len(),
{
    if fs.len() == 0 {
        Seq::empty()
    } else {
        (if fs[0].icao_type == IcaoType::DOther && fs[0].local_type == Some(LocalType::Glider) {
            seq![fs[0].name]
        } else {
            Seq::empty()
        }) + spec_wav_names(fs.drop_first())
    }
}

/// The names of the gliding sites.
pub open spec fn spec_gliding_sites(fs: Seq<FeatureView>) -> Seq<Seq<char>>
    decreases fs.len(),
{
    if fs.len() == 0 {
        Seq::empty()
    } else {
        (if fs[0].icao_type == IcaoType::Other && fs[0].local_type == Some(LocalType::Glider) {
            seq![fs[0].name]
        } else {
            Seq::empty()
        }) + spec_gliding_sites(fs.drop_first())
    }
}

/// Lists the names of the temporary restriction features.
#[verifier::loop_isolation(false)]
pub fn rat_names(yaixm: &Yaixm) -> (r: Vec<String>)
    ensures
        strs_view(r@) == spec_rat_names(yaixm@.rat),
{
    let ghost fv = yaixm@.rat;
    let mut out: Vec<String> = Vec::new();
    let mut i: usize = 0;
    proof {
        assert(fv.skip(0) =~= fv);
        assert(strs_view(out@) =~= Seq::<Seq<char>>::empty());
    }
    while i < yaixm.rat.len()
        invariant
            i <= yaixm.rat@.len(),
            strs_view(out@) + spec_rat_names(fv.skip(i as int)) =~= spec_rat_names(fv),
        decreases yaixm.rat@.len() - i,
    {
        proof {
            assert(fv.skip(i as int)[0] == fv[i as int]);
            assert(fv.skip(i as int).drop_first() =~= fv.skip(i + 1));
            assert(fv[i as int] == yaixm.rat@[i as int]@);
        }
        let ghost pre = out@;
        out.push(yaixm.rat[i].name.clone());
        i = i + 1;
        proof {
            assert forall|j: int| 0 <= j < out@.len() implies strs_view(out@)[j] == (strs_view(pre)
                + seq![fv[i - 1].name])[j] by {
                if j < pre.len() {
                    assert(out@[j] == pre[j]);
                }
            }
            assert(strs_view(out@) =~= strs_view(pre) + seq![fv[i - 1].name]);
        }
    }
    proof {
        assert(fv.skip(yaixm.rat@.len() as int) =~= Seq::<FeatureView>::empty());
        assert(strs_view(out@) =~= spec_rat_names(fv));
    }
    out
}

/// Lists the names of the agreements that are not active by default.
#[verifier::loop_isolation(false)]
pub fn loa_names(yaixm: &Yaixm) -> (r: Vec<String>)
    ensures
        strs_view(r@) == spec_loa_names(yaixm@.loa),
{
    let ghost lv = yaixm@.loa;
    let mut out: Vec<String> = Vec::new();
    let mut i: usize = 0;
    proof {
        assert(lv.skip(0) =~= lv);
        assert(strs_view(out@) =~= Seq::<Seq<char>>::empty());
    }
    while i < yaixm.loa.len()
        invariant
            i <= yaixm.loa@.len(),
            strs_view(out@) + spec_loa_names(lv.skip(i as int)) =~= spec_loa_names(lv),
        decreases yaixm.loa@.len() - i,
    {
        proof {
            assert(lv.skip(i as int)[0] == lv[i as int]);
            assert(lv.skip(i as int).drop_first() =~= lv.skip(i + 1));
            assert(lv[i as int] == yaixm.loa@[i as int]@);
        }
        if !matches!(yaixm.loa[i].default, Some(true)) {
            let ghost pre = out@;
            out.push(yaixm.loa[i].name.clone());
            proof {
                assert forall|j: int| 0 <= j < out@.len() implies strs_view(out@)[j] == (strs_view(
                    pre,
                ) + seq![lv[i as int].name])[j] by {
                    if j < pre.len() {
                        assert(out@[j] == pre[j]);
                    }
                }
                assert(strs_view(out@) =~= strs_view(pre) + seq![lv[i as int].name]);
            }
        }
        i = i + 1;
    }
    proof {
        assert(lv.skip(yaixm.loa@.len() as int) =~= Seq::<LoaView>::empty());
        assert(strs_view(out@) =~= spec_loa_names(lv));
    }
    out
}

/// Lists the names of the wave boxes.
#[verifier::loop_isolation(false)]
pub fn wav_names(yaixm: &Yaixm) -> (r: Vec<String>)
    ensures
        strs_view(r@) == spec_wav_names(yaixm@.airspace),
{
    let ghost fv = yaixm@.airspace;
    let mut out: Vec<String> = Vec::new();
    let mut i: usize = 0;
    proof {
        assert(fv.skip(0) =~= fv);
        assert(strs_view(out@) =~= Seq::<Seq<char>>::empty());
    }
    while i < yaixm.airspace.len()
        invariant
            i <= yaixm.airspace@.len(),
            strs_view(out@) + spec_wav_names(fv.skip(i as int)) =~= spec_wav_names(fv),
        decreases yaixm.airspace@.len() - i,
    {
        proof {
            assert(fv.skip(i as int)[0] == fv[i as int]);
            assert(fv.skip(i as int).drop_first() =~= fv.skip(i + 1));
            assert(fv[i as int] == yaixm.airspace@[i as int]@);
        }
        let f = &yaixm.airspace[i];
        if matches!(f.icao_type, IcaoType::DOther) && matches!(
            f.local_type,
            Some(LocalType::Glider),
        ) {
            let ghost pre = out@;
            out.push(f.name.clone());
            proof {
                assert forall|j: int| 0 <= j < out@.len() implies strs_view(out@)[j] == (strs_view(
                    pre,
                ) + seq![fv[i as int].name])[j] by {
                    if j < pre.len() {
                        assert(out@[j] == pre[j]);
                    }
                }
                assert(strs_view(out@) =~= strs_view(pre) + seq![fv[i as int].name]);
            }
        }
        i = i + 1;
    }
    proof {
        assert(fv.skip(yaixm.airspace@.len() as int) =~= Seq::<FeatureView>::empty());
        assert(strs_view(out@) =~= spec_wav_names(fv));
    }
    out
}

/// Lists the names of the gliding sites.
#[verifier::loop_isolation(false)]
pub fn gliding_sites(yaixm: &Yaixm) -> (r: Vec<String>)
    ensures
        strs_view(r@) == spec_gliding_sites(yaixm@.airspace),
{
    let ghost fv = yaixm@.airspace;
    let mut out: Vec<String> = Vec::new();
    let mut i: usize = 0;
    proof {
        assert(fv.skip(0) =~= fv);
        assert(strs_view(out@) =~= Seq::<Seq<char>>::empty());
    }
    while i < yaixm.airspace.len()
        invariant
            i <= yaixm.airspace@.len(),
            strs_view(out@) + spec_gliding_sites(fv.skip(i as int)) =~= spec_gliding_sites(fv),
        decreases yaixm.airspace@.len() - i,
    {
        proof {
            assert(fv.skip(i as int)[0] == fv[i as int]);
            assert(fv.skip(i as int).drop_first() =~= fv.skip(i + 1));
            assert(fv[i as int] == yaixm.airspace@[i as int]@);
        }
        let f = &yaixm.airspace[i];
        if matches!(f.icao_type, IcaoType::Other) && matches!(
            f.local_type,
            Some(LocalType::Glider),
        ) {
            let ghost pre = out@;
            out.push(f.name.clone());
            proof {
                assert forall|j: int| 0 <= j < out@.len() implies strs_view(out@)[j] == (strs_view(
                    pre,
                ) + seq![fv[i as int].name])[j] by {
                    if j < pre.len() {
                        assert(out@[j] == pre[j]);
                    }
                }
                assert(strs_view(out@) =~= strs_view(pre) + seq![fv[i as int].name]);
            }
        }
        i = i + 1;
    }
    proof {
        assert(fv.skip(yaixm.airspace@.len() as int) =~= Seq::<FeatureView>::empty());
        assert(strs_view(out@) =~= spec_gliding_sites(fv));
    }
    out
}

} // verus!
