//! Ordered collections of settings and their wire codec.
//!
//! The sequence order is meaningful (display and selection priority) and is
//! preserved in both directions. Decoding is fail-fast: the first element
//! that does not decode aborts the whole decode with its error, and no
//! partial collection is ever produced.

use vstd::prelude::*;
use vstd::string::*;

use crate::error::DecodeError;
use crate::setting::{
    decode_setting, encode_setting, lemma_setting_round_trip, spec_decode_setting,
    spec_encode_setting, AccessMethodSetting, SettingView, WireApiAccessMethod, WireSettingView,
};

verus! {

/// The ordered settings of a client: every configured access method, in
/// priority order.
#[derive(Debug, PartialEq, Eq)]
pub struct Settings {
    pub api_access_methods: Vec<AccessMethodSetting>,
}

/// Models of a sequence of settings.
pub open spec fn setting_views(v: Seq<AccessMethodSetting>) -> Seq<SettingView> {
    v.map_values(|s: AccessMethodSetting| s@)
}

/// Models of a sequence of wire settings.
pub open spec fn wire_setting_views(v: Seq<WireApiAccessMethod>) -> Seq<WireSettingView> {
    v.map_values(|w: WireApiAccessMethod| w@)
}

impl View for Settings {
    type V = Seq<SettingView>;

    open spec fn view(&self) -> Seq<SettingView> {
        setting_views(self.api_access_methods@)
    }
}

/// The wire message holding the whole settings list.
#[derive(Debug, PartialEq, Eq)]
pub struct WireApiAccessMethodSettings {
    pub api_access_methods: Vec<WireApiAccessMethod>,
}

impl View for WireApiAccessMethodSettings {
    type V = Seq<WireSettingView>;

    open spec fn view(&self) -> Seq<WireSettingView> {
        wire_setting_views(self.api_access_methods@)
    }
}

/// The wire message holding a plain list of settings.
#[derive(Debug, PartialEq, Eq)]
pub struct WireApiAccessMethods {
    pub api_access_methods: Vec<WireApiAccessMethod>,
}

impl View for WireApiAccessMethods {
    type V = Seq<WireSettingView>;

    open spec fn view(&self) -> Seq<WireSettingView> {
        wire_setting_views(self.api_access_methods@)
    }
}

/// Encoding a list encodes every element, in order. Total.
pub open spec fn spec_encode_settings(ss: Seq<SettingView>) -> Seq<WireSettingView> {
    ss.map_values(|s: SettingView| spec_encode_setting(s))
}

/// Decoding a list decodes every element, in order, and stops at the first
/// element that does not decode: nothing is produced in that case.
pub open spec fn spec_decode_settings(ws: Seq<WireSettingView>) -> Option<Seq<SettingView>>
    decreases ws.len(),
{
    if ws.len() == 0 {
        Some(Seq::<SettingView>::empty())
    } else {
        match spec_decode_setting(ws.first()) {
            None => None,
            Some(s) => match spec_decode_settings(ws.drop_first()) {
                None => None,
                Some(rest) => Some(seq![s] + rest),
            },
        }
    }
}

/// Decoding inverts encoding for every ordered list (the empty one
/// included) whose identifiers hold their sixteen bytes, and the order is
/// preserved.
pub proof fn lemma_settings_round_trip(ss: Seq<SettingView>)
    requires
        forall|i: int| 0 <= i < ss.len() ==> (#[trigger] ss[i].id).len() == 16,
    ensures
        spec_decode_settings(spec_encode_settings(ss)) == Some(ss),
    decreases ss.len(),
{
    let ws = spec_encode_settings(ss);
    if ss.len() == 0 {
        assert(ws.len() == 0);
        assert(spec_decode_settings(ws) == Some(Seq::<SettingView>::empty()));
        assert(ss =~= Seq::<SettingView>::empty());
    } else {
        let tail = ss.drop_first();
        assert(ss[0].id.len() == 16);
        lemma_setting_round_trip(ss.first());
        assert(forall|i: int| 0 <= i < tail.len() ==> (#[trigger] tail[i].id).len() == 16);
        lemma_settings_round_trip(tail);
        assert(ws.first() == spec_encode_setting(ss.first()));
        assert(ws.drop_first() =~= spec_encode_settings(tail));
        assert(seq![ss.first()] + tail =~= ss);
        assert(spec_decode_settings(ws) == Some(ss));
    }
}

/// Decoding is fail-fast: a collection in which any one element is
/// malformed decodes to nothing at all, whatever its position; no partial
/// collection exists.
pub proof fn lemma_settings_fail_fast(ws: Seq<WireSettingView>, k: int)
    requires
        0 <= k < ws.len(),
        spec_decode_setting(ws[k]) is None,
    ensures
        spec_decode_settings(ws) is None,
    decreases ws.len(),
{
    if k == 0 {
        assert(ws.first() == ws[0]);
    } else {
        let tail = ws.drop_first();
        assert(tail[k - 1] == ws[k]);
        lemma_settings_fail_fast(tail, k - 1);
    }
}

/// Encode a list of settings, in order.
fn encode_setting_vec(v: &Vec<AccessMethodSetting>) -> (r: Vec<WireApiAccessMethod>)
    ensures
        wire_setting_views(r@) == spec_encode_settings(setting_views(v@)),
{
    let mut out: Vec<WireApiAccessMethod> = Vec::new();
    let mut i: usize = 0;
    proof {
        assert(wire_setting_views(out@) =~= spec_encode_settings(
            setting_views(v@.subrange(0, 0)),
        ));
    }
    while i < v.len()
        invariant
            i <= v@.len(),
            wire_setting_views(out@) == spec_encode_settings(setting_views(v@.subrange(0, i as int))),
        decreases v@.len() - i,
    {
        let w = encode_setting(&v[i]);
        out.push(w);
        proof {
            assert(v@.subrange(0, i as int + 1) =~= v@.subrange(0, i as int).push(v@[i as int]));
            assert(setting_views(v@.subrange(0, i as int).push(v@[i as int])) =~= setting_views(
                v@.subrange(0, i as int),
            ).push(v@[i as int]@));
            assert(spec_encode_settings(setting_views(v@.subrange(0, i as int)).push(v@[i as int]@))
                =~= spec_encode_settings(setting_views(v@.subrange(0, i as int))).push(
                spec_encode_setting(v@[i as int]@),
            ));
            assert(wire_setting_views(out@) =~= wire_setting_views(out@.subrange(
                0,
                out@.len() - 1,
            )).push(w@));
            assert(out@.subrange(0, out@.len() - 1) =~= out@.drop_last());
            assert(wire_setting_views(out@) =~= spec_encode_settings(
                setting_views(v@.subrange(0, i as int + 1)),
            ));
        }
        i += 1;
    }
    proof {
        assert(v@.subrange(0, v@.len() as int) =~= v@);
    }
    out
}

/// Decode a list of wire settings, in order, stopping at the first failure.
fn decode_setting_vec(v: &Vec<WireApiAccessMethod>) -> (r: Result<
    Vec<AccessMethodSetting>,
    DecodeError,
>)
    ensures
        r is Ok <==> spec_decode_settings(wire_setting_views(v@)) is Some,
        r matches Ok(out) ==> Some(setting_views(out@)) == spec_decode_settings(
            wire_setting_views(v@),
        ),
{
    let ghost full = wire_setting_views(v@);
    let mut out: Vec<AccessMethodSetting> = Vec::new();
    let mut i: usize = 0;
    proof {
        assert(full.subrange(0, full.len() as int) =~= full);
        assert forall|rest: Seq<SettingView>|
            spec_decode_settings(full.subrange(0, full.len() as int)) == Some(rest)
                implies spec_decode_settings(full) == Some(setting_views(out@) + rest) by {
            assert(setting_views(out@) + rest =~= rest);
        }
    }
    while i < v.len()
        invariant
            i <= v@.len(),
            full == wire_setting_views(v@),
            spec_decode_settings(full.subrange(i as int, full.len() as int)) is None ==> (
            spec_decode_settings(full) is None),
            forall|rest: Seq<SettingView>|
                spec_decode_settings(full.subrange(i as int, full.len() as int)) == Some(rest)
                    ==> spec_decode_settings(full) == Some(setting_views(out@) + rest),
        decreases v@.len() - i,
    {
        let ghost tail = full.subrange(i as int, full.len() as int);
        proof {
            assert(tail.len() > 0);
            assert(tail.first() == full[i as int]);
            assert(tail.drop_first() =~= full.subrange(i as int + 1, full.len() as int));
        }
        match decode_setting(&v[i]) {
            Err(e) => {
                proof {
                    assert(spec_decode_setting(tail.first()) is None);
                    assert(spec_decode_settings(tail) is None);
                }
                return Err(e);
            },
            Ok(s) => {
                proof {
                    let next = full.subrange(i as int + 1, full.len() as int);
                    assert forall|rest: Seq<SettingView>|
                        spec_decode_settings(next) == Some(rest) implies spec_decode_settings(
                        full,
                    ) == Some(setting_views(out@.push(s)) + rest) by {
                        assert(spec_decode_settings(tail) == Some(seq![s@] + rest));
                        assert(setting_views(out@) + (seq![s@] + rest) =~= setting_views(
                            out@.push(s),
                        ) + rest);
                    }
                }
                out.push(s);
            },
        }
        i += 1;
    }
    proof {
        let empty_tail = full.subrange(full.len() as int, full.len() as int);
        assert(empty_tail =~= Seq::<WireSettingView>::empty());
        assert(spec_decode_settings(empty_tail) == Some(Seq::<SettingView>::empty()));
        assert(setting_views(out@) + Seq::<SettingView>::empty() =~= setting_views(out@));
    }
    Ok(out)
}

/// Encode the whole settings list into its wire message, preserving order.
/// Total.
pub fn encode_settings(s: &Settings) -> (r: WireApiAccessMethodSettings)
    ensures
        r@ == spec_encode_settings(s@),
{
    WireApiAccessMethodSettings { api_access_methods: encode_setting_vec(&s.api_access_methods) }
}

/// Decode the whole settings list from its wire message. Fail-fast: the
/// first element that does not decode aborts with its `InvalidArgument`,
/// and no partial list is produced.
pub fn decode_settings(w: &WireApiAccessMethodSettings) -> (r: Result<Settings, DecodeError>)
    ensures
        r is Ok <==> spec_decode_settings(w@) is Some,
        r matches Ok(s) ==> Some(s@) == spec_decode_settings(w@),
{
    match decode_setting_vec(&w.api_access_methods) {
        Ok(list) => Ok(Settings { api_access_methods: list }),
        Err(e) => Err(e),
    }
}

/// Encode a plain list of settings into its wire message, preserving
/// order. Total.
pub fn encode_access_method_list(v: &Vec<AccessMethodSetting>) -> (r: WireApiAccessMethods)
    ensures
        r@ == spec_encode_settings(setting_views(v@)),
{
    WireApiAccessMethods { api_access_methods: encode_setting_vec(v) }
}

/// Decode a plain list of settings from its wire message, fail-fast like
/// `decode_settings`.
pub fn decode_access_method_list(w: &WireApiAccessMethods) -> (r: Result<
    Vec<AccessMethodSetting>,
    DecodeError,
>)
    ensures
        r is Ok <==> spec_decode_settings(w@) is Some,
        r matches Ok(v) ==> Some(setting_views(v@)) == spec_decode_settings(w@),
{
    decode_setting_vec(&w.api_access_methods)
}

} // verus!
