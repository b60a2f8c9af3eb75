//! The replacement update and its wire codec.
//!
//! An update names the setting to replace (by identifier) and carries the
//! replacement setting. This layer only converts the pair; performing the
//! replacement is the caller's business.

use vstd::prelude::*;
use vstd::string::*;

use crate::error::DecodeError;
use crate::id::{
    decode_uuid, encode_uuid, lemma_uuid_round_trip, spec_format_uuid, spec_parse_uuid,
    AccessMethodId, WireUuid,
};
use crate::setting::{
    decode_setting, encode_setting, lemma_setting_round_trip, spec_decode_setting,
    spec_encode_setting, AccessMethodSetting, SettingView, WireApiAccessMethod, WireSettingView,
};

verus! {

/// A request to replace the setting with the given identifier by the given
/// setting, leaving every other setting untouched.
#[derive(Debug, PartialEq, Eq)]
pub struct AccessMethodUpdate {
    pub id: AccessMethodId,
    pub access_method: AccessMethodSetting,
}

/// The mathematical model of an update.
pub struct UpdateView {
    pub id: Seq<u8>,
    pub access_method: SettingView,
}

impl View for AccessMethodUpdate {
    type V = UpdateView;

    open spec fn view(&self) -> UpdateView {
        UpdateView { id: self.id@, access_method: self.access_method@ }
    }
}

/// The wire message for an update. Both fields are optional on the wire.
#[derive(Debug, PartialEq, Eq)]
pub struct WireApiAccessMethodUpdate {
    pub id: Option<WireUuid>,
    pub access_method: Option<WireApiAccessMethod>,
}

/// The mathematical model of a wire update.
pub struct WireUpdateView {
    pub id: Option<Seq<char>>,
    pub access_method: Option<WireSettingView>,
}

impl View for WireApiAccessMethodUpdate {
    type V = WireUpdateView;

    open spec fn view(&self) -> WireUpdateView {
        WireUpdateView {
            id: match self.id {
                Option::Some(ref u) => Some(u@),
                Option::None => None,
            },
            access_method: match self.access_method {
                Option::Some(ref s) => Some(s@),
                Option::None => None,
            },
        }
    }
}

/// Encoding an update fills both wire fields through the identifier and
/// setting encoders.
pub open spec fn spec_encode_update(u: UpdateView) -> WireUpdateView {
    WireUpdateView {
        id: Some(spec_format_uuid(u.id)),
        access_method: Some(spec_encode_setting(u.access_method)),
    }
}

/// Decoding an update requires both wire fields; the method field is
/// examined first, then the identifier, and the first absent or malformed
/// one decides.
pub open spec fn spec_decode_update(w: WireUpdateView) -> Option<UpdateView> {
    match w.access_method {
        None => None,
        Some(wm) => match spec_decode_setting(wm) {
            None => None,
            Some(s) => match w.id {
                None => None,
                Some(t) => match spec_parse_uuid(t) {
                    None => None,
                    Some(id) => Some(UpdateView { id, access_method: s }),
                },
            },
        },
    }
}

/// Decoding inverts encoding for every update whose identifiers hold their
/// sixteen bytes.
pub proof fn lemma_update_round_trip(u: UpdateView)
    requires
        u.id.len() == 16,
        u.access_method.id.len() == 16,
    ensures
        spec_decode_update(spec_encode_update(u)) == Some(u),
{
    lemma_uuid_round_trip(u.id);
    lemma_setting_round_trip(u.access_method);
}

/// Encode an update into its wire message; both fields are populated.
/// Total.
pub fn encode_update(u: &AccessMethodUpdate) -> (r: WireApiAccessMethodUpdate)
    ensures
        r@ == spec_encode_update(u@),
{
    WireApiAccessMethodUpdate {
        id: Some(encode_uuid(&u.id)),
        access_method: Some(encode_setting(&u.access_method)),
    }
}

/// Decode an update from its wire message. An absent method or identifier
/// field, or a failure inside either, is rejected with `InvalidArgument`;
/// the method field is examined first.
pub fn decode_update(w: &WireApiAccessMethodUpdate) -> (r: Result<
    AccessMethodUpdate,
    DecodeError,
>)
    ensures
        r is Ok <==> spec_decode_update(w@) is Some,
        r matches Ok(u) ==> Some(u@) == spec_decode_update(w@),
{
    let setting = match &w.access_method {
        None => {
            return Err(DecodeError::invalid("no access method field was set"));
        },
        Some(m) => match decode_setting(m) {
            Ok(s) => s,
            Err(e) => {
                return Err(e);
            },
        },
    };
    let id = match &w.id {
        None => {
            return Err(DecodeError::invalid("no identifier field was set"));
        },
        Some(u) => match decode_uuid(u) {
            Ok(id) => id,
            Err(e) => {
                return Err(e);
            },
        },
    };
    Ok(AccessMethodUpdate { id, access_method: setting })
}

} // verus!
