//! A named access method setting and its wire codec.
//!
//! A setting wraps one access method with an identifier, a display name and
//! an enabled flag. On the wire the identifier and the method are optional
//! fields; their absence is a decode error, never a silent default.

use vstd::prelude::*;
use vstd::string::*;

use crate::error::DecodeError;
use crate::id::{
    decode_uuid, encode_uuid, lemma_uuid_round_trip, spec_format_uuid, spec_parse_uuid,
    AccessMethodId, WireUuid,
};
use crate::method::{
    decode_access_method, encode_access_method, lemma_method_round_trip, spec_decode_method,
    spec_encode_method, AccessMethod, KindView, MethodView, WireAccessMethod,
};

verus! {

/// One configured access method: an identifier, a display name, an enabled
/// flag and the method itself. The identifier is unique within any
/// containing collection; minting identifiers, and keeping them unique, is
/// the caller's business, not this codec's.
#[derive(Debug, PartialEq, Eq)]
pub struct AccessMethodSetting {
    pub id: AccessMethodId,
    pub name: String,
    pub enabled: bool,
    pub access_method: AccessMethod,
}

/// The mathematical model of a setting.
pub struct SettingView {
    pub id: Seq<u8>,
    pub name: Seq<char>,
    pub enabled: bool,
    pub method: MethodView,
}

impl View for AccessMethodSetting {
    type V = SettingView;

    open spec fn view(&self) -> SettingView {
        SettingView {
            id: self.id@,
            name: self.name@,
            enabled: self.enabled,
            method: self.access_method@,
        }
    }
}

impl AccessMethodSetting {
    /// Assemble a setting from an already-minted identifier and its parts.
    pub fn with_id(id: AccessMethodId, name: String, enabled: bool, access_method: AccessMethod) -> (r:
        AccessMethodSetting)
        ensures
            r@.id == id@,
            r@.name == name@,
            r@.enabled == enabled,
            r@.method == access_method@,
    {
        AccessMethodSetting { id, name, enabled, access_method }
    }

    /// The identifier of this setting.
    pub fn get_id(&self) -> (r: &AccessMethodId)
        ensures
            r@ == self@.id,
    {
        &self.id
    }

    /// The display name of this setting.
    pub fn get_name(&self) -> (r: &String)
        ensures
            r@ == self@.name,
    {
        &self.name
    }

    /// Whether this setting is enabled.
    pub fn enabled(&self) -> (r: bool)
        ensures
            r == self@.enabled,
    {
        self.enabled
    }
}

/// The wire message for one setting. The identifier and the method are
/// optional on the wire.
#[derive(Debug, PartialEq, Eq)]
pub struct WireApiAccessMethod {
    pub id: Option<WireUuid>,
    pub name: String,
    pub enabled: bool,
    pub access_method: Option<WireAccessMethod>,
}

/// The mathematical model of a wire setting.
pub struct WireSettingView {
    pub id: Option<Seq<char>>,
    pub name: Seq<char>,
    pub enabled: bool,
    pub access_method: Option<Option<KindView>>,
}

impl View for WireApiAccessMethod {
    type V = WireSettingView;

    open spec fn view(&self) -> WireSettingView {
        WireSettingView {
            id: match self.id {
                Option::Some(ref u) => Some(u@),
                Option::None => None,
            },
            name: self.name@,
            enabled: self.enabled,
            access_method: match self.access_method {
                Option::Some(ref m) => Some(m@),
                Option::None => None,
            },
        }
    }
}

/// Encoding a setting fills every wire field: the identifier as its
/// canonical text, name and flag as they are, and the method through the
/// variant encoder.
pub open spec fn spec_encode_setting(s: SettingView) -> WireSettingView {
    WireSettingView {
        id: Some(spec_format_uuid(s.id)),
        name: s.name,
        enabled: s.enabled,
        access_method: Some(Some(spec_encode_method(s.method))),
    }
}

/// Decoding a wire setting requires the identifier field, then the method
/// field; the first absent or malformed one decides, and name and flag pass
/// through untouched. No partial setting is ever produced.
pub open spec fn spec_decode_setting(w: WireSettingView) -> Option<SettingView> {
    match w.id {
        None => None,
        Some(id_text) => match spec_parse_uuid(id_text) {
            None => None,
            Some(id) => match w.access_method {
                None => None,
                Some(am) => match spec_decode_method(am) {
                    None => None,
                    Some(method) => Some(
                        SettingView { id, name: w.name, enabled: w.enabled, method },
                    ),
                },
            },
        },
    }
}

/// Decoding inverts encoding for every setting whose identifier holds its
/// sixteen bytes, with name, flag and identifier carried faithfully.
pub proof fn lemma_setting_round_trip(s: SettingView)
    requires
        s.id.len() == 16,
    ensures
        spec_decode_setting(spec_encode_setting(s)) == Some(s),
{
    lemma_uuid_round_trip(s.id);
    lemma_method_round_trip(s.method);
}

/// Encode a setting into its wire message; every wire field is populated.
/// Total.
pub fn encode_setting(s: &AccessMethodSetting) -> (r: WireApiAccessMethod)
    ensures
        r@ == spec_encode_setting(s@),
{
    WireApiAccessMethod {
        id: Some(encode_uuid(&s.id)),
        name: s.name.clone(),
        enabled: s.enabled,
        access_method: Some(encode_access_method(&s.access_method)),
    }
}

/// Decode a setting from its wire message. An absent identifier or method
/// field, or a failure inside either, is rejected with `InvalidArgument`;
/// the identifier is examined first.
pub fn decode_setting(w: &WireApiAccessMethod) -> (r: Result<AccessMethodSetting, DecodeError>)
    ensures
        r is Ok <==> spec_decode_setting(w@) is Some,
        r matches Ok(s) ==> Some(s@) == spec_decode_setting(w@),
{
    let id = match &w.id {
        None => {
            return Err(DecodeError::invalid("no identifier field was set"));
        },
        Some(u) => match decode_uuid(u) {
            Ok(id) => id,
            Err(e) => {
                return Err(e);
            },
        },
    };
    let method = match &w.access_method {
        None => {
            return Err(DecodeError::invalid("no access method field was set"));
        },
        Some(m) => match decode_access_method(m) {
            Ok(method) => method,
            Err(e) => {
                return Err(e);
            },
        },
    };
    Ok(
        AccessMethodSetting {
            id,
            name: w.name.clone(),
            enabled: w.enabled,
            access_method: method,
        },
    )
}

} // verus!
