//! The access method variants and their wire oneof codec.
//!
//! Five variants exist: the two built-in methods (direct, bridge) without
//! parameters, and three custom proxies whose fields are validated at
//! construction, so that an invalid combination is unrepresentable.

use vstd::prelude::*;
use vstd::string::*;

use crate::error::DecodeError;
use crate::ip::{format_ip, lemma_ip_round_trip, parse_ip, spec_format_ip, spec_parse_ip, IpAddr};

verus! {

/// A built-in access method; it carries no parameters.
#[derive(Clone, Copy, Debug, PartialEq, Eq, Structural)]
pub enum BuiltInAccessMethod {
    Direct,
    Bridge,
}

/// A local SOCKS5 relay: a peer endpoint paired with the port to bind
/// locally.
#[derive(Clone, Copy, Debug, PartialEq, Eq, Structural)]
pub struct Socks5Local {
    pub peer_ip: IpAddr,
    pub peer_port: u16,
    pub local_port: u16,
}

/// A remote SOCKS5 proxy endpoint.
#[derive(Clone, Copy, Debug, PartialEq, Eq, Structural)]
pub struct Socks5Remote {
    pub peer_ip: IpAddr,
    pub peer_port: u16,
}

/// A remote Shadowsocks endpoint with cipher and credential. Cipher and
/// password are carried as-is; this layer imposes no length or charset
/// policy on them.
#[derive(Debug, PartialEq, Eq)]
pub struct Shadowsocks {
    pub peer_ip: IpAddr,
    pub peer_port: u16,
    pub cipher: String,
    pub password: String,
}

/// A SOCKS5 access method, local or remote.
#[derive(Clone, Copy, Debug, PartialEq, Eq, Structural)]
pub enum Socks5 {
    Local(Socks5Local),
    Remote(Socks5Remote),
}

/// A custom access method.
#[derive(Debug, PartialEq, Eq)]
pub enum CustomAccessMethod {
    Shadowsocks(Shadowsocks),
    Socks5(Socks5),
}

/// An access method: built-in or custom.
#[derive(Debug, PartialEq, Eq)]
pub enum AccessMethod {
    BuiltIn(BuiltInAccessMethod),
    Custom(CustomAccessMethod),
}

/// The mathematical model of an access method: one case per variant, with
/// addresses as plain values and strings as character sequences.
pub enum MethodView {
    Direct,
    Bridge,
    Socks5Local { ip: IpAddr, port: u16, local_port: u16 },
    Socks5Remote { ip: IpAddr, port: u16 },
    Shadowsocks { ip: IpAddr, port: u16, cipher: Seq<char>, password: Seq<char> },
}

impl View for AccessMethod {
    type V = MethodView;

    open spec fn view(&self) -> MethodView {
        match self {
            AccessMethod::BuiltIn(BuiltInAccessMethod::Direct) => MethodView::Direct,
            AccessMethod::BuiltIn(BuiltInAccessMethod::Bridge) => MethodView::Bridge,
            AccessMethod::Custom(CustomAccessMethod::Socks5(Socks5::Local(l))) => (
                MethodView::Socks5Local {
                    ip: l.peer_ip,
                    port: l.peer_port,
                    local_port: l.local_port,
                }
            ),
            AccessMethod::Custom(CustomAccessMethod::Socks5(Socks5::Remote(r))) => (
                MethodView::Socks5Remote { ip: r.peer_ip, port: r.peer_port }
            ),
            AccessMethod::Custom(CustomAccessMethod::Shadowsocks(ss)) => (
                MethodView::Shadowsocks {
                    ip: ss.peer_ip,
                    port: ss.peer_port,
                    cipher: ss.cipher@,
                    password: ss.password@,
                }
            ),
        }
    }
}

impl Socks5Local {
    /// Build a local SOCKS5 method from plain arguments, parsing the peer
    /// address text; an unparseable address yields nothing.
    pub fn from_args(ip: &str, port: u16, local_port: u16) -> (r: Option<Socks5Local>)
        ensures
            r is Some <==> spec_parse_ip(ip@) is Some,
            r matches Some(v) ==> Some(v.peer_ip) == spec_parse_ip(ip@) && v.peer_port == port
                && v.local_port == local_port,
    {
        match parse_ip(ip) {
            Some(peer_ip) => Some(Socks5Local { peer_ip, peer_port: port, local_port }),
            None => None,
        }
    }
}

impl Socks5Remote {
    /// Build a remote SOCKS5 method from plain arguments, parsing the peer
    /// address text; an unparseable address yields nothing.
    pub fn from_args(ip: &str, port: u16) -> (r: Option<Socks5Remote>)
        ensures
            r is Some <==> spec_parse_ip(ip@) is Some,
            r matches Some(v) ==> Some(v.peer_ip) == spec_parse_ip(ip@) && v.peer_port == port,
    {
        match parse_ip(ip) {
            Some(peer_ip) => Some(Socks5Remote { peer_ip, peer_port: port }),
            None => None,
        }
    }
}

impl Shadowsocks {
    /// Build a Shadowsocks method from plain arguments, parsing the peer
    /// address text; an unparseable address yields nothing.
    pub fn from_args(ip: &str, port: u16, cipher: String, password: String) -> (r: Option<
        Shadowsocks,
    >)
        ensures
            r is Some <==> spec_parse_ip(ip@) is Some,
            r matches Some(v) ==> Some(v.peer_ip) == spec_parse_ip(ip@) && v.peer_port == port
                && v.cipher@ == cipher@ && v.password@ == password@,
    {
        match parse_ip(ip) {
            Some(peer_ip) => Some(Shadowsocks { peer_ip, peer_port: port, cipher, password }),
            None => None,
        }
    }
}

/// The wire shape of a local SOCKS5 method: address as text, ports widened
/// to 32 bits.
#[derive(Debug, PartialEq, Eq)]
pub struct WireSocks5Local {
    pub ip: String,
    pub port: u32,
    pub local_port: u32,
}

/// The wire shape of a remote SOCKS5 method.
#[derive(Debug, PartialEq, Eq)]
pub struct WireSocks5Remote {
    pub ip: String,
    pub port: u32,
}

/// The wire shape of a Shadowsocks method.
#[derive(Debug, PartialEq, Eq)]
pub struct WireShadowsocks {
    pub ip: String,
    pub port: u32,
    pub cipher: String,
    pub password: String,
}

/// One populated case of the wire oneof.
#[derive(Debug, PartialEq, Eq)]
pub enum WireMethodKind {
    Direct,
    Bridges,
    Socks5Local(WireSocks5Local),
    Socks5Remote(WireSocks5Remote),
    Shadowsocks(WireShadowsocks),
}

/// The wire message for one access method: a oneof that may be unset.
#[derive(Debug, PartialEq, Eq)]
pub struct WireAccessMethod {
    pub access_method: Option<WireMethodKind>,
}

/// The mathematical model of a populated wire oneof case.
pub enum KindView {
    Direct,
    Bridges,
    Socks5Local { ip: Seq<char>, port: u32, local_port: u32 },
    Socks5Remote { ip: Seq<char>, port: u32 },
    Shadowsocks { ip: Seq<char>, port: u32, cipher: Seq<char>, password: Seq<char> },
}

impl View for WireMethodKind {
    type V = KindView;

    open spec fn view(&self) -> KindView {
        match self {
            WireMethodKind::Direct => KindView::Direct,
            WireMethodKind::Bridges => KindView::Bridges,
            WireMethodKind::Socks5Local(l) => (
                KindView::Socks5Local { ip: l.ip@, port: l.port, local_port: l.local_port }
            ),
            WireMethodKind::Socks5Remote(r) => (
                KindView::Socks5Remote { ip: r.ip@, port: r.port }
            ),
            WireMethodKind::Shadowsocks(ss) => (
                KindView::Shadowsocks {
                    ip: ss.ip@,
                    port: ss.port,
                    cipher: ss.cipher@,
                    password: ss.password@,
                }
            ),
        }
    }
}

impl View for WireAccessMethod {
    type V = Option<KindView>;

    open spec fn view(&self) -> Option<KindView> {
        match self.access_method {
            Option::Some(ref k) => Some(k@),
            Option::None => None,
        }
    }
}

/// Encoding an access method populates exactly one oneof case; addresses
/// become their canonical literal text and ports are widened to 32 bits.
pub open spec fn spec_encode_method(m: MethodView) -> KindView {
    match m {
        MethodView::Direct => KindView::Direct,
        MethodView::Bridge => KindView::Bridges,
        MethodView::Socks5Local { ip, port, local_port } => (
            KindView::Socks5Local {
                ip: spec_format_ip(ip),
                port: port as u32,
                local_port: local_port as u32,
            }
        ),
        MethodView::Socks5Remote { ip, port } => (
            KindView::Socks5Remote { ip: spec_format_ip(ip), port: port as u32 }
        ),
        MethodView::Shadowsocks { ip, port, cipher, password } => (
            KindView::Shadowsocks { ip: spec_format_ip(ip), port: port as u32, cipher, password }
        ),
    }
}

/// Decoding one populated oneof case: the built-in cases always succeed;
/// the custom cases succeed exactly when the address text parses and every
/// port fits in 16 bits.
pub open spec fn spec_decode_kind(k: KindView) -> Option<MethodView> {
    match k {
        KindView::Direct => Some(MethodView::Direct),
        KindView::Bridges => Some(MethodView::Bridge),
        KindView::Socks5Local { ip, port, local_port } => match spec_parse_ip(ip) {
            Some(addr) => if port <= 65535 && local_port <= 65535 {
                Some(
                    MethodView::Socks5Local {
                        ip: addr,
                        port: port as u16,
                        local_port: local_port as u16,
                    },
                )
            } else {
                None
            },
            None => None,
        },
        KindView::Socks5Remote { ip, port } => match spec_parse_ip(ip) {
            Some(addr) => if port <= 65535 {
                Some(MethodView::Socks5Remote { ip: addr, port: port as u16 })
            } else {
                None
            },
            None => None,
        },
        KindView::Shadowsocks { ip, port, cipher, password } => match spec_parse_ip(ip) {
            Some(addr) => if port <= 65535 {
                Some(
                    MethodView::Shadowsocks { ip: addr, port: port as u16, cipher, password },
                )
            } else {
                None
            },
            None => None,
        },
    }
}

/// Decoding a wire method message: an absent oneof is rejected; a populated
/// case is decoded by `spec_decode_kind`.
pub open spec fn spec_decode_method(w: Option<KindView>) -> Option<MethodView> {
    match w {
        Some(k) => spec_decode_kind(k),
        None => None,
    }
}

/// Decoding inverts encoding: every constructible access method survives
/// the trip through its wire form unchanged.
pub proof fn lemma_method_round_trip(m: MethodView)
    ensures
        spec_decode_method(Some(spec_encode_method(m))) == Some(m),
{
    match m {
        MethodView::Direct => {
        },
        MethodView::Bridge => {
        },
        MethodView::Socks5Local { ip, port, local_port } => {
            lemma_ip_round_trip(ip);
        },
        MethodView::Socks5Remote { ip, port } => {
            lemma_ip_round_trip(ip);
        },
        MethodView::Shadowsocks { ip, port, cipher, password } => {
            lemma_ip_round_trip(ip);
        },
    }
}

/// Encode an access method into its wire message, populating exactly one
/// oneof case. Total.
pub fn encode_access_method(m: &AccessMethod) -> (r: WireAccessMethod)
    ensures
        r@ == Some(spec_encode_method(m@)),
{
    let kind = match m {
        AccessMethod::BuiltIn(BuiltInAccessMethod::Direct) => WireMethodKind::Direct,
        AccessMethod::BuiltIn(BuiltInAccessMethod::Bridge) => WireMethodKind::Bridges,
        AccessMethod::Custom(CustomAccessMethod::Socks5(Socks5::Local(l))) => (
            WireMethodKind::Socks5Local(
                WireSocks5Local {
                    ip: format_ip(&l.peer_ip),
                    port: l.peer_port as u32,
                    local_port: l.local_port as u32,
                },
            )
        ),
        AccessMethod::Custom(CustomAccessMethod::Socks5(Socks5::Remote(rem))) => (
            WireMethodKind::Socks5Remote(
                WireSocks5Remote { ip: format_ip(&rem.peer_ip), port: rem.peer_port as u32 },
            )
        ),
        AccessMethod::Custom(CustomAccessMethod::Shadowsocks(ss)) => (
            WireMethodKind::Shadowsocks(
                WireShadowsocks {
                    ip: format_ip(&ss.peer_ip),
                    port: ss.peer_port as u32,
                    cipher: ss.cipher.clone(),
                    password: ss.password.clone(),
                },
            )
        ),
    };
    WireAccessMethod { access_method: Some(kind) }
}

/// Decode an access method from its wire message. An absent oneof case, an
/// unparseable address text, or a port above 65535 is rejected with
/// `InvalidArgument`; ports are narrowed, never truncated.
pub fn decode_access_method(w: &WireAccessMethod) -> (r: Result<AccessMethod, DecodeError>)
    ensures
        r is Ok <==> spec_decode_method(w@) is Some,
        r matches Ok(m) ==> Some(m@) == spec_decode_method(w@),
{
    match &w.access_method {
        None => Err(DecodeError::invalid("no access method case was set")),
        Some(WireMethodKind::Direct) => Ok(AccessMethod::BuiltIn(BuiltInAccessMethod::Direct)),
        Some(WireMethodKind::Bridges) => Ok(AccessMethod::BuiltIn(BuiltInAccessMethod::Bridge)),
        Some(WireMethodKind::Socks5Local(l)) => match parse_ip(l.ip.as_str()) {
            Some(peer_ip) => {
                if l.port > 65535 || l.local_port > 65535 {
                    Err(DecodeError::invalid("SOCKS5 (local) port does not fit in 16 bits"))
                } else {
                    Ok(
                        AccessMethod::Custom(
                            CustomAccessMethod::Socks5(
                                Socks5::Local(
                                    Socks5Local {
                                        peer_ip,
                                        peer_port: l.port as u16,
                                        local_port: l.local_port as u16,
                                    },
                                ),
                            ),
                        ),
                    )
                }
            },
            None => Err(DecodeError::invalid("could not parse SOCKS5 (local) message")),
        },
        Some(WireMethodKind::Socks5Remote(rem)) => match parse_ip(rem.ip.as_str()) {
            Some(peer_ip) => {
                if rem.port > 65535 {
                    Err(DecodeError::invalid("SOCKS5 (remote) port does not fit in 16 bits"))
                } else {
                    Ok(
                        AccessMethod::Custom(
                            CustomAccessMethod::Socks5(
                                Socks5::Remote(
                                    Socks5Remote { peer_ip, peer_port: rem.port as u16 },
                                ),
                            ),
                        ),
                    )
                }
            },
            None => Err(DecodeError::invalid("could not parse SOCKS5 (remote) message")),
        },
        Some(WireMethodKind::Shadowsocks(ss)) => match parse_ip(ss.ip.as_str()) {
            Some(peer_ip) => {
                if ss.port > 65535 {
                    Err(DecodeError::invalid("Shadowsocks port does not fit in 16 bits"))
                } else {
                    Ok(
                        AccessMethod::Custom(
                            CustomAccessMethod::Shadowsocks(
                                Shadowsocks {
                                    peer_ip,
                                    peer_port: ss.port as u16,
                                    cipher: ss.cipher.clone(),
                                    password: ss.password.clone(),
                                },
                            ),
                        ),
                    )
                }
            },
            None => Err(DecodeError::invalid("could not parse Shadowsocks message")),
        },
    }
}

} // verus!
