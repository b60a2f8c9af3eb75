//! A bidirectional, validating translation layer between the wire
//! representation of API access methods — proxy configurations a client may
//! use to reach a backend service — and the internal domain model.
//!
//! The domain side consists of a validated identifier, five proxy variants
//! (direct, bridge, local SOCKS5, remote SOCKS5, Shadowsocks), a named
//! setting wrapping one variant, an ordered collection of settings, and a
//! replacement update. The wire side mirrors the transmissible message
//! shapes, with optional fields and text-encoded addresses. Every decoder
//! rejects malformed input with a structured error instead of panicking, and
//! decoding is proved to invert encoding.

pub mod collection;
pub mod error;
pub mod id;
pub mod ip;
pub mod method;
pub mod setting;
pub mod text;
pub mod update;
