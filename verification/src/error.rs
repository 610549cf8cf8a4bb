//! Errors reported by the library.

use crate::text::{dec_chars, dec_chars_i64, append_str, i64_to_dec_string, u128_to_dec_string};
use vstd::prelude::*;

verus! {

/// Errors returned by the notification relay library.
#[derive(Debug, Clone, PartialEq, Eq)]
pub enum Error {
    /// At least one endpoint needs to be defined for a server.
    MissingEndpoint,
    /// At least one interface needs to be defined for a server or client.
    MissingInterface,
    /// Validation failed for an interface configuration.
    InvalidInterfaceConfiguration(String),
    /// Validation failed for an endpoint configuration.
    InvalidEndpointConfiguration(String),
    /// Matrix room name does not appear to be a room.
    InvalidMatrixRoomIdentifier,
    /// The shared master key must be exactly 32 bytes long.
    InvalidKeyLength(usize),
    /// Port needs to be in a valid u16 range.
    InvalidPortNumber(i64),
    /// Call to an interface feature that is not enabled.
    DisabledInterfaceFeature(String),
    /// Call to an endpoint feature that is not enabled.
    DisabledEndpointFeature(String),
    /// A JSON frame could not be decoded as a notification.
    JsonDecode,
}

/// The text with which an error describes itself.
pub open spec fn error_text(e: Error) -> Seq<char> {
    match e {
        Error::MissingEndpoint => "At least one endpoint must be defined"@,
        Error::MissingInterface => "At least one interface must be defined"@,
        Error::InvalidInterfaceConfiguration(s) => "Invalid Interface Configuration: "@ + s@,
        Error::InvalidEndpointConfiguration(s) => "Invalid Endpoint Configuration: "@ + s@,
        Error::InvalidMatrixRoomIdentifier => "Room identifiers must start with # or !"@,
        Error::InvalidKeyLength(n) => "Invalid key length, 32 bytes expected and got "@
            + dec_chars(n as u128),
        Error::InvalidPortNumber(p) => "Invalid port number, valid u16 value expected and got "@
            + dec_chars_i64(p),
        Error::DisabledInterfaceFeature(s) => "Interface feature "@ + s@ + " is not enabled"@,
        Error::DisabledEndpointFeature(s) => "Endpoint feature "@ + s@ + " is not enabled"@,
        Error::JsonDecode => "Unable to decode a notification from JSON"@,
    }
}

impl Error {
    /// Human-readable description of the error.
    pub fn to_string(&self) -> (r: String)
        ensures
            r@ == error_text(*self),
    {
        let mut s = String::new();
        match self {
            Error::MissingEndpoint => {
                append_str(&mut s, "At least one endpoint must be defined");
            },
            Error::MissingInterface => {
                append_str(&mut s, "At least one interface must be defined");
            },
            Error::InvalidInterfaceConfiguration(detail) => {
                append_str(&mut s, "Invalid Interface Configuration: ");
                append_str(&mut s, detail.as_str());
            },
            Error::InvalidEndpointConfiguration(detail) => {
                append_str(&mut s, "Invalid Endpoint Configuration: ");
                append_str(&mut s, detail.as_str());
            },
            Error::InvalidMatrixRoomIdentifier => {
                append_str(&mut s, "Room identifiers must start with # or !");
            },
            Error::InvalidKeyLength(n) => {
                append_str(&mut s, "Invalid key length, 32 bytes expected and got ");
                let digits = u128_to_dec_string(*n as u128);
                append_str(&mut s, digits.as_str());
            },
            Error::InvalidPortNumber(p) => {
                append_str(&mut s, "Invalid port number, valid u16 value expected and got ");
                let digits = i64_to_dec_string(*p);
                append_str(&mut s, digits.as_str());
            },
            Error::DisabledInterfaceFeature(name) => {
                append_str(&mut s, "Interface feature ");
                append_str(&mut s, name.as_str());
                append_str(&mut s, " is not enabled");
            },
            Error::DisabledEndpointFeature(name) => {
                append_str(&mut s, "Endpoint feature ");
                append_str(&mut s, name.as_str());
                append_str(&mut s, " is not enabled");
            },
            Error::JsonDecode => {
                append_str(&mut s, "Unable to decode a notification from JSON");
            },
        }
        s
    }
}

} // verus!
