//! Verified core of a WebRTC data-channel conformance suite.
use vstd::prelude::*;

pub mod corpus;
pub mod demands;
pub mod document;
pub mod drain;
pub mod environment;
pub mod exchange;
pub mod handshake;
pub mod host;
pub mod interop;
pub mod json;
pub mod lab;
pub mod manifest;
pub mod matrix;
pub mod outcome;
pub mod payload;
pub mod provider;
pub mod reference;
pub mod rendezvous;
pub mod script;
pub mod shadow;
pub mod shim;
pub mod signaling;
pub mod solo;
pub mod stimulus;
pub mod text;
pub mod wire;

verus! {
}
