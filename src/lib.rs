//! Capability restrictions ("runes") for a remotely hosted node: a model of
//! restrictions and their evaluation against a call context, predefined
//! policies that carve narrower runes, and the device-identity state machine.

pub mod context;
pub mod credentials;
pub mod error;
pub mod laws;
pub mod policy;
pub mod restriction;
pub mod text;
