//! Event extraction and aggregation for the Polaris music registry contract.
//!
//! Blocks come in as plain values ([`chain`]); each action of the registry
//! contract is decoded from its JSON document ([`json`]) or from its binary
//! payload ([`decode`], over the readers of [`binary`]), turned into an
//! [`events::Event`], identified ([`identity`]) and counted ([`aggregate`]).
//! [`laws`] states what holds of the pipeline as a whole.

pub mod text;
pub mod chain;
pub mod binary;
pub mod decode;
pub mod events;
pub mod identity;
pub mod aggregate;
pub mod laws;
pub mod json;
