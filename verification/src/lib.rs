//! A verified request/response bridge layer: line-delimited JSON envelopes
//! over a child process's standard streams, with strict id correlation,
//! a readiness handshake, and an idempotent credential-store adapter.

pub mod json;
pub mod keychain;
pub mod launch;
pub mod parse;
pub mod protocol;
pub mod requests;
