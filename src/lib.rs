//! Core logic of a secrets-management service: envelope encryption framing,
//! request authentication, payload validation, and the secret-versioning
//! state machine, each stated and proved with Verus.

pub mod encoding;
pub mod validation;
pub mod errors;
pub mod crypto;
pub mod auth;
pub mod secrets;
pub mod connections;
pub mod handlers;
pub mod config;
