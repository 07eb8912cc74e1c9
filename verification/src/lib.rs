//! Credential acquisition and persistence for a Twitch chat client.
//!
//! The library exchanges a one-time OAuth authorization code for an access
//! token, resolves the authenticated user's identity, and stores the
//! resulting credential record as a JSON document.  All request bodies and
//! documents are built and parsed by explicit, verified codecs; the host
//! application supplies only the raw transport (HTTP, file system).

pub mod config;
pub mod errors;
pub mod json;
pub mod service;
pub mod twitch;

pub use errors::Error;
