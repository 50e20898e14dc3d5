//! The authentication core of a command-line client for a remote API: OAuth2
//! login with PKCE and dynamic client registration, a per-site store of tokens
//! for several organizations, a registry of known logins, and the decisions of
//! the login, refresh, logout and status operations. Alongside it, the rules of
//! a monitor audit.
//!
//! Every function here carries a checked contract. Files, the OS keychain, the
//! network and the clock are left to the caller, which hands in what it read (the
//! current time included) and carries out what the library decides; the secure
//! random source, SHA-256 and base64 are reached through a few small wrappers
//! whose contracts are trusted.

use vstd::prelude::*;

pub mod alias;
pub mod args;
pub mod backends;
pub mod callback;
pub mod config;
pub mod error;
pub mod flow;
pub mod oauth;
pub mod org_map;
pub mod session;
pub mod store;
pub mod text;
pub mod types;
pub mod version;
pub mod vet;

verus! {

} // verus!
