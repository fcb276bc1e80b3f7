//! Verified core of a Discord-bot dashboard's authentication subsystem.
//!
//! The library contains the decision logic of the subsystem: the signed
//! session credential and its cookie, the OAuth2 login and callback plans,
//! the dual-mode request authenticator (session cookie or trusted-service
//! headers), the cache-aside profile and guild store, the ban-list gate and
//! the revocation plan. All network and cache I/O is performed by the caller,
//! which feeds results back in as plain values or protocol events.

pub mod account;
pub mod authenticator;
pub mod cache_model;
pub mod config;
pub mod cookie;
pub mod credential;
pub mod envelope;
pub mod errors;
pub mod flows;
pub mod keys;
pub mod oauth;
pub mod percent;
pub mod revoke;
pub mod text;
