//! Device-authorization session manager with a persistent credential and
//! directory cache.
//!
//! The crate models one identity-provider "partition" (a start URL plus a
//! region), stores client registrations, bearer tokens, account and role
//! listings and a usage history in a [`store::CacheStore`], drives the OAuth
//! device-authorization grant as an event-driven state machine
//! ([`session::SessionState`]), and ranks accounts by usage frequency
//! ([`frecency`]).

pub mod config;
pub mod directory;
pub mod domain;
pub mod events;
pub mod frecency;
pub mod session;
pub mod store;
pub mod util;
