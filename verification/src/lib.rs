//! Core engine for a multi-account authenticator: an in-memory account
//! registry, a multi-step login state machine, and a per-account cache of
//! pending confirmations with accept/deny resolution.
//!
//! The registry and the cache are two independently owned collections,
//! passed by reference into each operation. Remote calls are not made here:
//! the login and fetch flows are state machines whose every transition is
//! specified, and the surrounding shell feeds each remote outcome back in
//! as a plain value.
pub mod account;
pub mod cache;
pub mod confirm;
pub mod error;
pub mod login;
pub mod service;
pub mod store;
pub mod strcmp;
pub mod totp;
