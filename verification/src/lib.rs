//! A per-owner counter program over a proof-addressed account space.
//!
//! The library is the core of a small state-transition program: a typed
//! record schema, deterministic address derivation, an ownership-equality
//! authorization policy, and four transition handlers (create, increment,
//! create-plus-increment, delete). An external runtime loads authenticated
//! snapshots, invokes a handler, and persists what the handler returns; the
//! `ledger` module makes that loading and allocation rule explicit so the
//! whole transition sequence can be stated and checked.

pub mod address;
pub mod entity;
pub mod handlers;
pub mod ledger;
