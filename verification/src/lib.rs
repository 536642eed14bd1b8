//! A local, verified model of an actor-style replica: independently
//! addressed canisters that communicate only through asynchronous message
//! passing, with call/reply correlation and cycle-refund accounting.
//!
//! The crate is organised leaf-first:
//! - [`types`]: envelopes, messages, call outcomes and call descriptors;
//! - [`assoc`]: the association-list registry primitive shared by the
//!   dispatcher's registry and the canister storage;
//! - [`replica`]: the dispatcher state machine (registration, routing,
//!   correlation ids, refunds) and the canister handles;
//! - [`context`]: the per-canister execution context and its accessors.

pub mod assoc;
pub mod context;
pub mod replica;
pub mod types;
