//! Version-management core of a package registry.
//!
//! Owns the lifecycle of a published crate version: its dependency edges,
//! its author attribution, its download statistics, and its yank state.
//! The relational store is modelled as an explicit [`store::Store`] value
//! passed into every operation, making transaction boundaries visible at
//! each call site; the git-backed index is reached only through an outbox
//! of intended index mutations recorded transactionally in the store.

pub mod encode;
pub mod error;
pub mod handlers;
pub mod num;
pub mod record;
pub mod store;
pub mod version;
