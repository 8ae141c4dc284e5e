//! Authentication-lifecycle orchestration for a networked account system.
//!
//! The heart of the crate is a hierarchical state machine: a public state
//! (`types::FxaState`) observed by consumers, and per-public-state internal
//! sub-states (`types::InternalState`) that name the account operation
//! currently in flight.  Pure transition logic lives in `logic`; the stateful
//! driver that owns the public state and invokes account operations lives in
//! `machine`.
//!
//! The remaining modules are small, self-contained companions: keyword
//! completion helpers (`util`), error conversion and reporting policy
//! (`handling`, `logins`), a record storage facade (`storage`), and an HTTP
//! request builder (`request`).

pub mod handling;
pub mod logic;
pub mod logins;
pub mod machine;
pub mod request;
pub mod storage;
pub mod types;
pub mod util;
