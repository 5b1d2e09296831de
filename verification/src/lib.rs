//! A controller for dispatching sandboxed executions to isolated worker
//! processes.
//!
//! The controller maps each tenant (a canister id) to a long-lived sandbox
//! process, keeps the worker's mirrored copy of the tenant's paged memories in
//! sync with the authoritative copy by uploading full snapshots or incremental
//! page deltas, caches compiled artifacts per worker with bounded capacity,
//! and tracks every in-flight execution in a per-worker registry.
//!
//! All interaction with the worker itself (spawning it, shipping requests over
//! IPC, running the compute) is outside this crate: the verified functions
//! compute, from the controller's state and a call's events, the next state
//! and the exact requests to send, and an unverified host performs them.

pub mod controller;
pub mod elastic_cache;
pub mod execution_state;
pub mod page_map;
pub mod protocol;
pub mod registry;
pub mod remote_state;
pub mod sync;
