//! The requests the controller decides to send to a worker, and the data they
//! carry.
//!
//! The controller itself never talks to a worker process: its verified
//! functions return the requests as values, in the order they must be issued,
//! and the unverified host that owns the transport performs them.

use vstd::prelude::*;
use crate::page_map::AllocatorEvent;
use crate::page_map::Page;

verus! {

/// A full serialization of one memory: every page ever written, plus the
/// memory's current size in pages.
#[derive(Debug, Clone, PartialEq, Eq)]
pub struct MemorySnapshot {
    pub pages: Vec<Page>,
    pub num_wasm_pages: u64,
}

/// An incremental serialization of one memory: the content of the pages that
/// changed since the parent snapshot, whether the page allocator was created
/// since then, and the memory's current size in pages.
#[derive(Debug, Clone, PartialEq, Eq)]
pub struct MemoryDeltaSerialization {
    pub page_delta: Vec<Page>,
    pub page_allocator: AllocatorEvent,
    pub num_wasm_pages: u64,
}

/// The payload of a request to open a remote execution state on the worker:
/// either a complete snapshot of every memory, or the delta against an
/// earlier remote state.
#[derive(Debug, Clone, PartialEq, Eq)]
pub enum StateSerialization {
    Full {
        globals: Vec<u64>,
        wasm_memory: MemorySnapshot,
        stable_memory: MemorySnapshot,
    },
    Delta {
        parent_state_id: u64,
        globals: Vec<u64>,
        wasm_memory: MemoryDeltaSerialization,
        stable_memory: MemoryDeltaSerialization,
    },
}

/// The opaque inputs of one execution, handed through to the worker
/// unchanged.
#[derive(Debug, Clone, PartialEq, Eq)]
pub struct ExecInput {
    pub func_ref: u64,
    pub api_type: u64,
    pub globals: Vec<u64>,
    pub canister_current_memory_usage: u64,
}

/// One request to a worker process, in the order the controller issues them.
#[derive(Debug, Clone, PartialEq, Eq)]
pub enum WorkerAction {
    /// Upload a compiled-unit source and compile it under `wasm_id`.
    OpenWasm { wasm_id: u64, wasm_src: Vec<u8> },
    /// Release the compiled artifact `wasm_id` (issued when the compilation
    /// cache evicts it).
    CloseWasm { wasm_id: u64 },
    /// Create the remote state `state_id` from the given payload.
    OpenState { state_id: u64, state: StateSerialization },
    /// Close the remote state `state_id`; issued exactly once per state, when
    /// its last reference is dropped.
    CloseState { state_id: u64 },
    /// Start execution `exec_id` against the given artifact and remote state;
    /// completion arrives asynchronously.
    OpenExecution { exec_id: u64, wasm_id: u64, state_id: u64, exec_input: ExecInput },
    /// Release the worker-side resources of execution `exec_id`.
    CloseExecution { exec_id: u64 },
}

/// What a finished execution changed, as reported by the worker. Absent when
/// the execution trapped before touching any state.
#[derive(Debug, Clone, PartialEq, Eq)]
pub struct StateModifications {
    pub globals: Vec<u64>,
    pub wasm_memory_page_delta: Vec<Page>,
    pub wasm_memory_size: u64,
    pub stable_memory_page_delta: Vec<Page>,
    pub stable_memory_size: u64,
    pub subnet_available_memory: i64,
}

/// The completion record of one execution, delivered by the worker's response
/// path.
#[derive(Debug, Clone, PartialEq, Eq)]
pub struct ExecOutput {
    /// Whether the computation finished without trapping.
    pub wasm_ok: bool,
    pub num_instructions_left: u64,
    pub state_modifications: Option<StateModifications>,
}

} // verus!
