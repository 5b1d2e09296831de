//! The per-context synchronization state and the lazy synchronization
//! protocol's transitions.
//!
//! Each execution context tracks whether the worker holds a remote copy of
//! its memories. Resolving the state before a call uploads a full snapshot
//! when no remote state exists, only the recorded page delta when a remote
//! state exists at an earlier anchor, and nothing when the remote copy is
//! current. After a call commits, the state always records the new delta
//! anchored at the remote state the call used — the worker discards its
//! mutated copy at end of call — while a trapping call leaves the state
//! untouched.

use vstd::prelude::*;
use crate::page_map::AllocatorEvent;
use crate::page_map::Memory;
use crate::page_map::pages_as_map;
use crate::page_map::pages_match;
use crate::protocol::MemoryDeltaSerialization;
use crate::protocol::MemorySnapshot;
use crate::protocol::StateSerialization;

verus! {

/// How a context's memories relate to the worker's remote copy.
#[derive(Debug, Clone, PartialEq, Eq)]
pub enum SyncState {
    /// The remote state `state_id` is bit-identical to the authoritative
    /// copy; the next access is free.
    Synced { state_id: u64 },
    /// No remote state exists; the next access must upload a complete
    /// snapshot.
    UnsyncedFull,
    /// The remote state `parent` exists at an earlier point; the
    /// authoritative copy has since advanced by exactly the recorded page
    /// changes and allocator events, so the next access uploads only that
    /// delta, anchored at `parent`.
    UnsyncedDelta {
        parent: u64,
        wasm_pages: Vec<u64>,
        wasm_allocator: AllocatorEvent,
        stable_pages: Vec<u64>,
        stable_allocator: AllocatorEvent,
    },
}

/// The mathematical model of a [`SyncState`].
pub enum SyncModel {
    Synced { state_id: u64 },
    UnsyncedFull,
    UnsyncedDelta {
        parent: u64,
        wasm_pages: Seq<u64>,
        wasm_allocator: AllocatorEvent,
        stable_pages: Seq<u64>,
        stable_allocator: AllocatorEvent,
    },
}

impl View for SyncState {
    type V = SyncModel;

    open spec fn view(&self) -> SyncModel {
        match *self {
            SyncState::Synced { state_id } => SyncModel::Synced { state_id },
            SyncState::UnsyncedFull => SyncModel::UnsyncedFull,
            SyncState::UnsyncedDelta {
                parent,
                wasm_pages,
                wasm_allocator,
                stable_pages,
                stable_allocator,
            } => SyncModel::UnsyncedDelta {
                parent,
                wasm_pages: wasm_pages@,
                wasm_allocator,
                stable_pages: stable_pages@,
                stable_allocator,
            },
        }
    }
}

/// Whether resolving this state must upload anything.
pub open spec fn resolve_needs_upload(s: SyncModel) -> bool {
    !(s is Synced)
}

/// Whether resolving this state uploads a complete snapshot.
pub open spec fn resolve_uploads_full(s: SyncModel) -> bool {
    s is UnsyncedFull
}

/// The remote state a call resolving this context uses: the synced one if
/// the remote copy is current, otherwise the freshly created one.
pub open spec fn resolve_target(s: SyncModel, fresh: u64) -> u64 {
    match s {
        SyncModel::Synced { state_id } => state_id,
        _ => fresh,
    }
}

/// The remote state a synchronization state keeps alive: the synced state,
/// or the parent a recorded delta is anchored at.
pub open spec fn anchor_of(s: SyncModel) -> Option<u64> {
    match s {
        SyncModel::Synced { state_id } => Some(state_id),
        SyncModel::UnsyncedFull => None,
        SyncModel::UnsyncedDelta { parent, .. } => Some(parent),
    }
}

/// The synchronization state after a resolution: always synced, at the
/// remote state the call will use.
pub open spec fn resolve_result(s: SyncModel, fresh: u64) -> SyncModel {
    SyncModel::Synced { state_id: resolve_target(s, fresh) }
}

/// The synchronization state after a call that trapped: unchanged, because
/// the remote copy was never mutated and stays reusable.
pub open spec fn trap_result(s: SyncModel) -> SyncModel {
    s
}

/// The synchronization state after a call committed its reported changes:
/// the recorded delta, anchored at the remote state the call used.
pub open spec fn commit_result(
    used: u64,
    wasm_pages: Seq<u64>,
    wasm_allocator: AllocatorEvent,
    stable_pages: Seq<u64>,
    stable_allocator: AllocatorEvent,
) -> SyncModel {
    SyncModel::UnsyncedDelta { parent: used, wasm_pages, wasm_allocator, stable_pages, stable_allocator }
}

/// Law: once a remote state exists, synchronization never falls back to a
/// full upload. Resolving an absent remote state uploads a full snapshot
/// under the fresh id `h`; a trapping call leaves that state synced, so the
/// next resolution uploads nothing and uses the same remote state; the first
/// committing call afterwards records its delta anchored at that same state;
/// and the upload that the following resolution performs is therefore a
/// delta against the full upload's state — never a second full snapshot.
pub proof fn lemma_full_then_trap_then_delta(
    h: u64,
    wasm_pages: Seq<u64>,
    wasm_allocator: AllocatorEvent,
    stable_pages: Seq<u64>,
    stable_allocator: AllocatorEvent,
)
    ensures
        resolve_uploads_full(SyncModel::UnsyncedFull),
        resolve_result(SyncModel::UnsyncedFull, h) == (SyncModel::Synced { state_id: h }),
        trap_result(SyncModel::Synced { state_id: h }) == (SyncModel::Synced { state_id: h }),
        !resolve_needs_upload(SyncModel::Synced { state_id: h }),
        forall|fresh: u64| #[trigger]
            resolve_target(SyncModel::Synced { state_id: h }, fresh) == h,
        commit_result(
            h,
            wasm_pages,
            wasm_allocator,
            stable_pages,
            stable_allocator,
        ) matches SyncModel::UnsyncedDelta { parent, .. } && parent == h,
        resolve_needs_upload(
            commit_result(h, wasm_pages, wasm_allocator, stable_pages, stable_allocator),
        ),
        !resolve_uploads_full(
            commit_result(h, wasm_pages, wasm_allocator, stable_pages, stable_allocator),
        ),
{
}

/// The full serialization of one memory for a snapshot upload.
pub fn serialize_memory(memory: &Memory) -> (r: MemorySnapshot)
    requires
        memory.page_map.wf(),
    ensures
        pages_as_map(r.pages@) == memory.page_map@,
        r.num_wasm_pages == memory.size,
{
    MemorySnapshot { pages: memory.page_map.serialize(), num_wasm_pages: memory.size }
}

/// The serialization of one memory's recorded delta: the content of the
/// changed pages, the allocator event since the anchor, and the current page
/// count — never the unchanged pages.
pub fn serialize_memory_delta(
    memory: &Memory,
    pages: &Vec<u64>,
    page_allocator: AllocatorEvent,
) -> (r: MemoryDeltaSerialization)
    requires
        memory.page_map.wf(),
        forall|i: int|
            0 <= i < pages@.len() ==> memory.page_map@.dom().contains(#[trigger] pages@[i]),
    ensures
        pages_match(memory.page_map@, pages@, r.page_delta@),
        r.page_allocator == page_allocator,
        r.num_wasm_pages == memory.size,
{
    MemoryDeltaSerialization {
        page_delta: memory.page_map.serialize_pages(pages),
        page_allocator,
        num_wasm_pages: memory.size,
    }
}

/// `p` is the complete snapshot of the context `globals` + memories.
pub open spec fn full_serialization_for(
    p: StateSerialization,
    globals: Seq<u64>,
    wasm_memory: Memory,
    stable_memory: Memory,
) -> bool {
    &&& p matches StateSerialization::Full { globals: g, wasm_memory: w, stable_memory: s }
    &&& g@ == globals
    &&& pages_as_map(w.pages@) == wasm_memory.page_map@
    &&& w.num_wasm_pages == wasm_memory.size
    &&& pages_as_map(s.pages@) == stable_memory.page_map@
    &&& s.num_wasm_pages == stable_memory.size
}

/// `p` is exactly the recorded delta of the context, anchored at its parent:
/// the content of the recorded pages, the allocator events, and nothing
/// else.
pub open spec fn delta_serialization_for(
    p: StateSerialization,
    sync: SyncModel,
    globals: Seq<u64>,
    wasm_memory: Memory,
    stable_memory: Memory,
) -> bool {
    &&& sync matches SyncModel::UnsyncedDelta {
        parent,
        wasm_pages,
        wasm_allocator,
        stable_pages,
        stable_allocator,
    }
    &&& p matches StateSerialization::Delta {
        parent_state_id,
        globals: g,
        wasm_memory: w,
        stable_memory: s,
    }
    &&& parent_state_id == parent
    &&& g@ == globals
    &&& pages_match(wasm_memory.page_map@, wasm_pages, w.page_delta@)
    &&& w.page_allocator == wasm_allocator
    &&& w.num_wasm_pages == wasm_memory.size
    &&& pages_match(stable_memory.page_map@, stable_pages, s.page_delta@)
    &&& s.page_allocator == stable_allocator
    &&& s.num_wasm_pages == stable_memory.size
}

} // verus!
