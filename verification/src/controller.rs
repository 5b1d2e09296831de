//! The worker pool and the call lifecycle.
//!
//! The controller maps each tenant to one sandbox process, created on first
//! use and reused by every later call. A call resolves the tenant's worker,
//! resolves the compiled artifact through the worker's bounded cache,
//! resolves the remote copy of the tenant's memories through the
//! synchronization protocol, registers the execution, and dispatches it. The
//! dispatch is asynchronous: the worker's response path delivers the
//! completion record, and only then does the dispatching side reclaim the
//! caller's accounting object, commit the reported changes to the
//! authoritative state, and release the per-call resources.
//!
//! Every request to a worker is returned as a [`WorkerAction`] value, in
//! issue order; the unverified host that owns the process transport performs
//! them.

use vstd::prelude::*;
use crate::elastic_cache::Cache;
use crate::elastic_cache::CacheEntry;
use crate::elastic_cache::cache_after_hit;
use crate::elastic_cache::cache_after_insert;
use crate::elastic_cache::cache_evicted;
use crate::elastic_cache::cache_has_key;
use crate::elastic_cache::cache_index_of;
use crate::execution_state::ExecutionState;
use crate::execution_state::WasmBinary;
use crate::execution_state::copy_globals;
use crate::page_map::AllocatorEvent;
use crate::page_map::PageMap;
use crate::page_map::apply_pages;
use crate::page_map::copy_bytes;
use crate::page_map::delta_indices;
use crate::page_map::lemma_apply_pages_dom;
use crate::protocol::ExecInput;
use crate::protocol::ExecOutput;
use crate::protocol::StateModifications;
use crate::protocol::StateSerialization;
use crate::protocol::WorkerAction;
use crate::registry::ActiveExecutionStateRegistry;
use crate::registry::Registration;
use crate::registry::can_deliver;
use crate::registry::can_reclaim;
use crate::registry::table_after_deliver;
use crate::registry::table_after_reclaim;
use crate::remote_state::RemoteStateTable;
use crate::remote_state::refs_after_release;
use crate::remote_state::release_closes;
use crate::sync::SyncModel;
use crate::sync::SyncState;
use crate::sync::anchor_of;
use crate::sync::commit_result;
use crate::sync::delta_serialization_for;
use crate::sync::full_serialization_for;
use crate::sync::resolve_needs_upload;
use crate::sync::resolve_result;
use crate::sync::resolve_target;
use crate::sync::resolve_uploads_full;
use crate::sync::serialize_memory;
use crate::sync::serialize_memory_delta;

verus! {

/// The bound on compiled artifacts resident per worker.
pub const COMPILATION_CACHE_SIZE: usize = 2;

/// The caller's accounting object: handed in with the call, held by the
/// execution registry while the call runs, never touched by any other
/// execution, and returned to the caller when the execution is reclaimed.
#[derive(Debug, Clone, Copy, PartialEq, Eq, Structural)]
pub struct SystemStateAccessor {
    pub system_state: u64,
}

/// One sandbox worker's controller-side bookkeeping: the registry of its
/// in-flight executions, its bounded compilation cache, the reference counts
/// of its resident remote states, and the generators for the ids this worker
/// has not used yet.
pub struct SandboxProcess {
    pub execution_states: ActiveExecutionStateRegistry<SystemStateAccessor>,
    pub compilation_cache: Cache,
    pub remote_states: RemoteStateTable,
    pub next_wasm_id: u64,
    pub next_state_id: u64,
}

impl SandboxProcess {
    /// The bookkeeping is well formed and every resident remote state was
    /// created by this worker's id generator.
    pub open spec fn wf(self) -> bool {
        &&& self.execution_states.wf()
        &&& self.compilation_cache.wf()
        &&& self.remote_states.wf()
        &&& forall|id: u64|
            self.remote_states.refs().dom().contains(id) ==> id < self.next_state_id
    }

    /// A worker with no executions, no resident artifacts and no remote
    /// states.
    pub fn new() -> (r: SandboxProcess)
        ensures
            r.wf(),
            fresh_process(r),
    {
        SandboxProcess {
            execution_states: ActiveExecutionStateRegistry::new(),
            compilation_cache: Cache::new(COMPILATION_CACHE_SIZE),
            remote_states: RemoteStateTable::new(),
            next_wasm_id: 0,
            next_state_id: 0,
        }
    }

    /// Resolves the compiled artifact for `wasm_key`. A hit returns the
    /// resident artifact id and refreshes its recency, uploading nothing. A
    /// miss uploads and compiles the binary under a fresh id, inserts it,
    /// and — when the cache was full — evicts the least recently used
    /// artifact, releasing it on the worker with exactly one close request.
    /// Returns the artifact id, whether a compilation happened, and the
    /// requests to issue.
    pub fn resolve_artifact(&mut self, wasm_key: u64, binary: &WasmBinary) -> (r: (
        u64,
        bool,
        Vec<WorkerAction>,
    ))
        requires
            old(self).wf(),
            old(self).next_wasm_id < u64::MAX,
        ensures
            final(self).wf(),
            final(self).execution_states == old(self).execution_states,
            final(self).remote_states == old(self).remote_states,
            final(self).next_state_id == old(self).next_state_id,
            final(self).compilation_cache.cap() == old(self).compilation_cache.cap(),
            r.1 == !cache_has_key(old(self).compilation_cache.model(), wasm_key),
            !r.1 ==> r.0 == old(self).compilation_cache.model()[cache_index_of(
                old(self).compilation_cache.model(),
                wasm_key,
            )].wasm_id,
            !r.1 ==> final(self).compilation_cache.model() == cache_after_hit(
                old(self).compilation_cache.model(),
                wasm_key,
            ),
            !r.1 ==> final(self).next_wasm_id == old(self).next_wasm_id,
            !r.1 ==> r.2@.len() == 0,
            r.1 ==> r.0 == old(self).next_wasm_id,
            r.1 ==> final(self).next_wasm_id == old(self).next_wasm_id + 1,
            r.1 ==> final(self).compilation_cache.model() == cache_after_insert(
                old(self).compilation_cache.model(),
                old(self).compilation_cache.cap() as int,
                CacheEntry { key: wasm_key, wasm_id: r.0 },
            ),
            r.1 ==> r.2@.len() == (if cache_evicted(
                old(self).compilation_cache.model(),
                old(self).compilation_cache.cap() as int,
            ) is Some {
                2int
            } else {
                1int
            }),
            r.1 ==> (r.2@[0] matches WorkerAction::OpenWasm { wasm_id, wasm_src } && wasm_id == r.0
                && wasm_src@ == binary.binary@),
            r.1 ==> (cache_evicted(
                old(self).compilation_cache.model(),
                old(self).compilation_cache.cap() as int,
            ) matches Some(v) ==> r.2@[1] == (WorkerAction::CloseWasm { wasm_id: v.wasm_id })),
    {
        let mut actions: Vec<WorkerAction> = Vec::new();
        let hit = self.compilation_cache.get(wasm_key);
        match hit {
            Some(wasm_id) => (wasm_id, false, actions),
            None => {
                let wasm_id = self.next_wasm_id;
                self.next_wasm_id = self.next_wasm_id + 1;
                actions.push(
                    WorkerAction::OpenWasm { wasm_id, wasm_src: copy_bytes(&binary.binary) },
                );
                let evicted = self.compilation_cache.insert(wasm_key, wasm_id);
                match evicted {
                    Some(e) => {
                        actions.push(WorkerAction::CloseWasm { wasm_id: e.wasm_id });
                    },
                    None => {},
                }
                (wasm_id, true, actions)
            },
        }
    }
}

/// A worker has no executions, no resident artifacts, no remote states, and
/// has generated no ids yet.
pub open spec fn fresh_process(p: SandboxProcess) -> bool {
    &&& p.execution_states.table() =~= Map::<u64, Registration<SystemStateAccessor>>::empty()
    &&& p.execution_states.next() == 0
    &&& p.compilation_cache.model() =~= Seq::<CacheEntry>::empty()
    &&& p.compilation_cache.cap() == COMPILATION_CACHE_SIZE
    &&& p.remote_states.refs() =~= Map::<u64, u64>::empty()
    &&& p.next_wasm_id == 0
    &&& p.next_state_id == 0
}

/// The context's synchronization anchor is a remote state this worker still
/// holds, so a resolution can build on it.
pub open spec fn anchored_in(s: ExecutionState, p: SandboxProcess) -> bool {
    match s.sandbox_state {
        SyncState::Synced { state_id } => p.remote_states.refs().dom().contains(state_id),
        SyncState::UnsyncedFull => true,
        SyncState::UnsyncedDelta { parent, .. } => p.remote_states.refs().dom().contains(parent),
    }
}

/// Returns the id of the remote state the call will run against, after
/// making sure the worker's copy of the context's memories is in sync with
/// the authoritative copy.
///
/// A context that is already synced costs nothing on the wire; an unsynced
/// context uploads a complete snapshot or only its recorded delta, anchored
/// at the parent remote state, under a fresh state id. The returned remote
/// state carries one reference for the now-synced context and one for the
/// running call; a superseded parent anchor is released, and closed on the
/// worker exactly when that anchor was its last reference.
pub fn open_remote_state(process: &mut SandboxProcess, execution_state: &mut ExecutionState) -> (r:
    (u64, Vec<WorkerAction>))
    requires
        old(process).wf(),
        old(execution_state).wf(),
        old(process).next_state_id < u64::MAX,
        anchored_in(*old(execution_state), *old(process)),
        old(execution_state).sandbox_state matches SyncState::Synced { state_id } ==> old(
            process,
        ).remote_states.refs()[state_id] < u64::MAX - 1,
    ensures
        final(process).wf(),
        final(execution_state).wf(),
        r.0 == resolve_target(old(execution_state).sandbox_state@, old(process).next_state_id),
        final(execution_state).sandbox_state@ == resolve_result(
            old(execution_state).sandbox_state@,
            old(process).next_state_id,
        ),
        final(execution_state).wasm_binary == old(execution_state).wasm_binary,
        final(execution_state).wasm_memory == old(execution_state).wasm_memory,
        final(execution_state).stable_memory == old(execution_state).stable_memory,
        final(execution_state).exported_globals == old(execution_state).exported_globals,
        final(process).execution_states == old(process).execution_states,
        final(process).compilation_cache == old(process).compilation_cache,
        final(process).next_wasm_id == old(process).next_wasm_id,
        final(process).remote_states.refs().dom().contains(r.0),
        final(process).remote_states.refs()[r.0] >= 2,
        old(execution_state).sandbox_state matches SyncState::Synced { state_id } ==> {
            &&& r.0 == state_id
            &&& final(process).next_state_id == old(process).next_state_id
            &&& final(process).remote_states.refs() == old(process).remote_states.refs().insert(
                state_id,
                (old(process).remote_states.refs()[state_id] + 1) as u64,
            )
            &&& r.1@.len() == 0
        },
        old(execution_state).sandbox_state is UnsyncedFull ==> {
            &&& final(process).next_state_id == old(process).next_state_id + 1
            &&& final(process).remote_states.refs() == old(process).remote_states.refs().insert(
                r.0,
                2u64,
            )
            &&& r.1@.len() == 1
            &&& r.1@[0] matches WorkerAction::OpenState { state_id, state } && state_id == r.0
                && full_serialization_for(
                state,
                old(execution_state).exported_globals@,
                old(execution_state).wasm_memory,
                old(execution_state).stable_memory,
            )
        },
        old(execution_state).sandbox_state matches SyncState::UnsyncedDelta { parent, .. } ==> {
            &&& final(process).next_state_id == old(process).next_state_id + 1
            &&& final(process).remote_states.refs() == refs_after_release(
                old(process).remote_states.refs().insert(r.0, 2u64),
                parent,
            )
            &&& r.1@.len() == (if release_closes(old(process).remote_states.refs(), parent) {
                2int
            } else {
                1int
            })
            &&& r.1@[0] matches WorkerAction::OpenState { state_id, state } && state_id == r.0
                && delta_serialization_for(
                state,
                old(execution_state).sandbox_state@,
                old(execution_state).exported_globals@,
                old(execution_state).wasm_memory,
                old(execution_state).stable_memory,
            )
            &&& release_closes(old(process).remote_states.refs(), parent) ==> r.1@[1]
                == (WorkerAction::CloseState { state_id: parent })
        },
{
    let mut actions: Vec<WorkerAction> = Vec::new();
    match &execution_state.sandbox_state {
        SyncState::Synced { state_id } => {
            let id = *state_id;
            proof {
                process.remote_states.lemma_refs_positive();
            }
            process.remote_states.retain(id);
            (id, actions)
        },
        SyncState::UnsyncedFull => {
            let state_id = process.next_state_id;
            process.next_state_id = process.next_state_id + 1;
            let state = StateSerialization::Full {
                globals: copy_globals(&execution_state.exported_globals),
                wasm_memory: serialize_memory(&execution_state.wasm_memory),
                stable_memory: serialize_memory(&execution_state.stable_memory),
            };
            process.remote_states.open_ref(state_id);
            process.remote_states.retain(state_id);
            execution_state.sandbox_state = SyncState::Synced { state_id };
            actions.push(WorkerAction::OpenState { state_id, state });
            (state_id, actions)
        },
        SyncState::UnsyncedDelta {
            parent,
            wasm_pages,
            wasm_allocator,
            stable_pages,
            stable_allocator,
        } => {
            let parent = *parent;
            let state = StateSerialization::Delta {
                parent_state_id: parent,
                globals: copy_globals(&execution_state.exported_globals),
                wasm_memory: serialize_memory_delta(
                    &execution_state.wasm_memory,
                    wasm_pages,
                    *wasm_allocator,
                ),
                stable_memory: serialize_memory_delta(
                    &execution_state.stable_memory,
                    stable_pages,
                    *stable_allocator,
                ),
            };
            let state_id = process.next_state_id;
            process.next_state_id = process.next_state_id + 1;
            process.remote_states.open_ref(state_id);
            process.remote_states.retain(state_id);
            let closed = process.remote_states.release(parent);
            execution_state.sandbox_state = SyncState::Synced { state_id };
            actions.push(WorkerAction::OpenState { state_id, state });
            if closed {
                actions.push(WorkerAction::CloseState { state_id: parent });
            }
            (state_id, actions)
        },
    }
}

/// One pool slot: a tenant and its worker.
pub struct Backend {
    pub canister_id: u64,
    pub process: SandboxProcess,
}

/// Whether the pool holds a worker for this tenant.
pub open spec fn has_backend(s: Seq<Backend>, canister_id: u64) -> bool {
    exists|i: int| 0 <= i < s.len() && s[i].canister_id == canister_id
}

/// The pool slot of this tenant's worker (meaningful when one exists and
/// tenants are distinct).
pub open spec fn backend_index_of(s: Seq<Backend>, canister_id: u64) -> int {
    choose|i: int| 0 <= i < s.len() && s[i].canister_id == canister_id
}

/// Each tenant has at most one worker.
pub open spec fn distinct_backends(s: Seq<Backend>) -> bool {
    forall|i: int, j: int| 0 <= i < j < s.len() ==> s[i].canister_id != s[j].canister_id
}

/// Law: one worker per tenant. In the order the pool lock serializes the
/// lookups, the resolution that finds no worker for its tenant creates one at
/// the end of the pool; every tenant still has at most one worker afterwards;
/// and every already-resolved tenant keeps exactly the worker it had. A
/// resolution that finds a worker returns it and changes nothing — that is
/// stated by `get_sandbox_process` itself — so all callers of one tenant
/// observe the same worker.
pub proof fn lemma_one_backend_per_tenant(s: Seq<Backend>, b: Backend)
    requires
        distinct_backends(s),
        !has_backend(s, b.canister_id),
    ensures
        has_backend(s.push(b), b.canister_id),
        backend_index_of(s.push(b), b.canister_id) == s.len(),
        distinct_backends(s.push(b)),
        forall|cid: u64|
            has_backend(s, cid) ==> has_backend(s.push(b), cid) && backend_index_of(s.push(b), cid)
                == backend_index_of(s, cid),
{
    assert(s.push(b)[s.len() as int] == b);
    assert forall|i: int, j: int| 0 <= i < j < s.push(b).len() implies s.push(b)[i].canister_id
        != s.push(b)[j].canister_id by {
        assert(s.push(b)[i] == s[i]);
        if j < s.len() {
            assert(s.push(b)[j] == s[j]);
        }
    }
    let k = backend_index_of(s.push(b), b.canister_id);
    if k != s.len() {
        assert(s.push(b)[k] == s[k]);
        assert(has_backend(s, b.canister_id));
    }
    assert forall|cid: u64| has_backend(s, cid) implies has_backend(s.push(b), cid)
        && backend_index_of(s.push(b), cid) == backend_index_of(s, cid) by {
        let i = backend_index_of(s, cid);
        assert(0 <= i < s.len() && s[i].canister_id == cid);
        assert(s.push(b)[i] == s[i]);
        assert(has_backend(s.push(b), cid));
        let j = backend_index_of(s.push(b), cid);
        assert(0 <= j < s.push(b).len() && s.push(b)[j].canister_id == cid);
        if j == s.len() {
            assert(false);
        } else {
            assert(s.push(b)[j] == s[j]);
            if i != j {
                assert(false);
            }
        }
    }
}

/// With distinct tenants, a slot holding a tenant is that tenant's one slot.
pub proof fn lemma_backend_index_unique(s: Seq<Backend>, canister_id: u64, i: int)
    requires
        distinct_backends(s),
        0 <= i < s.len(),
        s[i].canister_id == canister_id,
    ensures
        has_backend(s, canister_id),
        backend_index_of(s, canister_id) == i,
{
    assert(has_backend(s, canister_id));
    let j = backend_index_of(s, canister_id);
    assert(0 <= j < s.len() && s[j].canister_id == canister_id);
    if i != j {
        assert(false);
    }
}

/// Manages sandboxed workers: maps each tenant to one worker, created on
/// first use and reused by every later call, generates the artifact-cache
/// keys, and counts the compilations performed, for observability.
pub struct SandboxedExecutionController {
    pub backends: Vec<Backend>,
    pub compile_count: u64,
    pub next_unique_id: u64,
}

impl SandboxedExecutionController {
    /// How many compilations the controller has performed (artifact-cache
    /// misses).
    pub open spec fn spec_compile_count(self) -> u64 {
        self.compile_count
    }

    /// The next artifact-cache key the controller will derive.
    pub open spec fn spec_next_unique_id(self) -> u64 {
        self.next_unique_id
    }

    /// Each tenant has at most one worker, and each worker's bookkeeping is
    /// well formed.
    pub open spec fn wf(self) -> bool {
        &&& distinct_backends(self.backends@)
        &&& forall|i: int|
            0 <= i < self.backends@.len() ==> (#[trigger] self.backends@[i]).process.wf()
    }

    /// A controller with no workers and no compilations counted.
    pub fn new() -> (r: SandboxedExecutionController)
        ensures
            r.wf(),
            r.backends@.len() == 0,
            r.spec_compile_count() == 0,
            r.spec_next_unique_id() == 0,
    {
        SandboxedExecutionController { backends: Vec::new(), compile_count: 0, next_unique_id: 0 }
    }

    /// The diagnostic counter of compilations performed.
    pub fn compile_count_for_testing(&self) -> (n: u64)
        ensures
            n == self.spec_compile_count(),
    {
        self.compile_count
    }

    fn find_backend(&self, canister_id: u64) -> (r: Option<usize>)
        ensures
            match r {
                Some(i) => i < self.backends@.len() && self.backends@[i as int].canister_id
                    == canister_id,
                None => forall|k: int|
                    0 <= k < self.backends@.len() ==> self.backends@[k].canister_id != canister_id,
            },
    {
        let mut i: usize = 0;
        while i < self.backends.len()
            invariant
                i <= self.backends@.len(),
                forall|k: int| 0 <= k < i ==> self.backends@[k].canister_id != canister_id,
            decreases self.backends@.len() - i,
        {
            if self.backends[i].canister_id == canister_id {
                return Some(i);
            }
            i = i + 1;
        }
        None
    }

    /// Resolves the tenant's worker, creating one when the tenant has none
    /// yet. When a worker already exists — however it came to exist — it is
    /// returned unchanged and nothing is created, so repeated resolutions of
    /// one tenant all observe the same worker.
    pub fn get_sandbox_process(&mut self, canister_id: u64) -> (idx: usize)
        requires
            old(self).wf(),
        ensures
            final(self).wf(),
            final(self).spec_compile_count() == old(self).spec_compile_count(),
            final(self).spec_next_unique_id() == old(self).spec_next_unique_id(),
            idx < final(self).backends@.len(),
            final(self).backends@[idx as int].canister_id == canister_id,
            has_backend(old(self).backends@, canister_id) ==> *final(self) == *old(self) && idx
                as int == backend_index_of(old(self).backends@, canister_id),
            !has_backend(old(self).backends@, canister_id) ==> {
                &&& idx as int == old(self).backends@.len()
                &&& final(self).backends@.len() == old(self).backends@.len() + 1
                &&& forall|i: int|
                    0 <= i < old(self).backends@.len() ==> final(self).backends@[i] == old(self).backends@[i]
                &&& fresh_process(final(self).backends@[idx as int].process)
            },
    {
        let found = self.find_backend(canister_id);
        match found {
            Some(i) => {
                proof {
                    let s = self.backends@;
                    let j = backend_index_of(s, canister_id);
                    assert(0 <= j < s.len() && s[j].canister_id == canister_id);
                    if j != i as int {
                        assert(false);
                    }
                }
                i
            },
            None => {
                let idx = self.backends.len();
                let b = Backend { canister_id, process: SandboxProcess::new() };
                proof {
                    lemma_one_backend_per_tenant(self.backends@, b);
                }
                self.backends.push(b);
                idx
            },
        }
    }

    /// The artifact-cache key of a callable unit: the key memoized on the
    /// unit if one was derived before, otherwise a fresh key, memoized on the
    /// unit so repeated calls for the same unit hit the compilation cache.
    pub fn get_wasm_binary_key(&mut self, wasm_binary: &mut WasmBinary) -> (key: u64)
        requires
            old(self).spec_next_unique_id() < u64::MAX,
        ensures
            final(self).backends == old(self).backends,
            final(self).spec_compile_count() == old(self).spec_compile_count(),
            final(wasm_binary).binary == old(wasm_binary).binary,
            final(wasm_binary).cached_key == Some(key),
            old(wasm_binary).cached_key matches Some(k) ==> key == k && *final(wasm_binary)
                == *old(wasm_binary) && *final(self) == *old(self),
            old(wasm_binary).cached_key is None ==> key == old(self).spec_next_unique_id()
                && final(self).spec_next_unique_id() == key + 1,
    {
        match wasm_binary.cached_key {
            Some(k) => k,
            None => {
                let k = self.next_unique_id;
                self.next_unique_id = self.next_unique_id + 1;
                wasm_binary.cached_key = Some(k);
                k
            },
        }
    }
}

/// One call request: the tenant, the opaque inputs handed through to the
/// worker, the caller's accounting object, and the tenant's authoritative
/// execution state, taken over for the duration of the call.
pub struct WasmExecutionInput {
    pub canister_id: u64,
    pub func_ref: u64,
    pub api_type: u64,
    pub canister_current_memory_usage: u64,
    pub system_state: SystemStateAccessor,
    pub execution_state: ExecutionState,
}

/// One call's result: whether the computation trapped, the instruction
/// budget left, the caller's accounting object, and the execution state —
/// advanced by the reported changes when the call committed, untouched
/// otherwise.
pub struct WasmExecutionOutput {
    pub wasm_ok: bool,
    pub num_instructions_left: u64,
    pub system_state: SystemStateAccessor,
    pub execution_state: ExecutionState,
}

/// What the dispatching side holds while it waits for the worker's
/// completion: the ids of the dispatched execution and of the resources it
/// uses, and the tenant's execution state, synced to the remote state the
/// call runs against.
pub struct InFlightCall {
    pub canister_id: u64,
    pub exec_id: u64,
    pub wasm_id: u64,
    pub state_id: u64,
    pub execution_state: ExecutionState,
}

/// The allocator event the next delta upload must carry, given the state of
/// the memory's allocator before the commit.
pub open spec fn allocator_event_for(pm: PageMap) -> AllocatorEvent {
    if pm.allocator_present() {
        AllocatorEvent::Unchanged
    } else {
        AllocatorEvent::Created
    }
}

/// `post` is `pre` advanced by exactly the changes a committed call
/// reported: each memory is the reported delta applied to the pre-call
/// content — bit-exact — with the reported size, the globals are the
/// reported ones, and the synchronization state records the reported delta
/// anchored at the remote state the call used.
pub open spec fn commit_applied(
    pre: ExecutionState,
    post: ExecutionState,
    mods: StateModifications,
    used_state_id: u64,
) -> bool {
    &&& post.wasm_memory.page_map@ == apply_pages(
        pre.wasm_memory.page_map@,
        mods.wasm_memory_page_delta@,
    )
    &&& post.wasm_memory.page_map.allocator_present()
    &&& post.wasm_memory.size == mods.wasm_memory_size
    &&& post.stable_memory.page_map@ == apply_pages(
        pre.stable_memory.page_map@,
        mods.stable_memory_page_delta@,
    )
    &&& post.stable_memory.page_map.allocator_present()
    &&& post.stable_memory.size == mods.stable_memory_size
    &&& post.exported_globals@ == mods.globals@
    &&& post.wasm_binary == pre.wasm_binary
    &&& post.sandbox_state@ == commit_result(
        used_state_id,
        delta_indices(mods.wasm_memory_page_delta@),
        allocator_event_for(pre.wasm_memory.page_map),
        delta_indices(mods.stable_memory_page_delta@),
        allocator_event_for(pre.stable_memory.page_map),
    )
}

/// Commits what a successful call reported to the authoritative execution
/// state and records the delta for the next synchronization, anchored at the
/// remote state the call used.
fn apply_state_modifications(
    execution_state: &mut ExecutionState,
    mods: &StateModifications,
    used_state_id: u64,
)
    requires
        old(execution_state).wf(),
    ensures
        final(execution_state).wf(),
        commit_applied(*old(execution_state), *final(execution_state), *mods, used_state_id),
{
    let (wasm_pages, wasm_allocator) = execution_state.wasm_memory.page_map.update(
        &mods.wasm_memory_page_delta,
    );
    execution_state.wasm_memory.size = mods.wasm_memory_size;
    let (stable_pages, stable_allocator) = execution_state.stable_memory.page_map.update(
        &mods.stable_memory_page_delta,
    );
    execution_state.stable_memory.size = mods.stable_memory_size;
    execution_state.exported_globals = copy_globals(&mods.globals);
    proof {
        assert(wasm_pages@ =~= delta_indices(mods.wasm_memory_page_delta@));
        assert(stable_pages@ =~= delta_indices(mods.stable_memory_page_delta@));
        assert forall|i: int| 0 <= i < wasm_pages@.len() implies execution_state
            .wasm_memory
            .page_map@
            .dom()
            .contains(#[trigger] wasm_pages@[i]) by {
            lemma_apply_pages_dom(
                old(execution_state).wasm_memory.page_map@,
                mods.wasm_memory_page_delta@,
                i,
            );
        }
        assert forall|i: int| 0 <= i < stable_pages@.len() implies execution_state
            .stable_memory
            .page_map@
            .dom()
            .contains(#[trigger] stable_pages@[i]) by {
            lemma_apply_pages_dom(
                old(execution_state).stable_memory.page_map@,
                mods.stable_memory_page_delta@,
                i,
            );
        }
    }
    execution_state.sandbox_state = SyncState::UnsyncedDelta {
        parent: used_state_id,
        wasm_pages,
        wasm_allocator,
        stable_pages,
        stable_allocator,
    };
}

impl SandboxedExecutionController {
    /// The resident artifacts of the tenant's worker: those of its backend,
    /// or none when the tenant has no worker yet.
    pub open spec fn tenant_cache(self, canister_id: u64) -> Seq<CacheEntry> {
        if has_backend(self.backends@, canister_id) {
            self.backends@[backend_index_of(self.backends@, canister_id)]
                .process
                .compilation_cache
                .model()
        } else {
            Seq::empty()
        }
    }

    /// The artifact bound of the tenant's worker.
    pub open spec fn tenant_cap(self, canister_id: u64) -> int {
        if has_backend(self.backends@, canister_id) {
            self.backends@[backend_index_of(self.backends@, canister_id)]
                .process
                .compilation_cache
                .cap() as int
        } else {
            COMPILATION_CACHE_SIZE as int
        }
    }

    /// The remote-state reference counts of the tenant's worker.
    pub open spec fn tenant_refs(self, canister_id: u64) -> Map<u64, u64> {
        if has_backend(self.backends@, canister_id) {
            self.backends@[backend_index_of(self.backends@, canister_id)].process.remote_states.refs()
        } else {
            Map::empty()
        }
    }

    /// The execution registrations of the tenant's worker.
    pub open spec fn tenant_table(self, canister_id: u64) -> Map<
        u64,
        Registration<SystemStateAccessor>,
    > {
        if has_backend(self.backends@, canister_id) {
            self.backends@[backend_index_of(self.backends@, canister_id)]
                .process
                .execution_states
                .table()
        } else {
            Map::empty()
        }
    }

    /// The next execution id the tenant's worker will generate.
    pub open spec fn tenant_next_exec(self, canister_id: u64) -> u64 {
        if has_backend(self.backends@, canister_id) {
            self.backends@[backend_index_of(self.backends@, canister_id)]
                .process
                .execution_states
                .next()
        } else {
            0
        }
    }

    /// The next artifact id the tenant's worker will generate.
    pub open spec fn tenant_next_wasm(self, canister_id: u64) -> u64 {
        if has_backend(self.backends@, canister_id) {
            self.backends@[backend_index_of(self.backends@, canister_id)].process.next_wasm_id
        } else {
            0
        }
    }

    /// The next remote-state id the tenant's worker will generate.
    pub open spec fn tenant_next_state(self, canister_id: u64) -> u64 {
        if has_backend(self.backends@, canister_id) {
            self.backends@[backend_index_of(self.backends@, canister_id)].process.next_state_id
        } else {
            0
        }
    }

    /// A call for this tenant and execution state can begin: the machine's
    /// id and counter ranges are not exhausted, and the state's
    /// synchronization anchor — if it names a remote state — is one the
    /// tenant's worker still holds.
    pub open spec fn can_begin(self, canister_id: u64, s: ExecutionState) -> bool {
        &&& self.next_unique_id < u64::MAX
        &&& self.compile_count < u64::MAX
        &&& self.tenant_next_exec(canister_id) < u64::MAX
        &&& self.tenant_next_wasm(canister_id) < u64::MAX
        &&& self.tenant_next_state(canister_id) < u64::MAX
        &&& match s.sandbox_state {
            SyncState::Synced { state_id } => self.tenant_refs(canister_id).dom().contains(state_id)
                && self.tenant_refs(canister_id)[state_id] < u64::MAX - 1,
            SyncState::UnsyncedFull => true,
            SyncState::UnsyncedDelta { parent, .. } => self.tenant_refs(canister_id).dom().contains(
                parent,
            ),
        }
    }
}

/// A mutable borrow of one worker's bookkeeping in the pool.
fn backend_process_mut(backends: &mut Vec<Backend>, i: usize) -> (p: &mut SandboxProcess)
    requires
        i < old(backends)@.len(),
    ensures
        *p == old(backends)@[i as int].process,
        final(backends)@ == old(backends)@.update(
            i as int,
            Backend {
                canister_id: old(backends)@[i as int].canister_id,
                process: *final(p),
            },
        ),
{
    &mut backends[i].process
}

/// The per-worker bookkeeping after a call was set up for it, relative to
/// the worker's bookkeeping before (`cache0`, `refs0`, `table0` and the id
/// counters): the execution is registered under the worker's next id, the
/// artifact is resident — found or freshly compiled — and the remote state
/// the call uses carries the context's reference and the call's.
pub open spec fn setup_process_result(
    p1: SandboxProcess,
    cache0: Seq<CacheEntry>,
    cap0: int,
    refs0: Map<u64, u64>,
    table0: Map<u64, Registration<SystemStateAccessor>>,
    next_exec0: u64,
    next_wasm0: u64,
    next_state0: u64,
    sync0: SyncModel,
    acc: SystemStateAccessor,
    wasm_key: u64,
    exec_id: u64,
    wasm_id: u64,
    state_id: u64,
) -> bool {
    &&& exec_id == next_exec0
    &&& !table0.dom().contains(exec_id)
    &&& resolve_needs_upload(sync0) ==> !refs0.dom().contains(state_id)
    &&& p1.execution_states.table() == table0.insert(
        exec_id,
        Registration { accounting: acc, output: None },
    )
    &&& p1.execution_states.next() == next_exec0 + 1
    &&& p1.compilation_cache.cap() as int == cap0
    &&& cache_has_key(cache0, wasm_key) ==> wasm_id == cache0[cache_index_of(
        cache0,
        wasm_key,
    )].wasm_id && p1.compilation_cache.model() == cache_after_hit(cache0, wasm_key)
        && p1.next_wasm_id == next_wasm0
    &&& !cache_has_key(cache0, wasm_key) ==> wasm_id == next_wasm0 && p1.compilation_cache.model()
        == cache_after_insert(cache0, cap0, CacheEntry { key: wasm_key, wasm_id })
        && p1.next_wasm_id == next_wasm0 + 1
    &&& state_id == resolve_target(sync0, next_state0)
    &&& match sync0 {
        SyncModel::Synced { .. } => p1.remote_states.refs() == refs0.insert(
            state_id,
            (refs0[state_id] + 1) as u64,
        ) && p1.next_state_id == next_state0,
        SyncModel::UnsyncedFull => p1.remote_states.refs() == refs0.insert(state_id, 2u64)
            && p1.next_state_id == next_state0 + 1,
        SyncModel::UnsyncedDelta { parent, .. } => p1.remote_states.refs() == refs_after_release(
            refs0.insert(state_id, 2u64),
            parent,
        ) && p1.next_state_id == next_state0 + 1,
    }
}

/// The requests a call setup issues, in order: the artifact upload and the
/// eviction's release when the cache missed, the state upload — full or
/// delta — and the superseded anchor's close when the context was unsynced,
/// and always, last, the dispatch of the execution itself.
pub open spec fn setup_actions_ok(
    cache0: Seq<CacheEntry>,
    cap0: int,
    refs0: Map<u64, u64>,
    input: WasmExecutionInput,
    wasm_key: u64,
    exec_id: u64,
    wasm_id: u64,
    state_id: u64,
    actions: Seq<WorkerAction>,
) -> bool {
    let a = if cache_has_key(cache0, wasm_key) {
        0int
    } else if cache_evicted(cache0, cap0) is Some {
        2int
    } else {
        1int
    };
    let s = match input.execution_state.sandbox_state@ {
        SyncModel::Synced { .. } => 0int,
        SyncModel::UnsyncedFull => 1int,
        SyncModel::UnsyncedDelta { parent, .. } => if release_closes(refs0, parent) {
            2int
        } else {
            1int
        },
    };
    &&& actions.len() == a + s + 1
    &&& !cache_has_key(cache0, wasm_key) ==> (actions[0] matches WorkerAction::OpenWasm {
        wasm_id: w,
        wasm_src,
    } && w == wasm_id && wasm_src@ == input.execution_state.wasm_binary.binary@)
    &&& !cache_has_key(cache0, wasm_key) ==> (cache_evicted(cache0, cap0) matches Some(v)
        ==> actions[1] == (WorkerAction::CloseWasm { wasm_id: v.wasm_id }))
    &&& resolve_needs_upload(input.execution_state.sandbox_state@) ==> (actions[a]
        matches WorkerAction::OpenState { state_id: sid, state } && sid == state_id && (
    if resolve_uploads_full(input.execution_state.sandbox_state@) {
        full_serialization_for(
            state,
            input.execution_state.exported_globals@,
            input.execution_state.wasm_memory,
            input.execution_state.stable_memory,
        )
    } else {
        delta_serialization_for(
            state,
            input.execution_state.sandbox_state@,
            input.execution_state.exported_globals@,
            input.execution_state.wasm_memory,
            input.execution_state.stable_memory,
        )
    }))
    &&& input.execution_state.sandbox_state@ matches SyncModel::UnsyncedDelta { parent, .. } ==> (
    release_closes(refs0, parent) ==> actions[a + 1] == (WorkerAction::CloseState {
        state_id: parent,
    }))
    &&& actions[a + s] matches WorkerAction::OpenExecution {
        exec_id: e,
        wasm_id: w,
        state_id: sid,
        exec_input,
    } && e == exec_id && w == wasm_id && sid == state_id && exec_input.func_ref == input.func_ref
        && exec_input.api_type == input.api_type && exec_input.globals@
        == input.execution_state.exported_globals@ && exec_input.canister_current_memory_usage
        == input.canister_current_memory_usage
}

impl SandboxedExecutionController {
    /// The artifact-cache key a call with this binary will use: the memoized
    /// one, or the next fresh key.
    pub open spec fn wasm_key_for(self, binary: WasmBinary) -> u64 {
        match binary.cached_key {
            Some(k) => k,
            None => self.next_unique_id,
        }
    }

    /// The runtime check for `can_begin`, for hosts that drive the call
    /// lifecycle themselves.
    pub fn can_begin_call(&self, canister_id: u64, execution_state: &ExecutionState) -> (b: bool)
        requires
            self.wf(),
        ensures
            b == self.can_begin(canister_id, *execution_state),
    {
        if self.next_unique_id == u64::MAX || self.compile_count == u64::MAX {
            return false;
        }
        let found = self.find_backend(canister_id);
        match found {
            Some(bi) => {
                proof {
                    lemma_backend_index_unique(self.backends@, canister_id, bi as int);
                }
                let p = &self.backends[bi].process;
                if p.execution_states.next_id() == u64::MAX || p.next_wasm_id == u64::MAX
                    || p.next_state_id == u64::MAX {
                    return false;
                }
                match &execution_state.sandbox_state {
                    SyncState::Synced { state_id } => {
                        p.remote_states.contains(*state_id) && p.remote_states.ref_count(*state_id)
                            < u64::MAX - 1
                    },
                    SyncState::UnsyncedFull => true,
                    SyncState::UnsyncedDelta { parent, .. } => p.remote_states.contains(*parent),
                }
            },
            None => {
                proof {
                    if has_backend(self.backends@, canister_id) {
                        let i = backend_index_of(self.backends@, canister_id);
                        assert(0 <= i < self.backends@.len() && self.backends@[i].canister_id
                            == canister_id);
                    }
                }
                match &execution_state.sandbox_state {
                    SyncState::UnsyncedFull => true,
                    _ => false,
                }
            },
        }
    }

    /// Sets up one call: resolves the tenant's worker (creating one on first
    /// use), derives and memoizes the artifact key, resolves the compiled
    /// artifact through the worker's cache, syncs the worker's copy of the
    /// context's memories, registers the execution under a fresh id, and
    /// produces the dispatch request. Returns the in-flight token the
    /// dispatching side holds while the worker runs, and the requests to
    /// issue, in order; the completion arrives asynchronously through
    /// `deliver_completion`.
    pub fn begin_call(&mut self, input: WasmExecutionInput) -> (r: (
        InFlightCall,
        Vec<WorkerAction>,
    ))
        requires
            old(self).wf(),
            input.execution_state.wf(),
            old(self).can_begin(input.canister_id, input.execution_state),
        ensures
            final(self).wf(),
            has_backend(final(self).backends@, input.canister_id),
            final(self).backends@.len() == old(self).backends@.len() + (if has_backend(
                old(self).backends@,
                input.canister_id,
            ) {
                0int
            } else {
                1int
            }),
            backend_index_of(final(self).backends@, input.canister_id) == (if has_backend(
                old(self).backends@,
                input.canister_id,
            ) {
                backend_index_of(old(self).backends@, input.canister_id)
            } else {
                old(self).backends@.len() as int
            }),
            forall|i: int|
                0 <= i < final(self).backends@.len() && i != backend_index_of(
                    final(self).backends@,
                    input.canister_id,
                ) ==> final(self).backends@[i] == old(self).backends@[i],
            final(self).backends@[backend_index_of(
                final(self).backends@,
                input.canister_id,
            )].canister_id == input.canister_id,
            r.0.execution_state.wasm_binary.cached_key == Some(
                old(self).wasm_key_for(input.execution_state.wasm_binary),
            ),
            final(self).next_unique_id == old(self).next_unique_id + (
            if input.execution_state.wasm_binary.cached_key is Some {
                0int
            } else {
                1int
            }),
            setup_process_result(
                final(self).backends@[backend_index_of(
                    final(self).backends@,
                    input.canister_id,
                )].process,
                old(self).tenant_cache(input.canister_id),
                old(self).tenant_cap(input.canister_id),
                old(self).tenant_refs(input.canister_id),
                old(self).tenant_table(input.canister_id),
                old(self).tenant_next_exec(input.canister_id),
                old(self).tenant_next_wasm(input.canister_id),
                old(self).tenant_next_state(input.canister_id),
                input.execution_state.sandbox_state@,
                input.system_state,
                old(self).wasm_key_for(input.execution_state.wasm_binary),
                r.0.exec_id,
                r.0.wasm_id,
                r.0.state_id,
            ),
            setup_actions_ok(
                old(self).tenant_cache(input.canister_id),
                old(self).tenant_cap(input.canister_id),
                old(self).tenant_refs(input.canister_id),
                input,
                old(self).wasm_key_for(input.execution_state.wasm_binary),
                r.0.exec_id,
                r.0.wasm_id,
                r.0.state_id,
                r.1@,
            ),
            final(self).compile_count == old(self).compile_count + (if cache_has_key(
                old(self).tenant_cache(input.canister_id),
                old(self).wasm_key_for(input.execution_state.wasm_binary),
            ) {
                0int
            } else {
                1int
            }),
            r.0.canister_id == input.canister_id,
            r.0.execution_state.wf(),
            r.0.execution_state.sandbox_state@ == resolve_result(
                input.execution_state.sandbox_state@,
                old(self).tenant_next_state(input.canister_id),
            ),
            r.0.execution_state.wasm_memory == input.execution_state.wasm_memory,
            r.0.execution_state.stable_memory == input.execution_state.stable_memory,
            r.0.execution_state.exported_globals == input.execution_state.exported_globals,
            r.0.execution_state.wasm_binary.binary == input.execution_state.wasm_binary.binary,
    {
        let canister_id = input.canister_id;
        let WasmExecutionInput {
            canister_id: _,
            func_ref,
            api_type,
            canister_current_memory_usage,
            system_state,
            execution_state: mut execution_state,
        } = input;
        let idx = self.get_sandbox_process(canister_id);
        let wasm_key = self.get_wasm_binary_key(&mut execution_state.wasm_binary);
        let p = backend_process_mut(&mut self.backends, idx);
        proof {
            if !has_backend(old(self).backends@, canister_id) {
                assert(fresh_process(*p));
            }
        }
        let (wasm_id, compiled, mut actions) = p.resolve_artifact(
            wasm_key,
            &execution_state.wasm_binary,
        );
        let ghost artifact_actions = actions@;
        let (state_id, mut state_actions) = open_remote_state(p, &mut execution_state);
        let ghost state_actions_snap = state_actions@;
        let exec_id = p.execution_states.register_execution(system_state);
        if compiled {
            self.compile_count = self.compile_count + 1;
        }
        actions.append(&mut state_actions);
        let exec_input = ExecInput {
            func_ref,
            api_type,
            globals: copy_globals(&execution_state.exported_globals),
            canister_current_memory_usage,
        };
        actions.push(WorkerAction::OpenExecution { exec_id, wasm_id, state_id, exec_input });
        proof {
            let fin = self.backends@;
            assert(fin[idx as int].canister_id == canister_id);
            lemma_backend_index_unique(fin, canister_id, idx as int);
            assert(actions@ == artifact_actions + state_actions_snap + seq![
                actions@[actions@.len() - 1],
            ]);
            assert forall|i: int| 0 <= i < artifact_actions.len() implies actions@[i]
                == artifact_actions[i] by {}
            assert forall|i: int| 0 <= i < state_actions_snap.len() implies actions@[
                artifact_actions.len() + i
            ] == state_actions_snap[i] by {}
        }
        let call = InFlightCall { canister_id, exec_id, wasm_id, state_id, execution_state };
        (call, actions)
    }

    /// The worker's response path delivers the completion record of one
    /// execution. Returns whether it was delivered: false when the tenant has
    /// no worker, the id is unknown, or a completion was already delivered
    /// for it — in which case nothing changes.
    pub fn deliver_completion(&mut self, canister_id: u64, exec_id: u64, output: ExecOutput) -> (delivered:
        bool)
        requires
            old(self).wf(),
        ensures
            final(self).wf(),
            delivered == can_deliver(old(self).tenant_table(canister_id), exec_id),
            !delivered ==> *final(self) == *old(self),
            delivered ==> {
                let bi = backend_index_of(old(self).backends@, canister_id);
                &&& final(self).backends@.len() == old(self).backends@.len()
                &&& forall|i: int|
                    0 <= i < final(self).backends@.len() && i != bi ==> final(self).backends@[i]
                        == old(self).backends@[i]
                &&& final(self).backends@[bi].canister_id == canister_id
                &&& final(self).backends@[bi].process.execution_states.table()
                    == table_after_deliver(old(self).tenant_table(canister_id), exec_id, output)
                &&& final(self).backends@[bi].process.execution_states.next() == old(self).backends@[bi].process.execution_states.next()
                &&& final(self).backends@[bi].process.compilation_cache == old(self).backends@[bi].process.compilation_cache
                &&& final(self).backends@[bi].process.remote_states == old(self).backends@[bi].process.remote_states
                &&& final(self).backends@[bi].process.next_wasm_id == old(self).backends@[bi].process.next_wasm_id
                &&& final(self).backends@[bi].process.next_state_id == old(self).backends@[bi].process.next_state_id
                &&& final(self).compile_count == old(self).compile_count
                &&& final(self).next_unique_id == old(self).next_unique_id
            },
    {
        let found = self.find_backend(canister_id);
        match found {
            Some(bi) => {
                proof {
                    lemma_backend_index_unique(self.backends@, canister_id, bi as int);
                }
                if !self.backends[bi].process.execution_states.is_pending(exec_id) {
                    return false;
                }
                let p = backend_process_mut(&mut self.backends, bi);
                let delivered = p.execution_states.complete_execution(exec_id, output);
                delivered
            },
            None => {
                proof {
                    if has_backend(self.backends@, canister_id) {
                        let i = backend_index_of(self.backends@, canister_id);
                        assert(0 <= i < self.backends@.len() && self.backends@[i].canister_id
                            == canister_id);
                    }
                }
                false
            },
        }
    }

    /// Whether `finish_call` may run for this in-flight token: the tenant's
    /// worker exists, the execution's completion has been delivered and not
    /// yet reclaimed, the remote state the call uses is still resident with
    /// the call's and the context's references, and the token's context is
    /// synced at that state.
    pub open spec fn can_finish(self, call: InFlightCall) -> bool {
        &&& has_backend(self.backends@, call.canister_id)
        &&& can_reclaim(self.tenant_table(call.canister_id), call.exec_id)
        &&& self.tenant_refs(call.canister_id).dom().contains(call.state_id)
        &&& self.tenant_refs(call.canister_id)[call.state_id] >= 2
        &&& call.execution_state.sandbox_state matches SyncState::Synced { state_id } && state_id
            == call.state_id
    }

    /// The runtime check for `can_finish`, for hosts that drive the call
    /// lifecycle themselves.
    pub fn can_finish_call(&self, call: &InFlightCall) -> (b: bool)
        requires
            self.wf(),
        ensures
            b == self.can_finish(*call),
    {
        let found = self.find_backend(call.canister_id);
        match found {
            Some(bi) => {
                proof {
                    lemma_backend_index_unique(self.backends@, call.canister_id, bi as int);
                }
                let p = &self.backends[bi].process;
                if !p.execution_states.is_completed(call.exec_id) {
                    return false;
                }
                if p.remote_states.ref_count(call.state_id) < 2 {
                    return false;
                }
                match &call.execution_state.sandbox_state {
                    SyncState::Synced { state_id } => *state_id == call.state_id,
                    _ => false,
                }
            },
            None => {
                proof {
                    if has_backend(self.backends@, call.canister_id) {
                        let i = backend_index_of(self.backends@, call.canister_id);
                        assert(0 <= i < self.backends@.len() && self.backends@[i].canister_id
                            == call.canister_id);
                    }
                }
                false
            },
        }
    }

    /// Finishes one call after its completion was delivered: releases the
    /// worker-side execution resources, reclaims the caller's accounting
    /// object, drops the call's reference on the remote state it used — the
    /// context's anchor keeps the state resident — and, unless the
    /// computation trapped or reported no changes, commits the reported
    /// deltas to the authoritative state bit-exactly, records the delta for
    /// the next synchronization anchored at the state just used, and sets the
    /// shared subnet resource counter to the reported value.
    pub fn finish_call(&mut self, call: InFlightCall, subnet_available_memory: &mut i64) -> (r: (
        WasmExecutionOutput,
        Vec<WorkerAction>,
    ))
        requires
            old(self).wf(),
            call.execution_state.wf(),
            old(self).can_finish(call),
        ensures
            final(self).wf(),
            ({
                let bi = backend_index_of(old(self).backends@, call.canister_id);
                let reg = old(self).tenant_table(call.canister_id)[call.exec_id];
                &&& final(self).backends@.len() == old(self).backends@.len()
                &&& forall|i: int|
                    0 <= i < final(self).backends@.len() && i != bi ==> final(self).backends@[i]
                        == old(self).backends@[i]
                &&& final(self).backends@[bi].canister_id == call.canister_id
                &&& final(self).backends@[bi].process.execution_states.table()
                    == table_after_reclaim(old(self).tenant_table(call.canister_id), call.exec_id)
                &&& final(self).backends@[bi].process.execution_states.next() == old(self).backends@[bi].process.execution_states.next()
                &&& final(self).backends@[bi].process.remote_states.refs() == old(self).tenant_refs(call.canister_id).insert(
                    call.state_id,
                    (old(self).tenant_refs(call.canister_id)[call.state_id] - 1) as u64,
                )
                &&& final(self).backends@[bi].process.compilation_cache == old(self).backends@[bi].process.compilation_cache
                &&& final(self).backends@[bi].process.next_wasm_id == old(self).backends@[bi].process.next_wasm_id
                &&& final(self).backends@[bi].process.next_state_id == old(self).backends@[bi].process.next_state_id
                &&& final(self).compile_count == old(self).compile_count
                &&& final(self).next_unique_id == old(self).next_unique_id
                &&& r.1@ =~= seq![WorkerAction::CloseExecution { exec_id: call.exec_id }]
                &&& r.0.system_state == reg.accounting
                &&& reg.output matches Some(out) && r.0.wasm_ok == out.wasm_ok
                    && r.0.num_instructions_left == out.num_instructions_left && (out.wasm_ok ==> (
                out.state_modifications matches Some(mods) ==> commit_applied(
                    call.execution_state,
                    r.0.execution_state,
                    mods,
                    call.state_id,
                ) && *final(subnet_available_memory) == mods.subnet_available_memory)) && (!(
                out.wasm_ok && out.state_modifications is Some) ==> r.0.execution_state
                    == call.execution_state && *final(subnet_available_memory) == *old(
                    subnet_available_memory,
                ))
                &&& r.0.execution_state.wf()
            }),
    {
        let InFlightCall { canister_id, exec_id, wasm_id: _, state_id, execution_state: mut execution_state } =
            call;
        let found = self.find_backend(canister_id);
        let bi = match found {
            Some(bi) => bi,
            None => {
                proof {
                    let i = backend_index_of(self.backends@, canister_id);
                    assert(0 <= i < self.backends@.len() && self.backends@[i].canister_id
                        == canister_id);
                    assert(false);
                }
                0
            },
        };
        proof {
            lemma_backend_index_unique(self.backends@, canister_id, bi as int);
        }
        let mut actions: Vec<WorkerAction> = Vec::new();
        actions.push(WorkerAction::CloseExecution { exec_id });
        let p = backend_process_mut(&mut self.backends, bi);
        let reg_opt = p.execution_states.unregister_execution(exec_id);
        let reg = match reg_opt {
            Some(reg) => reg,
            None => {
                proof {
                    assert(false);
                }
                Registration { accounting: SystemStateAccessor { system_state: 0 }, output: None }
            },
        };
        let closed = p.remote_states.release(state_id);
        proof {
            assert(!closed);
        }
        let out = match reg.output {
            Some(out) => out,
            None => {
                proof {
                    assert(false);
                }
                ExecOutput { wasm_ok: false, num_instructions_left: 0, state_modifications: None }
            },
        };
        if out.wasm_ok {
            match &out.state_modifications {
                Some(mods) => {
                    apply_state_modifications(&mut execution_state, mods, state_id);
                    *subnet_available_memory = mods.subnet_available_memory;
                },
                None => {},
            }
        }
        let output = WasmExecutionOutput {
            wasm_ok: out.wasm_ok,
            num_instructions_left: out.num_instructions_left,
            system_state: reg.accounting,
            execution_state,
        };
        (output, actions)
    }

    /// The full lifecycle of one call, with the worker's completion record
    /// supplied by the host: sets the call up as `begin_call` does, delivers
    /// the completion as the worker's response path does, and finishes as
    /// `finish_call` does. Hosts whose worker answers asynchronously drive
    /// the three steps themselves; this single step serves hosts that can
    /// answer the dispatch synchronously.
    ///
    /// The accounting object comes back untouched. Unless the computation
    /// trapped or reported no changes, each memory afterwards equals the
    /// reported delta applied to its pre-call content — bit-exact — the
    /// synchronization state records that delta anchored at the remote state
    /// the call used, and the shared subnet resource counter is set to the
    /// reported value; a trapping call changes neither the memories nor the
    /// counter and leaves the context synced at the remote state it used. A
    /// compilation is counted exactly when the artifact was not resident.
    pub fn process(
        &mut self,
        input: WasmExecutionInput,
        exec_output: ExecOutput,
        subnet_available_memory: &mut i64,
    ) -> (r: (WasmExecutionOutput, Vec<WorkerAction>))
        requires
            old(self).wf(),
            input.execution_state.wf(),
            old(self).can_begin(input.canister_id, input.execution_state),
        ensures
            final(self).wf(),
            r.0.system_state == input.system_state,
            r.0.wasm_ok == exec_output.wasm_ok,
            r.0.num_instructions_left == exec_output.num_instructions_left,
            r.0.execution_state.wf(),
            final(self).compile_count == old(self).compile_count + (if cache_has_key(
                old(self).tenant_cache(input.canister_id),
                old(self).wasm_key_for(input.execution_state.wasm_binary),
            ) {
                0int
            } else {
                1int
            }),
            final(self).next_unique_id == old(self).next_unique_id + (
            if input.execution_state.wasm_binary.cached_key is Some {
                0int
            } else {
                1int
            }),
            exec_output.wasm_ok ==> (exec_output.state_modifications matches Some(mods)
                ==> commit_applied(
                binary_with_key(
                    input.execution_state,
                    old(self).wasm_key_for(input.execution_state.wasm_binary),
                ),
                r.0.execution_state,
                mods,
                resolve_target(
                    input.execution_state.sandbox_state@,
                    old(self).tenant_next_state(input.canister_id),
                ),
            ) && *final(subnet_available_memory) == mods.subnet_available_memory),
            !(exec_output.wasm_ok && exec_output.state_modifications is Some) ==> {
                &&& r.0.execution_state.wasm_memory == input.execution_state.wasm_memory
                &&& r.0.execution_state.stable_memory == input.execution_state.stable_memory
                &&& r.0.execution_state.exported_globals == input.execution_state.exported_globals
                &&& r.0.execution_state.wasm_binary.binary
                    == input.execution_state.wasm_binary.binary
                &&& r.0.execution_state.sandbox_state@ == resolve_result(
                    input.execution_state.sandbox_state@,
                    old(self).tenant_next_state(input.canister_id),
                )
                &&& *final(subnet_available_memory) == *old(subnet_available_memory)
            },
            r.0.execution_state.wasm_binary.cached_key == Some(
                old(self).wasm_key_for(input.execution_state.wasm_binary),
            ),
            has_backend(final(self).backends@, input.canister_id),
            final(self).backends@.len() == old(self).backends@.len() + (if has_backend(
                old(self).backends@,
                input.canister_id,
            ) {
                0int
            } else {
                1int
            }),
            backend_index_of(final(self).backends@, input.canister_id) == (if has_backend(
                old(self).backends@,
                input.canister_id,
            ) {
                backend_index_of(old(self).backends@, input.canister_id)
            } else {
                old(self).backends@.len() as int
            }),
            forall|i: int|
                0 <= i < final(self).backends@.len() && i != backend_index_of(
                    final(self).backends@,
                    input.canister_id,
                ) ==> final(self).backends@[i] == old(self).backends@[i],
            ({
                let p1 = final(self).backends@[backend_index_of(
                    final(self).backends@,
                    input.canister_id,
                )].process;
                let key = old(self).wasm_key_for(input.execution_state.wasm_binary);
                let cache0 = old(self).tenant_cache(input.canister_id);
                let refs0 = old(self).tenant_refs(input.canister_id);
                let sid = resolve_target(
                    input.execution_state.sandbox_state@,
                    old(self).tenant_next_state(input.canister_id),
                );
                &&& p1.execution_states.table() == old(self).tenant_table(input.canister_id)
                &&& p1.execution_states.next() == old(self).tenant_next_exec(input.canister_id) + 1
                &&& cache_has_key(cache0, key) ==> p1.compilation_cache.model() == cache_after_hit(
                    cache0,
                    key,
                ) && p1.next_wasm_id == old(self).tenant_next_wasm(input.canister_id)
                &&& !cache_has_key(cache0, key) ==> p1.compilation_cache.model()
                    == cache_after_insert(
                    cache0,
                    old(self).tenant_cap(input.canister_id),
                    CacheEntry {
                        key,
                        wasm_id: old(self).tenant_next_wasm(input.canister_id),
                    },
                ) && p1.next_wasm_id == old(self).tenant_next_wasm(input.canister_id) + 1
                &&& match input.execution_state.sandbox_state@ {
                    SyncModel::Synced { .. } => p1.remote_states.refs() == refs0
                        && p1.next_state_id == old(self).tenant_next_state(input.canister_id),
                    SyncModel::UnsyncedFull => p1.remote_states.refs() == refs0.insert(sid, 1u64)
                        && p1.next_state_id == old(self).tenant_next_state(input.canister_id) + 1,
                    SyncModel::UnsyncedDelta { parent, .. } => p1.remote_states.refs()
                        == refs_after_release(refs0, parent).insert(sid, 1u64) && p1.next_state_id
                        == old(self).tenant_next_state(input.canister_id) + 1,
                }
            }),
            ({
                let key = old(self).wasm_key_for(input.execution_state.wasm_binary);
                let cache0 = old(self).tenant_cache(input.canister_id);
                let exec_id = old(self).tenant_next_exec(input.canister_id);
                let wasm_id = if cache_has_key(cache0, key) {
                    cache0[cache_index_of(cache0, key)].wasm_id
                } else {
                    old(self).tenant_next_wasm(input.canister_id)
                };
                let sid = resolve_target(
                    input.execution_state.sandbox_state@,
                    old(self).tenant_next_state(input.canister_id),
                );
                &&& r.1@.len() >= 2
                &&& setup_actions_ok(
                    cache0,
                    old(self).tenant_cap(input.canister_id),
                    old(self).tenant_refs(input.canister_id),
                    input,
                    key,
                    exec_id,
                    wasm_id,
                    sid,
                    r.1@.take(r.1@.len() - 1),
                )
                &&& r.1@.last() == (WorkerAction::CloseExecution { exec_id })
            }),
    {
        let canister_id = input.canister_id;
        let ghost accounting = input.system_state;
        let (call, mut actions) = self.begin_call(input);
        let ghost mid = *self;
        let ghost begin_actions = actions@;
        let exec_id = call.exec_id;
        let ghost state_id = call.state_id;
        proof {
            lemma_backend_index_unique(
                mid.backends@,
                canister_id,
                backend_index_of(mid.backends@, canister_id),
            );
        }
        let delivered = self.deliver_completion(canister_id, exec_id, exec_output);
        proof {
            assert(delivered);
            assert(backend_index_of(self.backends@, canister_id) == backend_index_of(
                mid.backends@,
                canister_id,
            )) by {
                let bi = backend_index_of(mid.backends@, canister_id);
                assert(self.backends@[bi].canister_id == canister_id);
                lemma_backend_index_unique(self.backends@, canister_id, bi);
            }
            let refs0 = old(self).tenant_refs(canister_id);
            match input.execution_state.sandbox_state@ {
                SyncModel::Synced { .. } => {
                    if has_backend(old(self).backends@, canister_id) {
                        old(self).backends@[backend_index_of(
                            old(self).backends@,
                            canister_id,
                        )].process.remote_states.lemma_refs_positive();
                    }
                    assert(self.tenant_refs(canister_id)[state_id] >= 2);
                },
                SyncModel::UnsyncedFull => {
                    assert(self.tenant_refs(canister_id)[state_id] >= 2);
                },
                SyncModel::UnsyncedDelta { parent, .. } => {
                    assert(refs0.insert(state_id, 2u64)[state_id] == 2);
                    assert(self.tenant_refs(canister_id)[state_id] >= 2);
                },
            }
            assert(self.can_finish(call));
        }
        let (output, mut fin) = self.finish_call(call, subnet_available_memory);
        actions.append(&mut fin);
        proof {
            assert(actions@.take(actions@.len() - 1) =~= begin_actions);
            let bi = backend_index_of(mid.backends@, canister_id);
            let table0 = old(self).tenant_table(canister_id);
            let reg = Registration { accounting, output: None };
            assert(table_after_reclaim(
                table_after_deliver(table0.insert(exec_id, reg), exec_id, exec_output),
                exec_id,
            ) =~= table0);
            let refs0 = old(self).tenant_refs(canister_id);
            match input.execution_state.sandbox_state@ {
                SyncModel::Synced { .. } => {
                    assert(refs0.insert(state_id, (refs0[state_id] + 1) as u64).insert(
                        state_id,
                        refs0[state_id],
                    ) =~= refs0);
                },
                SyncModel::UnsyncedFull => {
                    assert(refs0.insert(state_id, 2u64).insert(state_id, 1u64) =~= refs0.insert(
                        state_id,
                        1u64,
                    ));
                },
                SyncModel::UnsyncedDelta { parent, .. } => {
                    assert(refs_after_release(refs0.insert(state_id, 2u64), parent).insert(
                        state_id,
                        1u64,
                    ) =~= refs_after_release(refs0, parent).insert(state_id, 1u64));
                },
            }
        }
        (output, actions)
    }
}

impl SandboxedExecutionController {
    /// Releases the remote-state anchor of a context that its owner is
    /// destroying. The close request for the anchored remote state is issued
    /// exactly when the context held its last reference, so the pairing of
    /// one close per created remote state survives the destruction of the
    /// owning context. A context with no anchor — or whose worker or anchor
    /// is already gone — releases nothing.
    pub fn retire_execution_state(
        &mut self,
        canister_id: u64,
        execution_state: ExecutionState,
    ) -> (actions: Vec<WorkerAction>)
        requires
            old(self).wf(),
        ensures
            final(self).wf(),
            ({
                let anchor = anchor_of(execution_state.sandbox_state@);
                let refs0 = old(self).tenant_refs(canister_id);
                let bi = backend_index_of(old(self).backends@, canister_id);
                &&& anchor is None ==> *final(self) == *old(self) && actions@.len() == 0
                &&& anchor matches Some(id) ==> {
                    if has_backend(old(self).backends@, canister_id) && refs0.dom().contains(id) {
                        &&& final(self).backends@.len() == old(self).backends@.len()
                        &&& forall|i: int|
                            0 <= i < final(self).backends@.len() && i != bi ==> final(self).backends@[i] == old(self).backends@[i]
                        &&& final(self).backends@[bi].canister_id == canister_id
                        &&& final(self).backends@[bi].process.remote_states.refs()
                            == refs_after_release(refs0, id)
                        &&& final(self).backends@[bi].process.execution_states == old(self).backends@[bi].process.execution_states
                        &&& final(self).backends@[bi].process.compilation_cache == old(self).backends@[bi].process.compilation_cache
                        &&& final(self).backends@[bi].process.next_wasm_id == old(self).backends@[bi].process.next_wasm_id
                        &&& final(self).backends@[bi].process.next_state_id == old(self).backends@[bi].process.next_state_id
                        &&& final(self).compile_count == old(self).compile_count
                        &&& final(self).next_unique_id == old(self).next_unique_id
                        &&& (release_closes(refs0, id) ==> actions@ =~= seq![
                            WorkerAction::CloseState { state_id: id },
                        ])
                        &&& (!release_closes(refs0, id) ==> actions@.len() == 0)
                    } else {
                        *final(self) == *old(self) && actions@.len() == 0
                    }
                }
            }),
    {
        let mut actions: Vec<WorkerAction> = Vec::new();
        let anchor = match &execution_state.sandbox_state {
            SyncState::Synced { state_id } => Some(*state_id),
            SyncState::UnsyncedFull => None,
            SyncState::UnsyncedDelta { parent, .. } => Some(*parent),
        };
        let id = match anchor {
            Some(id) => id,
            None => {
                return actions;
            },
        };
        let found = self.find_backend(canister_id);
        let bi = match found {
            Some(bi) => bi,
            None => {
                proof {
                    if has_backend(self.backends@, canister_id) {
                        let i = backend_index_of(self.backends@, canister_id);
                        assert(0 <= i < self.backends@.len() && self.backends@[i].canister_id
                            == canister_id);
                    }
                }
                return actions;
            },
        };
        proof {
            lemma_backend_index_unique(self.backends@, canister_id, bi as int);
        }
        if !self.backends[bi].process.remote_states.contains(id) {
            return actions;
        }
        let p = backend_process_mut(&mut self.backends, bi);
        let closed = p.remote_states.release(id);
        if closed {
            actions.push(WorkerAction::CloseState { state_id: id });
        }
        actions
    }
}

/// The execution state as a call's setup leaves its callable unit: the same
/// state, with the derived artifact key memoized on the binary.
pub open spec fn binary_with_key(s: ExecutionState, key: u64) -> ExecutionState {
    ExecutionState {
        wasm_binary: WasmBinary { binary: s.wasm_binary.binary, cached_key: Some(key) },
        wasm_memory: s.wasm_memory,
        stable_memory: s.stable_memory,
        exported_globals: s.exported_globals,
        sandbox_state: s.sandbox_state,
    }
}

} // verus!
