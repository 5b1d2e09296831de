//! The authoritative execution state of one tenant: its callable unit, its
//! memories, its exported globals, and its synchronization state.

use vstd::prelude::*;
use crate::page_map::Memory;
use crate::sync::SyncState;

verus! {

/// The source of a tenant's callable unit, with the artifact-cache key
/// derived for it. The key is computed once, on the first call that uses the
/// binary, and memoized here so repeated calls for the same unit skip
/// re-derivation and hit the compilation cache.
pub struct WasmBinary {
    pub binary: Vec<u8>,
    pub cached_key: Option<u64>,
}

/// One tenant's authoritative execution state.
pub struct ExecutionState {
    pub wasm_binary: WasmBinary,
    pub wasm_memory: Memory,
    pub stable_memory: Memory,
    pub exported_globals: Vec<u64>,
    pub sandbox_state: SyncState,
}

impl ExecutionState {
    /// The memories' stores are well formed, and every page the recorded
    /// delta lists is present in its memory — the delta was recorded by the
    /// commit that wrote those pages.
    pub open spec fn wf(self) -> bool {
        &&& self.wasm_memory.page_map.wf()
        &&& self.stable_memory.page_map.wf()
        &&& match self.sandbox_state {
            SyncState::UnsyncedDelta { wasm_pages, stable_pages, .. } => {
                &&& forall|i: int|
                    0 <= i < wasm_pages@.len() ==> self.wasm_memory.page_map@.dom().contains(
                        #[trigger] wasm_pages@[i],
                    )
                &&& forall|i: int|
                    0 <= i < stable_pages@.len() ==> self.stable_memory.page_map@.dom().contains(
                        #[trigger] stable_pages@[i],
                    )
            },
            _ => true,
        }
    }

    /// A fresh execution state: empty memories of zero pages, no exported
    /// globals, and no remote state, so the first call uploads a full
    /// snapshot.
    pub fn new(binary: Vec<u8>) -> (r: ExecutionState)
        ensures
            r.wf(),
            r.wasm_binary.binary@ == binary@,
            r.wasm_binary.cached_key is None,
            r.wasm_memory.page_map@ == Map::<u64, Seq<u8>>::empty(),
            !r.wasm_memory.page_map.allocator_present(),
            r.wasm_memory.size == 0,
            r.stable_memory.page_map@ == Map::<u64, Seq<u8>>::empty(),
            !r.stable_memory.page_map.allocator_present(),
            r.stable_memory.size == 0,
            r.exported_globals@ == Seq::<u64>::empty(),
            r.sandbox_state is UnsyncedFull,
    {
        ExecutionState {
            wasm_binary: WasmBinary { binary, cached_key: None },
            wasm_memory: Memory::new(),
            stable_memory: Memory::new(),
            exported_globals: Vec::new(),
            sandbox_state: SyncState::UnsyncedFull,
        }
    }
}

/// A copy of a list of exported globals.
pub fn copy_globals(src: &Vec<u64>) -> (r: Vec<u64>)
    ensures
        r@ == src@,
{
    let mut r: Vec<u64> = Vec::new();
    let mut i: usize = 0;
    while i < src.len()
        invariant
            i <= src@.len(),
            r@ == src@.take(i as int),
        decreases src@.len() - i,
    {
        r.push(src[i]);
        i = i + 1;
        proof {
            assert(src@.take(i as int).drop_last() =~= src@.take(i as int - 1));
        }
    }
    proof {
        assert(src@.take(src@.len() as int) =~= src@);
    }
    r
}

} // verus!
