use sandbox_controller::controller::SandboxedExecutionController;
use sandbox_controller::controller::SystemStateAccessor;
use sandbox_controller::controller::WasmExecutionInput;
use sandbox_controller::execution_state::ExecutionState;
use sandbox_controller::page_map::AllocatorEvent;
use sandbox_controller::page_map::Page;
use sandbox_controller::protocol::ExecOutput;
use sandbox_controller::protocol::StateModifications;
use sandbox_controller::protocol::StateSerialization;
use sandbox_controller::protocol::WorkerAction;
use sandbox_controller::sync::SyncState;

fn input_for(
    canister_id: u64,
    system_state: u64,
    execution_state: ExecutionState,
) -> WasmExecutionInput {
    WasmExecutionInput {
        canister_id,
        func_ref: 1,
        api_type: 2,
        canister_current_memory_usage: 3,
        system_state: SystemStateAccessor { system_state },
        execution_state,
    }
}

fn modifications(
    wasm_delta: Vec<Page>,
    wasm_size: u64,
    globals: Vec<u64>,
    subnet: i64,
) -> StateModifications {
    StateModifications {
        globals,
        wasm_memory_page_delta: wasm_delta,
        wasm_memory_size: wasm_size,
        stable_memory_page_delta: vec![],
        stable_memory_size: 0,
        subnet_available_memory: subnet,
    }
}

fn committed(mods: StateModifications) -> ExecOutput {
    ExecOutput { wasm_ok: true, num_instructions_left: 9, state_modifications: Some(mods) }
}

fn trapped() -> ExecOutput {
    ExecOutput { wasm_ok: false, num_instructions_left: 0, state_modifications: None }
}

fn count_close_wasm(actions: &[WorkerAction]) -> usize {
    actions.iter().filter(|a| matches!(a, WorkerAction::CloseWasm { .. })).count()
}

fn count_open_wasm(actions: &[WorkerAction]) -> usize {
    actions.iter().filter(|a| matches!(a, WorkerAction::OpenWasm { .. })).count()
}

fn count_open_state(actions: &[WorkerAction]) -> usize {
    actions.iter().filter(|a| matches!(a, WorkerAction::OpenState { .. })).count()
}

#[test]
fn one_worker_per_tenant() {
    let mut c = SandboxedExecutionController::new();
    let first = c.get_sandbox_process(5);
    let again = c.get_sandbox_process(5);
    assert_eq!(first, again);
    let other = c.get_sandbox_process(6);
    assert_ne!(first, other);
    assert_eq!(c.get_sandbox_process(5), first);
    assert_eq!(c.get_sandbox_process(6), other);
}

#[test]
fn end_to_end_two_calls_sync_by_delta() {
    let mut c = SandboxedExecutionController::new();
    let mut subnet: i64 = 0;
    let es = ExecutionState::new(vec![0xAA, 0xBB]);
    assert!(c.can_begin_call(7, &es));

    // call 1: no page writes, does not trap
    let (out1, acts1) = c.process(
        input_for(7, 40, es),
        committed(modifications(vec![], 0, vec![], 123)),
        &mut subnet,
    );
    assert!(out1.wasm_ok);
    assert_eq!(out1.num_instructions_left, 9);
    assert_eq!(out1.system_state.system_state, 40);
    assert_eq!(subnet, 123);
    assert_eq!(c.compile_count_for_testing(), 1);

    assert_eq!(acts1.len(), 4);
    match &acts1[0] {
        WorkerAction::OpenWasm { wasm_id, wasm_src } => {
            assert_eq!(*wasm_id, 0);
            assert_eq!(wasm_src, &vec![0xAA, 0xBB]);
        },
        other => panic!("expected the artifact upload, got {:?}", other),
    }
    match &acts1[1] {
        WorkerAction::OpenState { state_id, state } => {
            assert_eq!(*state_id, 0);
            match state {
                StateSerialization::Full { globals, wasm_memory, stable_memory } => {
                    assert!(globals.is_empty());
                    assert!(wasm_memory.pages.is_empty());
                    assert_eq!(wasm_memory.num_wasm_pages, 0);
                    assert!(stable_memory.pages.is_empty());
                    assert_eq!(stable_memory.num_wasm_pages, 0);
                },
                other => panic!("first upload must be a full snapshot, got {:?}", other),
            }
        },
        other => panic!("expected the state upload, got {:?}", other),
    }
    match &acts1[2] {
        WorkerAction::OpenExecution { exec_id, wasm_id, state_id, exec_input } => {
            assert_eq!(*exec_id, 0);
            assert_eq!(*wasm_id, 0);
            assert_eq!(*state_id, 0);
            assert_eq!(exec_input.func_ref, 1);
            assert_eq!(exec_input.api_type, 2);
            assert_eq!(exec_input.canister_current_memory_usage, 3);
            assert!(exec_input.globals.is_empty());
        },
        other => panic!("expected the dispatch, got {:?}", other),
    }
    assert_eq!(acts1[3], WorkerAction::CloseExecution { exec_id: 0 });

    match &out1.execution_state.sandbox_state {
        SyncState::UnsyncedDelta {
            parent,
            wasm_pages,
            wasm_allocator,
            stable_pages,
            stable_allocator,
        } => {
            assert_eq!(*parent, 0);
            assert!(wasm_pages.is_empty());
            assert_eq!(*wasm_allocator, AllocatorEvent::Created);
            assert!(stable_pages.is_empty());
            assert_eq!(*stable_allocator, AllocatorEvent::Created);
        },
        other => panic!("call 1 must leave a pending delta, got {:?}", other),
    }

    // call 2: writes pages 3 and 7
    let (out2, acts2) = c.process(
        input_for(7, 41, out1.execution_state),
        committed(modifications(
            vec![
                Page { index: 3, bytes: vec![3, 3] },
                Page { index: 7, bytes: vec![7] },
            ],
            8,
            vec![5],
            456,
        )),
        &mut subnet,
    );

    // call 2's sync step uploads call 1's pending delta — no pages, the
    // allocator event — anchored at the first remote state, never a full
    // snapshot, and the superseded anchor is closed exactly once.
    assert_eq!(acts2.len(), 4);
    match &acts2[0] {
        WorkerAction::OpenState { state_id, state } => {
            assert_eq!(*state_id, 1);
            match state {
                StateSerialization::Delta {
                    parent_state_id,
                    globals,
                    wasm_memory,
                    stable_memory,
                } => {
                    assert_eq!(*parent_state_id, 0);
                    assert!(globals.is_empty());
                    assert!(wasm_memory.page_delta.is_empty());
                    assert_eq!(wasm_memory.page_allocator, AllocatorEvent::Created);
                    assert_eq!(wasm_memory.num_wasm_pages, 0);
                    assert!(stable_memory.page_delta.is_empty());
                    assert_eq!(stable_memory.page_allocator, AllocatorEvent::Created);
                },
                other => panic!("call 2 must upload a delta, got {:?}", other),
            }
        },
        other => panic!("expected the delta upload, got {:?}", other),
    }
    assert_eq!(acts2[1], WorkerAction::CloseState { state_id: 0 });
    match &acts2[2] {
        WorkerAction::OpenExecution { exec_id, wasm_id, state_id, .. } => {
            assert_eq!(*exec_id, 1);
            assert_eq!(*wasm_id, 0);
            assert_eq!(*state_id, 1);
        },
        other => panic!("expected the dispatch, got {:?}", other),
    }
    assert_eq!(acts2[3], WorkerAction::CloseExecution { exec_id: 1 });

    // the artifact was resident: no second compilation
    assert_eq!(count_open_wasm(&acts2), 0);
    assert_eq!(c.compile_count_for_testing(), 1);

    // the authoritative memory equals the reported delta applied to the
    // pre-call content, bit-exact
    assert_eq!(out2.execution_state.wasm_memory.page_map.get_page(3), Some(&vec![3u8, 3]));
    assert_eq!(out2.execution_state.wasm_memory.page_map.get_page(7), Some(&vec![7u8]));
    assert!(out2.execution_state.wasm_memory.page_map.get_page(4).is_none());
    assert_eq!(out2.execution_state.wasm_memory.size, 8);
    assert_eq!(out2.execution_state.exported_globals, vec![5]);
    assert_eq!(out2.system_state.system_state, 41);
    assert_eq!(subnet, 456);

    match &out2.execution_state.sandbox_state {
        SyncState::UnsyncedDelta { parent, wasm_pages, wasm_allocator, .. } => {
            assert_eq!(*parent, 1);
            assert_eq!(wasm_pages, &vec![3, 7]);
            assert_eq!(*wasm_allocator, AllocatorEvent::Unchanged);
        },
        other => panic!("call 2 must leave a pending delta, got {:?}", other),
    }
}

#[test]
fn trap_keeps_mirror_and_next_upload_is_delta() {
    let mut c = SandboxedExecutionController::new();
    let mut subnet: i64 = -7;
    let es = ExecutionState::new(vec![1]);

    // full upload, then the call traps
    let (out_a, acts_a) = c.process(input_for(9, 1, es), trapped(), &mut subnet);
    assert!(!out_a.wasm_ok);
    assert_eq!(count_open_state(&acts_a), 1);
    assert!(matches!(
        &acts_a[1],
        WorkerAction::OpenState { state_id: 0, state: StateSerialization::Full { .. } }
    ));
    // the trap leaves the mirror synced and reusable, and changes no state
    assert!(matches!(&out_a.execution_state.sandbox_state, SyncState::Synced { state_id: 0 }));
    assert!(out_a.execution_state.wasm_memory.page_map.get_page(0).is_none());
    assert_eq!(subnet, -7);

    // the next call is free on the wire: no state upload at all
    let (out_b, acts_b) = c.process(
        input_for(9, 2, out_a.execution_state),
        committed(modifications(vec![], 0, vec![], 11)),
        &mut subnet,
    );
    assert_eq!(count_open_state(&acts_b), 0);
    assert_eq!(acts_b.len(), 2);
    assert!(matches!(&acts_b[0], WorkerAction::OpenExecution { state_id: 0, .. }));

    // the first upload after the commit is a delta anchored at the full
    // upload's state — never a second full snapshot
    let (_out_c, acts_c) = c.process(
        input_for(9, 3, out_b.execution_state),
        trapped(),
        &mut subnet,
    );
    match &acts_c[0] {
        WorkerAction::OpenState { state_id, state } => {
            assert_eq!(*state_id, 1);
            assert!(matches!(
                state,
                StateSerialization::Delta { parent_state_id: 0, .. }
            ));
        },
        other => panic!("expected a delta upload, got {:?}", other),
    }
}

#[test]
fn artifact_cache_bounded_with_one_release_per_eviction() {
    let mut c = SandboxedExecutionController::new();
    let mut subnet: i64 = 0;
    let empty = || committed(modifications(vec![], 0, vec![], 0));

    let (out_a, acts_a) = c.process(input_for(4, 1, ExecutionState::new(vec![0xA])), empty(), &mut subnet);
    let (_out_b, acts_b) = c.process(input_for(4, 2, ExecutionState::new(vec![0xB])), empty(), &mut subnet);
    assert_eq!(count_open_wasm(&acts_a), 1);
    assert_eq!(count_close_wasm(&acts_a), 0);
    assert_eq!(count_open_wasm(&acts_b), 1);
    assert_eq!(count_close_wasm(&acts_b), 0);

    // a third artifact exceeds the capacity of two: the least recently used
    // one is evicted, with exactly one release
    let (out_c, acts_c) = c.process(input_for(4, 3, ExecutionState::new(vec![0xC])), empty(), &mut subnet);
    assert_eq!(count_open_wasm(&acts_c), 1);
    assert_eq!(count_close_wasm(&acts_c), 1);
    assert!(acts_c.contains(&WorkerAction::CloseWasm { wasm_id: 0 }));

    // the first unit again: its artifact was evicted, so it is recompiled,
    // and the next least recently used artifact leaves
    let (_out_a2, acts_a2) = c.process(input_for(4, 4, out_a.execution_state), empty(), &mut subnet);
    assert_eq!(count_open_wasm(&acts_a2), 1);
    assert_eq!(count_close_wasm(&acts_a2), 1);
    assert!(acts_a2.contains(&WorkerAction::CloseWasm { wasm_id: 1 }));
    assert_eq!(c.compile_count_for_testing(), 4);

    // a resident artifact is a hit: nothing is uploaded or released
    let (_out_c2, acts_c2) = c.process(input_for(4, 5, out_c.execution_state), empty(), &mut subnet);
    assert_eq!(count_open_wasm(&acts_c2), 0);
    assert_eq!(count_close_wasm(&acts_c2), 0);
    assert_eq!(c.compile_count_for_testing(), 4);
}

#[test]
fn completion_observed_once_through_the_call_lifecycle() {
    let mut c = SandboxedExecutionController::new();
    let mut subnet: i64 = 0;
    let es = ExecutionState::new(vec![2]);
    assert!(c.can_begin_call(3, &es));
    let (call, _acts) = c.begin_call(input_for(3, 50, es));
    assert_eq!(call.exec_id, 0);

    // not finishable before the completion arrives
    assert!(!c.can_finish_call(&call));
    // unknown execution id and unknown tenant are refused
    assert!(!c.deliver_completion(3, 99, trapped()));
    assert!(!c.deliver_completion(8, 0, trapped()));

    assert!(c.deliver_completion(3, call.exec_id, committed(modifications(vec![], 0, vec![], 1))));
    // a second delivery for the same execution is refused
    assert!(!c.deliver_completion(3, call.exec_id, trapped()));

    assert!(c.can_finish_call(&call));
    let exec_id = call.exec_id;
    let (out, acts) = c.finish_call(call, &mut subnet);
    assert_eq!(acts, vec![WorkerAction::CloseExecution { exec_id }]);
    assert_eq!(out.system_state.system_state, 50);
    assert_eq!(subnet, 1);

    // the id is gone: no late delivery can observe it again
    assert!(!c.deliver_completion(3, exec_id, trapped()));
}

#[test]
fn calls_for_different_tenants_use_separate_workers() {
    let mut c = SandboxedExecutionController::new();
    let mut subnet: i64 = 0;
    let empty = || committed(modifications(vec![], 0, vec![], 0));

    let (out1, acts1) = c.process(input_for(10, 1, ExecutionState::new(vec![1])), empty(), &mut subnet);
    let (out2, acts2) = c.process(input_for(20, 2, ExecutionState::new(vec![2])), empty(), &mut subnet);

    // each worker generates its own ids from zero: nothing is shared
    for acts in [&acts1, &acts2] {
        assert!(matches!(&acts[2], WorkerAction::OpenExecution { exec_id: 0, wasm_id: 0, state_id: 0, .. }));
    }
    assert!(matches!(&out1.execution_state.sandbox_state, SyncState::UnsyncedDelta { parent: 0, .. }));
    assert!(matches!(&out2.execution_state.sandbox_state, SyncState::UnsyncedDelta { parent: 0, .. }));
    // but compilations are counted controller-wide
    assert_eq!(c.compile_count_for_testing(), 2);
}

#[test]
fn begin_guard_rejects_an_anchor_the_worker_does_not_hold() {
    let c = SandboxedExecutionController::new();
    // a context claiming to be synced at a remote state of a worker that
    // does not exist cannot begin a call
    let stale = ExecutionState {
        sandbox_state: SyncState::Synced { state_id: 0 },
        ..ExecutionState::new(vec![9])
    };
    assert!(!c.can_begin_call(1, &stale));
    let fresh = ExecutionState::new(vec![9]);
    assert!(c.can_begin_call(1, &fresh));
}

#[test]
fn retire_releases_the_anchor_exactly_once() {
    let mut c = SandboxedExecutionController::new();
    let mut subnet: i64 = 0;
    let es = ExecutionState::new(vec![6]);

    // a context that never owned a remote state releases nothing
    let fresh = ExecutionState::new(vec![6]);
    assert!(c.retire_execution_state(2, fresh).is_empty());

    let (out, _acts) = c.process(
        input_for(2, 1, es),
        committed(modifications(vec![], 0, vec![], 0)),
        &mut subnet,
    );
    // the context's pending delta anchors remote state 0, its one owner
    let retired = c.retire_execution_state(2, out.execution_state);
    assert_eq!(retired, vec![WorkerAction::CloseState { state_id: 0 }]);

    // the state is gone: retiring a stale context with the same anchor
    // cannot issue a second close
    let stale = ExecutionState {
        sandbox_state: SyncState::Synced { state_id: 0 },
        ..ExecutionState::new(vec![6])
    };
    assert!(c.retire_execution_state(2, stale).is_empty());
}
