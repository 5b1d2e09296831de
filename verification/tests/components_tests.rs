use sandbox_controller::elastic_cache::Cache;
use sandbox_controller::elastic_cache::CacheEntry;
use sandbox_controller::protocol::ExecOutput;
use sandbox_controller::registry::ActiveExecutionStateRegistry;
use sandbox_controller::remote_state::RemoteStateTable;

fn output(ok: bool) -> ExecOutput {
    ExecOutput { wasm_ok: ok, num_instructions_left: 5, state_modifications: None }
}

#[test]
fn execution_ids_are_fresh_and_monotonic() {
    let mut r: ActiveExecutionStateRegistry<u32> = ActiveExecutionStateRegistry::new();
    assert_eq!(r.register_execution(10), 0);
    assert_eq!(r.register_execution(11), 1);
    assert_eq!(r.register_execution(12), 2);
    // an id is never reused, even after its execution is reclaimed
    assert!(r.complete_execution(1, output(true)));
    assert!(r.unregister_execution(1).is_some());
    assert_eq!(r.register_execution(13), 3);
}

#[test]
fn completion_is_delivered_exactly_once() {
    let mut r: ActiveExecutionStateRegistry<u32> = ActiveExecutionStateRegistry::new();
    let id = r.register_execution(7);
    assert!(r.is_pending(id));
    assert!(r.complete_execution(id, output(true)));
    assert!(!r.complete_execution(id, output(false)));
    assert!(!r.is_pending(id));
    // an unknown id is refused too
    assert!(!r.complete_execution(99, output(true)));
}

#[test]
fn unregister_only_after_completion_and_only_once() {
    let mut r: ActiveExecutionStateRegistry<u32> = ActiveExecutionStateRegistry::new();
    let id = r.register_execution(42);
    assert!(!r.is_completed(id));
    assert!(r.unregister_execution(id).is_none());
    assert!(r.complete_execution(id, output(true)));
    assert!(r.is_completed(id));
    let reg = r.unregister_execution(id).expect("completed execution is reclaimable");
    assert_eq!(reg.accounting, 42);
    let out = reg.output.expect("completion record is returned");
    assert!(out.wasm_ok);
    assert_eq!(out.num_instructions_left, 5);
    // reclaimed exactly once; the id is gone for the completion path too
    assert!(r.unregister_execution(id).is_none());
    assert!(!r.complete_execution(id, output(true)));
}

#[test]
fn cache_hits_do_not_evict() {
    let mut c = Cache::new(2);
    assert!(c.get(10).is_none());
    assert!(c.insert(10, 100).is_none());
    assert!(c.insert(11, 101).is_none());
    assert_eq!(c.get(10), Some(100));
    assert_eq!(c.get(11), Some(101));
    assert_eq!(c.get(10), Some(100));
}

#[test]
fn cache_evicts_least_recently_used_at_capacity() {
    let mut c = Cache::new(2);
    assert!(c.insert(10, 100).is_none());
    assert!(c.insert(11, 101).is_none());
    // refresh key 10, so key 11 is now least recently used
    assert_eq!(c.get(10), Some(100));
    let evicted = c.insert(12, 102).expect("full cache must evict");
    assert_eq!(evicted, CacheEntry { key: 11, wasm_id: 101 });
    assert!(c.get(11).is_none());
    assert_eq!(c.get(10), Some(100));
    assert_eq!(c.get(12), Some(102));
}

#[test]
fn remote_state_closed_exactly_when_last_reference_drops() {
    let mut t = RemoteStateTable::new();
    assert!(!t.contains(9));
    assert_eq!(t.ref_count(9), 0);
    t.open_ref(9);
    assert!(t.contains(9));
    assert_eq!(t.ref_count(9), 1);
    t.retain(9);
    assert_eq!(t.ref_count(9), 2);
    assert!(!t.release(9));
    assert!(t.contains(9));
    assert!(t.release(9));
    // the close was issued; the state is gone, so no second close can be
    assert!(!t.contains(9));
    assert_eq!(t.ref_count(9), 0);
}

#[test]
fn remote_states_are_tracked_independently() {
    let mut t = RemoteStateTable::new();
    t.open_ref(1);
    t.open_ref(2);
    t.retain(2);
    assert!(t.release(1));
    assert!(t.contains(2));
    assert!(!t.release(2));
    assert!(t.release(2));
}
