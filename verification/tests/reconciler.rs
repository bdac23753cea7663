use streamctl::config::{SourceConfig, SourceKind};
use streamctl::controller::ControllerState;
use streamctl::manager::{PipelineManager, SourceOp};
use streamctl::watchdog::GraphState;

fn test_config(id: u8) -> SourceConfig {
    SourceConfig { id, kind: SourceKind::Test }
}

fn uri_config(id: u8, uri: &str) -> SourceConfig {
    SourceConfig {
        id,
        kind: SourceKind::Uri { uri: uri.to_string(), username: None, password: None },
    }
}

fn live_ids(m: &PipelineManager) -> Vec<u8> {
    let mut ids: Vec<u8> = m.entries.iter().map(|e| e.id).collect();
    ids.sort();
    ids
}

#[test]
fn reconcile_adds_new_sources() {
    let mut m = PipelineManager::new();
    let desired = vec![test_config(1), test_config(2)];
    let ops = m.update_config(&desired, 0);
    assert_eq!(ops, vec![SourceOp::Attach { id: 1 }, SourceOp::Attach { id: 2 }]);
    assert_eq!(live_ids(&m), vec![1, 2]);
}

#[test]
fn reconcile_unchanged_is_idempotent() {
    // reconciling an unchanged desired list twice performs zero operations
    let mut m = PipelineManager::new();
    let desired = vec![test_config(1), uri_config(2, "test://x")];
    let first = m.update_config(&desired, 0);
    assert_eq!(first.len(), 2);
    let again = m.update_config(&desired, 10_000);
    assert!(again.is_empty());
    assert_eq!(live_ids(&m), vec![1, 2]);
}

#[test]
fn reconcile_converges_to_the_latest_list() {
    // D0 -> D1 -> D2: the live id set equals the ids of the latest list
    let mut m = PipelineManager::new();
    let d0 = vec![test_config(1)];
    let d1 = vec![test_config(1), uri_config(2, "test://x"), test_config(3)];
    let d2 = vec![uri_config(2, "test://x"), test_config(4)];
    m.update_config(&d0, 0);
    assert_eq!(live_ids(&m), vec![1]);
    m.update_config(&d1, 10);
    assert_eq!(live_ids(&m), vec![1, 2, 3]);
    m.update_config(&d2, 20);
    assert_eq!(live_ids(&m), vec![2, 4]);
}

#[test]
fn reconcile_update_detaches_then_reattaches() {
    let mut m = PipelineManager::new();
    m.update_config(&vec![uri_config(1, "test://x")], 0);
    let ops = m.update_config(&vec![uri_config(1, "test://y")], 10);
    assert_eq!(ops, vec![SourceOp::Detach { id: 1 }, SourceOp::Attach { id: 1 }]);
    assert_eq!(live_ids(&m), vec![1]);
}

#[test]
fn plan_sets_are_disjoint() {
    // at most one attach/detach sequence per id follows from one pass
    let mut m = PipelineManager::new();
    m.update_config(&vec![test_config(1), uri_config(2, "test://x"), test_config(3)], 0);
    let desired = vec![uri_config(2, "test://changed"), test_config(3), test_config(4)];
    let plan = m.compute_plan(&desired);
    assert_eq!(plan.to_add, vec![4]);
    assert_eq!(plan.to_update, vec![2]);
    assert_eq!(plan.to_remove, vec![1]);
    for id in &plan.to_add {
        assert!(!plan.to_update.contains(id));
        assert!(!plan.to_remove.contains(id));
    }
    for id in &plan.to_update {
        assert!(!plan.to_remove.contains(id));
    }
}

#[test]
fn plan_of_converged_state_is_empty() {
    let mut m = PipelineManager::new();
    let desired = vec![test_config(1), test_config(2)];
    m.update_config(&desired, 0);
    let plan = m.compute_plan(&desired);
    assert!(plan.to_add.is_empty());
    assert!(plan.to_update.is_empty());
    assert!(plan.to_remove.is_empty());
}

#[test]
fn add_or_update_skips_same_fingerprint() {
    let mut m = PipelineManager::new();
    let cfg = uri_config(5, "rtsp://cam");
    let ops = m.add_or_update_source(&cfg, 0);
    assert_eq!(ops, vec![SourceOp::Attach { id: 5 }]);
    let ops = m.add_or_update_source(&cfg, 100);
    assert!(ops.is_empty());
}

#[test]
fn remove_source_is_a_no_op_for_unknown_ids() {
    let mut m = PipelineManager::new();
    m.update_config(&vec![test_config(1)], 0);
    let ops = m.remove_source(9);
    assert!(ops.is_empty());
    assert_eq!(live_ids(&m), vec![1]);
    let ops = m.remove_source(1);
    assert_eq!(ops, vec![SourceOp::Detach { id: 1 }]);
    assert_eq!(live_ids(&m), Vec::<u8>::new());
}

#[test]
fn failed_attach_is_retried_on_the_next_pass() {
    // a per-source attach failure is rolled back with remove_source, so the
    // next reconciliation pass retries it; other sources are unaffected
    let mut m = PipelineManager::new();
    let desired = vec![test_config(1), test_config(2)];
    let ops = m.update_config(&desired, 0);
    assert_eq!(ops.len(), 2);
    // attaching source 2 failed in the graph: roll it back
    let ops = m.remove_source(2);
    assert_eq!(ops, vec![SourceOp::Detach { id: 2 }]);
    assert_eq!(live_ids(&m), vec![1]);
    // the next tick retries exactly the failed source
    let ops = m.update_config(&desired, 10_000);
    assert_eq!(ops, vec![SourceOp::Attach { id: 2 }]);
    assert_eq!(live_ids(&m), vec![1, 2]);
}

#[test]
fn scenario_add_update_remove() {
    // desired [{1, Test}] -> one controller reaches playing
    let mut m = PipelineManager::new();
    let ops = m.update_config(&vec![test_config(1)], 0);
    assert_eq!(ops, vec![SourceOp::Attach { id: 1 }]);
    m.on_state_observed(1, GraphState::Playing);
    assert_eq!(m.entries[0].controller.state, ControllerState::Playing);

    // add {2, Uri("test://x")}: id 1 untouched (same fingerprint), id 2 added
    let entry1 = m.entries[0];
    let ops = m.update_config(&vec![test_config(1), uri_config(2, "test://x")], 10);
    assert_eq!(ops, vec![SourceOp::Attach { id: 2 }]);
    assert_eq!(m.entries[0], entry1);
    m.on_state_observed(2, GraphState::Playing);
    let entry2 = m.entries.iter().copied().find(|e| e.id == 2).unwrap();
    assert_eq!(entry2.controller.state, ControllerState::Playing);

    // remove id 1: it is detached and its entry dropped; id 2 unaffected
    let ops = m.update_config(&vec![uri_config(2, "test://x")], 20);
    assert_eq!(ops, vec![SourceOp::Detach { id: 1 }]);
    assert_eq!(live_ids(&m), vec![2]);
    let entry2_after = m.entries.iter().copied().find(|e| e.id == 2).unwrap();
    assert_eq!(entry2_after, entry2);
}
