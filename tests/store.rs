use flow::domain::{FlowData, PersistResult};
use flow::errors::FlowError;
use flow::store::InMemoryFlowRepository;

fn record(flow_id: u128, cursor: i64, key: &str, payload: &str, metadata: &str, command_id: Option<u128>) -> FlowData {
    FlowData {
        id: 1000 + cursor as u128,
        flow_id,
        cursor,
        key: key.to_string(),
        payload: payload.to_string(),
        metadata: metadata.to_string(),
        command_id,
        created_at: 0,
    }
}

fn append_steps(repo: &mut InMemoryFlowRepository, id: u128, n: i64) {
    for i in 1..=n {
        let d = record(id, i, "Step", &format!("{{\"i\":{}}}", i), "{}", None);
        match repo.persist_data(&d, i - 1).unwrap() {
            PersistResult::Persisted { new_version } => assert_eq!(new_version, i),
            PersistResult::Conflict => panic!("unexpected conflict"),
        }
    }
}

#[test]
fn scenario_append_and_read() {
    let mut repo = InMemoryFlowRepository::new();
    let id = repo.create_flow(Some("root".into()), Some("queued".into()), "{}".into()).unwrap();
    append_steps(&mut repo, id, 5);
    let items = repo.read_data(id, 0).unwrap();
    assert_eq!(items.len(), 5);
    for (k, d) in items.iter().enumerate() {
        assert_eq!(d.cursor, k as i64 + 1);
        assert_eq!(d.payload, format!("{{\"i\":{}}}", k + 1));
    }
    assert_eq!(repo.count_steps(id).unwrap(), 5);
    let meta = repo.get_flow_meta(id).unwrap();
    assert_eq!(meta.current_cursor, 5);
    assert_eq!(meta.current_version, 5);
}

#[test]
fn scenario_branch_at_cursor_three() {
    let mut repo = InMemoryFlowRepository::new();
    let id = repo.create_flow(Some("root".into()), Some("queued".into()), "{}".into()).unwrap();
    append_steps(&mut repo, id, 5);
    let c = repo.create_branch(id, None, None, 3, "{}".into()).unwrap();
    assert_eq!(repo.count_steps(c).unwrap(), 3);
    let items = repo.read_data(c, 0).unwrap();
    assert_eq!(items.len(), 4);
    for k in 0..3 {
        assert_eq!(items[k].cursor, k as i64 + 1);
        assert_eq!(items[k].payload, format!("{{\"i\":{}}}", k + 1));
        assert_eq!(items[k].flow_id, c);
    }
    assert_eq!(items[3].cursor, 4);
    assert_eq!(items[3].key, "BranchCreated");
    let uuid = uuid::Uuid::from_u128(id).to_string();
    assert_eq!(items[3].payload, format!("{{\"parent\":\"{}\"}}", uuid));
    let v: serde_json::Value = serde_json::from_str(&items[3].payload).unwrap();
    assert_eq!(v["parent"].as_str().unwrap(), uuid);
    let meta = repo.get_flow_meta(c).unwrap();
    assert_eq!(meta.parent_flow_id, Some(id));
    assert_eq!(meta.parent_cursor, Some(3));
    assert_eq!(meta.current_cursor, 3);
    assert_eq!(meta.current_version, 0);
    assert_eq!(meta.name, Some("root".to_string()));
}

#[test]
fn scenario_idempotent_replay() {
    let mut repo = InMemoryFlowRepository::new();
    let id = repo.create_flow(Some("root".into()), Some("queued".into()), "{}".into()).unwrap();
    append_steps(&mut repo, id, 5);
    let x = 0xabcdef;
    let d = record(id, 6, "Step", "{\"i\":6}", "{}", Some(x));
    assert_eq!(repo.persist_data(&d, 5).unwrap(), PersistResult::Persisted { new_version: 6 });
    assert_eq!(repo.persist_data(&d, 6).unwrap(), PersistResult::Persisted { new_version: 6 });
    assert_eq!(repo.count_steps(id).unwrap(), 6);
    assert_eq!(repo.read_data(id, 0).unwrap().len(), 6);
    assert_eq!(repo.get_flow_meta(id).unwrap().current_version, 6);
}

#[test]
fn scenario_optimistic_conflict() {
    let mut repo = InMemoryFlowRepository::new();
    let id = repo.create_flow(Some("root".into()), None, "{}".into()).unwrap();
    append_steps(&mut repo, id, 6);
    let a = record(id, 7, "Step", "{}", "{}", None);
    let b = record(id, 8, "Step", "{}", "{}", None);
    assert_eq!(repo.persist_data(&a, 6).unwrap(), PersistResult::Persisted { new_version: 7 });
    assert_eq!(repo.persist_data(&b, 6).unwrap(), PersistResult::Conflict);
    assert_eq!(repo.persist_data(&b, 7).unwrap(), PersistResult::Persisted { new_version: 8 });
}

#[test]
fn scenario_delete_parent_preserves_child() {
    let mut repo = InMemoryFlowRepository::new();
    let id = repo.create_flow(Some("root".into()), Some("queued".into()), "{}".into()).unwrap();
    append_steps(&mut repo, id, 5);
    let c = repo.create_branch(id, None, None, 3, "{}".into()).unwrap();
    repo.delete_branch(id).unwrap();
    assert!(!repo.branch_exists(id).unwrap());
    assert!(repo.branch_exists(c).unwrap());
    let meta = repo.get_flow_meta(c).unwrap();
    assert_eq!(meta.parent_flow_id, None);
    assert_eq!(meta.parent_cursor, None);
    assert_eq!(repo.count_steps(c).unwrap(), 3);
    assert_eq!(repo.read_data(c, 0).unwrap().len(), 4);
}

#[test]
fn scenario_prune_cascades_to_late_children() {
    let mut repo = InMemoryFlowRepository::new();
    let root = repo.create_flow(Some("root".into()), None, "{}".into()).unwrap();
    append_steps(&mut repo, root, 6);
    let child = repo.create_branch(root, None, None, 4, "{}".into()).unwrap();
    let early = repo.create_branch(root, None, None, 2, "{}".into()).unwrap();
    repo.delete_from_step(root, 3).unwrap();
    let items = repo.read_data(root, 0).unwrap();
    assert_eq!(items.iter().map(|d| d.cursor).collect::<Vec<_>>(), vec![1, 2]);
    assert!(!repo.branch_exists(child).unwrap());
    assert!(repo.branch_exists(early).unwrap());
    let meta = repo.get_flow_meta(root).unwrap();
    assert_eq!(meta.current_cursor, 6);
    assert_eq!(meta.current_version, 6);
}

#[test]
fn prune_from_zero_erases_records_and_children() {
    let mut repo = InMemoryFlowRepository::new();
    let root = repo.create_flow(None, None, "{}".into()).unwrap();
    append_steps(&mut repo, root, 3);
    let child = repo.create_branch(root, None, None, 0, "{}".into()).unwrap();
    repo.delete_from_step(root, 0).unwrap();
    assert_eq!(repo.read_data(root, -100).unwrap().len(), 0);
    assert_eq!(repo.count_steps(root).unwrap(), 0);
    assert!(!repo.branch_exists(child).unwrap());
}

#[test]
fn append_at_or_below_cursor_is_rejected() {
    let mut repo = InMemoryFlowRepository::new();
    let id = repo.create_flow(None, None, "{}".into()).unwrap();
    append_steps(&mut repo, id, 2);
    let d = record(id, 2, "Step", "{}", "{}", None);
    assert!(matches!(repo.persist_data(&d, 2), Err(FlowError::Conflict(_))));
    let d = record(id, 1, "Step", "{}", "{}", None);
    assert!(matches!(repo.persist_data(&d, 2), Err(FlowError::Conflict(_))));
    assert_eq!(repo.get_flow_meta(id).unwrap().current_version, 2);
}

#[test]
fn append_to_unknown_flow_is_not_found() {
    let mut repo = InMemoryFlowRepository::new();
    let d = record(42, 1, "Step", "{}", "{}", None);
    assert!(matches!(repo.persist_data(&d, 0), Err(FlowError::NotFound(_))));
    assert!(matches!(repo.get_flow_meta(42), Err(FlowError::NotFound(_))));
    assert!(matches!(repo.delete_branch(42), Err(FlowError::NotFound(_))));
    assert!(matches!(repo.delete_from_step(42, 0), Err(FlowError::NotFound(_))));
    assert!(matches!(repo.lock_for_update(42, 0), Err(FlowError::NotFound(_))));
    assert!(matches!(repo.set_flow_status(42, None), Err(FlowError::NotFound(_))));
}

#[test]
fn branch_beyond_cursor_copies_everything() {
    let mut repo = InMemoryFlowRepository::new();
    let id = repo.create_flow(None, None, "{}".into()).unwrap();
    append_steps(&mut repo, id, 3);
    let c = repo.create_branch(id, None, None, 10, "{}".into()).unwrap();
    let items = repo.read_data(c, 0).unwrap();
    assert_eq!(items.iter().map(|d| d.cursor).collect::<Vec<_>>(), vec![1, 2, 3, 11]);
    assert_eq!(items[3].key, "BranchCreated");
    assert_eq!(repo.count_steps(c).unwrap(), 3);
    assert_eq!(repo.get_flow_meta(c).unwrap().current_cursor, 10);
}

#[test]
fn branch_of_unknown_parent_gets_defaults() {
    let mut repo = InMemoryFlowRepository::new();
    let parent: u128 = 0x0123_4567_89ab_cdef_0123_4567_89ab_cdef;
    let c = repo.create_branch(parent, None, None, 0, "{\"k\":1}".into()).unwrap();
    let meta = repo.get_flow_meta(c).unwrap();
    assert_eq!(meta.name, Some("branch-of-01234567-89ab-cdef-0123-456789abcdef".to_string()));
    assert_eq!(meta.status, Some("queued".to_string()));
    assert_eq!(meta.metadata, "{\"k\":1}");
    assert_eq!(meta.parent_flow_id, Some(parent));
    let items = repo.read_data(c, 0).unwrap();
    assert_eq!(items.len(), 1);
    assert_eq!(items[0].cursor, 1);
}

#[test]
fn branch_metadata_override_only_when_not_empty() {
    let mut repo = InMemoryFlowRepository::new();
    let id = repo.create_flow(Some("p".into()), Some("running".into()), "{\"p\":true}".into()).unwrap();
    let a = repo.create_branch(id, None, None, 0, " { } ".into()).unwrap();
    assert_eq!(repo.get_flow_meta(a).unwrap().metadata, "{\"p\":true}");
    let b = repo.create_branch(id, Some("b".into()), None, 0, "{\"x\":2}".into()).unwrap();
    let mb = repo.get_flow_meta(b).unwrap();
    assert_eq!(mb.metadata, "{\"x\":2}");
    assert_eq!(mb.name, Some("b".to_string()));
    assert_eq!(mb.status, Some("running".to_string()));
}

#[test]
fn branch_append_may_share_marker_cursor_and_stays_ordered() {
    let mut repo = InMemoryFlowRepository::new();
    let id = repo.create_flow(None, None, "{}".into()).unwrap();
    append_steps(&mut repo, id, 3);
    let c = repo.create_branch(id, None, None, 3, "{}".into()).unwrap();
    let d = record(c, 4, "Step", "{\"child\":1}", "{}", None);
    assert_eq!(repo.persist_data(&d, 0).unwrap(), PersistResult::Persisted { new_version: 1 });
    let cursors: Vec<i64> = repo.read_data(c, 0).unwrap().iter().map(|d| d.cursor).collect();
    assert_eq!(cursors, vec![1, 2, 3, 4, 4]);
    assert_eq!(repo.count_steps(c).unwrap(), 5);
}

#[test]
fn branch_copies_snapshots_up_to_cursor() {
    let mut repo = InMemoryFlowRepository::new();
    let id = repo.create_flow(None, None, "{}".into()).unwrap();
    append_steps(&mut repo, id, 4);
    repo.save_snapshot(id, 2, "two", "{}".into()).unwrap();
    repo.save_snapshot(id, 4, "four", "{}".into()).unwrap();
    let c = repo.create_branch(id, None, None, 3, "{}".into()).unwrap();
    let latest = repo.load_latest_snapshot(c).unwrap().unwrap();
    assert_eq!(latest.cursor, 2);
    assert_eq!(latest.state_ptr, "two");
    assert_eq!(latest.flow_id, c);
}

#[test]
fn snapshots_latest_and_by_id() {
    let mut repo = InMemoryFlowRepository::new();
    let id = repo.create_flow(Some("snap".into()), Some("queued".into()), "{}".into()).unwrap();
    assert!(repo.load_latest_snapshot(id).unwrap().is_none());
    let s1 = repo.save_snapshot(id, 1, "state-1", "{\"k\":\"v\"}".into()).unwrap();
    let s3 = repo.save_snapshot(id, 3, "state-3", "{}".into()).unwrap();
    let _s2 = repo.save_snapshot(id, 2, "state-2", "{}".into()).unwrap();
    let s3b = repo.save_snapshot(id, 3, "state-3b", "{}".into()).unwrap();
    let latest = repo.load_latest_snapshot(id).unwrap().unwrap();
    assert_eq!(latest.id, s3b);
    assert_ne!(s3, s3b);
    let (bytes, meta) = repo.load_snapshot(s1).unwrap();
    assert_eq!(bytes, "state-1");
    assert_eq!(meta.metadata, "{\"k\":\"v\"}");
    assert!(matches!(repo.load_snapshot(7), Err(FlowError::NotFound(_))));
    assert!(matches!(repo.save_snapshot(99, 1, "x", "{}".into()), Err(FlowError::NotFound(_))));
}

#[test]
fn status_and_lock() {
    let mut repo = InMemoryFlowRepository::new();
    let id = repo.create_flow(None, Some("queued".into()), "{}".into()).unwrap();
    assert_eq!(repo.get_flow_status(id).unwrap(), Some("queued".to_string()));
    let m = repo.set_flow_status(id, Some("running".into())).unwrap();
    assert_eq!(m.status, Some("running".to_string()));
    assert_eq!(repo.get_flow_status(id).unwrap(), Some("running".to_string()));
    assert_eq!(repo.get_flow_status(12345).unwrap(), None);
    assert!(repo.lock_for_update(id, 0).unwrap());
    assert!(!repo.lock_for_update(id, 1).unwrap());
    assert!(repo.claim_work("w").unwrap().is_none());
}

#[test]
fn list_flow_ids_in_creation_order() {
    let mut repo = InMemoryFlowRepository::new();
    let a = repo.create_flow_with_id(10, 0, None, None, "{}".into()).unwrap();
    let b = repo.create_flow_with_id(20, 0, None, None, "{}".into()).unwrap();
    assert!(matches!(repo.create_flow_with_id(10, 0, None, None, "{}".into()), Err(FlowError::Storage(_))));
    assert_eq!(repo.list_flow_ids().unwrap(), vec![a, b]);
    assert!(matches!(repo.create_branch_with_id(20, 0, &vec![500], &vec![], 10, None, None, 0, "{}".into()), Err(FlowError::Storage(_))));
    assert!(matches!(repo.create_branch_with_id(30, 0, &vec![500], &vec![], 30, None, None, 0, "{}".into()), Err(FlowError::Storage(_))));
    assert_eq!(repo.create_branch_with_id(30, 0, &vec![500], &vec![], 10, None, None, 0, "{}".into()).unwrap(), 30);
    assert!(matches!(repo.create_branch_with_id(10, 0, &vec![501], &vec![], 20, None, None, 0, "{}".into()), Err(FlowError::Storage(_))));
}

#[test]
fn test_set_get_del_meta_inmemory() {
    let mut repo = InMemoryFlowRepository::new();
    let id = repo.create_flow(Some("test-flow".into()), Some("created".into()), "{}".into()).expect("create");
    let v = repo.get_meta(id, "workflow_type").expect("get_meta");
    assert_eq!(v, "null", "expected null for missing key");
    repo.set_meta(id, "workflow_type", "\"cadma\"".into()).expect("set_meta");
    let v = repo.get_meta(id, "workflow_type").expect("get_meta after set");
    assert_eq!(v, "\"cadma\"");
    repo.set_meta(id, "workflow_type", "\"other\"".into()).expect("set_meta again");
    assert_eq!(repo.get_meta(id, "workflow_type").unwrap(), "\"other\"");
    repo.del_meta(id, "workflow_type").expect("del_meta");
    let v = repo.get_meta(id, "workflow_type").expect("get_meta after del");
    assert_eq!(v, "null", "expected null after delete");
    assert!(matches!(repo.get_meta(77, "k"), Err(FlowError::NotFound(_))));
}

#[test]
fn delete_branch_removes_subtree() {
    let mut repo = InMemoryFlowRepository::new();
    let parent = repo.create_flow(Some("parent".into()), Some("queued".into()), "{}".into()).unwrap();
    let mut expected_version = 0i64;
    for i in 1..=3 {
        let d = record(parent, i, "Step", &format!("{{\"step\":{}}}", i), "{}", None);
        match repo.persist_data(&d, expected_version).unwrap() {
            PersistResult::Persisted { new_version } => expected_version = new_version,
            PersistResult::Conflict => panic!("unexpected conflict"),
        }
    }
    let child = repo.create_branch(parent, Some("child".into()), None, 3, "{}".into()).unwrap();
    assert!(repo.branch_exists(child).unwrap());
    repo.delete_branch(child).unwrap();
    assert!(!repo.branch_exists(child).unwrap());
    assert!(repo.branch_exists(parent).unwrap());
}

#[test]
fn delete_from_step_prunes_and_removes_subbranches() {
    let mut repo = InMemoryFlowRepository::new();
    let parent = repo.create_flow(Some("parent2".into()), None, "{}".into()).unwrap();
    let mut expected = 0i64;
    for i in 1..=6 {
        let d = record(parent, i, "Step", &format!("{{\"v\":{}}}", i), "{}", None);
        match repo.persist_data(&d, expected).unwrap() {
            PersistResult::Persisted { new_version } => expected = new_version,
            PersistResult::Conflict => panic!("conflict"),
        }
    }
    let child = repo.create_branch(parent, Some("prune-child".into()), None, 6, "{}".into()).unwrap();
    assert!(repo.branch_exists(parent).unwrap());
    assert!(repo.branch_exists(child).unwrap());
    repo.delete_from_step(parent, 3).unwrap();
    assert_eq!(repo.count_steps(parent).unwrap(), 2);
    assert!(!repo.branch_exists(child).unwrap());
}

#[test]
fn count_steps_nonexistent_returns_minus_one() {
    let repo = InMemoryFlowRepository::new();
    let random = uuid::Uuid::new_v4().as_u128();
    assert_eq!(repo.count_steps(random).unwrap(), -1);
}

#[test]
fn child_preserves_steps_after_parent_deletion() {
    let mut repo = InMemoryFlowRepository::new();
    let parent = repo.create_flow(Some("parent-preserve".into()), None, "{\"p\":true}".into()).unwrap();
    let mut expected = 0i64;
    for i in 1..=4 {
        let d = record(parent, i, "Step", &format!("{{\"v\":{}}}", i), &format!("{{\"m\":{}}}", i), None);
        match repo.persist_data(&d, expected).unwrap() {
            PersistResult::Persisted { new_version } => expected = new_version,
            PersistResult::Conflict => panic!("conflict"),
        }
    }
    let child = repo.create_branch(parent, Some("child-preserve".into()), None, 4, "{}".into()).unwrap();
    assert!(repo.branch_exists(child).unwrap());
    assert_eq!(repo.count_steps(child).unwrap(), 4);
    repo.delete_branch(parent).unwrap();
    assert!(!repo.branch_exists(parent).unwrap());
    assert!(repo.branch_exists(child).unwrap());
    let child_count = repo.count_steps(child).unwrap();
    assert_eq!(child_count, 4);
    let items = repo.read_data(child, 0).unwrap();
    let m: serde_json::Value = serde_json::from_str(&items[0].metadata).unwrap();
    assert_eq!(m["m"].as_i64().unwrap(), 1);
}

#[test]
fn persist_idempotency_and_conflict() {
    let mut repo = InMemoryFlowRepository::new();
    let flow_id = repo.create_flow(Some("idemp".into()), Some("queued".into()), "{}".into()).expect("create");
    let cmd = uuid::Uuid::new_v4().as_u128();
    let d = record(flow_id, 1, "Step", "{\"v\":1}", "{}", Some(cmd));
    let r1 = repo.persist_data(&d, 0).expect("append1");
    let current_version = repo.get_flow_meta(flow_id).expect("meta").current_version;
    let d2 = record(flow_id, 2, "Step", "{\"v\":1}", "{}", Some(cmd));
    let r2 = repo.persist_data(&d2, current_version).expect("append2");
    match r1 {
        PersistResult::Persisted { new_version: v1 } => match r2 {
            PersistResult::Persisted { new_version: v2 } => assert_eq!(v1, v2),
            PersistResult::Conflict => panic!("unexpected conflict"),
        },
        PersistResult::Conflict => panic!("unexpected conflict on first append"),
    }
    let meta = repo.get_flow_meta(flow_id).expect("meta");
    let bad = record(flow_id, meta.current_cursor + 1, "Step", "{}", "{}", None);
    match repo.persist_data(&bad, meta.current_version + 1).expect("persist_data") {
        PersistResult::Conflict => {}
        PersistResult::Persisted { .. } => panic!("expected conflict due to wrong version"),
    }
}

#[test]
fn repeated_command_leaves_first_state() {
    let mut repo = InMemoryFlowRepository::new();
    let id = repo.create_flow(None, None, "{}".into()).unwrap();
    let d = record(id, 1, "Step", "{}", "{}", Some(5));
    assert_eq!(repo.persist_data(&d, 0).unwrap(), PersistResult::Persisted { new_version: 1 });
    assert_eq!(repo.persist_data(&d, 0).unwrap(), PersistResult::Conflict);
    assert_eq!(repo.persist_data(&d, 1).unwrap(), PersistResult::Persisted { new_version: 1 });
    assert_eq!(repo.read_data(id, 0).unwrap().len(), 1);
    assert_eq!(repo.get_flow_meta(id).unwrap().current_version, 1);
}

#[test]
fn read_data_is_exclusive_of_from_cursor() {
    let mut repo = InMemoryFlowRepository::new();
    let id = repo.create_flow(None, None, "{}".into()).unwrap();
    append_steps(&mut repo, id, 5);
    let cursors: Vec<i64> = repo.read_data(id, 3).unwrap().iter().map(|d| d.cursor).collect();
    assert_eq!(cursors, vec![4, 5]);
    assert!(repo.read_data(999, 0).unwrap().is_empty());
}

#[test]
fn child_preserves_steps_after_parent_deletion_sqlite() {
    let mut repo = InMemoryFlowRepository::new();
    let parent = repo.create_flow(Some("parent-sql".into()), None, "{\"p\":\"v\"}".into()).expect("create");
    let mut expected = 0i64;
    for i in 1..=5 {
        let fd = record(parent, i, "Step", &format!("{{\"v\":{}}}", i), &format!("{{\"m\":{}}}", i), None);
        match repo.persist_data(&fd, expected).expect("persist") {
            PersistResult::Persisted { new_version } => expected = new_version,
            _ => panic!("persist failed"),
        }
    }
    let child = repo.create_branch(parent, Some("child-sql".into()), None, 5, "{}".into()).expect("branch");
    assert_eq!(repo.count_steps(child).unwrap(), 5);
    repo.delete_branch(parent).expect("delete parent");
    assert!(!repo.branch_exists(parent).unwrap());
    assert!(repo.branch_exists(child).unwrap());
    assert_eq!(repo.count_steps(child).unwrap(), 5);
    let items = repo.read_data(child, 0).expect("read child");
    let m: serde_json::Value = serde_json::from_str(&items[0].metadata).unwrap();
    assert_eq!(m["m"].as_i64().unwrap(), 1);
}

#[test]
fn snapshots_save_and_load_meta_behaviour() {
    let mut repo = InMemoryFlowRepository::new();
    let flow_id = repo.create_flow(Some("snap".into()), Some("queued".into()), "{}".into()).expect("create");
    let d = record(flow_id, 1, "Step", "{\"a\":1}", "{}", None);
    repo.persist_data(&d, 0).expect("append");
    let snap_id = repo.save_snapshot(flow_id, 1, "state-1", "{\"k\":\"v\"}".into()).expect("save snapshot");
    let loaded = repo.load_latest_snapshot(flow_id).expect("load latest");
    assert!(loaded.is_some());
    let meta = loaded.unwrap();
    assert_eq!(meta.id, snap_id);
    assert_eq!(meta.cursor, 1);
}

#[test]
fn branch_snapshot_ids_come_from_the_pool_and_must_be_fresh() {
    let mut repo = InMemoryFlowRepository::new();
    let id = repo.create_flow_with_id(1, 0, None, None, "{}".into()).unwrap();
    append_steps(&mut repo, id, 3);
    repo.save_snapshot_with_id(id, 100, 5, 1, "a", "{}".into()).unwrap();
    repo.save_snapshot_with_id(id, 101, 6, 2, "b", "{}".into()).unwrap();
    repo.save_snapshot_with_id(id, 102, 7, 3, "c", "{}".into()).unwrap();
    assert!(matches!(repo.save_snapshot_with_id(id, 101, 8, 3, "d", "{}".into()), Err(FlowError::Storage(_))));
    let rids = vec![300, 301, 302];
    assert!(matches!(repo.create_branch_with_id(2, 0, &rids, &vec![200], id, None, None, 2, "{}".into()), Err(FlowError::Storage(_))));
    assert!(matches!(repo.create_branch_with_id(2, 0, &rids, &vec![200, 100], id, None, None, 2, "{}".into()), Err(FlowError::Storage(_))));
    assert!(matches!(repo.create_branch_with_id(2, 0, &rids, &vec![200, 200], id, None, None, 2, "{}".into()), Err(FlowError::Storage(_))));
    assert!(matches!(repo.create_branch_with_id(2, 0, &vec![300, 301], &vec![200, 201], id, None, None, 2, "{}".into()), Err(FlowError::Storage(_))));
    assert!(matches!(repo.create_branch_with_id(2, 0, &vec![300, 301, 1001], &vec![200, 201], id, None, None, 2, "{}".into()), Err(FlowError::Storage(_))));
    assert!(matches!(repo.create_branch_with_id(2, 0, &vec![300, 300, 302], &vec![200, 201], id, None, None, 2, "{}".into()), Err(FlowError::Storage(_))));
    assert_eq!(repo.list_flow_ids().unwrap().len(), 1);
    assert_eq!(repo.create_branch_with_id(2, 0, &rids, &vec![200, 201, 999], id, None, None, 2, "{}".into()).unwrap(), 2);
    let ids: Vec<u128> = repo.read_data(2, 0).unwrap().iter().map(|d| d.id).collect();
    assert_eq!(ids, vec![300, 301, 302]);
    let latest = repo.load_latest_snapshot(2).unwrap().unwrap();
    assert_eq!(latest.id, 201);
    assert_eq!(latest.state_ptr, "b");
    let (ptr, m) = repo.load_snapshot(200).unwrap();
    assert_eq!(ptr, "a");
    assert_eq!(m.flow_id, 2);
    let (ptr, m) = repo.load_snapshot(101).unwrap();
    assert_eq!(ptr, "b");
    assert_eq!(m.flow_id, id);
}

#[test]
fn negative_branch_cursor_is_rejected() {
    let mut repo = InMemoryFlowRepository::new();
    let id = repo.create_flow(None, None, "{}".into()).unwrap();
    assert!(matches!(repo.create_branch(id, None, None, -1, "{}".into()), Err(FlowError::Conflict(_))));
    assert_eq!(repo.list_flow_ids().unwrap().len(), 1);
}

#[test]
fn id_named_as_parent_is_refused_for_a_branch() {
    let mut repo = InMemoryFlowRepository::new();
    let c = repo.create_branch_with_id(5, 0, &vec![1], &vec![], 9, None, None, 0, "{}".into()).unwrap();
    assert_eq!(c, 5);
    assert!(matches!(repo.create_branch_with_id(9, 0, &vec![2], &vec![], 5, None, None, 0, "{}".into()), Err(FlowError::Storage(_))));
}
