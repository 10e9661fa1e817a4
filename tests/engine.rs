use base64::Engine as _;
use flow::domain::PersistResult;
use flow::engine::{status_from_text, step_key, FlowEngine, FlowStatus, StepContext, StepInfo, WorkflowStep};
use flow::errors::WorkflowError;
use flow::services::{GateService, InMemoryWorkerPool};
use flow::store::InMemoryFlowRepository;
use flow::text::{join_text, eq_ignore_ascii_case, is_empty_json_object};
use flow::workflow::{ADMETSAMethod, ADMETSAProperty, ChemicalWorkflowFactory, WorkflowType};

fn names() -> Vec<String> {
    vec!["FamilyReferenceStep1".to_string(), "PropertiesStep2".to_string(), "MoleculesStep3".to_string()]
}

fn info(p: &str) -> StepInfo {
    StepInfo { payload: p.to_string(), metadata: "{}".to_string() }
}

#[test]
fn persist_step_result_appends_at_next_cursor() {
    let mut repo = InMemoryFlowRepository::new();
    let id = repo.create_flow(Some("e".into()), None, "{}".into()).unwrap();
    let engine = FlowEngine::new(id, names());
    let r = engine.persist_step_result(&mut repo, "FamilyReferenceStep1", info("{\"a\":1}"), -1, None, "{\"s\":1}").unwrap();
    assert_eq!(r, PersistResult::Persisted { new_version: 1 });
    let items = repo.read_data(id, 0).unwrap();
    assert_eq!(items.len(), 1);
    assert_eq!(items[0].cursor, 1);
    assert_eq!(items[0].key, "step_state:FamilyReferenceStep1");
    assert_eq!(items[0].payload, "{\"a\":1}");
    assert_eq!(repo.get_meta(id, "flow_metadata").unwrap(), "{\"current_step\":2}");
    assert_eq!(engine.stored_current_step(&repo), 2);
    let r = engine.persist_step_result(&mut repo, "PropertiesStep2", info("{}"), 0, None, "{}").unwrap();
    assert_eq!(r, PersistResult::Conflict);
    let r = engine.persist_step_result(&mut repo, "PropertiesStep2", info("{}"), 1, None, "{}").unwrap();
    assert_eq!(r, PersistResult::Persisted { new_version: 2 });
    assert_eq!(repo.read_data(id, 0).unwrap()[1].cursor, 2);
}

#[test]
fn persist_step_result_on_unknown_flow_fails() {
    let mut repo = InMemoryFlowRepository::new();
    let engine = FlowEngine::new(5, names());
    let r = engine.persist_step_result(&mut repo, "FamilyReferenceStep1", info("{}"), -1, None, "{}");
    assert!(matches!(r, Err(WorkflowError::Flow(_))));
}

#[test]
fn cursor_and_version_calculation() {
    let mut repo = InMemoryFlowRepository::new();
    let id = repo.create_flow(None, None, "{}".into()).unwrap();
    let engine = FlowEngine::new(id, names());
    assert_eq!(engine.calculate_cursor_and_version(&repo, -1).unwrap(), (1, 0));
    assert_eq!(engine.calculate_cursor_and_version(&repo, 7).unwrap(), (1, 7));
    let other = FlowEngine::new(id + 1, names());
    assert_eq!(other.calculate_cursor_and_version(&repo, 3).unwrap(), (0, 3));
}

#[test]
fn last_step_payload_is_case_insensitive_and_latest() {
    let mut repo = InMemoryFlowRepository::new();
    let id = repo.create_flow(None, None, "{}".into()).unwrap();
    let engine = FlowEngine::new(id, names());
    engine.persist_step_result(&mut repo, "familyreferencestep1", info("{\"v\":1}"), -1, None, "{}").unwrap();
    engine.persist_step_result(&mut repo, "FamilyReferenceStep1", info("{\"v\":2}"), -1, None, "{}").unwrap();
    assert_eq!(engine.get_last_step_payload(&repo, "FAMILYREFERENCESTEP1").unwrap(), Some("{\"v\":2}".to_string()));
    assert_eq!(engine.get_last_step_payload(&repo, "PropertiesStep2").unwrap(), None);
}

#[test]
fn validate_step_execution_checks_order() {
    let mut repo = InMemoryFlowRepository::new();
    let id = repo.create_flow(None, None, "{}".into()).unwrap();
    let engine = FlowEngine::new(id, names());
    assert!(engine.validate_step_execution(&repo, "FamilyReferenceStep1").is_ok());
    assert!(matches!(engine.validate_step_execution(&repo, "PropertiesStep2"), Err(WorkflowError::Validation(_))));
    assert!(matches!(engine.validate_step_execution(&repo, "NoSuchStep"), Err(WorkflowError::Validation(_))));
    engine.persist_step_result(&mut repo, "FamilyReferenceStep1", info("{}"), -1, None, "{}").unwrap();
    assert!(matches!(engine.validate_step_execution(&repo, "FamilyReferenceStep1"), Err(WorkflowError::Validation(_))));
    assert!(engine.validate_step_execution(&repo, "PropertiesStep2").is_ok());
    assert!(matches!(engine.validate_step_execution(&repo, "MoleculesStep3"), Err(WorkflowError::Validation(_))));
}

#[test]
fn step_names_by_index() {
    let engine = FlowEngine::new(1, names());
    assert_eq!(engine.step_name_by_index(1).unwrap(), "PropertiesStep2");
    assert!(matches!(engine.step_name_by_index(3), Err(WorkflowError::Validation(_))));
    assert_eq!(engine.current_step_name().unwrap(), "FamilyReferenceStep1");
}

#[test]
fn rehydrate_prefers_stored_step() {
    let mut repo = InMemoryFlowRepository::new();
    let id = repo.create_flow(None, None, "{}".into()).unwrap();
    repo.set_meta(id, "flow_metadata", "{\"current_step\":7,\"status\":\"running\"}".into()).unwrap();
    let mut engine = FlowEngine::new(id, names());
    engine.rehydrate_from_storage(&mut repo).unwrap();
    assert_eq!(engine.current_step, 7);
    assert_eq!(engine.status, "running");
    assert_eq!(engine.status(&repo), FlowStatus::Running);
}

#[test]
fn rehydrate_falls_back_to_records_then_zero() {
    let mut repo = InMemoryFlowRepository::new();
    let id = repo.create_flow(None, None, "{}".into()).unwrap();
    for i in 1..=3 {
        let d = flow::domain::FlowData {
            id: i as u128,
            flow_id: id,
            cursor: i,
            key: "S".into(),
            payload: "{}".into(),
            metadata: "{}".into(),
            command_id: None,
            created_at: 0,
        };
        repo.persist_data(&d, i - 1).unwrap();
    }
    let mut engine = FlowEngine::new(id, names());
    engine.rehydrate_from_storage(&mut repo).unwrap();
    assert_eq!(engine.current_step, 4);
    assert_eq!(engine.stored_current_step(&repo), 4);
    let mut ghost = FlowEngine::new(999, names());
    assert!(ghost.rehydrate_from_storage(&mut repo).is_err());
    assert_eq!(ghost.current_step, 0);
    let empty = repo.create_flow(None, None, "{}".into()).unwrap();
    let mut e2 = FlowEngine::new(empty, names());
    e2.rehydrate_from_storage(&mut repo).unwrap();
    assert_eq!(e2.current_step, 1);
}

#[test]
fn engine_snapshot_round_trip() {
    let mut repo = InMemoryFlowRepository::new();
    let id = repo.create_flow(None, None, "{}".into()).unwrap();
    let engine = FlowEngine::new(id, names());
    let state = "{\"current_step\":0,\"status\":\"not_started\"}";
    engine.save_snapshot(&mut repo, state).unwrap();
    let latest = repo.load_latest_snapshot(id).unwrap().unwrap();
    assert_ne!(latest.state_ptr, state);
    assert_eq!(latest.state_ptr, base64::engine::general_purpose::STANDARD.encode(state.as_bytes()));
    assert_eq!(engine.rehydrate_from_snapshot(&repo), Some(state.to_string()));
}

#[test]
fn engine_rehydrate_stores_snapshot_and_replay() {
    let mut repo = InMemoryFlowRepository::new();
    let fid = repo.create_flow(Some("reh".into()), Some("queued".into()), "{}".into()).expect("start");
    let engine = FlowEngine::new(fid, names());
    engine.persist_step_result(&mut repo, "FamilyReferenceStep1", info("{\"a\":1}"), 0, None, "{\"x\":1}").expect("append");
    let items = repo.read_data(fid, 0).expect("read");
    assert_eq!(items.len(), 1);
    let mut again = FlowEngine::new(fid, names());
    let snap = again.rehydrate_from_storage(&mut repo).expect("rehydrate");
    assert_eq!(snap, Some("{\"x\":1}".to_string()));
    assert_eq!(again.current_step, 2);
}

#[test]
fn advance_step_increments_stored_step() {
    let mut repo = InMemoryFlowRepository::new();
    let id = repo.create_flow(None, None, "{}".into()).unwrap();
    repo.set_meta(id, "flow_metadata", "{\"current_step\":1,\"status\":\"running\"}".into()).unwrap();
    let engine = FlowEngine::new(id, names());
    engine.advance_step(&mut repo).unwrap();
    assert_eq!(engine.stored_current_step(&repo), 2);
    assert_eq!(engine.status(&repo), FlowStatus::Running);
    let missing = FlowEngine::new(id + 1, names());
    assert!(missing.advance_step(&mut repo).is_err());
}

#[test]
fn new_branch_gives_rehydrated_engine() {
    let mut repo = InMemoryFlowRepository::new();
    let id = repo.create_flow(None, None, "{}".into()).unwrap();
    let engine = FlowEngine::new(id, names());
    engine.persist_step_result(&mut repo, "FamilyReferenceStep1", info("{}"), -1, None, "{}").unwrap();
    engine.persist_step_result(&mut repo, "PropertiesStep2", info("{}"), -1, None, "{}").unwrap();
    let (child, _) = engine.new_branch(&mut repo, 1, "{}".into()).unwrap();
    assert!(engine.branch_exists(&repo, child.id).unwrap());
    assert_eq!(repo.get_flow_meta(child.id).unwrap().parent_flow_id, Some(id));
    assert_eq!(child.step_names, names());
    assert_eq!(child.current_step, 3);
}

#[test]
fn status_texts() {
    assert_eq!(status_from_text("not_started"), FlowStatus::NotStarted);
    assert_eq!(status_from_text("running"), FlowStatus::Running);
    assert_eq!(status_from_text("completed"), FlowStatus::Completed);
    assert_eq!(status_from_text("failed"), FlowStatus::Failed);
    assert_eq!(status_from_text("Running"), FlowStatus::Unknown);
}

#[test]
fn text_helpers() {
    assert_eq!(step_key("a"), "step_state:a");
    assert_eq!(join_text("ab", "cd"), "abcd");
    assert!(eq_ignore_ascii_case("Step_State:X", "step_state:x"));
    assert!(!eq_ignore_ascii_case("ab", "abc"));
    assert!(is_empty_json_object("{}"));
    assert!(is_empty_json_object(" {\n} "));
    assert!(!is_empty_json_object("{\"a\":1}"));
    assert!(!is_empty_json_object("null"));
}

#[test]
fn workflow_types() {
    assert_eq!(WorkflowType::parse("CADMA"), WorkflowType::Cadma);
    assert_eq!(WorkflowType::parse("cadma"), WorkflowType::Cadma);
    assert_eq!(WorkflowType::parse("other"), WorkflowType::Unknown);
    assert_eq!(WorkflowType::Cadma.as_text(), "cadma");
    assert_eq!(WorkflowType::Unknown.as_text(), "unknown");
    assert_eq!(WorkflowType::default_type(), WorkflowType::Unknown);
}

#[test]
fn admetsa_coverage() {
    assert!(ADMETSAMethod::Manual.can_generate(ADMETSAProperty::LogP));
    assert!(ADMETSAMethod::Random1.can_generate(ADMETSAProperty::MR));
    assert!(!ADMETSAMethod::Random1.can_generate(ADMETSAProperty::LD50));
    assert!(ADMETSAMethod::Random2.can_generate(ADMETSAProperty::SyntheticAccessibility));
    assert!(!ADMETSAMethod::Random2.can_generate(ADMETSAProperty::PSA));
    assert!(ADMETSAMethod::Random3.can_generate(ADMETSAProperty::Mutagenicity));
    assert!(!ADMETSAMethod::Random3.can_generate(ADMETSAProperty::DevelopmentalToxicity));
    assert!(ADMETSAMethod::Random4.can_generate(ADMETSAProperty::AtX));
}

#[test]
fn chem_flows_lists_types() {
    let mut repo = InMemoryFlowRepository::new();
    let a = repo.create_flow_with_id(1, 0, None, None, "{}".into()).unwrap();
    let b = repo.create_flow_with_id(2, 0, None, None, "{}".into()).unwrap();
    repo.set_meta(a, "workflow_type", "\"Cadma\"".into()).unwrap();
    repo.set_meta(b, "workflow_type", "\"x\"".into()).unwrap();
    let _ = repo.create_flow_with_id(3, 0, None, None, "{}".into()).unwrap();
    let flows = ChemicalWorkflowFactory::get_chem_flows(&repo).unwrap();
    assert_eq!(flows.len(), 3);
    assert_eq!(flows[0], ("00000000-0000-0000-0000-000000000001".to_string(), WorkflowType::Cadma));
    assert_eq!(flows[1].1, WorkflowType::Unknown);
    assert_eq!(flows[2].1, WorkflowType::Unknown);
}

#[test]
fn worker_pool_enqueue_and_claim() {
    let mut pool = InMemoryWorkerPool::new();
    assert!(pool.claim().is_none());
    let item = flow::domain::WorkItem { flow_id: uuid::Uuid::new_v4().as_u128(), last_cursor: 0, snapshot_ptr: None };
    let second = flow::domain::WorkItem { flow_id: 2, last_cursor: 1, snapshot_ptr: None };
    pool.enqueue(item.clone());
    pool.enqueue(second);
    let claimed = pool.claim();
    assert!(claimed.is_some());
    let claimed = claimed.unwrap();
    assert_eq!(claimed.flow_id, item.flow_id);
    assert_eq!(pool.claim().unwrap().flow_id, 2);
    assert!(pool.claim().is_none());
}

#[test]
fn gate_service_open_close() {
    let mut g = GateService::new();
    let fid = uuid::Uuid::new_v4().as_u128();
    assert!(!g.is_open(fid, "step1"));
    g.open_gate(fid, "step1", "reason");
    assert!(g.is_open(fid, "step1"));
    assert!(!g.is_open(fid, "step2"));
    g.close_gate(fid, "step1", "{\"x\":1}");
    assert!(!g.is_open(fid, "step1"));
}

#[test]
fn step_context_end_to_end() {
    let mut repo = InMemoryFlowRepository::new();
    let flow_id = repo.create_flow(Some("test-flow".into()), Some("created".into()), "{}".into()).unwrap();
    let ctx = StepContext::new(flow_id);
    let r = ctx.save_typed_result(&mut repo, "step1", info("{\"saved_value\":42}"), -1, None).unwrap();
    assert_eq!(r, PersistResult::Persisted { new_version: 1 });
    let r = ctx.save_typed_result(&mut repo, "step2", info("{\"multiplier\":2}"), -1, None).unwrap();
    assert_eq!(r, PersistResult::Persisted { new_version: 2 });
    let items = repo.read_data(flow_id, 0).unwrap();
    assert_eq!(items.len(), 2);
    assert_eq!(items[1].key, "step_state:step2");
    assert_eq!(items[1].cursor, 2);
    assert_eq!(repo.get_meta(flow_id, "flow_metadata").unwrap(), "null");
    let missing = StepContext::new(flow_id + 1);
    assert!(matches!(missing.save_typed_result(&mut repo, "s", info("{}"), 0, None), Err(WorkflowError::Flow(_))));
}

#[test]
fn rehydrate_falls_back_when_metadata_lacks_step() {
    let mut repo = InMemoryFlowRepository::new();
    let id = repo.create_flow(None, None, "{}".into()).unwrap();
    let engine = FlowEngine::new(id, names());
    engine.persist_step_result(&mut repo, "FamilyReferenceStep1", info("{}"), -1, None, "{}").unwrap();
    repo.set_meta(id, "flow_metadata", "{\"status\":\"running\"}".into()).unwrap();
    let mut again = FlowEngine::new(id, names());
    again.current_step = 9;
    again.rehydrate_from_storage(&mut repo).unwrap();
    assert_eq!(again.current_step, 2);
    assert_eq!(again.status, "running");
    assert_eq!(again.stored_current_step(&repo), 2);
    assert_eq!(again.status(&repo), FlowStatus::Running);
}

#[test]
fn replayed_step_still_records_current_step() {
    let mut repo = InMemoryFlowRepository::new();
    let id = repo.create_flow(None, None, "{}".into()).unwrap();
    let engine = FlowEngine::new(id, names());
    engine.persist_step_result(&mut repo, "FamilyReferenceStep1", info("{}"), -1, Some(7), "{}").unwrap();
    repo.set_meta(id, "flow_metadata", "null".into()).unwrap();
    let r = engine.persist_step_result(&mut repo, "FamilyReferenceStep1", info("{}"), -1, Some(7), "{}").unwrap();
    assert_eq!(r, PersistResult::Persisted { new_version: 1 });
    assert_eq!(repo.get_meta(id, "flow_metadata").unwrap(), "{\"current_step\":3}");
    assert_eq!(repo.read_data(id, 0).unwrap().len(), 1);
}

#[test]
fn snapshot_with_id_and_rehydrate_reads_latest() {
    let mut repo = InMemoryFlowRepository::new();
    let id = repo.create_flow(None, None, "{}".into()).unwrap();
    let engine = FlowEngine::new(id, names());
    assert_eq!(engine.rehydrate_from_snapshot(&repo), None);
    assert_eq!(engine.save_snapshot_with_id(&mut repo, 50, 1, "{\"v\":1}").unwrap(), 50);
    assert!(matches!(engine.save_snapshot_with_id(&mut repo, 50, 2, "{}"), Err(WorkflowError::Flow(_))));
    engine.save_snapshot_with_id(&mut repo, 51, 2, "{\"v\":2}").unwrap();
    assert_eq!(engine.rehydrate_from_snapshot(&repo), Some("{\"v\":2}".to_string()));
    repo.save_snapshot(id, -3, "not base64!", "{}".into()).unwrap();
    assert_eq!(engine.rehydrate_from_snapshot(&repo), Some("{\"v\":2}".to_string()));
    repo.save_snapshot(id, 5, "not base64!", "{}".into()).unwrap();
    assert_eq!(engine.rehydrate_from_snapshot(&repo), None);
}

#[test]
fn new_branch_with_id_is_exact() {
    let mut repo = InMemoryFlowRepository::new();
    let id = repo.create_flow_with_id(1, 0, None, None, "{}".into()).unwrap();
    let engine = FlowEngine::new(id, names());
    engine.persist_step_result(&mut repo, "FamilyReferenceStep1", info("{}"), -1, None, "{\"s\":1}").unwrap();
    let rids = vec![10, 11];
    assert!(engine.new_branch_with_id(&mut repo, 1, 0, &rids, &vec![77], 2, "{}".into()).is_err());
    assert!(engine.new_branch_with_id(&mut repo, 2, 0, &rids, &vec![77], -1, "{}".into()).is_err());
    assert!(engine.new_branch_with_id(&mut repo, 2, 0, &rids, &vec![], 2, "{}".into()).is_err());
    assert!(engine.new_branch_with_id(&mut repo, 2, 0, &vec![10], &vec![77], 2, "{}".into()).is_err());
    assert_eq!(repo.list_flow_ids().unwrap().len(), 1);
    let (child, snap) = engine.new_branch_with_id(&mut repo, 2, 0, &rids, &vec![77], 2, "{}".into()).unwrap();
    assert_eq!(child.id, 2);
    assert_eq!(child.current_step, 4);
    assert_eq!(snap, Some("{\"s\":1}".to_string()));
    assert_eq!(repo.load_snapshot(77).unwrap().1.flow_id, 2);
}

struct Echo;

impl WorkflowStep for Echo {
    fn name(&self) -> String {
        "Echo".to_string()
    }

    fn execute(&self, ctx: &StepContext, input: &str) -> Result<StepInfo, WorkflowError> {
        Ok(StepInfo { payload: input.to_string(), metadata: format!("{{\"flow\":\"{}\"}}", ctx.flow_id) })
    }
}

#[test]
fn execute_current_step_validates_then_dispatches() {
    let mut repo = InMemoryFlowRepository::new();
    let id = repo.create_flow_with_id(4, 0, None, None, "{}".into()).unwrap();
    let mut engine = FlowEngine::new(id, names());
    let out = engine.execute_current_step(&repo, &Echo, "{\"x\":1}").unwrap();
    assert_eq!(out.payload, "{\"x\":1}");
    assert_eq!(out.metadata, "{\"flow\":\"4\"}");
    engine.current_step = 1;
    assert!(matches!(engine.execute_current_step(&repo, &Echo, "{}"), Err(WorkflowError::Validation(_))));
    assert!(engine.execute_step_by_index_unchecked(1, &Echo, "{}").is_ok());
    assert!(matches!(engine.execute_step_by_index_unchecked(3, &Echo, "{}"), Err(WorkflowError::Validation(_))));
    engine.persist_step_result(&mut repo, "FamilyReferenceStep1", out, -1, None, "{}").unwrap();
    assert!(engine.execute_current_step(&repo, &Echo, "{}").is_ok());
    engine.current_step = 5;
    assert!(matches!(engine.execute_current_step(&repo, &Echo, "{}"), Err(WorkflowError::Validation(_))));
}
