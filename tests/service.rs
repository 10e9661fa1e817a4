use flow::domain::{FlowData, PersistResult};
use flow::engine::FlowEngine;
use flow::service::FlowService;
use flow::store::InMemoryFlowRepository;
use flow::workflow::{ChemicalWorkflowFactory, WorkflowType};

fn step(flow_id: u128, cursor: i64, payload: &str, metadata: &str) -> FlowData {
    FlowData {
        id: uuid::Uuid::new_v4().as_u128(),
        flow_id,
        cursor,
        key: "Step".to_string(),
        payload: payload.to_string(),
        metadata: metadata.to_string(),
        command_id: None,
        created_at: 0,
    }
}

#[test]
fn full_flow_lifecycle_and_branching() {
    let mut svc = FlowService::new(InMemoryFlowRepository::new());
    let flow_id = svc.start_flow(Some("root".into()), Some("queued".into()), "{}".into()).expect("create flow");
    assert!(svc.repo().branch_exists(flow_id).unwrap());
    for i in 1..=5 {
        let d = step(flow_id, i, &format!("{{\"i\":{}}}", i), "{\"source\":\"test\"}");
        match svc.persist_flow_data(d, i - 1).expect("append") {
            PersistResult::Persisted { new_version } => assert!(new_version >= 0),
            PersistResult::Conflict => panic!("unexpected conflict on append {}", i),
        }
    }
    let items = svc.read_data(flow_id, 0).expect("get items");
    assert_eq!(items.len(), 5);
    assert_eq!(svc.repo().count_steps(flow_id).unwrap(), 5);
    let child = svc.create_branch(flow_id, Some("child".into()), Some("queued".into()), 3, "{}".into()).expect("create branch");
    assert!(svc.repo().branch_exists(child).unwrap());
    assert_eq!(svc.repo().count_steps(child).unwrap(), 3);
    let res = svc.persist_flow_data(step(child, 4, "{\"child\":1}", "{}"), 0).expect("append child");
    match res {
        PersistResult::Persisted { new_version: _ } => {}
        PersistResult::Conflict => panic!("conflict"),
    }
    let grand = svc.create_branch(child, Some("grand".into()), Some("queued".into()), 4, "{}".into()).expect("create grand");
    assert!(svc.repo().branch_exists(grand).unwrap());
    svc.delete_branch(child).expect("delete child");
    assert!(!svc.repo().branch_exists(child).unwrap());
    assert!(svc.repo().branch_exists(grand).unwrap());
    svc.delete_from_step(flow_id, 4).expect("delete from step");
    assert_eq!(svc.repo().count_steps(flow_id).unwrap(), 3);
}

#[test]
fn service_claims_nothing_in_memory() {
    let svc = FlowService::new(InMemoryFlowRepository::new());
    assert!(svc.claim_work("worker-1").unwrap().is_none());
    assert!(svc.read_data(1, 0).unwrap().is_empty());
}

#[test]
fn factory_create_tags_flow_and_load_rehydrates() {
    let mut repo = InMemoryFlowRepository::new();
    let names = vec!["A".to_string(), "B".to_string()];
    let engine = ChemicalWorkflowFactory::create(&mut repo, "mi-flow".into(), WorkflowType::Cadma, names.clone()).unwrap();
    assert_eq!(repo.get_meta(engine.id, "workflow_type").unwrap(), "\"cadma\"");
    assert_eq!(repo.get_flow_status(engine.id).unwrap(), Some("created".to_string()));
    let flows = ChemicalWorkflowFactory::get_chem_flows(&repo).unwrap();
    assert_eq!(flows[0].1, WorkflowType::Cadma);
    let (loaded, snap) = ChemicalWorkflowFactory::load(&mut repo, engine.id, names).unwrap();
    assert_eq!(loaded.id, engine.id);
    assert_eq!(snap, None);
    assert_eq!(loaded.current_step, 1);
    assert_eq!(loaded.stored_current_step(&repo), 1);
    assert!(ChemicalWorkflowFactory::load(&mut repo, 12345, vec![]).is_err());
    let _unused: Option<FlowEngine> = None;
}
