use nexus_engine::graph::validator::{first_unentered_component, validate};
use nexus_engine::model::error::ValidationError;
use nexus_engine::model::predecessor::{DataFlowDef, EventType, SchedulingEdgeDef, TriggerExpr};
use nexus_engine::model::provider::ProviderDef;
use nexus_engine::model::workflow::{NodeDef, WorkflowDef};

fn make_node(id: &str) -> NodeDef {
    NodeDef {
        id: id.into(),
        providers: vec![ProviderDef::Subprocess { command: "echo".into() }],
        process_timeout_secs: 10,
        returns: vec![],
        max_retries: None,
        route_policy: None,
        scripts_dir: None,
    }
}

fn make_node_with_providers(id: &str, providers: Vec<ProviderDef>) -> NodeDef {
    NodeDef { providers, route_policy: None, ..make_node(id) }
}

fn sched_edge(from: &str, to: &str) -> SchedulingEdgeDef {
    SchedulingEdgeDef {
        from: from.into(),
        to: to.into(),
        trigger: TriggerExpr::All,
        event: EventType::Complete,
        exit_reason: None,
        threshold: 1,
    }
}

fn workflow(nodes: Vec<NodeDef>, edges: Vec<SchedulingEdgeDef>, dataflows: Vec<DataFlowDef>) -> WorkflowDef {
    WorkflowDef { nodes, edges, dataflows, scripts_dir: None }
}

/// Validation with every `llm` node's wrapper script present.
fn check(def: &WorkflowDef) -> Result<(), Vec<ValidationError>> {
    validate(def, &vec![true; def.nodes.len()])
}

#[test]
fn test_empty_graph() {
    let def = workflow(vec![], vec![], vec![]);
    let result = check(&def);
    assert!(result.is_err(), "empty graph should fail validation");
    let errors = result.unwrap_err();
    assert!(errors.contains(&ValidationError::EmptyGraph));
    assert_eq!(errors.len(), 1);
}

#[test]
fn test_duplicate_node_id() {
    let def = workflow(vec![make_node("a"), make_node("a")], vec![], vec![]);
    let result = check(&def);
    assert!(result.is_err(), "duplicate node ID should fail validation");
    let errors = result.unwrap_err();
    assert!(errors.contains(&ValidationError::DuplicateNodeId { node_id: "a".into() }));
}

#[test]
fn test_no_entry_node() {
    let def = workflow(vec![make_node("a"), make_node("b")], vec![sched_edge("a", "b"), sched_edge("b", "a")], vec![]);
    let result = check(&def);
    assert!(result.is_err(), "no entry node should fail validation");
    let errors = result.unwrap_err();
    assert!(errors.contains(&ValidationError::NoEntryNode));
}

#[test]
fn test_unreachable_node() {
    let def = workflow(
        vec![make_node("a"), make_node("b"), make_node("c"), make_node("d")],
        vec![sched_edge("a", "b"), sched_edge("d", "c"), sched_edge("c", "d")],
        vec![],
    );
    let result = check(&def);
    assert!(result.is_err(), "unreachable node should fail validation");
    let errors = result.unwrap_err();
    assert!(
        errors.iter().any(|e| matches!(e, ValidationError::UnreachableNode { node_id } if node_id == "c")),
        "node c should be reported as unreachable"
    );
    assert!(
        errors.iter().any(|e| matches!(e, ValidationError::UnreachableNode { node_id } if node_id == "d")),
        "node d should be reported as unreachable"
    );
}

#[test]
fn test_exit_not_reachable() {
    let def = workflow(
        vec![make_node("a"), make_node("b"), make_node("c")],
        vec![sched_edge("a", "b"), sched_edge("c", "c")],
        vec![],
    );
    let result = check(&def);
    assert!(result.is_err(), "exit not reachable should fail validation");
    let errors = result.unwrap_err();
    let has_exit_err = errors.iter().any(|e| matches!(e, ValidationError::ExitNotReachable { .. }));
    assert!(has_exit_err || errors.iter().any(|e| matches!(e, ValidationError::UnreachableNode { .. })));
}

#[test]
fn test_cycle_without_entry() {
    let def = workflow(vec![make_node("a"), make_node("b")], vec![sched_edge("a", "b"), sched_edge("b", "a")], vec![]);
    let result = check(&def);
    assert!(result.is_err(), "cycle without entry should fail validation");
    let errors = result.unwrap_err();
    assert!(errors.contains(&ValidationError::CycleWithoutEntry));
}

#[test]
fn test_no_valid_provider() {
    let def = workflow(vec![make_node_with_providers("a", vec![])], vec![], vec![]);
    let result = check(&def);
    assert!(result.is_err(), "no provider should fail validation");
    let errors = result.unwrap_err();
    assert!(errors.contains(&ValidationError::NoValidProvider { node_id: "a".into() }));
}

#[test]
fn test_input_source_not_found() {
    let def = workflow(
        vec![make_node("a"), make_node("b")],
        vec![],
        vec![DataFlowDef { from: "nonexistent".into(), to: "b".into(), alias: None }],
    );
    let result = check(&def);
    assert!(result.is_err(), "input source not found should fail validation");
    let errors = result.unwrap_err();
    assert!(errors.contains(&ValidationError::InputSourceNotFound {
        node_id: "b".into(),
        source_id: "nonexistent".into(),
    }));
}

#[test]
fn test_input_source_unreachable() {
    let def = workflow(
        vec![make_node("a"), make_node("b"), make_node("c"), make_node("d")],
        vec![sched_edge("a", "b"), sched_edge("c", "c")],
        vec![DataFlowDef { from: "c".into(), to: "d".into(), alias: None }],
    );
    let result = check(&def);
    assert!(result.is_err(), "input source unreachable should fail validation");
    let errors = result.unwrap_err();
    assert!(
        errors.iter().any(|e| matches!(e, ValidationError::InputSourceUnreachable { node_id, source_id }
            if node_id == "d" && source_id == "c")),
        "d's input source c is unreachable from entry"
    );
}

#[test]
fn test_valid_chain_passes() {
    let def = workflow(vec![make_node("a"), make_node("b")], vec![sched_edge("a", "b")], vec![]);
    let result = check(&def);
    assert!(result.is_ok(), "valid chain should pass validation: {result:?}");
}

#[test]
fn test_valid_fan_in_passes() {
    let def = workflow(
        vec![make_node("a"), make_node("b"), make_node("c")],
        vec![sched_edge("a", "c"), sched_edge("b", "c")],
        vec![],
    );
    let result = check(&def);
    assert!(result.is_ok(), "valid fan-in should pass validation: {result:?}");
}

#[test]
fn test_valid_single_node_passes() {
    let def = workflow(vec![make_node("a")], vec![], vec![]);
    let result = check(&def);
    assert!(result.is_ok(), "single node should pass validation: {result:?}");
}

#[test]
fn test_two_isolated_nodes_passes() {
    let def = workflow(vec![make_node("a"), make_node("b")], vec![], vec![]);
    let result = check(&def);
    assert!(result.is_ok(), "two isolated nodes should pass: {result:?}");
}

#[test]
fn zero_timeout_is_rejected() {
    let def = workflow(vec![NodeDef { process_timeout_secs: 0, ..make_node("a") }], vec![], vec![]);
    assert_eq!(check(&def).unwrap_err(), vec![ValidationError::ZeroTimeout { node_id: "a".into() }]);
}

#[test]
fn missing_llm_wrapper_is_reported() {
    let llm = ProviderDef::Llm { command: "llmcli".into(), prompt: None, routes: vec![], max_tokens: None };
    let def = workflow(vec![make_node_with_providers("a", vec![llm])], vec![], vec![]);
    assert!(validate(&def, &vec![true]).is_ok());
    assert_eq!(
        validate(&def, &vec![false]).unwrap_err(),
        vec![ValidationError::LlmNodeMissingWrapper { node_id: "a".into(), scripts_dir: "./scripts".into() }]
    );
}

#[test]
fn template_references_are_checked() {
    let cmd = ProviderDef::Subprocess { command: "run {{metadata.bogus}} {{datarouter.a.body}} {{env.home}}".into() };
    let def = workflow(
        vec![make_node("a"), make_node_with_providers("b", vec![cmd])],
        vec![sched_edge("a", "b")],
        vec![],
    );
    let errors = check(&def).unwrap_err();
    assert!(errors.contains(&ValidationError::UnknownMetadataField { node_id: "b".into(), field: "bogus".into() }));
    assert!(errors.contains(&ValidationError::UnknownDatarouterField {
        node_id: "b".into(),
        source_id: "a".into(),
        field: "body".into(),
    }));
    assert!(errors.contains(&ValidationError::DatarouterRefWithoutDataflow { node_id: "b".into(), source_id: "a".into() }));
    assert!(errors.contains(&ValidationError::UnrecognizedTemplate { node_id: "b".into(), template: "env.home".into() }));
}

#[test]
fn datarouter_reference_with_dataflow_passes() {
    let cmd = ProviderDef::Subprocess { command: "run {{datarouter.a.content}}".into() };
    let def = workflow(
        vec![make_node("a"), make_node_with_providers("b", vec![cmd])],
        vec![sched_edge("a", "b")],
        vec![DataFlowDef { from: "a".into(), to: "b".into(), alias: None }],
    );
    assert!(check(&def).is_ok());
}

#[test]
fn first_unentered_component_picks_cycle_no_entry_reaches() {
    let ids = vec!["E".to_string(), "X".to_string(), "Y".to_string(), "Z".to_string()];
    let pairs = vec![
        ("E".to_string(), "X".to_string()),
        ("Y".to_string(), "Z".to_string()),
        ("Z".to_string(), "Y".to_string()),
    ];
    let reached = vec!["E".to_string(), "X".to_string()];
    let sccs = vec![vec![0usize], vec![1usize], vec![2usize, 3usize]];
    assert_eq!(first_unentered_component(&ids, &pairs, &reached, &sccs), Some("Y".to_string()));
    let all_reached = vec!["E".to_string(), "X".to_string(), "Y".to_string(), "Z".to_string()];
    assert_eq!(first_unentered_component(&ids, &pairs, &all_reached, &sccs), None);
    let self_loop = vec![("X".to_string(), "X".to_string())];
    let lone = vec![vec![1usize]];
    assert_eq!(first_unentered_component(&ids, &self_loop, &vec!["E".to_string()], &lone), Some("X".to_string()));
    assert_eq!(first_unentered_component(&ids, &pairs, &vec!["E".to_string()], &lone), None);
}
