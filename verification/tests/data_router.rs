use nexus_engine::graph::data_router::DataRouter;
use nexus_engine::model::predecessor::DataFlowDef;
use nexus_engine::nodeshell::types::NodeOutput;

fn no(content: &str) -> NodeOutput {
    NodeOutput { route: "ok".into(), content: content.into() }
}

fn no_route(route: &str, content: &str) -> NodeOutput {
    NodeOutput { route: route.into(), content: content.into() }
}

fn make_router(dataflows: Vec<DataFlowDef>) -> DataRouter {
    let ids = vec![("A".to_string(), 0usize), ("B".to_string(), 1usize), ("C".to_string(), 2usize)];
    DataRouter::new(&ids, &dataflows)
}

fn df(from: &str, to: &str) -> DataFlowDef {
    DataFlowDef { from: from.to_string(), to: to.to_string(), alias: None }
}

fn df_with_alias(from: &str, to: &str, alias: &str) -> DataFlowDef {
    DataFlowDef { from: from.to_string(), to: to.to_string(), alias: Some(alias.to_string()) }
}

fn get<'a, V>(entries: &'a [(String, V)], key: &str) -> Option<&'a V> {
    entries.iter().find(|(k, _)| k == key).map(|(_, v)| v)
}

#[test]
fn test_store_and_retrieve() {
    let mut router = make_router(vec![df("A", "C"), df("B", "C")]);
    router.store_output(0, &no("output_from_A"));
    router.store_output(1, &no("output_from_B"));
    let inputs = router.build_input(2);
    assert_eq!(inputs.len(), 2);
    assert_eq!(get(&inputs, "A"), Some(&"output_from_A".to_string()));
    assert_eq!(get(&inputs, "B"), Some(&"output_from_B".to_string()));
}

#[test]
fn test_overwrite_output() {
    let mut router = make_router(vec![df("A", "B")]);
    router.store_output(0, &no("first"));
    router.store_output(0, &no("second"));
    let inputs = router.build_input(1);
    assert_eq!(get(&inputs, "A"), Some(&"second".to_string()));
}

#[test]
fn test_missing_output_returns_empty() {
    let mut router = make_router(vec![df("A", "B")]);
    router.store_output(1, &no("B_data"));
    let inputs = router.build_input(1);
    assert_eq!(get(&inputs, "A"), Some(&String::new()));
}

#[test]
fn test_empty_flows_returns_empty() {
    let router = make_router(vec![]);
    let inputs = router.build_input(0);
    assert!(inputs.is_empty());
}

#[test]
fn test_clear_output_removes_stored_data() {
    let mut router = make_router(vec![df("A", "B")]);
    router.store_output(0, &no("stale"));
    router.clear_output(0);
    let inputs = router.build_input(1);
    assert_eq!(get(&inputs, "A"), Some(&String::new()));
}

#[test]
fn test_clear_output_noop_on_absent_node() {
    let mut router = make_router(vec![]);
    router.clear_output(99);
}

#[test]
fn test_alias_maps_to_correct_key() {
    let mut router = make_router(vec![df_with_alias("A", "C", "input_a")]);
    router.store_output(0, &no("val"));
    let inputs = router.build_input(2);
    assert_eq!(get(&inputs, "input_a"), Some(&"val".to_string()));
    assert!(get(&inputs, "A").is_none(), "alias should replace raw node ID");
}

#[test]
fn test_build_upstream() {
    let mut router = make_router(vec![df("A", "C"), df("B", "C")]);
    router.store_output(0, &no_route("complete", "data_a"));
    router.store_output(1, &no_route("fixed", "data_b"));
    let upstream = router.build_upstream(2);
    assert_eq!(get(&upstream, "A").map(|o| o.route.as_str()), Some("complete"));
    assert_eq!(get(&upstream, "A").map(|o| o.content.as_str()), Some("data_a"));
    assert_eq!(get(&upstream, "B").map(|o| o.route.as_str()), Some("fixed"));
}

#[test]
fn test_build_upstream_missing_returns_empty() {
    let router = make_router(vec![df("A", "C")]);
    let upstream = router.build_upstream(2);
    assert_eq!(get(&upstream, "A").map(|o| o.route.as_str()), Some(""));
    assert_eq!(get(&upstream, "A").map(|o| o.content.as_str()), Some(""));
}

#[test]
fn flows_from_unknown_nodes_are_ignored() {
    let mut router = make_router(vec![df("X", "C"), df("A", "Y"), df("A", "C")]);
    router.store_output(0, &no("a"));
    let inputs = router.build_input(2);
    assert_eq!(inputs, vec![("A".to_string(), "a".to_string())]);
}

#[test]
fn read_after_write_and_after_clear() {
    let mut router = make_router(vec![df_with_alias("B", "A", "b")]);
    router.store_output(1, &no_route("r", "payload"));
    assert_eq!(router.build_input(0), vec![("b".to_string(), "payload".to_string())]);
    router.clear_output(1);
    assert_eq!(router.build_input(0), vec![("b".to_string(), String::new())]);
    assert_eq!(get(&router.build_upstream(0), "b").map(|o| o.route.as_str()), Some(""));
}

#[test]
fn input_keys_are_the_aliases_of_known_flows_into_the_target() {
    let mut router = make_router(vec![
        df("A", "C"),
        df_with_alias("B", "C", "bee"),
        df("A", "B"),
        df("Z", "C"),
        df_with_alias("B", "C", "A"),
    ]);
    router.store_output(1, &no("from_b"));
    let inputs = router.build_input(2);
    let mut keys: Vec<&str> = inputs.iter().map(|(k, _)| k.as_str()).collect();
    keys.sort();
    assert_eq!(keys, vec!["A", "bee"]);
    assert_eq!(get(&inputs, "bee"), Some(&"from_b".to_string()));
    assert_eq!(get(&inputs, "A"), Some(&"from_b".to_string()), "the last flow under an alias wins");
    assert!(router.build_input(0).is_empty());
}
