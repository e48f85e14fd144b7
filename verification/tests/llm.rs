use nexus_engine::nodeshell::llm::{join_commas, join_inputs, wrapper_outcome, LlmExecutor};
use nexus_engine::nodeshell::types::{NodeContext, NodeMetadata, NodeOutput};

fn get<'a>(entries: &'a [(String, String)], key: &str) -> Option<&'a str> {
    entries.iter().find(|(k, _)| k == key).map(|(_, v)| v.as_str())
}

#[test]
fn test_render_inputs() {
    let metadata = NodeMetadata { run_count: 1, timed_out: false };
    let upstream = Vec::new();
    let result = LlmExecutor::render_inputs("No templates here", &metadata, &upstream);
    assert_eq!(result, "No templates here");
}

#[test]
fn test_render_metadata_run_count() {
    let metadata = NodeMetadata { run_count: 3, timed_out: false };
    let upstream = Vec::new();
    let result = LlmExecutor::render_inputs("Round {{metadata.run_count}}", &metadata, &upstream);
    assert_eq!(result, "Round 3");
}

#[test]
fn test_render_metadata_timed_out() {
    let metadata = NodeMetadata { run_count: 1, timed_out: true };
    let upstream = Vec::new();
    let result = LlmExecutor::render_inputs("timed_out={{metadata.timed_out}}", &metadata, &upstream);
    assert_eq!(result, "timed_out=true");
}

#[test]
fn test_render_datarouter_route() {
    let metadata = NodeMetadata { run_count: 1, timed_out: false };
    let upstream = vec![(
        "merge".to_string(),
        NodeOutput { route: "dispatch".to_string(), content: "summary text".to_string() },
    )];
    let result = LlmExecutor::render_inputs("Route was {{datarouter.merge.route}}", &metadata, &upstream);
    assert_eq!(result, "Route was dispatch");
}

#[test]
fn test_render_datarouter_content() {
    let metadata = NodeMetadata { run_count: 1, timed_out: false };
    let upstream = vec![(
        "merge".to_string(),
        NodeOutput { route: "dispatch".to_string(), content: "summary text".to_string() },
    )];
    let result = LlmExecutor::render_inputs("Content: {{datarouter.merge.content}}", &metadata, &upstream);
    assert_eq!(result, "Content: summary text");
}

#[test]
fn test_new_stores_command_template() {
    let exe = LlmExecutor::new("llmcli -p \"{{prompt}}\" --output-format json", None, vec![], None);
    assert_eq!(exe.command_template(), "llmcli -p \"{{prompt}}\" --output-format json");
}

#[test]
fn test_new_any_cli() {
    let exe = LlmExecutor::new("nga run --json \"{{prompt}}\"", None, vec!["ok".into()], Some(512));
    assert_eq!(exe.command_template(), "nga run --json \"{{prompt}}\"");
    assert_eq!(exe.routes(), &vec!["ok".to_string()]);
}

#[test]
fn test_build_context_adds_prompt_and_routes() {
    let ctx = NodeContext {
        inputs: vec![("seed".to_string(), "hello".to_string())],
        extensions: Vec::new(),
        metadata: NodeMetadata { run_count: 1, timed_out: false },
        upstream: vec![(
            "seed".to_string(),
            NodeOutput { route: "ok".to_string(), content: "hello".to_string() },
        )],
    };
    let exe = LlmExecutor::new(
        "llmcli -p \"{{prompt}}\"",
        Some("Review: {{datarouter.seed.content}}".into()),
        vec!["ok".into(), "err".into()],
        None,
    );
    let built = exe.build_context(&ctx);
    assert_eq!(get(&built.extensions, "prompt").unwrap(), "Review: hello");
    assert_eq!(get(&built.extensions, "route").unwrap(), "ok,err");
}

#[test]
fn prompt_without_template_lists_inputs() {
    let ctx = NodeContext {
        inputs: vec![("a".to_string(), "one".to_string()), ("b".to_string(), "two".to_string())],
        ..NodeContext::default()
    };
    let exe = LlmExecutor::new("cli {{prompt}}", None, vec![], None);
    assert_eq!(exe.prompt_for(&ctx), "[a]: one\n[b]: two");
    let built = exe.build_context(&ctx);
    assert_eq!(get(&built.extensions, "prompt").unwrap(), "[a]: one\n[b]: two");
    assert_eq!(get(&built.extensions, "route"), None);
}

#[test]
fn prompt_without_template_or_inputs_is_empty() {
    let exe = LlmExecutor::new("cli", None, vec![], None);
    assert_eq!(exe.prompt_for(&NodeContext::default()), "");
}

#[test]
fn prompt_keeps_node_dir_placeholder() {
    let metadata = NodeMetadata { run_count: 1, timed_out: false };
    let r = LlmExecutor::render_inputs("{{node_dir}}/x", &metadata, &Vec::new());
    assert_eq!(r, "{{node_dir}}/x");
}

#[test]
fn join_helpers() {
    assert_eq!(join_commas(&vec!["a".to_string(), "b".to_string(), "c".to_string()]), "a,b,c");
    assert_eq!(join_commas(&Vec::new()), "");
    assert_eq!(join_inputs(&vec![("k".to_string(), "v".to_string())]), "[k]: v");
}

#[test]
fn wrapper_path_choice() {
    assert_eq!(LlmExecutor::choose_wrapper_path(Some("/x/w.py".into()), Some("/e/w.py".into())), "/x/w.py");
    assert_eq!(LlmExecutor::choose_wrapper_path(Some(String::new()), Some("/e/w.py".into())), "/e/w.py");
    assert_eq!(LlmExecutor::choose_wrapper_path(None, None), "scripts/llm_node.py");
}

#[test]
fn wrapper_outcome_cases() {
    let t = wrapper_outcome(-9, true, "partial".to_string(), None);
    assert_eq!(t.output.route, "timeout");
    assert_eq!(t.output.content, "partial");
    assert_eq!(t.exit_reason.as_deref(), Some("timeout"));

    let p = wrapper_outcome(
        0,
        false,
        "{..}".to_string(),
        Some(NodeOutput { route: "ok".to_string(), content: "c".to_string() }),
    );
    assert_eq!(p.output.route, "ok");
    assert_eq!(p.output.content, "c");
    assert_eq!(p.exit_reason.as_deref(), Some("ok"));

    let raw = wrapper_outcome(3, false, "plain text".to_string(), None);
    assert_eq!(raw.output.route, "");
    assert_eq!(raw.output.content, "plain text");
    assert_eq!(raw.exit_code, 3);
    assert_eq!(raw.exit_reason, None);
}

#[test]
fn empty_placeholder_does_not_stop_prompt_rendering() {
    let metadata = NodeMetadata { run_count: 4, timed_out: false };
    let upstream = Vec::new();
    let result = LlmExecutor::render_inputs("{{}} {{metadata.run_count}}", &metadata, &upstream);
    assert_eq!(result, "{{}} 4");
}
