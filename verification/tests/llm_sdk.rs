use nexus_engine::nodeshell::llm_sdk::LlmSdkExecutor;
use nexus_engine::nodeshell::types::{NodeContext, NodeMetadata};

fn test_scripts_dir() -> String {
    "scripts".to_string()
}

fn get<'a>(entries: &'a [(String, String)], key: &str) -> Option<&'a str> {
    entries.iter().find(|(k, _)| k == key).map(|(_, v)| v.as_str())
}

#[test]
fn test_new_stores_config() {
    let exe = LlmSdkExecutor::new(
        "sonnet-model-20251001",
        None,
        Some("You are a code auditor.".into()),
        Some("Review: {{datarouter.code.content}}".into()),
        vec!["ok".into(), "reject".into()],
        Some(4096),
        test_scripts_dir(),
    );
    assert_eq!(exe.model(), "sonnet-model-20251001");
    assert_eq!(exe.system_prompt().as_deref(), Some("You are a code auditor."));
    assert_eq!(exe.routes(), &vec!["ok".to_string(), "reject".to_string()]);
    assert_eq!(exe.max_tokens(), Some(4096));
}

#[test]
fn test_build_context_adds_sdk_config() {
    let exe = LlmSdkExecutor::new(
        "sonnet-model-20251001",
        Some("MY_KEY_ENV".into()),
        Some("Be helpful.".into()),
        Some("Say hello".into()),
        vec!["ok".into()],
        Some(2048),
        test_scripts_dir(),
    );
    let ctx = NodeContext {
        inputs: Vec::new(),
        extensions: Vec::new(),
        metadata: NodeMetadata { run_count: 1, timed_out: false },
        upstream: Vec::new(),
    };
    let built = exe.build_context(&ctx);
    assert_eq!(get(&built.extensions, "_sdk_model").unwrap(), "sonnet-model-20251001");
    assert_eq!(get(&built.extensions, "_sdk_api_key_env").unwrap(), "MY_KEY_ENV");
    assert_eq!(get(&built.extensions, "_sdk_system_prompt").unwrap(), "Be helpful.");
    assert_eq!(get(&built.extensions, "_sdk_max_tokens").unwrap(), "2048");
    assert_eq!(get(&built.extensions, "prompt").unwrap(), "Say hello");
    assert_eq!(get(&built.extensions, "route").unwrap(), "ok");
}

#[test]
fn sdk_wrapper_lives_in_scripts_dir() {
    let exe = LlmSdkExecutor::new("m", None, None, None, vec![], None, "scripts".to_string());
    assert_eq!(exe.wrapper_path(), "scripts/llm_sdk.py");
    let exe2 = LlmSdkExecutor::new("m", None, None, None, vec![], None, "dir/".to_string());
    assert_eq!(exe2.wrapper_path(), "dir/llm_sdk.py");
}

#[test]
fn sdk_wrapper_override() {
    let exe = LlmSdkExecutor::new("m", None, None, None, vec![], None, "scripts".to_string());
    let o = exe.with_wrapper_override(Some("/opt/w.py".to_string()));
    assert_eq!(o.wrapper_path(), "/opt/w.py");
    let exe = LlmSdkExecutor::new("m", None, None, None, vec![], None, "scripts".to_string());
    let o = exe.with_wrapper_override(Some(String::new()));
    assert_eq!(o.wrapper_path(), "scripts/llm_sdk.py");
}

#[test]
fn sdk_context_without_optional_settings() {
    let exe = LlmSdkExecutor::new("m", None, None, None, vec![], None, "s".to_string());
    let built = exe.build_context(&NodeContext::default());
    assert_eq!(get(&built.extensions, "_sdk_model"), Some("m"));
    assert_eq!(get(&built.extensions, "_sdk_api_key_env"), None);
    assert_eq!(get(&built.extensions, "_sdk_max_tokens"), None);
    assert_eq!(get(&built.extensions, "prompt"), Some(""));
    assert_eq!(get(&built.extensions, "route"), None);
}
