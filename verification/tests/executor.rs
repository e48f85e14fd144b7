use nexus_engine::model::provider::ProviderDef;
use nexus_engine::nodeshell::executor::{choose_scripts_dir, NodeExecutor};

#[test]
fn resolve_node_level_takes_precedence() {
    assert_eq!(choose_scripts_dir(Some("./my_scripts"), Some("./global"), None, None), "./my_scripts");
}

#[test]
fn resolve_workflow_level_when_node_not_set() {
    assert_eq!(choose_scripts_dir(None, Some("./global"), None, None), "./global");
}

#[test]
fn resolve_cwd_fallback() {
    let path = choose_scripts_dir(None, None, None, None);
    assert!(path.ends_with("scripts"), "got: {path:?}");
}

#[test]
fn resolve_env_then_exe_relative() {
    assert_eq!(choose_scripts_dir(None, None, Some("/env/s".into()), Some("/exe/scripts".into())), "/env/s");
    assert_eq!(choose_scripts_dir(None, None, Some(String::new()), Some("/exe/scripts".into())), "/exe/scripts");
    assert_eq!(choose_scripts_dir(None, None, None, None), "scripts");
}

#[test]
fn executor_follows_provider() {
    match NodeExecutor::from_provider(&ProviderDef::Shell { command: "ls | wc".into() }, "/s") {
        NodeExecutor::Subprocess(e) => assert_eq!(e.announcement("x").text, "[shell_node] x"),
        other => panic!("unexpected executor {other:?}"),
    }
    match NodeExecutor::from_provider(&ProviderDef::Subprocess { command: "echo".into() }, "/s") {
        NodeExecutor::Subprocess(e) => assert_eq!(e.announcement("x").text, "[subprocess_node] x"),
        other => panic!("unexpected executor {other:?}"),
    }
    let llm = ProviderDef::Llm { command: "cli".into(), prompt: None, routes: vec!["a".into()], max_tokens: None };
    match NodeExecutor::from_provider(&llm, "/s") {
        NodeExecutor::Llm(e) => assert_eq!(e.command_template(), "cli"),
        other => panic!("unexpected executor {other:?}"),
    }
    let sdk = ProviderDef::LlmSdk {
        model: "m".into(),
        api_key_env: None,
        system_prompt: None,
        prompt: None,
        routes: vec![],
        max_tokens: Some(5),
    };
    match NodeExecutor::from_provider(&sdk, "/s") {
        NodeExecutor::LlmSdk(e) => {
            assert_eq!(e.model(), "m");
            assert_eq!(e.wrapper_path(), "/s/llm_sdk.py");
        },
        other => panic!("unexpected executor {other:?}"),
    }
    let web = ProviderDef::Http { url: "http://x".into(), method: None, headers: None, body: None };
    assert!(matches!(NodeExecutor::from_provider(&web, "/s"), NodeExecutor::Http(_)));
}
