use nexus_engine::nodeshell::subprocess::{process_outcome, SubprocessExecutor};
use nexus_engine::nodeshell::types::{NodeContext, NodeMetadata, NodeOutput};

#[test]
fn test_split_command_whitespace() {
    let (prog, args) = SubprocessExecutor::split_command("echo hello");
    assert_eq!(prog, "echo");
    assert_eq!(args, vec!["hello".to_string()]);
}

#[test]
fn test_split_command_no_args() {
    let (prog, args) = SubprocessExecutor::split_command("echo");
    assert_eq!(prog, "echo");
    assert!(args.is_empty());
}

#[test]
fn test_split_command_empty() {
    let (prog, args) = SubprocessExecutor::split_command("");
    assert_eq!(prog, "");
    assert!(args.is_empty());
}

#[test]
fn test_split_command_quoted_args() {
    let (prog, args) = SubprocessExecutor::split_command(r#"python "script with spaces.py" --flag"#);
    assert_eq!(prog, "python");
    assert_eq!(args, vec!["script with spaces.py".to_string(), "--flag".to_string()]);
}

#[test]
fn test_split_command_escaped_quote() {
    let (prog, args) = SubprocessExecutor::split_command(r#"echo "he said \"hello\"""#);
    assert_eq!(prog, "echo");
    assert_eq!(args, vec![r#"he said "hello""#.to_string()]);
}

#[test]
fn test_split_command_mixed_quoted_unquoted() {
    let (prog, args) = SubprocessExecutor::split_command(r#"cmd --input "data file.txt" --verbose"#);
    assert_eq!(prog, "cmd");
    assert_eq!(
        args,
        vec!["--input".to_string(), "data file.txt".to_string(), "--verbose".to_string()]
    );
}

#[test]
fn split_command_collapses_repeated_spaces() {
    let (prog, args) = SubprocessExecutor::split_command("  a   b  ");
    assert_eq!(prog, "a");
    assert_eq!(args, vec!["b".to_string()]);
}

#[test]
fn scripts_path_is_resolved() {
    let exe = SubprocessExecutor::new("python scripts/tool.py".to_string(), "C:\\nexus\\scripts".to_string());
    assert_eq!(exe.resolve_scripts_path("python scripts/tool.py"), "python C:/nexus/scripts/tool.py");
    assert_eq!(exe.resolve_scripts_path("echo hi"), "echo hi");
}

#[test]
fn prepare_command_renders_templates() {
    let exe = SubprocessExecutor::new("run {{metadata.run_count}} scripts/x".to_string(), "/s".to_string());
    let mut ctx = NodeContext { metadata: NodeMetadata { run_count: 4, timed_out: false }, ..NodeContext::default() };
    assert_eq!(exe.prepare_command(&mut ctx), "run 4 /s/x");
}

#[test]
fn prepare_command_quotes_values_in_shell_mode() {
    let exe = SubprocessExecutor::new_shell("echo {{datarouter.a.content}}".to_string(), "/s".to_string());
    let mut ctx = NodeContext {
        upstream: vec![("a".to_string(), NodeOutput { route: "r".to_string(), content: "x y".to_string() })],
        ..NodeContext::default()
    };
    assert_eq!(exe.prepare_command(&mut ctx), "echo 'x y'");
}

#[test]
fn launch_args_shell_and_direct() {
    let sh = SubprocessExecutor::new_shell("ls | wc".to_string(), "s".to_string());
    let (p, a) = sh.launch_args("ls | wc").unwrap();
    assert_eq!(p, "sh");
    assert_eq!(a, vec!["-c".to_string(), "ls | wc".to_string()]);

    let direct = SubprocessExecutor::new("echo a b".to_string(), "s".to_string());
    let (p, a) = direct.launch_args("echo a b").unwrap();
    assert_eq!(p, "echo");
    assert_eq!(a, vec!["a".to_string(), "b".to_string()]);

    let err = direct.launch_args("   ").unwrap_err();
    assert_eq!(err.message, "empty command");
}

#[test]
fn announcement_labels_mode() {
    let sh = SubprocessExecutor::new_shell("x".to_string(), "s".to_string());
    assert_eq!(sh.announcement("x").text, "[shell_node] x");
    let direct = SubprocessExecutor::new("x".to_string(), "s".to_string());
    assert_eq!(direct.announcement("x").text, "[subprocess_node] x");
}

#[test]
fn process_outcome_parsed_output() {
    let o = process_outcome(
        0,
        "{...}".to_string(),
        String::new(),
        Ok(NodeOutput { route: "result".to_string(), content: "hello world".to_string() }),
    )
    .unwrap();
    assert_eq!(o.output.route, "result");
    assert_eq!(o.output.content, "hello world");
    assert_eq!(o.exit_code, 0);
    assert!(!o.timed_out());
}

#[test]
fn process_outcome_missing_route_is_protocol_error() {
    let e = process_outcome(
        0,
        "{\"content\":\"x\"}".to_string(),
        String::new(),
        Ok(NodeOutput { route: String::new(), content: "x".to_string() }),
    )
    .unwrap_err();
    assert!(e.message.contains("route"));
}

#[test]
fn process_outcome_plain_text_with_zero_exit_fails() {
    let e = process_outcome(0, "just text".to_string(), String::new(), Err("expected value".to_string())).unwrap_err();
    assert_eq!(e.message, "stdout is not valid JSON with 'route' field: expected value");
}

#[test]
fn process_outcome_nonzero_exit_routes_to_failed() {
    let o = process_outcome(2, "x".to_string(), "bad".to_string(), Err("eof".to_string())).unwrap();
    assert_eq!(o.output.route, "failed");
    assert_eq!(o.output.content, "process exited with code 2. stderr: bad. stdout parse error: eof");
    assert_eq!(o.exit_reason.as_deref(), Some("failed"));
    let neg = process_outcome(-3, String::new(), String::new(), Err("e".to_string())).unwrap();
    assert_eq!(neg.output.content, "process exited with code -3. stderr: . stdout parse error: e");
}

#[test]
fn process_outcome_timeout_keeps_partial_stdout() {
    let o = process_outcome(-9, "partial".to_string(), String::new(), Err("e".to_string())).unwrap();
    assert!(o.timed_out());
    assert_eq!(o.output.content, "partial");
    assert_eq!(o.output.route, "");
    assert_eq!(o.exit_reason, None);
}

#[test]
fn quote_free_command_splits_on_whitespace() {
    let cmd = "  python3\tscript.py  --flag   value \n";
    let words: Vec<String> = cmd.split_whitespace().map(String::from).collect();
    let (program, args) = SubprocessExecutor::split_command(cmd);
    assert_eq!(program, words[0]);
    assert_eq!(args, words[1..].to_vec());
}

#[test]
fn zero_exit_errors_only_for_unparsable_or_routeless_stdout() {
    let ok = process_outcome(0, "{}".to_string(), String::new(), Ok(NodeOutput { route: "next".into(), content: "c".into() })).unwrap();
    assert_eq!(ok.exit_code, 0);
    assert_eq!(ok.output.route, "next");
    assert_eq!(ok.exit_reason.as_deref(), Some("next"));
    let e = process_outcome(0, "  {}  ".to_string(), String::new(), Ok(NodeOutput { route: String::new(), content: String::new() })).unwrap_err();
    assert_eq!(e.message, "stdout is not valid JSON with 'route' field: missing route");
    let e = process_outcome(0, "oops".to_string(), String::new(), Err("bad".to_string())).unwrap_err();
    assert!(e.message.contains("route"));
}

#[test]
fn sanitizing_twice_changes_nothing_more() {
    let mut ctx = NodeContext {
        inputs: vec![("k".to_string(), "v\u{1F600}".to_string())],
        extensions: vec![("e".to_string(), "x".to_string())],
        upstream: vec![("u".to_string(), NodeOutput { route: "r".into(), content: "c".into() })],
        ..NodeContext::default()
    };
    ctx.sanitize_surrogates();
    let once = ctx.clone();
    ctx.sanitize_surrogates();
    assert_eq!(ctx.inputs, once.inputs);
    assert_eq!(ctx.extensions, once.extensions);
    assert_eq!(ctx.upstream, once.upstream);
    assert_eq!(ctx.inputs[0].1, "v\u{1F600}");
}

#[test]
fn windows_launch_uses_cmd_with_raw_command() {
    let sh = SubprocessExecutor::new_shell("echo \"hi\"".to_string(), "s".to_string());
    let (p, a) = sh.launch_args_windows("echo \"hi\"").unwrap();
    assert_eq!(p, "cmd.exe");
    assert_eq!(a, vec!["/c".to_string(), " echo \"hi\"".to_string()]);
    let direct = SubprocessExecutor::new("echo a".to_string(), "s".to_string());
    let (p, a) = direct.launch_args_windows("echo a").unwrap();
    assert_eq!(p, "echo");
    assert_eq!(a, vec!["a".to_string()]);
}

#[test]
fn windows_prepare_command_double_quotes_in_shell_mode() {
    let exe = SubprocessExecutor::new_shell("echo {{datarouter.a.content}}".to_string(), "/s".to_string());
    let mut ctx = NodeContext {
        upstream: vec![("a".to_string(), NodeOutput { route: "r".to_string(), content: "50% \"x\"".to_string() })],
        ..NodeContext::default()
    };
    assert_eq!(exe.prepare_command_windows(&mut ctx), "echo \"50%% \"\"x\"\"\"");
    assert!(exe.shell_mode());
    let direct = SubprocessExecutor::new("run {{metadata.run_count}}".to_string(), "/s".to_string());
    let mut ctx = NodeContext { metadata: NodeMetadata { run_count: 2, timed_out: false }, ..NodeContext::default() };
    assert_eq!(direct.prepare_command_windows(&mut ctx), "run 2");
    assert!(!direct.shell_mode());
}
