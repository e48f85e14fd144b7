use nexus_engine::nodeshell::template::TemplateEngine;
use nexus_engine::nodeshell::types::{NodeMetadata, NodeOutput};

fn meta(run_count: u64, timed_out: bool) -> NodeMetadata {
    NodeMetadata { run_count, timed_out }
}

fn upstream_with(alias: &str, route: &str, content: &str) -> Vec<(String, NodeOutput)> {
    vec![(alias.to_string(), NodeOutput { route: route.to_string(), content: content.to_string() })]
}

fn none() -> Vec<(String, NodeOutput)> {
    Vec::new()
}

const SD: &str = "/my/scripts";

#[test]
fn plain_no_template() {
    assert_eq!(TemplateEngine::render("echo hello", &meta(1, false), &none(), SD), "echo hello");
}

#[test]
fn plain_metadata_run_count() {
    assert_eq!(TemplateEngine::render("round_{{metadata.run_count}}", &meta(5, false), &none(), SD), "round_5");
}

#[test]
fn plain_datarouter_route() {
    assert_eq!(TemplateEngine::render("{{datarouter.up.route}}", &meta(1, false), &upstream_with("up", "complete", "data"), SD), "complete");
}

#[test]
fn plain_datarouter_content() {
    assert_eq!(TemplateEngine::render("{{datarouter.up.content}}", &meta(1, false), &upstream_with("up", "ok", "hello world"), SD), "hello world");
}

#[test]
fn plain_node_dir() {
    assert_eq!(TemplateEngine::render("{{node_dir}}/tool.py", &meta(1, false), &none(), SD), "/my/scripts/tool.py");
}

#[test]
fn shell_escapes_spaces() {
    let result = TemplateEngine::render_shell("{{datarouter.up.content}}", &meta(1, false), &upstream_with("up", "ok", "hello world"), SD);
    assert!(result.contains("hello world"));
    assert!(result.contains('\'') || result.contains('"'));
}

#[test]
fn shell_node_dir() {
    let result = TemplateEngine::render_shell("python {{node_dir}}/tool.py", &meta(1, false), &none(), "/path/with spaces");
    assert!(result.contains("/path/with spaces"));
    assert!(result.contains('\'') || result.contains('"'));
}

#[test]
fn unknown_metadata_field_passthrough() {
    assert_eq!(TemplateEngine::render("{{metadata.unknown}}", &meta(1, false), &none(), SD), "{{metadata.unknown}}");
}

#[test]
fn missing_upstream_uses_fallback() {
    assert_eq!(TemplateEngine::render("{{datarouter.missing.route}}", &meta(1, false), &none(), SD), "");
}

#[test]
fn plain_braces_without_dot_passthrough() {
    assert_eq!(TemplateEngine::render("{{plain}}", &meta(1, false), &none(), SD), "{{plain}}");
}

#[test]
fn unclosed_placeholder_passthrough() {
    assert_eq!(TemplateEngine::render("hello {{world", &meta(1, false), &none(), SD), "hello {{world");
}

#[test]
fn metadata_timed_out_renders_bool() {
    assert_eq!(TemplateEngine::render("t={{metadata.timed_out}}", &meta(2, true), &none(), SD), "t=true");
    assert_eq!(TemplateEngine::render("t={{metadata.timed_out}}", &meta(2, false), &none(), SD), "t=false");
}

#[test]
fn shell_escape_wraps_plain_value() {
    assert_eq!(TemplateEngine::shell_escape("abc_1.2/x"), "'abc_1.2/x'");
}

#[test]
fn shell_escape_quotes_single_quote() {
    assert_eq!(TemplateEngine::shell_escape("it's"), "'it'\\''s'");
    assert_eq!(TemplateEngine::shell_escape(""), "''");
}

#[test]
fn render_without_placeholders_is_identity() {
    let t = "no braces here { } at all";
    assert_eq!(TemplateEngine::render(t, &meta(3, true), &upstream_with("a", "b", "c"), SD), t);
}

#[test]
fn several_placeholders_in_one_template() {
    let r = TemplateEngine::render(
        "{{metadata.run_count}}-{{datarouter.up.route}}-{{datarouter.up.content}}",
        &meta(7, false),
        &upstream_with("up", "r", "c"),
        SD,
    );
    assert_eq!(r, "7-r-c");
}

#[test]
fn windows_escape_doubles_quotes_and_percents() {
    assert_eq!(TemplateEngine::shell_escape_windows("say \"hi\" 100%"), "\"say \"\"hi\"\" 100%%\"");
    assert_eq!(TemplateEngine::shell_escape_windows(""), "\"\"");
}

#[test]
fn windows_render_quotes_values() {
    let r = TemplateEngine::render_shell_windows("type {{datarouter.up.content}}", &meta(1, false), &upstream_with("up", "ok", "a \"b\""), SD);
    assert_eq!(r, "type \"a \"\"b\"\"\"");
    let r = TemplateEngine::render_shell_windows("{{node_dir}}\\x.bat", &meta(1, false), &none(), "C:\\s");
    assert_eq!(r, "\"C:\\s\"\\x.bat");
}
