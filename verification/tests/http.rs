use nexus_engine::model::provider::ProviderDef;
use nexus_engine::nodeshell::http::{outcome_from_response, resolve_route, route_for_response, HttpExecutor};
use nexus_engine::nodeshell::types::{NodeContext, NodeMetadata, NodeOutput};

#[test]
fn resolve_route_from_json() {
    let route = resolve_route(200, r#"{"route":"approved","content":"x"}"#);
    assert_eq!(route, "approved");
}

#[test]
fn resolve_route_empty_route_field_falls_back() {
    let route = resolve_route(200, r#"{"route":"","content":"x"}"#);
    assert_eq!(route, "ok");
}

#[test]
fn resolve_route_missing_route_field_falls_back() {
    let route = resolve_route(200, r#"{"content":"x"}"#);
    assert_eq!(route, "ok");
}

#[test]
fn resolve_route_2xx_status() {
    let route = resolve_route(200, "not json");
    assert_eq!(route, "ok");
}

#[test]
fn resolve_route_4xx_status() {
    let route = resolve_route(404, "not found");
    assert_eq!(route, "client_error");
}

#[test]
fn resolve_route_5xx_status() {
    let route = resolve_route(502, "bad gateway");
    assert_eq!(route, "server_error");
}

#[test]
fn resolve_route_3xx_status() {
    let route = resolve_route(302, "redirect");
    assert_eq!(route, "unknown");
}

#[test]
fn route_string_must_be_a_json_string() {
    assert_eq!(resolve_route(500, r#"{"route":7}"#), "server_error");
    assert_eq!(resolve_route(201, r#"["route"]"#), "ok");
}

#[test]
fn route_for_response_prefers_named_route() {
    assert_eq!(route_for_response(500, Some("retry".to_string())), "retry");
    assert_eq!(route_for_response(500, Some(String::new())), "server_error");
    assert_eq!(route_for_response(299, None), "ok");
    assert_eq!(route_for_response(600, None), "unknown");
}

#[test]
fn outcome_from_response_maps_status() {
    let ok = outcome_from_response(200, r#"{"route":"done"}"#.to_string());
    assert_eq!(ok.output.route, "done");
    assert_eq!(ok.output.content, r#"{"route":"done"}"#);
    assert_eq!(ok.exit_code, 0);
    assert_eq!(ok.exit_reason.as_deref(), Some("done"));
    let bad = outcome_from_response(404, "nope".to_string());
    assert_eq!(bad.output.route, "client_error");
    assert_eq!(bad.exit_code, 1);
}

fn http(method: Option<&str>, body: Option<&str>) -> ProviderDef {
    ProviderDef::Http {
        url: "http://h/{{datarouter.a.content}}".into(),
        method: method.map(|m| m.to_string()),
        headers: Some(vec![("X-Key".to_string(), "v".to_string())]),
        body: body.map(|b| b.to_string()),
    }
}

#[test]
fn request_is_rendered_and_method_upper_cased() {
    let exe = HttpExecutor::from_provider(&http(Some("post"), Some("{\"n\":{{metadata.run_count}}}")), "/s");
    let ctx = NodeContext {
        metadata: NodeMetadata { run_count: 3, timed_out: false },
        upstream: vec![("a".to_string(), NodeOutput { route: "r".into(), content: "x".into() })],
        ..NodeContext::default()
    };
    let req = exe.prepare_request(&ctx).unwrap();
    assert_eq!(req.method, "POST");
    assert_eq!(req.url, "http://h/x");
    assert_eq!(req.body.as_deref(), Some("{\"n\":3}"));
    assert_eq!(
        req.headers,
        vec![
            ("X-Key".to_string(), "v".to_string()),
            ("Content-Type".to_string(), "application/json".to_string())
        ]
    );
}

#[test]
fn request_defaults_to_get_without_body() {
    let exe = HttpExecutor::from_provider(&http(None, None), "/s");
    let req = exe.prepare_request(&NodeContext::default()).unwrap();
    assert_eq!(req.method, "GET");
    assert_eq!(req.body, None);
    assert_eq!(req.headers.len(), 1);
}

#[test]
fn unsupported_method_is_an_error() {
    let exe = HttpExecutor::from_provider(&http(Some("trace"), None), "/s");
    let err = exe.prepare_request(&NodeContext::default()).unwrap_err();
    assert_eq!(err.message, "unsupported HTTP method: TRACE");
}
