use nexus_engine::dashboard::messages::ServerMessage;
use nexus_engine::dashboard::models::{RunRow, WorkflowRow};
use nexus_engine::dashboard::static_files::mime_type;
use nexus_engine::dashboard::topology::{definition_graph, edge_label, parse_definition};

#[test]
fn node_status_message() {
    match ServerMessage::node_status("n1", "Running") {
        ServerMessage::NodeStatus(p) => {
            assert_eq!(p.node_id, "n1");
            assert_eq!(p.status, "Running");
            assert!(p.ts > 0);
        },
        other => panic!("unexpected {other:?}"),
    }
}

#[test]
fn node_chunk_message() {
    match ServerMessage::node_chunk("n1", "line") {
        ServerMessage::NodeChunk(p) => {
            assert_eq!(p.node_id, "n1");
            assert_eq!(p.text, "line");
        },
        other => panic!("unexpected {other:?}"),
    }
}

#[test]
fn snapshot_done_and_error_messages() {
    match ServerMessage::snapshot(1, 12, vec![("a".to_string(), "Running".to_string())]) {
        ServerMessage::Snapshot(p) => {
            assert_eq!(p.running_count, 1);
            assert_eq!(p.elapsed_secs, 12);
            assert_eq!(p.nodes, vec![("a".to_string(), "Running".to_string())]);
        },
        other => panic!("unexpected {other:?}"),
    }
    match ServerMessage::workflow_done("completed", 5) {
        ServerMessage::WorkflowDone(p) => {
            assert_eq!(p.status, "completed");
            assert_eq!(p.duration_secs, 5);
        },
        other => panic!("unexpected {other:?}"),
    }
    match ServerMessage::error("boom") {
        ServerMessage::Error(p) => assert_eq!(p.message, "boom"),
        other => panic!("unexpected {other:?}"),
    }
}

#[test]
fn mime_types_by_extension() {
    assert_eq!(mime_type("index.html"), "text/html; charset=utf-8");
    assert_eq!(mime_type("app.css"), "text/css; charset=utf-8");
    assert_eq!(mime_type("main.js"), "application/javascript; charset=utf-8");
    assert_eq!(mime_type("data.json"), "application/json; charset=utf-8");
    assert_eq!(mime_type("logo.png"), "image/png");
    assert_eq!(mime_type("icon.svg"), "image/svg+xml");
    assert_eq!(mime_type("mod.wasm"), "application/wasm");
    assert_eq!(mime_type("README"), "application/octet-stream");
    assert_eq!(mime_type("js"), "application/octet-stream");
}

#[test]
fn rows_hold_their_fields() {
    let w = WorkflowRow {
        id: "w".into(),
        name: "n".into(),
        definition: "{}".into(),
        created_at: "t0".into(),
        updated_at: "t1".into(),
    };
    assert_eq!(w.clone(), w);
    let r = RunRow { id: "r".into(), workflow_id: "w".into(), status: "running".into(), started_at: None, finished_at: None };
    assert_eq!(r.workflow_id, w.id);
}

#[test]
fn edge_labels() {
    assert_eq!(edge_label(Some("all"), Some("complete"), Some("ok")), "all/complete/ok");
    assert_eq!(edge_label(None, None, None), "all/complete");
    assert_eq!(edge_label(Some("any"), Some("failed"), Some("")), "any/failed");
    assert_eq!(edge_label(None, Some("timeout"), Some("slow")), "all/timeout/slow");
}

#[test]
fn node_status_message_carries_given_timestamp() {
    match ServerMessage::node_status_at("fetch", "Running", 1_700_000_000) {
        ServerMessage::NodeStatus(p) => {
            assert_eq!(p.node_id, "fetch");
            assert_eq!(p.status, "Running");
            assert_eq!(p.ts, 1_700_000_000);
        },
        other => panic!("unexpected {other:?}"),
    }
    match ServerMessage::node_chunk_at("fetch", "line", 7) {
        ServerMessage::NodeChunk(p) => {
            assert_eq!(p.text, "line");
            assert_eq!(p.ts, 7);
        },
        other => panic!("unexpected {other:?}"),
    }
}

#[test]
fn graph_edges_carry_trigger_threshold_and_label() {
    let text = r#"{"nodes":[{"id":"A","providers":[{"type":"subprocess","command":"echo a"}],"process_timeout_secs":10},
        {"id":"B","providers":[{"type":"subprocess","command":"echo b"}],"process_timeout_secs":10}],
        "edges":[{"from":"A","to":"B","trigger":"all","event":"complete","exit_reason":"ok","threshold":2}]}"#;
    let shape = parse_definition(text).expect("parses");
    assert_eq!(shape.nodes.len(), 2);
    assert_eq!(shape.edges.len(), 1);
    let g = definition_graph(text).expect("graph");
    assert_eq!(g.nodes.len(), 2);
    assert_eq!(g.nodes[0].id.as_deref(), Some("A"));
    assert_eq!(g.nodes[1].label.as_deref(), Some("B"));
    assert_eq!(g.edges.len(), 1);
    let e = &g.edges[0];
    assert_eq!(e.edge.from.as_deref(), Some("A"));
    assert_eq!(e.edge.to.as_deref(), Some("B"));
    assert_eq!(e.edge.trigger.as_deref(), Some("all"));
    assert_eq!(e.edge.threshold, Some(2));
    assert!(e.label.starts_with("all/"));
    assert_eq!(e.label, "all/complete/ok");
}

#[test]
fn invalid_definition_is_reported() {
    match parse_definition("{not json") {
        Err(e) => assert!(e.starts_with("invalid definition: ")),
        Ok(_) => panic!("expected an error"),
    }
    assert!(definition_graph("").is_err());
}
