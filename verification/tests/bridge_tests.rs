use seq_everruns_bridge::bridge::{
    build_request, map_tool_name_to_seq_op, parse_tool_call_requested, BridgeError, ToolCall,
    ToolResult,
};
use seq_everruns_bridge::catalog::client_side_tool_definitions;
use seq_everruns_bridge::json::JsonValue;

fn obj(pairs: Vec<(&str, JsonValue)>) -> JsonValue {
    JsonValue::Obj(pairs.into_iter().map(|(k, v)| (k.to_string(), v)).collect())
}

#[test]
fn maps_supported_tool_names() {
    assert_eq!(map_tool_name_to_seq_op("seq_open_app"), Some("open_app"));
    assert_eq!(map_tool_name_to_seq_op("seq.open_app"), Some("open_app"));
    assert_eq!(map_tool_name_to_seq_op("seq:open-app"), Some("open_app"));
    assert_eq!(map_tool_name_to_seq_op("PING"), Some("ping"));
    assert_eq!(map_tool_name_to_seq_op("unknown_tool"), None);
}

#[test]
fn maps_all_known_operations() {
    for op in [
        "ping",
        "app_state",
        "perf",
        "open_app",
        "open_app_toggle",
        "run_macro",
        "click",
        "right_click",
        "double_click",
        "move",
        "scroll",
        "drag",
        "screenshot",
    ] {
        assert_eq!(map_tool_name_to_seq_op(op), Some(op));
        let prefixed = format!("seq_{op}");
        assert_eq!(map_tool_name_to_seq_op(&prefixed), Some(op));
    }
    assert_eq!(map_tool_name_to_seq_op("  seq_ping  "), Some("ping"));
    assert_eq!(map_tool_name_to_seq_op(""), None);
    assert_eq!(map_tool_name_to_seq_op("seq_"), None);
}

#[test]
fn builds_request_with_correlation_ids() {
    let call = ToolCall {
        id: "tool-9".to_string(),
        name: "seq_click".to_string(),
        arguments: obj(vec![("x", JsonValue::of_u64(1)), ("y", JsonValue::of_u64(2))]),
    };

    let req = build_request("session-1", "event-7", &call).expect("request should build");
    assert_eq!(req.op, "click");
    assert_eq!(req.request_id.as_deref(), Some("everruns:event-7:tool-9"));
    assert_eq!(req.run_id.as_deref(), Some("session-1"));
    assert_eq!(req.tool_call_id.as_deref(), Some("tool-9"));
    let args = req.args.expect("args should be set");
    match args.get("x").expect("x present") {
        JsonValue::Num(s) => assert_eq!(s, "1"),
        other => panic!("unexpected x: {other:?}"),
    }
    match args.get("y").expect("y present") {
        JsonValue::Num(s) => assert_eq!(s, "2"),
        other => panic!("unexpected y: {other:?}"),
    }
}

#[test]
fn null_arguments_are_omitted_from_the_request() {
    let call = ToolCall {
        id: "tc0".to_string(),
        name: "seq_ping".to_string(),
        arguments: JsonValue::Null,
    };
    let req = build_request("s", "e", &call).expect("request should build");
    assert!(req.args.is_none());
}

#[test]
fn emits_expected_tool_catalog() {
    let defs = client_side_tool_definitions();
    assert_eq!(defs.len(), 13);
    let names: Vec<&str> = defs
        .iter()
        .filter_map(|v| v.get("name").and_then(|n| n.as_str()).map(|s| s.as_str()))
        .collect();
    assert!(names.contains(&"seq_open_app"));
    assert!(names.contains(&"seq_screenshot"));
}

#[test]
fn catalog_entries_are_client_side_tools() {
    let defs = client_side_tool_definitions();
    for def in &defs {
        let kind = def.get("type").and_then(|v| v.as_str()).expect("type present");
        assert_eq!(kind, "client_side");
        assert!(def.get("description").is_some());
        assert!(def.get("parameters").is_some());
    }
}

#[test]
fn parse_tool_call_requested_payload() {
    let payload = obj(vec![(
        "tool_calls",
        JsonValue::Arr(vec![
            obj(vec![
                ("id", JsonValue::of_str("tc1")),
                ("name", JsonValue::of_str("seq_ping")),
                ("arguments", obj(vec![])),
            ]),
            obj(vec![
                ("id", JsonValue::of_str("tc2")),
                ("name", JsonValue::of_str("seq_open_app")),
                ("arguments", obj(vec![("name", JsonValue::of_str("Safari"))])),
            ]),
        ]),
    )]);

    let calls = parse_tool_call_requested(&payload).expect("payload should parse");
    assert_eq!(calls.len(), 2);
    assert_eq!(calls[0].id, "tc1");
    assert_eq!(calls[1].name, "seq_open_app");
}

#[test]
fn parse_rejects_malformed_payloads() {
    // no tool_calls member at all
    assert!(parse_tool_call_requested(&obj(vec![])).is_none());
    // tool_calls is not an array
    assert!(parse_tool_call_requested(&obj(vec![("tool_calls", JsonValue::Null)])).is_none());
    // an entry without a name
    let payload = obj(vec![(
        "tool_calls",
        JsonValue::Arr(vec![obj(vec![("id", JsonValue::of_str("tc1"))])]),
    )]);
    assert!(parse_tool_call_requested(&payload).is_none());
}

#[test]
fn parse_defaults_missing_arguments_to_null() {
    let payload = obj(vec![(
        "tool_calls",
        JsonValue::Arr(vec![obj(vec![
            ("id", JsonValue::of_str("tc1")),
            ("name", JsonValue::of_str("seq_ping")),
        ])]),
    )]);
    let calls = parse_tool_call_requested(&payload).expect("payload should parse");
    assert!(matches!(calls[0].arguments, JsonValue::Null));
}

#[test]
fn unsupported_tool_returns_error_result() {
    let call = ToolCall {
        id: "tcX".to_string(),
        name: "seq_not_real".to_string(),
        arguments: obj(vec![]),
    };

    let result = ToolResult {
        tool_call_id: call.id.clone(),
        result: None,
        error: Some(build_request("session", "event", &call).expect_err("should error").message()),
    };

    assert_eq!(result.tool_call_id, "tcX");
    assert!(result.error.unwrap_or_default().contains("unsupported seq tool name"));
}

#[test]
fn bridge_error_is_displayable() {
    let e = BridgeError::UnsupportedTool("foo".to_string());
    assert_eq!(e.message(), "unsupported seq tool name: foo");
}
