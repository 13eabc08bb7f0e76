use seq_everruns_bridge::ids::stable_trace_id;
use seq_everruns_bridge::span::MapleSpan;

#[test]
fn tool_call_span_carries_full_correlation() {
    let span = MapleSpan::for_tool_call(
        "session-1",
        "event-1",
        "tool-1",
        "seq_ping",
        "ping",
        true,
        None,
        1_739_890_000_000_000_000,
        1_739_890_000_100_000_000,
        100,
    );
    assert_eq!(span.trace_id, stable_trace_id("session-1", "event-1"));
    assert_eq!(span.trace_id.len(), 32);
    assert_eq!(span.span_id, "2220801fc8bade0e");
    assert_eq!(span.parent_span_id, "");
    assert_eq!(span.name, "everruns.tool_call");
    assert_eq!(span.kind, 3);
    assert_eq!(span.start_time_unix_nano, 1_739_890_000_000_000_000);
    assert_eq!(span.end_time_unix_nano, 1_739_890_000_100_000_000);
    assert_eq!(span.status_code, 1);
    assert_eq!(span.status_message, None);
    let attrs: Vec<(&str, &str)> =
        span.attributes.iter().map(|(k, v)| (k.as_str(), v.as_str())).collect();
    assert_eq!(
        attrs,
        vec![
            ("session_id", "session-1"),
            ("event_id", "event-1"),
            ("tool_call_id", "tool-1"),
            ("tool_name", "seq_ping"),
            ("seq_op", "ping"),
            ("bridge.ok", "true"),
            ("bridge.duration_ms", "100"),
        ]
    );
}

#[test]
fn failed_tool_call_span_records_the_error() {
    let span = MapleSpan::for_tool_call(
        "s", "e", "tc", "seq_click", "click", false, Some("boom"), 5, 9, 1,
    );
    assert_eq!(span.status_code, 2);
    assert_eq!(span.status_message.as_deref(), Some("boom"));
    assert_eq!(
        span.attributes.last().map(|(k, v)| (k.as_str(), v.as_str())),
        Some(("error.message", "boom"))
    );
    assert_eq!(
        span.attributes.iter().find(|(k, _)| k == "bridge.ok").map(|(_, v)| v.as_str()),
        Some("false")
    );
}

#[test]
fn runtime_event_span_keeps_extra_attributes_in_order() {
    let extra = vec![
        ("alpha".to_string(), "1".to_string()),
        ("beta".to_string(), "2".to_string()),
    ];
    let span = MapleSpan::for_runtime_event("s", "e", "ingest", true, None, 10, 20, extra);
    assert_eq!(span.name, "everruns.ingest");
    assert_eq!(span.kind, 1);
    assert_eq!(span.parent_span_id, "");
    assert_eq!(span.status_code, 1);
    let attrs: Vec<(&str, &str)> =
        span.attributes.iter().map(|(k, v)| (k.as_str(), v.as_str())).collect();
    assert_eq!(
        attrs,
        vec![
            ("alpha", "1"),
            ("beta", "2"),
            ("session_id", "s"),
            ("event_id", "e"),
            ("stage", "ingest"),
            ("bridge.ok", "true"),
        ]
    );
}

#[test]
fn spans_with_same_session_and_event_share_a_trace_id() {
    let a = MapleSpan::for_tool_call("s1", "e1", "tc-a", "seq_ping", "ping", true, None, 1, 2, 0);
    let b = MapleSpan::for_tool_call(
        "s1",
        "e1",
        "tc-b",
        "seq_click",
        "click",
        false,
        Some("nope"),
        3,
        4,
        9,
    );
    assert_eq!(a.trace_id, b.trace_id);
    assert_ne!(a.span_id, b.span_id);
}

#[test]
fn retries_at_different_times_get_fresh_span_ids() {
    let a = MapleSpan::for_tool_call("s1", "e1", "tc", "seq_ping", "ping", true, None, 1, 2, 0);
    let b = MapleSpan::for_tool_call("s1", "e1", "tc", "seq_ping", "ping", true, None, 7, 8, 0);
    assert_eq!(a.trace_id, b.trace_id);
    assert_ne!(a.span_id, b.span_id);
}
