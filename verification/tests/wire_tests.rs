use seq_everruns_bridge::config::MapleExporterConfig;
use seq_everruns_bridge::span::MapleSpan;
use seq_everruns_bridge::wire::encode_batch_payload;
use serde_json::Value;

fn test_config() -> MapleExporterConfig {
    let mut config = MapleExporterConfig::default();
    config.service_name = "svc".to_string();
    config.deployment_environment = "test".to_string();
    config.scope_name = "scope".to_string();
    config.service_version = Some("1.2.3".to_string());
    config
}

fn test_span() -> MapleSpan {
    MapleSpan::for_tool_call(
        "session-1",
        "event-1",
        "tool-1",
        "seq_ping",
        "ping",
        true,
        None,
        1_739_890_000_000_000_000,
        1_739_890_000_100_000_000,
        100,
    )
}

#[test]
fn payload_bytes_are_exact() {
    let body = encode_batch_payload(&test_config(), &vec![test_span()]);
    let expected = "{\"resourceSpans\":[{\"resource\":{\"attributes\":[{\"key\":\"service.name\",\"value\":{\"stringValue\":\"svc\"}},{\"key\":\"deployment.environment\",\"value\":{\"stringValue\":\"test\"}},{\"key\":\"service.version\",\"value\":{\"stringValue\":\"1.2.3\"}}]},\"scopeSpans\":[{\"scope\":{\"name\":\"scope\"},\"spans\":[{\"attributes\":[{\"key\":\"session_id\",\"value\":{\"stringValue\":\"session-1\"}},{\"key\":\"event_id\",\"value\":{\"stringValue\":\"event-1\"}},{\"key\":\"tool_call_id\",\"value\":{\"stringValue\":\"tool-1\"}},{\"key\":\"tool_name\",\"value\":{\"stringValue\":\"seq_ping\"}},{\"key\":\"seq_op\",\"value\":{\"stringValue\":\"ping\"}},{\"key\":\"bridge.ok\",\"value\":{\"stringValue\":\"true\"}},{\"key\":\"bridge.duration_ms\",\"value\":{\"stringValue\":\"100\"}}],\"endTimeUnixNano\":\"1739890000100000000\",\"kind\":3,\"name\":\"everruns.tool_call\",\"parentSpanId\":\"\",\"spanId\":\"2220801fc8bade0e\",\"startTimeUnixNano\":\"1739890000000000000\",\"status\":{\"code\":1,\"message\":\"\"},\"traceId\":\"1688595dcf49184deb53885bafeda6a5\"}]}]}]}";
    assert_eq!(String::from_utf8(body).expect("utf-8 payload"), expected);
}

#[test]
fn encoded_span_round_trips_through_an_independent_decoder() {
    let span = test_span();
    let body = encode_batch_payload(&test_config(), &vec![span.clone()]);
    let doc: Value = serde_json::from_slice(&body).expect("payload is valid JSON");

    let resource_spans = &doc["resourceSpans"][0];
    let decoded = &resource_spans["scopeSpans"][0]["spans"][0];

    assert_eq!(decoded["traceId"].as_str(), Some(span.trace_id.as_str()));
    assert_eq!(decoded["spanId"].as_str(), Some(span.span_id.as_str()));
    assert_eq!(decoded["name"].as_str(), Some(span.name.as_str()));
    let start: u64 = decoded["startTimeUnixNano"]
        .as_str()
        .expect("timestamp travels as a string")
        .parse()
        .expect("decimal timestamp");
    let end: u64 = decoded["endTimeUnixNano"].as_str().unwrap().parse().unwrap();
    assert_eq!(start, span.start_time_unix_nano);
    assert_eq!(end, span.end_time_unix_nano);
    assert_eq!(decoded["status"]["code"].as_i64(), Some(span.status_code as i64));
    assert_eq!(decoded["status"]["message"].as_str(), Some(""));
}

#[test]
fn string_escaping_round_trips() {
    let mut span = test_span();
    span.name = "quote \" backslash \\ newline \n tab \t bell \u{7} end".to_string();
    span.status_code = 2;
    span.status_message = Some("failed: \"boom\"\r\n".to_string());
    let body = encode_batch_payload(&test_config(), &vec![span.clone()]);
    let doc: Value = serde_json::from_slice(&body).expect("payload is valid JSON");
    let decoded = &doc["resourceSpans"][0]["scopeSpans"][0]["spans"][0];
    assert_eq!(decoded["name"].as_str(), Some(span.name.as_str()));
    assert_eq!(decoded["status"]["message"].as_str(), Some("failed: \"boom\"\r\n"));
    assert_eq!(decoded["status"]["code"].as_i64(), Some(2));
}

#[test]
fn non_ascii_text_passes_through() {
    let mut span = test_span();
    span.name = "ünïcode → ok".to_string();
    let body = encode_batch_payload(&test_config(), &vec![span.clone()]);
    let doc: Value = serde_json::from_slice(&body).expect("payload is valid JSON");
    let decoded = &doc["resourceSpans"][0]["scopeSpans"][0]["spans"][0];
    assert_eq!(decoded["name"].as_str(), Some("ünïcode → ok"));
}

#[test]
fn batch_of_three_spans_is_one_document() {
    let spans = vec![test_span(), test_span(), test_span()];
    let body = encode_batch_payload(&test_config(), &spans);
    let doc: Value = serde_json::from_slice(&body).expect("payload is valid JSON");
    let encoded = doc["resourceSpans"][0]["scopeSpans"][0]["spans"]
        .as_array()
        .expect("spans array");
    assert_eq!(encoded.len(), 3);
}

#[test]
fn version_attribute_is_omitted_when_unset() {
    let mut config = test_config();
    config.service_version = None;
    let body = encode_batch_payload(&config, &vec![test_span()]);
    let doc: Value = serde_json::from_slice(&body).expect("payload is valid JSON");
    let attrs = doc["resourceSpans"][0]["resource"]["attributes"]
        .as_array()
        .expect("resource attributes");
    assert_eq!(attrs.len(), 2);
    assert!(attrs.iter().all(|a| a["key"] != "service.version"));
}
