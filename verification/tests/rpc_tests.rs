use seq_everruns_bridge::json::JsonValue;
use seq_everruns_bridge::rpc::{
    append_response_chunk, rpc_ok_result, ChunkOutcome, RpcRequest, RpcResponse,
};

fn response(ok: bool, result: Option<JsonValue>, error: Option<&str>) -> RpcResponse {
    RpcResponse {
        ok,
        op: "open_app".to_string(),
        request_id: "r1".to_string(),
        run_id: String::new(),
        tool_call_id: String::new(),
        ts_ms: 10,
        dur_us: 11,
        result,
        error: error.map(|s| s.to_string()),
    }
}

#[test]
fn ok_response_yields_its_result() {
    let result = JsonValue::Obj(vec![("pong".to_string(), JsonValue::Bool(true))]);
    let v = rpc_ok_result(response(true, Some(result), None)).expect("ok response");
    assert!(matches!(v.get("pong"), Some(JsonValue::Bool(true))));
}

#[test]
fn ok_response_without_result_yields_empty_object() {
    let v = rpc_ok_result(response(true, None, None)).expect("ok response");
    match v {
        JsonValue::Obj(pairs) => assert!(pairs.is_empty()),
        other => panic!("unexpected value: {other:?}"),
    }
}

#[test]
fn failed_response_surfaces_remote_error() {
    let err = rpc_ok_result(response(false, None, Some("missing_name"))).expect_err("should fail");
    assert_eq!(err, "missing_name");
}

#[test]
fn failed_response_without_message_reads_unknown_error() {
    let err = rpc_ok_result(response(false, None, None)).expect_err("should fail");
    assert_eq!(err, "unknown_error");
}

#[test]
fn request_builders_set_only_their_field() {
    let req = RpcRequest::new("ping");
    assert_eq!(req.op, "ping");
    assert!(req.request_id.is_none());
    assert!(req.run_id.is_none());
    assert!(req.tool_call_id.is_none());
    assert!(req.args.is_none());

    let req = req
        .with_request_id("rid".to_string())
        .with_run_id("run")
        .with_tool_call_id("tc")
        .with_args_json(JsonValue::Null);
    assert_eq!(req.op, "ping");
    assert_eq!(req.request_id.as_deref(), Some("rid"));
    assert_eq!(req.run_id.as_deref(), Some("run"));
    assert_eq!(req.tool_call_id.as_deref(), Some("tc"));
    assert!(matches!(req.args, Some(JsonValue::Null)));
}

#[test]
fn chunk_with_newline_completes_the_line() {
    let mut line = Vec::new();
    let outcome = append_response_chunk(&mut line, b"{\"ok\":true}\ntrailing");
    assert_eq!(outcome, ChunkOutcome::LineComplete);
    assert_eq!(line, b"{\"ok\":true}");
}

#[test]
fn line_accumulates_across_chunks() {
    let mut line = Vec::new();
    assert_eq!(append_response_chunk(&mut line, b"{\"ok\""), ChunkOutcome::NeedMore);
    assert_eq!(append_response_chunk(&mut line, b":true"), ChunkOutcome::NeedMore);
    assert_eq!(append_response_chunk(&mut line, b"}\n"), ChunkOutcome::LineComplete);
    assert_eq!(line, b"{\"ok\":true}");
}

#[test]
fn oversized_line_is_rejected() {
    let mut line = Vec::new();
    let chunk = vec![b'x'; 1024 * 1024 + 1];
    assert_eq!(append_response_chunk(&mut line, &chunk), ChunkOutcome::TooLarge);
}

#[test]
fn newline_discards_the_rest_of_the_chunk() {
    let mut line = Vec::new();
    let outcome = append_response_chunk(&mut line, b"abc\ndef\n");
    assert_eq!(outcome, ChunkOutcome::LineComplete);
    assert_eq!(line, b"abc");
}
