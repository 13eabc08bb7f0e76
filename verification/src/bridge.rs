//! The tool-call bridge: mapping orchestrator tool names to daemon
//! operations, building daemon requests, reading tool-call payloads, and
//! shaping daemon outcomes into tool results.

use vstd::prelude::*;
use vstd::string::StringExecFns;
use vstd::string::StrSliceExecFns;
use crate::json::{spec_obj_get, JsonValue, JsonView};
use crate::rpc::{RpcRequest, RpcResponse};
use crate::text;

verus! {

broadcast use vstd::seq::group_seq_axioms, vstd::std_specs::vec::group_vec_axioms;

/// A tool call requested by the orchestration layer.
#[derive(Debug)]
pub struct ToolCall {
    pub id: String,
    pub name: String,
    pub arguments: JsonValue,
}

/// The outcome reported back for one tool call: a result or an error,
/// never both.
#[derive(Debug)]
pub struct ToolResult {
    pub tool_call_id: String,
    pub result: Option<JsonValue>,
    pub error: Option<String>,
}

/// A tool call that the bridge cannot serve.
#[derive(Debug)]
pub enum BridgeError {
    /// The tool name maps to no daemon operation.
    UnsupportedTool(String),
}

/// The human-readable description of a bridge error.
pub open spec fn spec_bridge_error_message(e: BridgeError) -> Seq<char> {
    match e {
        BridgeError::UnsupportedTool(name) => "unsupported seq tool name: "@ + name@,
    }
}

impl BridgeError {
    /// Renders the error for display by the host.
    pub fn message(&self) -> (r: String)
        ensures
            r@ == spec_bridge_error_message(*self),
    {
        match self {
            BridgeError::UnsupportedTool(name) => {
                let mut s = String::from_str("unsupported seq tool name: ");
                s.append(name.as_str());
                s
            },
        }
    }
}

/// ASCII lowercasing with hyphens turned into underscores, the
/// normalization applied to tool names.
pub open spec fn spec_norm_char(c: char) -> char {
    if c == '-' { '_' }
    else if c == 'A' { 'a' }
    else if c == 'B' { 'b' }
    else if c == 'C' { 'c' }
    else if c == 'D' { 'd' }
    else if c == 'E' { 'e' }
    else if c == 'F' { 'f' }
    else if c == 'G' { 'g' }
    else if c == 'H' { 'h' }
    else if c == 'I' { 'i' }
    else if c == 'J' { 'j' }
    else if c == 'K' { 'k' }
    else if c == 'L' { 'l' }
    else if c == 'M' { 'm' }
    else if c == 'N' { 'n' }
    else if c == 'O' { 'o' }
    else if c == 'P' { 'p' }
    else if c == 'Q' { 'q' }
    else if c == 'R' { 'r' }
    else if c == 'S' { 's' }
    else if c == 'T' { 't' }
    else if c == 'U' { 'u' }
    else if c == 'V' { 'v' }
    else if c == 'W' { 'w' }
    else if c == 'X' { 'x' }
    else if c == 'Y' { 'y' }
    else if c == 'Z' { 'z' }
    else { c }
}

/// A whole name normalized character by character.
pub open spec fn norm_seq(s: Seq<char>) -> Seq<char> {
    Seq::new(s.len(), |i: int| spec_norm_char(s[i]))
}

/// A normalized name with one leading `seq.`, `seq:` or `seq_` removed.
pub open spec fn strip_tool_prefix(t: Seq<char>) -> Seq<char> {
    if t.len() >= 4 && (t.take(4) == "seq."@ || t.take(4) == "seq:"@ || t.take(4) == "seq_"@) {
        t.skip(4)
    } else {
        t
    }
}

/// The daemon operation a tool name maps to: trim, normalize, strip the
/// `seq` prefix, then match the known operation names exactly.
pub open spec fn spec_tool_op(name: Seq<char>) -> Option<Seq<char>> {
    let u = strip_tool_prefix(norm_seq(text::spec_trim(name)));
    if u == "ping"@ { Some("ping"@) }
    else if u == "app_state"@ { Some("app_state"@) }
    else if u == "perf"@ { Some("perf"@) }
    else if u == "open_app"@ { Some("open_app"@) }
    else if u == "open_app_toggle"@ { Some("open_app_toggle"@) }
    else if u == "run_macro"@ { Some("run_macro"@) }
    else if u == "click"@ { Some("click"@) }
    else if u == "right_click"@ { Some("right_click"@) }
    else if u == "double_click"@ { Some("double_click"@) }
    else if u == "move"@ { Some("move"@) }
    else if u == "scroll"@ { Some("scroll"@) }
    else if u == "drag"@ { Some("drag"@) }
    else if u == "screenshot"@ { Some("screenshot"@) }
    else { None }
}

fn norm_char(c: char) -> (r: char)
    ensures
        r == spec_norm_char(c),
{
    match c {
        '-' => '_',
        'A' => 'a',
        'B' => 'b',
        'C' => 'c',
        'D' => 'd',
        'E' => 'e',
        'F' => 'f',
        'G' => 'g',
        'H' => 'h',
        'I' => 'i',
        'J' => 'j',
        'K' => 'k',
        'L' => 'l',
        'M' => 'm',
        'N' => 'n',
        'O' => 'o',
        'P' => 'p',
        'Q' => 'q',
        'R' => 'r',
        'S' => 's',
        'T' => 't',
        'U' => 'u',
        'V' => 'v',
        'W' => 'w',
        'X' => 'x',
        'Y' => 'y',
        'Z' => 'z',
        _ => c,
    }
}

/// Whether the characters of `v` from `from` on read exactly as `lit`.
fn chars_eq_from(v: &Vec<char>, from: usize, lit: &str) -> (r: bool)
    requires
        from <= v@.len(),
    ensures
        r == (v@.skip(from as int) == lit@),
{
    let m = lit.unicode_len();
    if v.len() - from != m {
        proof {
            assert(v@.skip(from as int).len() != lit@.len());
        }
        return false;
    }
    let mut j: usize = 0;
    while j < m
        invariant
            0 <= j <= m == lit@.len(),
            from + m <= usize::MAX,
            from + m <= v@.len(),
            v@.len() - from == m,
            forall|k: int| 0 <= k < j ==> v@[from + k] == lit@[k],
        decreases m - j,
    {
        proof {
            assert(from + j < v@.len());
        }
        if v[from + j] != lit.get_char(j) {
            proof {
                assert(v@.skip(from as int)[j as int] == v@[from + j as int]);
            }
            return false;
        }
        j += 1;
    }
    proof {
        assert(v@.skip(from as int) =~= lit@);
    }
    true
}

/// Maps an orchestrator tool name to its daemon operation, accepting any
/// case, hyphens for underscores, and a `seq.`/`seq:`/`seq_` prefix.
pub fn map_tool_name_to_seq_op(tool_name: &str) -> (r: Option<&'static str>)
    ensures
        (r is Some) == (spec_tool_op(tool_name@) is Some),
        r matches Some(op) ==> spec_tool_op(tool_name@) == Some(op@),
{
    let trimmed = text::trim_str(tool_name);
    let t = trimmed.as_str();
    let n = t.unicode_len();
    let mut v: Vec<char> = Vec::new();
    let mut i: usize = 0;
    while i < n
        invariant
            0 <= i <= n == t@.len(),
            v@.len() == i,
            forall|j: int| 0 <= j < i ==> #[trigger] v@[j] == spec_norm_char(t@[j]),
        decreases n - i,
    {
        v.push(norm_char(t.get_char(i)));
        i += 1;
    }
    proof {
        assert(v@ =~= norm_seq(t@));
    }
    let ghost u = strip_tool_prefix(norm_seq(text::spec_trim(tool_name@)));
    let base: usize = if v.len() >= 4 && (*vec_char_at(&v, 0) == 's') && (*vec_char_at(&v, 1)
        == 'e') && (*vec_char_at(&v, 2) == 'q') && (*vec_char_at(&v, 3) == '.' || *vec_char_at(
        &v,
        3,
    ) == ':' || *vec_char_at(&v, 3) == '_') {
        proof {
            reveal_strlit("seq.");
            reveal_strlit("seq:");
            reveal_strlit("seq_");
            if v@[3] == '.' {
                assert(v@.take(4) =~= "seq."@);
            } else if v@[3] == ':' {
                assert(v@.take(4) =~= "seq:"@);
            } else {
                assert(v@.take(4) =~= "seq_"@);
            }
        }
        4
    } else {
        proof {
            reveal_strlit("seq.");
            reveal_strlit("seq:");
            reveal_strlit("seq_");
            if v@.len() >= 4 {
                assert(v@.take(4)[0] == v@[0] && v@.take(4)[1] == v@[1] && v@.take(4)[2] == v@[2]
                    && v@.take(4)[3] == v@[3]);
                assert(v@.take(4) != "seq."@ && v@.take(4) != "seq:"@ && v@.take(4) != "seq_"@);
            }
            assert(v@.skip(0) =~= v@);
        }
        0
    };
    proof {
        assert(u == v@.skip(base as int));
    }
    if chars_eq_from(&v, base, "ping") {
        return Some("ping");
    }
    if chars_eq_from(&v, base, "app_state") {
        return Some("app_state");
    }
    if chars_eq_from(&v, base, "perf") {
        return Some("perf");
    }
    if chars_eq_from(&v, base, "open_app") {
        return Some("open_app");
    }
    if chars_eq_from(&v, base, "open_app_toggle") {
        return Some("open_app_toggle");
    }
    if chars_eq_from(&v, base, "run_macro") {
        return Some("run_macro");
    }
    if chars_eq_from(&v, base, "click") {
        return Some("click");
    }
    if chars_eq_from(&v, base, "right_click") {
        return Some("right_click");
    }
    if chars_eq_from(&v, base, "double_click") {
        return Some("double_click");
    }
    if chars_eq_from(&v, base, "move") {
        return Some("move");
    }
    if chars_eq_from(&v, base, "scroll") {
        return Some("scroll");
    }
    if chars_eq_from(&v, base, "drag") {
        return Some("drag");
    }
    if chars_eq_from(&v, base, "screenshot") {
        return Some("screenshot");
    }
    None
}

fn vec_char_at(v: &Vec<char>, i: usize) -> (r: &char)
    requires
        i < v@.len(),
    ensures
        *r == v@[i as int],
{
    &v[i]
}

/// Builds the daemon request for one tool call: the mapped operation,
/// the correlation identifiers, and the arguments when they are not
/// `null`. A name that maps to no operation is refused.
pub fn build_request(session_id: &str, event_id: &str, call: &ToolCall) -> (r: Result<
    RpcRequest,
    BridgeError,
>)
    ensures
        (r is Ok) == (spec_tool_op(call.name@) is Some),
        r matches Ok(req) ==> ({
            &&& spec_tool_op(call.name@) matches Some(op) && req.op@ == op
            &&& req.request_id matches Some(rid) && rid@ == "everruns:"@ + event_id@ + ":"@
                + call.id@
            &&& req.run_id matches Some(rn) && rn@ == session_id@
            &&& req.tool_call_id matches Some(tc) && tc@ == call.id@
            &&& (call.arguments@ is Null ==> req.args is None)
            &&& (!(call.arguments@ is Null) ==> (req.args matches Some(a) && a@
                == call.arguments@))
        }),
        r matches Err(e) ==> (e matches BridgeError::UnsupportedTool(n) && n@ == call.name@),
{
    let op = match map_tool_name_to_seq_op(call.name.as_str()) {
        Some(op) => op,
        None => {
            return Err(BridgeError::UnsupportedTool(call.name.clone()));
        },
    };
    let mut request_id = String::from_str("everruns:");
    request_id.append(event_id);
    request_id.append(":");
    request_id.append(call.id.as_str());
    let mut req = RpcRequest::new(op).with_request_id(request_id).with_run_id(
        session_id,
    ).with_tool_call_id(call.id.as_str());
    if !call.arguments.is_null() {
        req = req.with_args_json(call.arguments.deep_clone());
    }
    Ok(req)
}

/// What one entry of a tool-call payload means: its identifier, name, and
/// arguments (`null` when absent). An entry without a string `id` and a
/// string `name` is malformed.
pub open spec fn spec_parse_call(v: JsonView) -> Option<(Seq<char>, Seq<char>, JsonView)> {
    match (spec_obj_get(v, "id"@), spec_obj_get(v, "name"@)) {
        (Some(JsonView::Str(id)), Some(JsonView::Str(name))) => Some(
            (
                id,
                name,
                match spec_obj_get(v, "arguments"@) {
                    Some(a) => a,
                    None => JsonView::Null,
                },
            ),
        ),
        _ => None,
    }
}

/// Whether a payload is a well-formed tool-call request: an object whose
/// `tool_calls` member is an array of well-formed entries.
pub open spec fn spec_payload_ok(data: JsonView) -> bool {
    spec_obj_get(data, "tool_calls"@) matches Some(JsonView::Arr(items)) && (forall|i: int|
        0 <= i < items.len() ==> spec_parse_call(#[trigger] items[i]) is Some)
}

/// Reads the tool calls out of a `tool_calls` payload. Yields the calls
/// in order exactly when the payload is well-formed, and nothing
/// otherwise.
pub fn parse_tool_call_requested(data: &JsonValue) -> (r: Option<Vec<ToolCall>>)
    ensures
        (r is Some) == spec_payload_ok(data@),
        r matches Some(calls) ==> ({
            &&& spec_obj_get(data@, "tool_calls"@) matches Some(JsonView::Arr(items))
                && calls@.len() == items.len() && (forall|i: int|
                0 <= i < items.len() ==> (spec_parse_call(#[trigger] items[i]) matches Some(p)
                    && calls@[i].id@ == p.0 && calls@[i].name@ == p.1 && calls@[i].arguments@
                    == p.2))
        }),
{
    let arr = match data.get("tool_calls") {
        Some(v) => v,
        None => {
            return None;
        },
    };
    let items = match arr {
        JsonValue::Arr(items) => items,
        _ => {
            proof {
                assert(!spec_payload_ok(data@));
            }
            return None;
        },
    };
    let ghost ivs = arr@->Arr_0;
    proof {
        crate::json::lemma_seq_views(items@);
    }
    let n = items.len();
    let mut calls: Vec<ToolCall> = Vec::new();
    let mut i: usize = 0;
    while i < n
        invariant
            0 <= i <= n == items@.len(),
            ivs == crate::json::seq_views(items@),
            spec_obj_get(data@, "tool_calls"@) == Some(JsonView::Arr(ivs)),
            ivs.len() == n,
            forall|j: int| 0 <= j < n ==> #[trigger] ivs[j] == items@[j]@,
            calls@.len() == i,
            forall|j: int|
                0 <= j < i ==> (spec_parse_call(#[trigger] ivs[j]) matches Some(p)
                    && calls@[j].id@ == p.0 && calls@[j].name@ == p.1 && calls@[j].arguments@
                    == p.2),
        decreases n - i,
    {
        let item = &items[i];
        proof {
            assert(item@ == ivs[i as int]);
        }
        let id = match item.get("id") {
            Some(v) => match v.as_str() {
                Some(s) => s.clone(),
                None => {
                    proof {
                        assert(spec_parse_call(ivs[i as int]) is None);
                        assert(!spec_payload_ok(data@));
                    }
                    return None;
                },
            },
            None => {
                proof {
                    assert(spec_parse_call(ivs[i as int]) is None);
                    assert(!spec_payload_ok(data@));
                }
                return None;
            },
        };
        let name = match item.get("name") {
            Some(v) => match v.as_str() {
                Some(s) => s.clone(),
                None => {
                    proof {
                        assert(spec_parse_call(ivs[i as int]) is None);
                        assert(!spec_payload_ok(data@));
                    }
                    return None;
                },
            },
            None => {
                proof {
                    assert(spec_parse_call(ivs[i as int]) is None);
                    assert(!spec_payload_ok(data@));
                }
                return None;
            },
        };
        let arguments = match item.get("arguments") {
            Some(v) => v.deep_clone(),
            None => JsonValue::Null,
        };
        proof {
            assert(spec_parse_call(ivs[i as int]) matches Some(p) && id@ == p.0 && name@ == p.1
                && arguments@ == p.2);
        }
        calls.push(ToolCall { id, name, arguments });
        i += 1;
    }
    proof {
        assert(spec_payload_ok(data@));
    }
    Some(calls)
}

impl ToolResult {
    /// The tool result of a daemon response: the response's result on
    /// success (an empty object when it carried none), else the
    /// response's error (a generic message naming the operation when it
    /// carried none).
    pub fn from_response(call_id: &str, op: &str, response: RpcResponse) -> (r: ToolResult)
        ensures
            r.tool_call_id@ == call_id@,
            response.ok ==> r.error is None && (r.result matches Some(v) && (
            match response.result {
                Some(x) => v@ == x@,
                None => v@ == JsonView::Obj(Seq::<(Seq<char>, JsonView)>::empty()),
            })),
            !response.ok ==> r.result is None && (r.error matches Some(m) && (
            match response.error {
                Some(e) => m@ == e@,
                None => m@ == "seq "@ + op@ + " failed with unknown error"@,
            })),
    {
        if response.ok {
            let v = match response.result {
                Some(x) => x,
                None => {
                    let empty: Vec<(String, JsonValue)> = Vec::new();
                    let obj = JsonValue::Obj(empty);
                    proof {
                        assert(obj@->Obj_0 =~= Seq::<(Seq<char>, JsonView)>::empty());
                    }
                    obj
                },
            };
            ToolResult { tool_call_id: String::from_str(call_id), result: Some(v), error: None }
        } else {
            let msg = match response.error {
                Some(e) => e,
                None => {
                    let mut s = String::from_str("seq ");
                    s.append(op);
                    s.append(" failed with unknown error");
                    s
                },
            };
            ToolResult { tool_call_id: String::from_str(call_id), result: None, error: Some(msg) }
        }
    }

    /// The tool result of a failed daemon call: an error naming the
    /// operation and carrying the transport error's text.
    pub fn from_call_failure(call_id: &str, op: &str, err: &str) -> (r: ToolResult)
        ensures
            r.tool_call_id@ == call_id@,
            r.result is None,
            r.error matches Some(m) && m@ == "seq "@ + op@ + " call failed: "@ + err@,
    {
        let mut s = String::from_str("seq ");
        s.append(op);
        s.append(" call failed: ");
        s.append(err);
        ToolResult { tool_call_id: String::from_str(call_id), result: None, error: Some(s) }
    }

    /// The tool result of a bridge error: its message, verbatim.
    pub fn from_bridge_error(call_id: &str, e: &BridgeError) -> (r: ToolResult)
        ensures
            r.tool_call_id@ == call_id@,
            r.result is None,
            r.error matches Some(m) && m@ == spec_bridge_error_message(*e),
    {
        ToolResult {
            tool_call_id: String::from_str(call_id),
            result: None,
            error: Some(e.message()),
        }
    }
}

} // verus!
