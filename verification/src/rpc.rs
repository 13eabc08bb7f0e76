//! The request/response model of the local automation daemon's protocol:
//! one JSON object per line, one in-flight request per connection.
//!
//! The host owns the socket; this module owns the protocol decisions: how
//! a request is built, how the response stream is cut into one line with a
//! size bound, and what a response means for the caller.

use vstd::prelude::*;
use vstd::string::StringExecFns;
use crate::json::{JsonValue, JsonView};

verus! {

broadcast use vstd::seq::group_seq_axioms, vstd::std_specs::vec::group_vec_axioms;

/// The largest accepted response line, in bytes.
pub const MAX_RESPONSE_BYTES: usize = 1024 * 1024;

/// One request to the daemon: an operation name and optional correlation
/// fields and arguments.
#[derive(Debug)]
pub struct RpcRequest {
    pub op: String,
    pub request_id: Option<String>,
    pub run_id: Option<String>,
    pub tool_call_id: Option<String>,
    pub args: Option<JsonValue>,
}

impl RpcRequest {
    /// A request for `op` with nothing else set.
    pub fn new(op: &str) -> (r: RpcRequest)
        ensures
            r.op@ == op@,
            r.request_id is None,
            r.run_id is None,
            r.tool_call_id is None,
            r.args is None,
    {
        RpcRequest {
            op: String::from_str(op),
            request_id: None,
            run_id: None,
            tool_call_id: None,
            args: None,
        }
    }

    /// The same request with the request identifier set.
    pub fn with_request_id(self, request_id: String) -> (r: RpcRequest)
        ensures
            r.request_id matches Some(v) && v@ == request_id@,
            r.op == self.op,
            r.run_id == self.run_id,
            r.tool_call_id == self.tool_call_id,
            r.args == self.args,
    {
        RpcRequest { request_id: Some(request_id), ..self }
    }

    /// The same request with the run identifier set.
    pub fn with_run_id(self, run_id: &str) -> (r: RpcRequest)
        ensures
            r.run_id matches Some(v) && v@ == run_id@,
            r.op == self.op,
            r.request_id == self.request_id,
            r.tool_call_id == self.tool_call_id,
            r.args == self.args,
    {
        RpcRequest { run_id: Some(String::from_str(run_id)), ..self }
    }

    /// The same request with the tool-call identifier set.
    pub fn with_tool_call_id(self, tool_call_id: &str) -> (r: RpcRequest)
        ensures
            r.tool_call_id matches Some(v) && v@ == tool_call_id@,
            r.op == self.op,
            r.request_id == self.request_id,
            r.run_id == self.run_id,
            r.args == self.args,
    {
        RpcRequest { tool_call_id: Some(String::from_str(tool_call_id)), ..self }
    }

    /// The same request with the arguments set.
    pub fn with_args_json(self, args: JsonValue) -> (r: RpcRequest)
        ensures
            r.args matches Some(a) && a@ == args@,
            r.op == self.op,
            r.request_id == self.request_id,
            r.run_id == self.run_id,
            r.tool_call_id == self.tool_call_id,
    {
        RpcRequest { args: Some(args), ..self }
    }
}

/// One response from the daemon, correlated by echoed request metadata.
#[derive(Debug)]
pub struct RpcResponse {
    pub ok: bool,
    pub op: String,
    pub request_id: String,
    pub run_id: String,
    pub tool_call_id: String,
    pub ts_ms: u64,
    pub dur_us: u64,
    pub result: Option<JsonValue>,
    pub error: Option<String>,
}

/// Reads a response as its caller-facing outcome: a successful response
/// yields its result (an empty object when it carried none), a failed one
/// yields its error message (`unknown_error` when it carried none).
pub fn rpc_ok_result(response: RpcResponse) -> (r: Result<JsonValue, String>)
    ensures
        response.ok ==> (r matches Ok(v) && (match response.result {
            Some(x) => v@ == x@,
            None => v@ == JsonView::Obj(Seq::<(Seq<char>, JsonView)>::empty()),
        })),
        !response.ok ==> (r matches Err(m) && (match response.error {
            Some(e) => m@ == e@,
            None => m@ == "unknown_error"@,
        })),
{
    if response.ok {
        match response.result {
            Some(v) => Ok(v),
            None => {
                let empty: Vec<(String, JsonValue)> = Vec::new();
                let r = JsonValue::Obj(empty);
                proof {
                    assert(r@->Obj_0 =~= Seq::<(Seq<char>, JsonView)>::empty());
                }
                Ok(r)
            },
        }
    } else {
        match response.error {
            Some(e) => Err(e),
            None => Err(String::from_str("unknown_error")),
        }
    }
}

/// What scanning one chunk of the response stream produced.
#[derive(Debug, PartialEq, Eq, Structural)]
pub enum ChunkOutcome {
    /// A newline arrived: the accumulated line is complete.
    LineComplete,
    /// No newline yet; keep reading.
    NeedMore,
    /// The accumulated line exceeds [`MAX_RESPONSE_BYTES`].
    TooLarge,
}

/// The position of the first newline in `chunk`, if any.
pub open spec fn first_newline(chunk: Seq<u8>) -> Option<int> {
    if exists|i: int| 0 <= i < chunk.len() && chunk[i] == 10u8 {
        Some(
            choose|i: int|
                0 <= i < chunk.len() && chunk[i] == 10u8 && forall|j: int|
                    0 <= j < i ==> chunk[j] != 10u8,
        )
    } else {
        None
    }
}

/// Folds one received chunk into the line being accumulated. Bytes up to
/// the first newline extend the line; the newline completes it and the
/// rest of the chunk is discarded, as the protocol allows only one
/// in-flight request. Without a newline the whole chunk is kept, and a
/// line grown past [`MAX_RESPONSE_BYTES`] is an error.
pub fn append_response_chunk(out: &mut Vec<u8>, chunk: &[u8]) -> (r: ChunkOutcome)
    ensures
        (match first_newline(chunk@) {
            Some(k) => final(out)@ == old(out)@ + chunk@.take(k) && r == ChunkOutcome::LineComplete,
            None => final(out)@ == old(out)@ + chunk@ && r != ChunkOutcome::LineComplete,
        }),
        r == ChunkOutcome::NeedMore ==> final(out)@.len() <= MAX_RESPONSE_BYTES,
        r == ChunkOutcome::TooLarge ==> final(out)@.len() > MAX_RESPONSE_BYTES,
{
    let n = chunk.len();
    let mut i: usize = 0;
    proof {
        assert(out@ =~= old(out)@ + chunk@.take(0));
    }
    while i < n
        invariant
            0 <= i <= n == chunk@.len(),
            out@ == old(out)@ + chunk@.take(i as int),
            forall|j: int| 0 <= j < i ==> chunk@[j] != 10u8,
        decreases n - i,
    {
        let b = chunk[i];
        if b == 10 {
            proof {
                let k = first_newline(chunk@);
                assert(chunk@[i as int] == 10u8);
                assert(k matches Some(p) && p == i as int);
            }
            return ChunkOutcome::LineComplete;
        }
        out.push(b);
        proof {
            assert(chunk@.take(i as int).push(chunk@[i as int]) =~= chunk@.take(i as int + 1));
            assert(out@ =~= old(out)@ + chunk@.take(i as int + 1));
        }
        i += 1;
    }
    proof {
        assert(chunk@.take(n as int) =~= chunk@);
        assert(first_newline(chunk@) is None);
    }
    if out.len() > MAX_RESPONSE_BYTES {
        ChunkOutcome::TooLarge
    } else {
        ChunkOutcome::NeedMore
    }
}

} // verus!
