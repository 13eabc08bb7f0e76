//! The span model: one immutable record of a completed or failed remote
//! operation, and the two constructors the bridge uses.
//!
//! Identity fields are derived deterministically (see [`crate::ids`]):
//! the trace identifier from the `(session, event)` pair alone, the span
//! identifier from a seed that also carries the operation and start time,
//! so retries get fresh span identifiers under a stable trace identifier.

use vstd::prelude::*;
use vstd::string::StringExecFns;
use crate::ids;
use crate::text;

verus! {

/// Span kind value for internal spans.
pub const SPAN_KIND_INTERNAL: i32 = 1;

/// Span kind value for client spans.
pub const SPAN_KIND_CLIENT: i32 = 3;

/// Status code for spans that finished without error.
pub const STATUS_OK: i32 = 1;

/// Status code for spans that finished with an error.
pub const STATUS_ERROR: i32 = 2;

/// One observed operation: identity, timing, status and attributes.
/// Attribute pairs keep their order and may repeat keys.
#[derive(Clone, Debug)]
pub struct MapleSpan {
    pub trace_id: String,
    pub span_id: String,
    pub parent_span_id: String,
    pub name: String,
    pub kind: i32,
    pub start_time_unix_nano: u64,
    pub end_time_unix_nano: u64,
    pub status_code: i32,
    pub status_message: Option<String>,
    pub attributes: Vec<(String, String)>,
}

/// The character-level view of an attribute list.
pub open spec fn attr_views(attrs: Seq<(String, String)>) -> Seq<(Seq<char>, Seq<char>)> {
    attrs.map_values(|p: (String, String)| (p.0@, p.1@))
}

/// The rendering of a boolean as attribute text.
pub open spec fn spec_bool_chars(b: bool) -> Seq<char> {
    if b {
        "true"@
    } else {
        "false"@
    }
}

/// Renders a boolean as `"true"` or `"false"`.
pub fn bool_to_string(b: bool) -> (r: String)
    ensures
        r@ == spec_bool_chars(b),
{
    if b {
        String::from_str("true")
    } else {
        String::from_str("false")
    }
}

/// The span-identifier seed `a:b:c:t` used by both constructors.
pub open spec fn spec_id_seed(a: Seq<char>, b: Seq<char>, c: Seq<char>, t: u64) -> Seq<char> {
    a + ":"@ + b + ":"@ + c + ":"@ + text::spec_dec_chars(t as int)
}

/// Builds the span-identifier seed `a:b:c:t`.
fn id_seed(a: &str, b: &str, c: &str, t: u64) -> (r: String)
    ensures
        r@ == spec_id_seed(a@, b@, c@, t),
{
    let mut s = String::new();
    s.append(a);
    s.append(":");
    s.append(b);
    s.append(":");
    s.append(c);
    s.append(":");
    text::push_dec_u64(&mut s, t);
    proof {
        assert(s@ =~= spec_id_seed(a@, b@, c@, t));
    }
    s
}

impl MapleSpan {
    /// A root span for one runtime event stage. Appends the correlation
    /// attributes to the caller's extra attributes, keeping their order.
    pub fn for_runtime_event(
        session_id: &str,
        event_id: &str,
        stage: &str,
        ok: bool,
        error: Option<&str>,
        start_time_unix_nano: u64,
        end_time_unix_nano: u64,
        extra_attributes: Vec<(String, String)>,
    ) -> (r: MapleSpan)
        ensures
            r.trace_id@ == ids::spec_trace_id(session_id@, event_id@),
            r.span_id@ == ids::spec_span_id(
                spec_id_seed(session_id@, event_id@, stage@, start_time_unix_nano),
            ),
            r.parent_span_id@.len() == 0,
            r.name@ == "everruns."@ + stage@,
            r.kind == SPAN_KIND_INTERNAL,
            r.start_time_unix_nano == start_time_unix_nano,
            r.end_time_unix_nano == end_time_unix_nano,
            r.status_code == (if ok { STATUS_OK } else { STATUS_ERROR }),
            (r.status_message is Some) == (error is Some),
            error matches Some(m) ==> r.status_message matches Some(ms) && ms@ == m@,
            attr_views(r.attributes@) == attr_views(extra_attributes@) + seq![
                ("session_id"@, session_id@),
                ("event_id"@, event_id@),
                ("stage"@, stage@),
                ("bridge.ok"@, spec_bool_chars(ok)),
            ] + (if error is Some {
                seq![("error.message"@, error->0@)]
            } else {
                Seq::<(Seq<char>, Seq<char>)>::empty()
            }),
    {
        let trace_id = ids::stable_trace_id(session_id, event_id);
        let seed = id_seed(session_id, event_id, stage, start_time_unix_nano);
        let span_id = ids::stable_span_id(seed.as_str());

        let mut attributes = extra_attributes;
        attributes.push((String::from_str("session_id"), String::from_str(session_id)));
        attributes.push((String::from_str("event_id"), String::from_str(event_id)));
        attributes.push((String::from_str("stage"), String::from_str(stage)));
        attributes.push((String::from_str("bridge.ok"), bool_to_string(ok)));
        let status_message: Option<String> = match error {
            Some(m) => {
                attributes.push((String::from_str("error.message"), String::from_str(m)));
                Some(String::from_str(m))
            },
            None => None,
        };

        let mut name = String::from_str("everruns.");
        name.append(stage);

        let r = MapleSpan {
            trace_id,
            span_id,
            parent_span_id: String::new(),
            name,
            kind: SPAN_KIND_INTERNAL,
            start_time_unix_nano,
            end_time_unix_nano,
            status_code: if ok { STATUS_OK } else { STATUS_ERROR },
            status_message,
            attributes,
        };
        proof {
            assert(attr_views(r.attributes@) =~= attr_views(extra_attributes@) + seq![
                ("session_id"@, session_id@),
                ("event_id"@, event_id@),
                ("stage"@, stage@),
                ("bridge.ok"@, spec_bool_chars(ok)),
            ] + (if error is Some {
                seq![("error.message"@, error->0@)]
            } else {
                Seq::<(Seq<char>, Seq<char>)>::empty()
            }));
        }
        r
    }

    /// A client span for one tool call, carrying the full correlation
    /// attribute set.
    pub fn for_tool_call(
        session_id: &str,
        event_id: &str,
        tool_call_id: &str,
        tool_name: &str,
        seq_op: &str,
        ok: bool,
        error: Option<&str>,
        start_time_unix_nano: u64,
        end_time_unix_nano: u64,
        duration_ms: u64,
    ) -> (r: MapleSpan)
        ensures
            r.trace_id@ == ids::spec_trace_id(session_id@, event_id@),
            r.span_id@ == ids::spec_span_id(
                spec_id_seed(session_id@, event_id@, tool_call_id@, start_time_unix_nano),
            ),
            r.parent_span_id@.len() == 0,
            r.name@ == "everruns.tool_call"@,
            r.kind == SPAN_KIND_CLIENT,
            r.start_time_unix_nano == start_time_unix_nano,
            r.end_time_unix_nano == end_time_unix_nano,
            r.status_code == (if ok { STATUS_OK } else { STATUS_ERROR }),
            (r.status_message is Some) == (error is Some),
            error matches Some(m) ==> r.status_message matches Some(ms) && ms@ == m@,
            attr_views(r.attributes@) == seq![
                ("session_id"@, session_id@),
                ("event_id"@, event_id@),
                ("tool_call_id"@, tool_call_id@),
                ("tool_name"@, tool_name@),
                ("seq_op"@, seq_op@),
                ("bridge.ok"@, spec_bool_chars(ok)),
                ("bridge.duration_ms"@, text::spec_dec_chars(duration_ms as int)),
            ] + (if error is Some {
                seq![("error.message"@, error->0@)]
            } else {
                Seq::<(Seq<char>, Seq<char>)>::empty()
            }),
    {
        let trace_id = ids::stable_trace_id(session_id, event_id);
        let seed = id_seed(session_id, event_id, tool_call_id, start_time_unix_nano);
        let span_id = ids::stable_span_id(seed.as_str());

        let mut attributes: Vec<(String, String)> = Vec::new();
        attributes.push((String::from_str("session_id"), String::from_str(session_id)));
        attributes.push((String::from_str("event_id"), String::from_str(event_id)));
        attributes.push((String::from_str("tool_call_id"), String::from_str(tool_call_id)));
        attributes.push((String::from_str("tool_name"), String::from_str(tool_name)));
        attributes.push((String::from_str("seq_op"), String::from_str(seq_op)));
        attributes.push((String::from_str("bridge.ok"), bool_to_string(ok)));
        attributes.push((
            String::from_str("bridge.duration_ms"),
            text::u64_to_dec_string(duration_ms),
        ));
        let status_message: Option<String> = match error {
            Some(m) => {
                attributes.push((String::from_str("error.message"), String::from_str(m)));
                Some(String::from_str(m))
            },
            None => None,
        };

        let r = MapleSpan {
            trace_id,
            span_id,
            parent_span_id: String::new(),
            name: String::from_str("everruns.tool_call"),
            kind: SPAN_KIND_CLIENT,
            start_time_unix_nano,
            end_time_unix_nano,
            status_code: if ok { STATUS_OK } else { STATUS_ERROR },
            status_message,
            attributes,
        };
        proof {
            assert(attr_views(r.attributes@) =~= seq![
                ("session_id"@, session_id@),
                ("event_id"@, event_id@),
                ("tool_call_id"@, tool_call_id@),
                ("tool_name"@, tool_name@),
                ("seq_op"@, seq_op@),
                ("bridge.ok"@, spec_bool_chars(ok)),
                ("bridge.duration_ms"@, text::spec_dec_chars(duration_ms as int)),
            ] + (if error is Some {
                seq![("error.message"@, error->0@)]
            } else {
                Seq::<(Seq<char>, Seq<char>)>::empty()
            }));
        }
        r
    }
}

} // verus!
