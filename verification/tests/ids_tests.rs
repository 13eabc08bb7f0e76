use seq_everruns_bridge::ids::{fnv1a64, stable_span_id, stable_trace_id};

#[test]
fn stable_ids_have_expected_length() {
    let trace_id = stable_trace_id("session-1", "event-1");
    let span_id = stable_span_id("session-1:event-1:tc1");
    assert_eq!(trace_id.len(), 32);
    assert_eq!(span_id.len(), 16);
}

#[test]
fn trace_id_is_deterministic_across_calls() {
    let a = stable_trace_id("s1", "e1");
    let b = stable_trace_id("s1", "e1");
    assert_eq!(a.len(), 32);
    assert_eq!(b.len(), 32);
    assert_eq!(a, b);
}

#[test]
fn ids_are_lowercase_hex() {
    let trace_id = stable_trace_id("session-9", "event-42");
    let span_id = stable_span_id("any seed at all");
    assert!(trace_id.chars().all(|c| c.is_ascii_hexdigit() && !c.is_ascii_uppercase()));
    assert!(span_id.chars().all(|c| c.is_ascii_hexdigit() && !c.is_ascii_uppercase()));
}

#[test]
fn fnv1a64_known_values() {
    assert_eq!(fnv1a64(b""), 0xcbf29ce484222325);
    assert_eq!(fnv1a64(b"a"), 0xaf63dc4c8601ec8c);
}

#[test]
fn span_id_exact_rendering() {
    assert_eq!(stable_span_id(""), "cbf29ce484222325");
    assert_eq!(stable_span_id("session-1:event-1:tc1"), "83e881811cbd300b");
}

#[test]
fn trace_id_is_concatenation_of_two_digests() {
    let t = stable_trace_id("session-1", "event-1");
    assert_eq!(t, "1688595dcf49184deb53885bafeda6a5");
    assert_eq!(&t[..16], "1688595dcf49184d");
    assert_eq!(&t[16..], "eb53885bafeda6a5");
}

#[test]
fn trace_id_depends_only_on_session_and_event() {
    let a = stable_trace_id("s1", "e1");
    let b = stable_trace_id("s1", "e2");
    assert_ne!(a, b);
}
