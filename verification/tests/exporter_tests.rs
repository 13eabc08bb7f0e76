use seq_everruns_bridge::config::MapleExporterConfig;
use seq_everruns_bridge::exporter::MapleTraceExporter;
use seq_everruns_bridge::span::MapleSpan;

fn test_span(tag: &str) -> MapleSpan {
    MapleSpan::for_tool_call(
        "session-1",
        "event-1",
        tag,
        "seq_ping",
        "ping",
        true,
        None,
        1_739_890_000_000_000_000,
        1_739_890_000_100_000_000,
        100,
    )
}

fn exporter_with(queue_capacity: usize, max_batch_size: usize) -> MapleTraceExporter {
    let mut config = MapleExporterConfig::default();
    config.queue_capacity = queue_capacity;
    config.max_batch_size = max_batch_size;
    MapleTraceExporter::new(config)
}

#[test]
fn emits_within_capacity_are_all_accepted() {
    let mut exporter = exporter_with(32, 8);
    for i in 0..3 {
        exporter.emit_span(test_span(&format!("tool-{i}")));
    }
    let stats = exporter.stats();
    assert_eq!(stats.enqueued, 3);
    assert_eq!(stats.dropped, 0);
}

#[test]
fn overflow_drops_and_accounts_for_every_span() {
    let mut exporter = exporter_with(4, 8);
    for i in 0..10 {
        exporter.emit_span(test_span(&format!("tool-{i}")));
    }
    let stats = exporter.stats();
    assert_eq!(stats.enqueued, 4);
    assert_eq!(stats.dropped, 6);
    assert_eq!(stats.enqueued + stats.dropped, 10);
}

#[test]
fn capacity_one_two_emits_one_drop() {
    let mut exporter = exporter_with(1, 8);
    exporter.emit_span(test_span("tool-a"));
    exporter.emit_span(test_span("tool-b"));
    let stats = exporter.stats();
    assert_eq!(stats.enqueued, 1);
    assert_eq!(stats.dropped, 1);
}

#[test]
fn successful_delivery_counts_batch_as_sent() {
    let mut exporter = exporter_with(32, 8);
    for i in 0..3 {
        exporter.emit_span(test_span(&format!("tool-{i}")));
    }
    exporter.worker_drain();
    let batch = exporter.take_batch();
    assert_eq!(batch.len(), 3);
    exporter.record_delivery(batch.len(), Some(200));
    let stats = exporter.stats();
    assert_eq!(stats.sent, 3);
    assert_eq!(stats.failed, 0);
}

#[test]
fn per_target_outcomes_are_independent() {
    let mut exporter = exporter_with(32, 8);
    exporter.emit_span(test_span("tool-a"));
    exporter.emit_span(test_span("tool-b"));
    exporter.worker_drain();
    let batch = exporter.take_batch();
    assert_eq!(batch.len(), 2);
    // two targets, one failing with 500 and one succeeding with 200
    exporter.record_delivery(batch.len(), Some(500));
    exporter.record_delivery(batch.len(), Some(200));
    let stats = exporter.stats();
    assert_eq!(stats.sent, 2);
    assert_eq!(stats.failed, 2);
    assert_eq!(stats.enqueued, 2);
    assert_eq!(stats.dropped, 0);
}

#[test]
fn transport_failure_counts_as_failed() {
    let mut exporter = exporter_with(32, 8);
    exporter.emit_span(test_span("tool-a"));
    exporter.worker_drain();
    let batch = exporter.take_batch();
    exporter.record_delivery(batch.len(), None);
    let stats = exporter.stats();
    assert_eq!(stats.sent, 0);
    assert_eq!(stats.failed, 1);
}

#[test]
fn drain_stops_at_max_batch_size() {
    let mut exporter = exporter_with(32, 2);
    for i in 0..5 {
        exporter.emit_span(test_span(&format!("tool-{i}")));
    }
    exporter.worker_drain();
    assert!(exporter.flush_ready());
    let batch = exporter.take_batch();
    assert_eq!(batch.len(), 2);
    // the remaining spans are still queued, in order
    exporter.worker_drain();
    let batch = exporter.take_batch();
    assert_eq!(batch.len(), 2);
    exporter.worker_drain();
    let batch = exporter.take_batch();
    assert_eq!(batch.len(), 1);
    assert!(!exporter.flush_ready());
}

#[test]
fn single_span_flushes_at_first_wake() {
    let mut exporter = exporter_with(32, 128);
    exporter.emit_span(test_span("tool-a"));
    exporter.worker_drain();
    assert!(exporter.flush_ready());
    let batch = exporter.take_batch();
    assert_eq!(batch.len(), 1);
}

#[test]
fn drain_preserves_emission_order() {
    let mut exporter = exporter_with(32, 8);
    for i in 0..4 {
        exporter.emit_span(test_span(&format!("tool-{i}")));
    }
    exporter.worker_drain();
    let batch = exporter.take_batch();
    let ids: Vec<String> = batch
        .iter()
        .map(|s| {
            s.attributes
                .iter()
                .find(|(k, _)| k == "tool_call_id")
                .map(|(_, v)| v.clone())
                .unwrap()
        })
        .collect();
    assert_eq!(ids, vec!["tool-0", "tool-1", "tool-2", "tool-3"]);
}

#[test]
fn take_batch_leaves_queue_and_counters_alone() {
    let mut exporter = exporter_with(32, 2);
    for i in 0..3 {
        exporter.emit_span(test_span(&format!("tool-{i}")));
    }
    exporter.worker_drain();
    let _ = exporter.take_batch();
    let stats = exporter.stats();
    assert_eq!(stats.enqueued, 3);
    assert_eq!(stats.sent, 0);
    assert_eq!(stats.failed, 0);
    assert_eq!(stats.dropped, 0);
}

#[test]
fn new_exporter_raises_capacities_to_one() {
    let mut exporter = exporter_with(0, 0);
    exporter.emit_span(test_span("tool-a"));
    exporter.emit_span(test_span("tool-b"));
    let stats = exporter.stats();
    assert_eq!(stats.enqueued, 1);
    assert_eq!(stats.dropped, 1);
}
