//! The batched trace exporter core: a bounded span queue with a
//! drop-on-full policy, the worker's batching state, and the delivery
//! counters.
//!
//! This type is the exporter's whole decision logic, written as a
//! sequential state machine. The host wraps it for concurrency: producer
//! call sites hand spans to [`MapleTraceExporter::emit_span`], and a single
//! background worker alternates [`MapleTraceExporter::worker_drain`],
//! [`MapleTraceExporter::take_batch`], delivery of the encoded payload, and
//! [`MapleTraceExporter::record_delivery`]. No method here blocks or fails:
//! a span that does not fit is counted and dropped.

use vstd::prelude::*;
use crate::config::MapleExporterConfig;
use crate::span::MapleSpan;

verus! {

/// Snapshot of the exporter's four counters. Each counter only ever
/// grows (saturating at the top of `u64`).
#[derive(Clone, Copy, Debug, PartialEq, Eq, Structural)]
pub struct MapleExporterStats {
    /// Spans accepted into the queue.
    pub enqueued: u64,
    /// Spans delivered with a 2xx response, counted per target.
    pub sent: u64,
    /// Spans whose delivery failed or got a non-2xx response, per target.
    pub failed: u64,
    /// Spans rejected because the queue was full.
    pub dropped: u64,
}

impl MapleExporterStats {
    /// All four counters at zero.
    pub fn zero() -> (r: MapleExporterStats)
        ensures
            r.enqueued == 0 && r.sent == 0 && r.failed == 0 && r.dropped == 0,
    {
        MapleExporterStats { enqueued: 0, sent: 0, failed: 0, dropped: 0 }
    }
}

/// The abstract state of an exporter: capacities, pending spans, the
/// worker's partial batch, and the counters.
pub struct ExporterModel {
    pub capacity: int,
    pub max_batch: int,
    pub queue: Seq<MapleSpan>,
    pub batch: Seq<MapleSpan>,
    pub enqueued: u64,
    pub sent: u64,
    pub failed: u64,
    pub dropped: u64,
}

/// The exporter core. The queue holds spans accepted from producers and
/// not yet drained; the batch holds spans the worker has drained and not
/// yet flushed.
pub struct MapleTraceExporter {
    pub config: MapleExporterConfig,
    pub queue: Vec<MapleSpan>,
    pub batch: Vec<MapleSpan>,
    pub stats: MapleExporterStats,
}

impl View for MapleTraceExporter {
    type V = ExporterModel;

    open spec fn view(&self) -> ExporterModel {
        ExporterModel {
            capacity: self.config.queue_capacity as int,
            max_batch: self.config.max_batch_size as int,
            queue: self.queue@,
            batch: self.batch@,
            enqueued: self.stats.enqueued,
            sent: self.stats.sent,
            failed: self.stats.failed,
            dropped: self.stats.dropped,
        }
    }
}

/// What one `emit` does: accept the span and count it when the queue has
/// room, else count a drop and discard it. Nothing else changes.
pub open spec fn spec_emit(m: ExporterModel, span: MapleSpan) -> ExporterModel {
    if m.queue.len() < m.capacity {
        ExporterModel { queue: m.queue.push(span), enqueued: m.enqueued.saturating_add(1), ..m }
    } else {
        ExporterModel { dropped: m.dropped.saturating_add(1), ..m }
    }
}

/// What one worker drain does: move the longest queue prefix that still
/// fits into the batch, preserving order. Counters do not change.
pub open spec fn spec_drain(m: ExporterModel) -> ExporterModel {
    let room = if m.batch.len() >= m.max_batch {
        0
    } else {
        m.max_batch - m.batch.len()
    };
    let n = if m.queue.len() <= room {
        m.queue.len() as int
    } else {
        room
    };
    ExporterModel { batch: m.batch + m.queue.take(n), queue: m.queue.skip(n), ..m }
}

/// Whether an HTTP status is a success for delivery accounting.
pub open spec fn is_success_status(status: Option<u16>) -> bool {
    status matches Some(c) && 200 <= c < 300
}

impl MapleTraceExporter {
    /// A fresh exporter over `config`: empty queue, empty batch, zero
    /// counters. Capacities below 1 are raised to 1.
    pub fn new(config: MapleExporterConfig) -> (r: MapleTraceExporter)
        ensures
            r.config.queue_capacity == (if config.queue_capacity >= 1 {
                config.queue_capacity
            } else {
                1
            }),
            r.config.max_batch_size == (if config.max_batch_size >= 1 {
                config.max_batch_size
            } else {
                1
            }),
            r.config.service_name == config.service_name,
            r.config.service_version == config.service_version,
            r.config.deployment_environment == config.deployment_environment,
            r.config.scope_name == config.scope_name,
            r.config.flush_interval_ms == config.flush_interval_ms,
            r.config.connect_timeout_ms == config.connect_timeout_ms,
            r.config.request_timeout_ms == config.request_timeout_ms,
            r.config.targets == config.targets,
            r@.queue.len() == 0,
            r@.batch.len() == 0,
            r.stats.enqueued == 0 && r.stats.sent == 0 && r.stats.failed == 0
                && r.stats.dropped == 0,
    {
        let mut config = config;
        if config.queue_capacity < 1 {
            config.queue_capacity = 1;
        }
        if config.max_batch_size < 1 {
            config.max_batch_size = 1;
        }
        MapleTraceExporter {
            config,
            queue: Vec::new(),
            batch: Vec::new(),
            stats: MapleExporterStats::zero(),
        }
    }

    /// Accepts a span without blocking and without failing: it is queued
    /// and counted as enqueued when there is room, else counted as
    /// dropped and discarded.
    pub fn emit_span(&mut self, span: MapleSpan)
        ensures
            final(self)@ == spec_emit(old(self)@, span),
            final(self).config == old(self).config,
    {
        if self.queue.len() < self.config.queue_capacity {
            self.queue.push(span);
            self.stats.enqueued = self.stats.enqueued.saturating_add(1);
        } else {
            self.stats.dropped = self.stats.dropped.saturating_add(1);
        }
    }

    /// A point-in-time snapshot of the four counters.
    pub fn stats(&self) -> (r: MapleExporterStats)
        ensures
            r == self.stats,
    {
        self.stats
    }

    /// The worker's draining step: moves spans from the queue front into
    /// the batch, in order, until the batch holds `max_batch_size` spans
    /// or the queue is empty.
    pub fn worker_drain(&mut self)
        ensures
            final(self)@ == spec_drain(old(self)@),
            final(self).config == old(self).config,
    {
        let max_batch = self.config.max_batch_size;
        proof {
            assert(old(self).queue@.take(0) =~= Seq::<MapleSpan>::empty());
            assert(old(self).batch@ + old(self).queue@.take(0) =~= old(self).batch@);
            assert(old(self).queue@.skip(0) =~= old(self).queue@);
        }
        while self.batch.len() < max_batch && self.queue.len() > 0
            invariant
                max_batch == old(self).config.max_batch_size,
                self.config == old(self).config,
                self.stats == old(self).stats,
                old(self).batch@.len() <= self.batch@.len(),
                self.batch@.len() <= old(self).batch@.len() + old(self).queue@.len(),
                self.batch@.len() <= max_batch || self.batch@.len() == old(self).batch@.len(),
                self.batch@ == old(self).batch@ + old(self).queue@.take(
                    self.batch@.len() - old(self).batch@.len(),
                ),
                self.queue@ == old(self).queue@.skip(
                    self.batch@.len() - old(self).batch@.len(),
                ),
            decreases self.queue@.len(),
        {
            let ghost k = self.batch@.len() - old(self).batch@.len();
            let s = self.queue.remove(0);
            self.batch.push(s);
            proof {
                assert(old(self).queue@.skip(k)[0] == old(self).queue@[k]);
                assert(self.batch@ =~= old(self).batch@ + old(self).queue@.take(k + 1));
                assert(old(self).queue@.skip(k).remove(0) =~= old(self).queue@.skip(k + 1));
            }
        }
        proof {
            let k = self.batch@.len() - old(self).batch@.len();
            let m = old(self)@;
            let room = if m.batch.len() >= m.max_batch {
                0
            } else {
                m.max_batch - m.batch.len()
            };
            let n = if m.queue.len() <= room {
                m.queue.len() as int
            } else {
                room
            };
            assert(k == n);
            assert(final(self)@ == spec_drain(old(self)@));
        }
    }

    /// Whether the worker has anything to flush.
    pub fn flush_ready(&self) -> (r: bool)
        ensures
            r == (self@.batch.len() > 0),
    {
        self.batch.len() > 0
    }

    /// Hands the accumulated batch to the caller for delivery and clears
    /// it. Queue, counters and configuration are untouched.
    pub fn take_batch(&mut self) -> (r: Vec<MapleSpan>)
        ensures
            r@ == old(self)@.batch,
            final(self)@.batch.len() == 0,
            final(self)@.queue == old(self)@.queue,
            final(self).stats == old(self).stats,
            final(self).config == old(self).config,
    {
        let mut b: Vec<MapleSpan> = Vec::new();
        core::mem::swap(&mut self.batch, &mut b);
        b
    }

    /// Records the outcome of delivering a batch of `count` spans to one
    /// target: a 2xx status counts them as sent, any other status or a
    /// transport failure (`None`) counts them as failed. Targets are
    /// independent: one call per target, touching no other state.
    pub fn record_delivery(&mut self, count: usize, status: Option<u16>)
        ensures
            final(self).stats.sent == (if is_success_status(status) {
                old(self).stats.sent.saturating_add(count as u64)
            } else {
                old(self).stats.sent
            }),
            final(self).stats.failed == (if is_success_status(status) {
                old(self).stats.failed
            } else {
                old(self).stats.failed.saturating_add(count as u64)
            }),
            final(self).stats.enqueued == old(self).stats.enqueued,
            final(self).stats.dropped == old(self).stats.dropped,
            final(self).queue == old(self).queue,
            final(self).batch == old(self).batch,
            final(self).config == old(self).config,
    {
        let ok = match status {
            Some(c) => 200 <= c && c < 300,
            None => false,
        };
        if ok {
            self.stats.sent = self.stats.sent.saturating_add(count as u64);
        } else {
            self.stats.failed = self.stats.failed.saturating_add(count as u64);
        }
    }
}

/// The state after a whole sequence of `emit` calls, first span first.
pub open spec fn spec_emit_all(m: ExporterModel, spans: Seq<MapleSpan>) -> ExporterModel
    decreases spans.len(),
{
    if spans.len() == 0 {
        m
    } else {
        spec_emit_all(spec_emit(m, spans[0]), spans.drop_first())
    }
}

/// Emitting a concatenation is emitting the parts one after the other.
pub proof fn lemma_emit_all_append(m: ExporterModel, a: Seq<MapleSpan>, b: Seq<MapleSpan>)
    ensures
        spec_emit_all(m, a + b) == spec_emit_all(spec_emit_all(m, a), b),
    decreases a.len(),
{
    if a.len() == 0 {
        assert(a + b =~= b);
    } else {
        assert((a + b)[0] == a[0]);
        assert((a + b).drop_first() =~= a.drop_first() + b);
        lemma_emit_all_append(spec_emit(m, a[0]), a.drop_first(), b);
    }
}

/// While the spans fit, every `emit` accepts: after `N` emits into free
/// room of at least `N`, `enqueued` grew by exactly `N`, `dropped` did not
/// move, and the queue holds the spans in emission order.
pub proof fn lemma_emit_all_within_capacity(m: ExporterModel, spans: Seq<MapleSpan>)
    requires
        m.queue.len() + spans.len() <= m.capacity,
        m.enqueued + spans.len() <= u64::MAX,
    ensures
        spec_emit_all(m, spans).enqueued == m.enqueued + spans.len(),
        spec_emit_all(m, spans).dropped == m.dropped,
        spec_emit_all(m, spans).sent == m.sent,
        spec_emit_all(m, spans).failed == m.failed,
        spec_emit_all(m, spans).queue == m.queue + spans,
        spec_emit_all(m, spans).batch == m.batch,
        spec_emit_all(m, spans).capacity == m.capacity,
        spec_emit_all(m, spans).max_batch == m.max_batch,
    decreases spans.len(),
{
    if spans.len() == 0 {
        assert(m.queue + spans =~= m.queue);
    } else {
        let m1 = spec_emit(m, spans[0]);
        assert(m1.queue == m.queue.push(spans[0]));
        lemma_emit_all_within_capacity(m1, spans.drop_first());
        assert(m.queue.push(spans[0]) + spans.drop_first() =~= m.queue + spans);
    }
}

/// With the queue already full, every further `emit` drops: `dropped`
/// grows by the number of spans, everything else stands still.
pub proof fn lemma_emit_all_when_full(m: ExporterModel, spans: Seq<MapleSpan>)
    requires
        m.queue.len() >= m.capacity,
        m.dropped + spans.len() <= u64::MAX,
    ensures
        spec_emit_all(m, spans).dropped == m.dropped + spans.len(),
        spec_emit_all(m, spans).enqueued == m.enqueued,
        spec_emit_all(m, spans).sent == m.sent,
        spec_emit_all(m, spans).failed == m.failed,
        spec_emit_all(m, spans).queue == m.queue,
        spec_emit_all(m, spans).batch == m.batch,
        spec_emit_all(m, spans).capacity == m.capacity,
        spec_emit_all(m, spans).max_batch == m.max_batch,
    decreases spans.len(),
{
    if spans.len() > 0 {
        lemma_emit_all_when_full(spec_emit(m, spans[0]), spans.drop_first());
    }
}

/// Overload on an empty queue with no drain in between: of `N` spans
/// emitted with `N` above the capacity, exactly `capacity` are accepted
/// and the rest are dropped, so `enqueued + dropped` accounts for every
/// span and at least one drop happened.
pub proof fn lemma_emit_all_overflow(m: ExporterModel, spans: Seq<MapleSpan>)
    requires
        m.queue.len() == 0,
        spans.len() > m.capacity,
        m.capacity >= 0,
        m.enqueued + m.capacity <= u64::MAX,
        m.dropped + spans.len() <= u64::MAX,
    ensures
        spec_emit_all(m, spans).enqueued == m.enqueued + m.capacity,
        spec_emit_all(m, spans).dropped == m.dropped + spans.len() - m.capacity,
        spec_emit_all(m, spans).enqueued + spec_emit_all(m, spans).dropped == m.enqueued
            + m.dropped + spans.len(),
        spec_emit_all(m, spans).dropped > m.dropped,
{
    let a = spans.take(m.capacity);
    let b = spans.skip(m.capacity);
    assert(a + b =~= spans);
    lemma_emit_all_append(m, a, b);
    lemma_emit_all_within_capacity(m, a);
    let m1 = spec_emit_all(m, a);
    assert(m1.queue =~= m.queue + a);
    lemma_emit_all_when_full(m1, b);
}

/// The size trigger: with a full batch's worth of spans queued, one drain
/// fills the batch to exactly `max_batch_size`, so the flush fires at once,
/// without waiting for the flush interval.
pub proof fn lemma_drain_size_trigger(m: ExporterModel)
    requires
        m.batch.len() == 0,
        m.max_batch >= 1,
        m.queue.len() >= m.max_batch,
    ensures
        spec_drain(m).batch.len() == m.max_batch,
        spec_drain(m).queue.len() == m.queue.len() - m.max_batch,
{
}

/// The time trigger: at a wake with anything pending at all, the drained
/// batch is non-empty, so the flush at that wake is not skipped; a span
/// never waits past the wake that follows its arrival.
pub proof fn lemma_drain_time_trigger(m: ExporterModel)
    requires
        m.max_batch >= 1,
        m.queue.len() + m.batch.len() > 0,
    ensures
        spec_drain(m).batch.len() > 0,
{
}

/// A drain never reorders: the batch it leaves is the old batch followed
/// by a prefix of the old queue, and the queue keeps the rest in order.
pub proof fn lemma_drain_keeps_order(m: ExporterModel)
    ensures
        spec_drain(m).batch + spec_drain(m).queue == m.batch + m.queue,
{
    let d = spec_drain(m);
    assert(d.batch + d.queue =~= m.batch + m.queue);
}

} // verus!
