//! Client-side telemetry core for the seq automation bridge.
//!
//! The crate models the asynchronous batched trace exporter of the bridge:
//! span records with deterministic identifiers, a bounded queue with a
//! drop-on-full policy, a batching worker state machine, per-target delivery
//! accounting, and the OTLP-style JSON wire encoding. All logic here is pure
//! and verified; the host process supplies the threads, sockets and HTTP
//! calls around it.

pub mod bridge;
pub mod catalog;
pub mod config;
pub mod decode;
pub mod exporter;
pub mod ids;
pub mod json;
pub mod rpc;
pub mod span;
pub mod text;
pub mod wire;
