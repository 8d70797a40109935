//! Deterministic core of a load-generation harness.
//!
//! A harness runs one workload on a fixed number of worker slots, counts the
//! units of work each slot completes, releases everybody through a start gate
//! and turns clock readings into throughput reports. This crate holds the
//! state of such a harness and every decision it takes; threads, sleeping,
//! signals and log output belong to the embedding program, which feeds the
//! harness events and carries out what it answers.

pub mod counters;
pub mod gate;
pub mod model;
pub mod bench;
