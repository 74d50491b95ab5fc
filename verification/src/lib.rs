//! Core of a streaming serial-link data-acquisition pipeline.
//!
//! The device emits one byte stream per session: a preamble of at least
//! three consecutive `0xFF` marker bytes, then ASCII header lines (the last
//! one containing `start`), then an endless run of 2-byte big-endian codes.
//! This crate holds the verified logic of that pipeline: frame
//! synchronization, header skipping, unit decoding and classification, the
//! bounded FIFO delivery queue, and CSV rendering for the consumer side.
//! The unverifiable edges (serial I/O, the async runtime, the wall clock)
//! live in the surrounding application, which hands plain values in and out.

pub mod channel;
pub mod consumer;
pub mod decode;
pub mod header;
pub mod session;
pub mod supervisor;
pub mod sync;
