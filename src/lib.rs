//! The data plane of a broadcast playout engine: the decisions of the loop
//! that feeds one encoder with bytes either from the decoder of the current
//! scheduled item or from a live ingest feed that may take over at any
//! moment and later hand control back.
//!
//! - `playout`: the forwarding loop as a state machine, from item requests
//!   through decoding and live takeover to the end of the session.
//! - `trace`: runs of that machine over observed reads and ingest chunks,
//!   and what holds of every such run.
//! - `media`: schedule items and the decoder invocation composed for each.
//! - `config`: the configured source and output modes.
//! - `media_map`: a bounded first-in-first-out cache of media durations.
//! - `storage`, `text`: how media paths are stored and read back, locally
//!   and in S3 buckets.
//! - `models`: stored user and preset records.

pub mod config;
pub mod media;
pub mod media_map;
pub mod models;
pub mod playout;
pub mod storage;
pub mod text;
pub mod trace;
