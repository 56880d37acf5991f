//! Core of a resumable, stage-checkpointed capture pipeline for digitizing
//! analog video: it validates a job configuration, sequences the recording,
//! marker-detection and trim stages, parses the detection tool's diagnostic
//! text into marker intervals, and decides the trimming strategy.
//!
//! The library is pure decision logic over plain values. All input/output
//! (running the external media tool, touching the filesystem) is performed by
//! a thin driver that asks the library what to do next and reports back what
//! happened.

pub mod errors;
pub mod timecode;
pub mod markers;
pub mod config;
pub mod pipeline;
