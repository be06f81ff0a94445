//! Decision core of the local install-lock canaries.
//!
//! Two small programs exercise a local file-lock backend: a contention-wave
//! canary, in which a coordinator releases twelve processes at once against one
//! lock rendezvous and expects exactly one winner, and a cross-runtime probe that
//! holds, contends for, or re-acquires a lock on request. Everything that these
//! programs decide (argument handling, the order of their steps, how child
//! reports are tallied, which outcome is a failure and with which message) lives
//! here as verified state machines over plain values; the file system, the
//! processes, the clock and the lock backend are driven by the caller.
use vstd::prelude::*;

pub mod text;
pub mod error;
pub mod protocol;
pub mod process_canary;
pub mod attempt;
pub mod coordinator;
pub mod cross_runtime;
