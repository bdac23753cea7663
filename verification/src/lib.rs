//! Control plane for a live media-processing graph.
//!
//! The library continuously drives a running processing graph toward a
//! declared target topology: a set of named input sources that are attached,
//! reconfigured or detached without stopping the graph.  It contains the
//! reconciler that diffs desired against live sources, the per-source
//! lifecycle state machine, and the health watchdog that detects a silently
//! stalled input and sequences an asynchronous recovery.
//!
//! The graph itself (node construction, linking, state changes) is an external
//! collaborator: every decision here is a function of plain values — the
//! current state, a monotonic clock reading in milliseconds, and the outcomes
//! the graph reported — and the caller performs the returned actions against
//! the real graph.

pub mod config;
pub mod controller;
pub mod manager;
pub mod watchdog;
