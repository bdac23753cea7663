//! Per-source health watchdog and reconnection sequencing.
//!
//! A buffer-flow probe feeds `on_buffer`; a periodic check calls `reset_due`
//! and, when a reset is due, `begin_reset`.  The caller then drives the
//! source's subgraph to the null state and back toward playing, and reports
//! what the graph answered through `on_reset_result` and `on_async_poll`.
//! All times are readings of a monotonic clock in milliseconds, supplied by
//! the caller.

use vstd::prelude::*;

verus! {

/// Milliseconds without an observed buffer after which a started source
/// counts as stalled.
pub const STALL_THRESHOLD_MS: u64 = 10_000;

/// Minimum milliseconds between two reset attempts (the cool-down).
pub const RESET_COOLDOWN_MS: u64 = 10_000;

/// Milliseconds after which a reconnection that has not completed is
/// re-armed with another reset attempt rather than waited for indefinitely.
pub const RECONNECT_RETRY_MS: u64 = 30_000;

/// Interval of the periodic per-source watchdog check.
pub const WATCH_INTERVAL_MS: u64 = 1_000;

/// Interval of the short poller that watches an asynchronous state change.
pub const ASYNC_POLL_INTERVAL_MS: u64 = 20;

/// What the graph answered to a lifecycle state-change request.
#[derive(Debug, Clone, Copy, PartialEq, Eq, Structural)]
pub enum StateChangeOutcome {
    Success,
    Async,
    NoPreroll,
    Failure,
}

/// A lifecycle state of a graph node, as the graph reports it.
#[derive(Debug, Clone, Copy, PartialEq, Eq, Structural)]
pub enum GraphState {
    Null,
    Ready,
    Paused,
    Playing,
}

/// What the caller should do next after one poll of an asynchronous state
/// change.
#[derive(Debug, Clone, Copy, PartialEq, Eq, Structural)]
pub enum PollStep {
    /// The change is still asynchronous: poll again.
    KeepWatching,
    /// The change settled short of playing: request playing again, then
    /// poll again.
    RetryPlaying,
    /// The graph confirmed the playing state: the reconnection is complete
    /// and the poller is cancelled.
    Confirmed,
    /// The state change failed: the poller is cancelled and the source stays
    /// in reconnection, so a later periodic check retries.
    Failed,
}

/// Elapsed milliseconds between an earlier reading `then` and `now`, clamped
/// to zero if the readings are out of order.
pub open spec fn spec_elapsed(then: u64, now: u64) -> u64 {
    if now >= then {
        (now - then) as u64
    } else {
        0
    }
}

/// Elapsed milliseconds between an earlier reading `then` and `now`.
pub fn elapsed_ms(then: u64, now: u64) -> (e: u64)
    ensures
        e == spec_elapsed(then, now),
{
    if now >= then {
        now - then
    } else {
        0
    }
}

/// The reconnection bookkeeping of one source.
#[derive(Debug, Clone, Copy, PartialEq, Eq, Structural)]
pub struct ReconnectionContext {
    /// When the buffer probe last observed a media buffer.
    pub last_buffer_time: u64,
    /// When a reset attempt was last recorded.
    pub last_reset_time: u64,
    /// Whether the transport has begun delivering at least one stream.
    pub started: bool,
    /// Whether a reset attempt is in flight; guards against overlapping
    /// resets.
    pub reconnecting: bool,
    /// Whether the probe saw an end-of-stream event after the last buffer;
    /// informational only, it does not by itself trigger a reset.
    pub have_eos: bool,
    /// Handle of the in-flight asynchronous state-change poller, at most one
    /// at a time.
    pub pending_async_watch: Option<u64>,
}

impl ReconnectionContext {
    /// Fresh bookkeeping for a source created at `now`.
    pub fn new(now: u64) -> (c: ReconnectionContext)
        ensures
            c == (ReconnectionContext {
                last_buffer_time: now,
                last_reset_time: now,
                started: false,
                reconnecting: false,
                have_eos: false,
                pending_async_watch: None,
            }),
    {
        ReconnectionContext {
            last_buffer_time: now,
            last_reset_time: now,
            started: false,
            reconnecting: false,
            have_eos: false,
            pending_async_watch: None,
        }
    }

    /// The buffer probe observed a media buffer at `now`.
    pub fn on_buffer(&mut self, now: u64)
        ensures
            *final(self) == (ReconnectionContext {
                last_buffer_time: now,
                have_eos: false,
                ..*old(self)
            }),
    {
        self.last_buffer_time = now;
        self.have_eos = false;
    }

    /// The buffer probe observed an end-of-stream event.
    pub fn on_eos(&mut self)
        ensures
            *final(self) == (ReconnectionContext { have_eos: true, ..*old(self) }),
    {
        self.have_eos = true;
    }

    /// The transport delivered its first stream.
    pub fn on_started(&mut self)
        ensures
            *final(self) == (ReconnectionContext { started: true, ..*old(self) }),
    {
        self.started = true;
    }

    /// Whether the periodic check at `now` must trigger a reset attempt:
    /// either a reconnection is in flight but has exceeded its retry bound,
    /// or the source has started, has seen no buffer for the stall
    /// threshold, and the cool-down since the last reset has passed.
    pub open spec fn spec_reset_due(self, now: u64) -> bool {
        if self.reconnecting {
            spec_elapsed(self.last_reset_time, now) >= RECONNECT_RETRY_MS
        } else {
            self.started && spec_elapsed(self.last_buffer_time, now) >= STALL_THRESHOLD_MS
                && spec_elapsed(self.last_reset_time, now) >= RESET_COOLDOWN_MS
        }
    }

    /// The periodic watchdog decision at `now`.
    pub fn reset_due(&self, now: u64) -> (due: bool)
        ensures
            due == self.spec_reset_due(now),
    {
        if self.reconnecting {
            elapsed_ms(self.last_reset_time, now) >= RECONNECT_RETRY_MS
        } else {
            self.started && elapsed_ms(self.last_buffer_time, now) >= STALL_THRESHOLD_MS
                && elapsed_ms(self.last_reset_time, now) >= RESET_COOLDOWN_MS
        }
    }

    /// Record that a reset attempt starts at `now`.  Any poller still
    /// watching an earlier attempt is cancelled, so at most one is ever in
    /// flight.
    pub fn begin_reset(&mut self, now: u64)
        requires
            old(self).spec_reset_due(now),
        ensures
            *final(self) == (ReconnectionContext {
                reconnecting: true,
                last_reset_time: now,
                pending_async_watch: None,
                ..*old(self)
            }),
    {
        self.reconnecting = true;
        self.last_reset_time = now;
        self.pending_async_watch = None;
    }

    /// After the reset sequence asked the graph to re-enter playing, record
    /// what the graph answered.  An asynchronous answer installs the poller
    /// under the fresh handle `watch` and returns true; an immediate,
    /// confirmed playing state completes the reconnection; anything else
    /// leaves the bookkeeping as it was, so a later periodic check retries.
    pub fn on_reset_result(
        &mut self,
        outcome: StateChangeOutcome,
        state: GraphState,
        watch: u64,
    ) -> (installed: bool)
        requires
            old(self).reconnecting,
        ensures
            installed == (outcome == StateChangeOutcome::Async || outcome
                == StateChangeOutcome::NoPreroll),
            installed ==> *final(self) == (ReconnectionContext {
                pending_async_watch: Some(watch),
                ..*old(self)
            }),
            !installed && outcome == StateChangeOutcome::Success && state == GraphState::Playing
                ==> *final(self) == (ReconnectionContext { reconnecting: false, ..*old(self) }),
            !installed && !(outcome == StateChangeOutcome::Success && state
                == GraphState::Playing) ==> *final(self) == *old(self),
    {
        if outcome == StateChangeOutcome::Async || outcome == StateChangeOutcome::NoPreroll {
            self.pending_async_watch = Some(watch);
            true
        } else {
            if outcome == StateChangeOutcome::Success && state == GraphState::Playing {
                self.reconnecting = false;
            }
            false
        }
    }

    /// One poll of an in-flight asynchronous state change, given the state
    /// the graph reported.  The reconnection completes only when the graph
    /// confirms the playing state, never speculatively; a failure cancels
    /// the poller but keeps `reconnecting` set so the periodic check can
    /// retry later.
    pub fn on_async_poll(&mut self, outcome: StateChangeOutcome, state: GraphState) -> (step:
        PollStep)
        requires
            old(self).reconnecting,
            old(self).pending_async_watch is Some,
        ensures
            outcome == StateChangeOutcome::Async ==> step == PollStep::KeepWatching && *final(self)
                == *old(self),
            outcome == StateChangeOutcome::Failure ==> step == PollStep::Failed && *final(self)
                == (ReconnectionContext { pending_async_watch: None, ..*old(self) }),
            outcome != StateChangeOutcome::Async && outcome != StateChangeOutcome::Failure && state
                == GraphState::Playing ==> step == PollStep::Confirmed && *final(self)
                == (ReconnectionContext {
                reconnecting: false,
                pending_async_watch: None,
                ..*old(self)
            }),
            outcome != StateChangeOutcome::Async && outcome != StateChangeOutcome::Failure && state
                != GraphState::Playing ==> step == PollStep::RetryPlaying && *final(self) == *old(
                self,
            ),
    {
        if outcome == StateChangeOutcome::Async {
            PollStep::KeepWatching
        } else if outcome == StateChangeOutcome::Failure {
            self.pending_async_watch = None;
            PollStep::Failed
        } else if state == GraphState::Playing {
            self.reconnecting = false;
            self.pending_async_watch = None;
            PollStep::Confirmed
        } else {
            PollStep::RetryPlaying
        }
    }

    /// Cancel the in-flight asynchronous poller, if any; part of removing a
    /// source.
    pub fn cancel(&mut self)
        ensures
            *final(self) == (ReconnectionContext { pending_async_watch: None, ..*old(self) }),
    {
        self.pending_async_watch = None;
    }
}

/// Stall detection: while no reconnection is in flight, a reset is due
/// exactly when the source has started, the stall threshold has elapsed
/// since the last observed buffer, and the cool-down has elapsed since the
/// last reset — and never before the stall threshold.
pub proof fn lemma_stall_detection(ctx: ReconnectionContext, now: u64)
    requires
        !ctx.reconnecting,
    ensures
        ctx.spec_reset_due(now) <==> (ctx.started && spec_elapsed(ctx.last_buffer_time, now)
            >= STALL_THRESHOLD_MS && spec_elapsed(ctx.last_reset_time, now) >= RESET_COOLDOWN_MS),
        spec_elapsed(ctx.last_buffer_time, now) < STALL_THRESHOLD_MS ==> !ctx.spec_reset_due(now),
{
}

/// Cool-down: once a reset has been recorded at `last_reset_time`, no second
/// reset is due within the cool-down interval — whether or not the
/// reconnection completed meanwhile — so two stalls closer together than the
/// cool-down trigger only one reset.
pub proof fn lemma_cooldown(ctx: ReconnectionContext, now: u64)
    requires
        spec_elapsed(ctx.last_reset_time, now) < RESET_COOLDOWN_MS,
    ensures
        !ctx.spec_reset_due(now),
{
}

} // verus!
