//! Per-source lifecycle: the controller that owns one source's subgraph,
//! its lazy stream negotiation, and the transitions driven by the watchdog.
//!
//! The controller never talks to the graph itself.  Every method is a
//! decision on plain values; the caller wires the graph callbacks to these
//! methods and performs the decisions (create a depacketizer/parser pair,
//! link a pad, re-request the playing state) against the real graph.

use vstd::prelude::*;
use vstd::string::StrSliceExecFns;

use crate::watchdog::GraphState;
use crate::watchdog::PollStep;
use crate::watchdog::ReconnectionContext;
use crate::watchdog::StateChangeOutcome;

verus! {

/// Whether two string slices hold the same characters.
pub fn str_eq(a: &str, b: &str) -> (r: bool)
    ensures
        r == (a@ == b@),
{
    let a_len = a.unicode_len();
    let b_len = b.unicode_len();
    if a_len != b_len {
        return false;
    }
    let mut i: usize = 0;
    while i < a_len
        invariant
            a_len == a@.len(),
            a_len == b@.len(),
            i <= a_len,
            forall|j: int| 0 <= j < i ==> a@[j] == b@[j],
        decreases a_len - i,
    {
        if a.get_char(i) != b.get_char(i) {
            return false;
        }
        i = i + 1;
    }
    proof {
        assert(a@ =~= b@);
    }
    true
}

/// Whether `s` starts with the characters of `prefix`.
pub open spec fn spec_starts_with(s: Seq<char>, prefix: Seq<char>) -> bool {
    s.len() >= prefix.len() && s.subrange(0, prefix.len() as int) == prefix
}

/// Whether the string slice `s` starts with `prefix`.
pub fn str_starts_with(s: &str, prefix: &str) -> (r: bool)
    ensures
        r == spec_starts_with(s@, prefix@),
{
    let s_len = s.unicode_len();
    let p_len = prefix.unicode_len();
    if s_len < p_len {
        proof {
            assert(!spec_starts_with(s@, prefix@));
        }
        return false;
    }
    let mut i: usize = 0;
    while i < p_len
        invariant
            s_len == s@.len(),
            p_len == prefix@.len(),
            p_len <= s_len,
            i <= p_len,
            forall|j: int| 0 <= j < i ==> s@[j] == prefix@[j],
        decreases p_len - i,
    {
        if s.get_char(i) != prefix.get_char(i) {
            proof {
                assert(s@.subrange(0, prefix@.len() as int)[i as int] == s@[i as int]);
            }
            return false;
        }
        i = i + 1;
    }
    proof {
        assert(s@.subrange(0, prefix@.len() as int) =~= prefix@);
    }
    true
}

/// The lifecycle state of one source controller.
#[derive(Debug, Clone, Copy, PartialEq, Eq, Structural)]
pub enum ControllerState {
    /// Just created by the reconciler's add decision.
    Created,
    /// The transport offered its first stream and the depacketizer/parser
    /// pair has been created; playback is not yet confirmed.
    StreamNegotiating,
    /// The subgraph is linked into the running graph.
    Attached,
    /// The graph confirmed that the source reached the playing state.
    Playing,
    /// A reset attempt is in flight.
    Reconnecting,
    /// Teardown has begun.
    Detaching,
    /// The controller has been detached and all its timers cancelled.
    Removed,
}

/// Which depacketizer/parser pair the negotiated encoding needs.
#[derive(Debug, Clone, Copy, PartialEq, Eq, Structural)]
pub enum ParserKind {
    H264,
    H265,
}

/// The outcome of one stream offer during negotiation.
#[derive(Debug, Clone, Copy, PartialEq, Eq, Structural)]
pub enum StreamSelection {
    /// The offer is not video, or its encoding is unsupported: decline it.
    Reject,
    /// The pair was already created by an earlier offer: accept and do
    /// nothing (re-entrant offers no-op).
    AlreadyNegotiated,
    /// First video offer: accept it and create this depacketizer/parser
    /// pair.
    Negotiate(ParserKind),
}

/// What to do with a newly added pad on the static ingest path.
#[derive(Debug, Clone, Copy, PartialEq, Eq, Structural)]
pub enum PadDecision {
    /// The downstream sink pad is already linked: ignore the new pad.
    Ignore,
    /// Link the new pad to the downstream sink pad.
    Link,
    /// The pad does not carry raw video: ignore it.
    RejectNotVideo,
    /// The pad carries raw video but not in device memory the shared mixer
    /// can accept: the graph is misassembled.
    RejectNoDeviceMemory,
}

/// The decision of the pad-added handler on a dynamically created source
/// pad, given whether the downstream sink pad is already linked.
pub fn pad_link_decision(sink_linked: bool) -> (link: bool)
    ensures
        link == !sink_linked,
{
    !sink_linked
}

/// The decision of the URI source's pad-added handler: ignore a pad when the
/// sink is already linked or the pad is not raw video, refuse one that is
/// raw video outside device memory, and link otherwise.
pub open spec fn spec_uri_pad_decision(
    pad_type: Seq<char>,
    device_memory: bool,
    sink_linked: bool,
) -> PadDecision {
    if sink_linked {
        PadDecision::Ignore
    } else if !spec_starts_with(pad_type, "video/x-raw"@) {
        PadDecision::RejectNotVideo
    } else if !device_memory {
        PadDecision::RejectNoDeviceMemory
    } else {
        PadDecision::Link
    }
}

/// Decide what to do with a newly added pad of the URI source, from the
/// pad's media type, whether its caps advertise device memory, and whether
/// the downstream sink pad is already linked.
pub fn uri_pad_decision(pad_type: &str, device_memory: bool, sink_linked: bool) -> (d:
    PadDecision)
    ensures
        d == spec_uri_pad_decision(pad_type@, device_memory, sink_linked),
{
    if sink_linked {
        PadDecision::Ignore
    } else if !str_starts_with(pad_type, "video/x-raw") {
        PadDecision::RejectNotVideo
    } else if !device_memory {
        PadDecision::RejectNoDeviceMemory
    } else {
        PadDecision::Link
    }
}

/// One source's controller: its lifecycle state, the lazily created
/// depacketizer/parser pair, the handle of its periodic watchdog timer, and
/// its reconnection bookkeeping.
#[derive(Debug, Clone, Copy, PartialEq, Eq, Structural)]
pub struct SourceController {
    pub state: ControllerState,
    pub parser: Option<ParserKind>,
    pub watch_timer: Option<u64>,
    pub ctx: ReconnectionContext,
}

impl SourceController {
    /// Well-formedness: the reconnecting flag and the lifecycle state agree,
    /// an asynchronous poller is in flight only while reconnecting (so at
    /// most one at a time), and a removed controller holds no live timer or
    /// poller handle.
    pub open spec fn wf(self) -> bool {
        &&& !(self.state is Removed) ==> (self.state is Reconnecting
            <==> self.ctx.reconnecting)
        &&& self.ctx.pending_async_watch is Some ==> self.state is Reconnecting
        &&& self.state is Removed ==> self.watch_timer is None
            && self.ctx.pending_async_watch is None
    }

    /// A fresh controller created at `now`, owning the periodic watchdog
    /// timer `timer`.
    pub fn new(now: u64, timer: u64) -> (c: SourceController)
        ensures
            c == (SourceController {
                state: ControllerState::Created,
                parser: None,
                watch_timer: Some(timer),
                ctx: ReconnectionContext {
                    last_buffer_time: now,
                    last_reset_time: now,
                    started: false,
                    reconnecting: false,
                    have_eos: false,
                    pending_async_watch: None,
                },
            }),
            c.wf(),
    {
        SourceController {
            state: ControllerState::Created,
            parser: None,
            watch_timer: Some(timer),
            ctx: ReconnectionContext::new(now),
        }
    }

    /// The attach sequence completed: the subgraph is linked into the
    /// running graph.
    pub fn mark_attached(&mut self)
        requires
            old(self).state is Created,
            old(self).wf(),
        ensures
            *final(self) == (SourceController { state: ControllerState::Attached, ..*old(self) }),
            final(self).wf(),
    {
        self.state = ControllerState::Attached;
    }

    /// The controller after a stream offer decided `d`.
    pub open spec fn spec_after_selection(self, d: StreamSelection) -> SourceController {
        match d {
            StreamSelection::Negotiate(k) => SourceController {
                parser: Some(k),
                state: if self.state is Attached {
                    ControllerState::StreamNegotiating
                } else {
                    self.state
                },
                ..self
            },
            _ => self,
        }
    }

    /// The decision on one stream offer: only video is accepted, the
    /// depacketizer/parser pair is created at most once, and only the two
    /// supported encodings can be negotiated.
    pub open spec fn spec_stream_selection(
        self,
        media: Seq<char>,
        encoding_name: Seq<char>,
    ) -> StreamSelection {
        if media != "video"@ {
            StreamSelection::Reject
        } else if self.parser is Some {
            StreamSelection::AlreadyNegotiated
        } else if encoding_name == "H264"@ {
            StreamSelection::Negotiate(ParserKind::H264)
        } else if encoding_name == "H265"@ {
            StreamSelection::Negotiate(ParserKind::H265)
        } else {
            StreamSelection::Reject
        }
    }

    /// Decide one stream offer from its declared media type and encoding
    /// name.  Re-entrant offers after the first successful negotiation
    /// change nothing; non-video offers and unsupported encodings are
    /// rejected and change nothing.
    pub fn select_stream(&mut self, media: &str, encoding_name: &str) -> (d: StreamSelection)
        requires
            old(self).wf(),
        ensures
            d == old(self).spec_stream_selection(media@, encoding_name@),
            *final(self) == old(self).spec_after_selection(d),
            final(self).wf(),
    {
        if !str_eq(media, "video") {
            StreamSelection::Reject
        } else if self.parser.is_some() {
            StreamSelection::AlreadyNegotiated
        } else if str_eq(encoding_name, "H264") {
            self.parser = Some(ParserKind::H264);
            if self.state == ControllerState::Attached {
                self.state = ControllerState::StreamNegotiating;
            }
            StreamSelection::Negotiate(ParserKind::H264)
        } else if str_eq(encoding_name, "H265") {
            self.parser = Some(ParserKind::H265);
            if self.state == ControllerState::Attached {
                self.state = ControllerState::StreamNegotiating;
            }
            StreamSelection::Negotiate(ParserKind::H265)
        } else {
            StreamSelection::Reject
        }
    }

    /// The controller after the transport delivered its first stream.
    pub open spec fn spec_after_started(self) -> SourceController {
        SourceController { ctx: ReconnectionContext { started: true, ..self.ctx }, ..self }
    }

    /// The transport delivered its first stream: the watchdog may now treat
    /// missing buffers as a stall.
    pub fn on_started(&mut self)
        requires
            old(self).wf(),
        ensures
            *final(self) == old(self).spec_after_started(),
            final(self).wf(),
    {
        self.ctx.on_started();
    }

    /// The controller after the buffer probe observed a buffer at `now`.
    pub open spec fn spec_after_buffer(self, now: u64) -> SourceController {
        SourceController {
            ctx: ReconnectionContext { last_buffer_time: now, have_eos: false, ..self.ctx },
            ..self
        }
    }

    /// The buffer probe observed a media buffer at `now`.
    pub fn on_buffer(&mut self, now: u64)
        requires
            old(self).wf(),
        ensures
            *final(self) == old(self).spec_after_buffer(now),
            final(self).wf(),
    {
        self.ctx.on_buffer(now);
    }

    /// The controller after the buffer probe observed end-of-stream.
    pub open spec fn spec_after_eos(self) -> SourceController {
        SourceController { ctx: ReconnectionContext { have_eos: true, ..self.ctx }, ..self }
    }

    /// The buffer probe observed an end-of-stream event.
    pub fn on_eos(&mut self)
        requires
            old(self).wf(),
        ensures
            *final(self) == old(self).spec_after_eos(),
            final(self).wf(),
    {
        self.ctx.on_eos();
    }

    /// The controller after the graph was observed in `observed` outside a
    /// reconnection: a confirmed playing state completes the bring-up, any
    /// other observation changes nothing.
    pub open spec fn spec_after_observed(self, observed: GraphState) -> SourceController {
        if observed is Playing && (self.state is Attached || self.state is StreamNegotiating) {
            SourceController { state: ControllerState::Playing, ..self }
        } else {
            self
        }
    }

    /// The graph was observed in state `observed` while no reconnection is
    /// in flight.
    pub fn on_state_observed(&mut self, observed: GraphState)
        requires
            old(self).wf(),
            !(old(self).state is Reconnecting),
        ensures
            *final(self) == old(self).spec_after_observed(observed),
            final(self).wf(),
    {
        if observed == GraphState::Playing && (self.state == ControllerState::Attached
            || self.state == ControllerState::StreamNegotiating) {
            self.state = ControllerState::Playing;
        }
    }

    /// The controller after a reset attempt was recorded at `now`: it is
    /// reconnecting, and any poller watching an earlier attempt is
    /// cancelled, so at most one is ever in flight.
    pub open spec fn spec_after_begin_reset(self, now: u64) -> SourceController {
        SourceController {
            state: ControllerState::Reconnecting,
            ctx: ReconnectionContext {
                reconnecting: true,
                last_reset_time: now,
                pending_async_watch: None,
                ..self.ctx
            },
            ..self
        }
    }

    /// Record that a reset attempt starts at `now`.
    pub fn begin_reset(&mut self, now: u64)
        requires
            old(self).wf(),
            old(self).ctx.spec_reset_due(now),
            !(old(self).state is Removed),
            !(old(self).state is Detaching),
        ensures
            *final(self) == old(self).spec_after_begin_reset(now),
            final(self).wf(),
    {
        self.state = ControllerState::Reconnecting;
        self.ctx.begin_reset(now);
    }

    /// Whether a state-change answer installs the asynchronous poller.
    pub open spec fn spec_reset_installs_watch(outcome: StateChangeOutcome) -> bool {
        outcome is Async || outcome is NoPreroll
    }

    /// The controller after the graph answered `outcome` (observed in
    /// `state`) to the reset's playing request: an asynchronous answer
    /// installs the poller `watch`; an immediate confirmed playing state
    /// completes the reconnection; anything else changes nothing, so a
    /// later periodic check retries.
    pub open spec fn spec_after_reset_result(
        self,
        outcome: StateChangeOutcome,
        state: GraphState,
        watch: u64,
    ) -> SourceController {
        if Self::spec_reset_installs_watch(outcome) {
            SourceController {
                ctx: ReconnectionContext { pending_async_watch: Some(watch), ..self.ctx },
                ..self
            }
        } else if outcome is Success && state is Playing {
            SourceController {
                state: ControllerState::Playing,
                ctx: ReconnectionContext { reconnecting: false, ..self.ctx },
                ..self
            }
        } else {
            self
        }
    }

    /// After the reset sequence asked the graph to re-enter playing, record
    /// what the graph answered.  Returns whether the asynchronous poller
    /// `watch` was installed.  The controller re-enters the playing state
    /// only when the graph confirmed it, never speculatively.
    pub fn on_reset_result(
        &mut self,
        outcome: StateChangeOutcome,
        state: GraphState,
        watch: u64,
    ) -> (installed: bool)
        requires
            old(self).wf(),
            old(self).state is Reconnecting,
            old(self).ctx.pending_async_watch is None,
        ensures
            installed == Self::spec_reset_installs_watch(outcome),
            *final(self) == old(self).spec_after_reset_result(outcome, state, watch),
            final(self).wf(),
    {
        let installed = self.ctx.on_reset_result(outcome, state, watch);
        if !installed && outcome == StateChangeOutcome::Success && state == GraphState::Playing {
            self.state = ControllerState::Playing;
        }
        installed
    }

    /// What one poll of the in-flight asynchronous state change decides,
    /// given what the graph answered.
    pub open spec fn spec_poll_step(outcome: StateChangeOutcome, state: GraphState) -> PollStep {
        if outcome is Async {
            PollStep::KeepWatching
        } else if outcome is Failure {
            PollStep::Failed
        } else if state is Playing {
            PollStep::Confirmed
        } else {
            PollStep::RetryPlaying
        }
    }

    /// The controller after one poll of the asynchronous state change: a
    /// confirmed playing state completes the reconnection; a failure
    /// cancels the poller but keeps the controller reconnecting so the
    /// periodic check can retry; anything else keeps polling.
    pub open spec fn spec_after_poll(
        self,
        outcome: StateChangeOutcome,
        state: GraphState,
    ) -> SourceController {
        match Self::spec_poll_step(outcome, state) {
            PollStep::KeepWatching => self,
            PollStep::RetryPlaying => self,
            PollStep::Failed => SourceController {
                ctx: ReconnectionContext { pending_async_watch: None, ..self.ctx },
                ..self
            },
            PollStep::Confirmed => SourceController {
                state: ControllerState::Playing,
                ctx: ReconnectionContext {
                    reconnecting: false,
                    pending_async_watch: None,
                    ..self.ctx
                },
                ..self
            },
        }
    }

    /// One poll of the in-flight asynchronous state change.  The controller
    /// re-enters the playing state only when the graph confirmed it.
    pub fn on_async_poll(&mut self, outcome: StateChangeOutcome, state: GraphState) -> (step:
        PollStep)
        requires
            old(self).wf(),
            old(self).state is Reconnecting,
            old(self).ctx.pending_async_watch is Some,
        ensures
            step == Self::spec_poll_step(outcome, state),
            *final(self) == old(self).spec_after_poll(outcome, state),
            final(self).wf(),
    {
        let step = self.ctx.on_async_poll(outcome, state);
        if step == PollStep::Confirmed {
            self.state = ControllerState::Playing;
        }
        step
    }

    /// The controller after teardown: removed, with its watchdog timer and
    /// any in-flight poller cancelled.
    pub open spec fn spec_after_detach(self) -> SourceController {
        SourceController {
            state: ControllerState::Removed,
            watch_timer: None,
            ctx: ReconnectionContext { pending_async_watch: None, ..self.ctx },
            ..self
        }
    }

    /// A reconnecting controller re-enters the playing state only after the
    /// graph was observed in it, never speculatively: whatever a reset's
    /// answer or a poll was, the transition to playing carries the
    /// observation with it.
    pub proof fn lemma_no_speculative_playing(
        self,
        outcome: StateChangeOutcome,
        state: GraphState,
        watch: u64,
    )
        requires
            self.state is Reconnecting,
        ensures
            self.spec_after_reset_result(outcome, state, watch).state is Playing ==> state
                is Playing,
            self.spec_after_poll(outcome, state).state is Playing ==> state is Playing,
    {
    }

    /// Begin teardown: cancel the periodic watchdog timer and any in-flight
    /// asynchronous poller, so no timer callback can touch this controller
    /// again.
    pub fn detach(&mut self)
        requires
            old(self).wf(),
        ensures
            *final(self) == old(self).spec_after_detach(),
            final(self).wf(),
    {
        self.state = ControllerState::Detaching;
        self.watch_timer = None;
        self.ctx.cancel();
        self.state = ControllerState::Removed;
    }
}

} // verus!
