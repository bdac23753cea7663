use streamctl::config::{SourceConfig, SourceKind};
use streamctl::controller::ControllerState;
use streamctl::manager::{PipelineManager, SourceOp, TickOutcome};
use streamctl::watchdog::{elapsed_ms, GraphState, PollStep, StateChangeOutcome};

fn test_config(id: u8) -> SourceConfig {
    SourceConfig { id, kind: SourceKind::Test }
}

/// A manager with one started source whose watchdog timer handle is 0.
fn started_manager() -> PipelineManager {
    let mut m = PipelineManager::new();
    let ops = m.update_config(&vec![test_config(1)], 0);
    assert_eq!(ops, vec![SourceOp::Attach { id: 1 }]);
    m.on_stream_started(1);
    m.on_buffer(1, 0);
    m
}

#[test]
fn elapsed_clamps_clock_reversal() {
    assert_eq!(elapsed_ms(100, 250), 150);
    assert_eq!(elapsed_ms(250, 100), 0);
    assert_eq!(elapsed_ms(7, 7), 0);
}

#[test]
fn stall_triggers_exactly_one_reset_and_not_before() {
    let mut m = started_manager();
    // not before the stall threshold
    assert_ne!(TickOutcome::Reset, m.watchdog_tick(1, 0, 5_000));
    assert_ne!(TickOutcome::Reset, m.watchdog_tick(1, 0, 9_999));
    // exactly at the threshold (cool-down since creation has also passed)
    assert_eq!(TickOutcome::Reset, m.watchdog_tick(1, 0, 10_000));
    assert_eq!(m.entries[0].controller.state, ControllerState::Reconnecting);
    // while the reconnection is in flight, no second reset before the retry bound
    assert_ne!(TickOutcome::Reset, m.watchdog_tick(1, 0, 10_500));
    assert_ne!(TickOutcome::Reset, m.watchdog_tick(1, 0, 39_999));
    // the retry bound re-arms another attempt
    assert_eq!(TickOutcome::Reset, m.watchdog_tick(1, 0, 40_000));
}

#[test]
fn buffers_prevent_a_reset() {
    let mut m = started_manager();
    m.on_buffer(1, 8_000);
    assert_ne!(TickOutcome::Reset, m.watchdog_tick(1, 0, 12_000));
    assert_ne!(TickOutcome::Reset, m.watchdog_tick(1, 0, 17_999));
    assert_eq!(TickOutcome::Reset, m.watchdog_tick(1, 0, 18_000));
}

#[test]
fn a_source_that_never_started_is_not_reset() {
    let mut m = PipelineManager::new();
    m.update_config(&vec![test_config(1)], 0);
    assert_ne!(TickOutcome::Reset, m.watchdog_tick(1, 0, 60_000));
}

#[test]
fn eos_alone_does_not_trigger_a_reset() {
    let mut m = started_manager();
    m.on_eos(1);
    assert!(m.entries[0].controller.ctx.have_eos);
    assert_ne!(TickOutcome::Reset, m.watchdog_tick(1, 0, 5_000));
    // a later buffer clears the flag
    m.on_buffer(1, 6_000);
    assert!(!m.entries[0].controller.ctx.have_eos);
}

#[test]
fn cooldown_spaces_two_resets_apart() {
    let mut m = started_manager();
    assert_eq!(TickOutcome::Reset, m.watchdog_tick(1, 0, 10_000));
    // the graph came back synchronously
    let w = m.on_reset_result(1, StateChangeOutcome::Success, GraphState::Playing);
    assert_eq!(w, None);
    assert_eq!(m.entries[0].controller.state, ControllerState::Playing);
    // the source is still silent: a second stall within the cool-down does
    // not trigger a second reset
    assert_ne!(TickOutcome::Reset, m.watchdog_tick(1, 0, 15_000));
    assert_ne!(TickOutcome::Reset, m.watchdog_tick(1, 0, 19_999));
    // after the cool-down it does
    assert_eq!(TickOutcome::Reset, m.watchdog_tick(1, 0, 20_000));
}

#[test]
fn async_reset_installs_a_poller_and_confirms_playing() {
    let mut m = started_manager();
    assert_eq!(TickOutcome::Reset, m.watchdog_tick(1, 0, 10_000));
    let w = m.on_reset_result(1, StateChangeOutcome::Async, GraphState::Paused);
    let w = w.expect("an asynchronous answer installs the poller");
    // still asynchronous: keep polling
    let step = m.on_async_poll(1, w, StateChangeOutcome::Async, GraphState::Paused);
    assert_eq!(step, Some(PollStep::KeepWatching));
    // settled short of playing: request playing again and keep polling
    let step = m.on_async_poll(1, w, StateChangeOutcome::Success, GraphState::Paused);
    assert_eq!(step, Some(PollStep::RetryPlaying));
    // the graph confirms playing: reconnection complete, poller cancelled
    let step = m.on_async_poll(1, w, StateChangeOutcome::Success, GraphState::Playing);
    assert_eq!(step, Some(PollStep::Confirmed));
    assert_eq!(m.entries[0].controller.state, ControllerState::Playing);
    assert!(!m.entries[0].controller.ctx.reconnecting);
    assert_eq!(m.entries[0].controller.ctx.pending_async_watch, None);
    // a late firing of the cancelled poller is a no-op
    let step = m.on_async_poll(1, w, StateChangeOutcome::Success, GraphState::Playing);
    assert_eq!(step, None);
}

#[test]
fn failed_poll_leaves_reconnecting_for_a_later_retry() {
    let mut m = started_manager();
    assert_eq!(TickOutcome::Reset, m.watchdog_tick(1, 0, 10_000));
    let w = m.on_reset_result(1, StateChangeOutcome::NoPreroll, GraphState::Paused).unwrap();
    let step = m.on_async_poll(1, w, StateChangeOutcome::Failure, GraphState::Null);
    assert_eq!(step, Some(PollStep::Failed));
    assert!(m.entries[0].controller.ctx.reconnecting);
    assert_eq!(m.entries[0].controller.ctx.pending_async_watch, None);
    // the periodic check re-arms a reset once the retry bound passes
    assert_ne!(TickOutcome::Reset, m.watchdog_tick(1, 0, 20_000));
    assert_eq!(TickOutcome::Reset, m.watchdog_tick(1, 0, 40_000));
}

#[test]
fn reset_result_without_a_reset_is_a_no_op() {
    let mut m = started_manager();
    let w = m.on_reset_result(1, StateChangeOutcome::Async, GraphState::Paused);
    assert_eq!(w, None);
    assert_eq!(m.entries[0].controller.state, ControllerState::Attached);
}
