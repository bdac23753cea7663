use streamctl::config::{Config, SourceConfig, SourceKind};
use streamctl::controller::{
    pad_link_decision, str_eq, str_starts_with, uri_pad_decision, PadDecision, ParserKind,
    SourceController, StreamSelection,
};
use streamctl::manager::{bus_action, BusAction, BusMessageKind, PipelineManager, SourceOp, TickOutcome};
use streamctl::watchdog::{GraphState, StateChangeOutcome};

fn test_config(id: u8) -> SourceConfig {
    SourceConfig { id, kind: SourceKind::Test }
}

#[test]
fn config_records_display_choice() {
    assert!(Config::new(true).display);
    assert!(!Config::new(false).display);
}

#[test]
fn string_helpers() {
    assert!(str_eq("video", "video"));
    assert!(!str_eq("video", "audio"));
    assert!(!str_eq("video", "vide"));
    assert!(str_eq("", ""));
    assert!(str_starts_with("video/x-raw(memory:NVMM)", "video/x-raw"));
    assert!(str_starts_with("video/x-raw", "video/x-raw"));
    assert!(!str_starts_with("video/x", "video/x-raw"));
    assert!(!str_starts_with("audio/x-raw", "video/x-raw"));
}

#[test]
fn negotiation_accepts_only_supported_video() {
    let mut c = SourceController::new(0, 0);
    c.mark_attached();
    // audio is rejected and changes nothing
    assert_eq!(c.select_stream("audio", "OPUS"), StreamSelection::Reject);
    assert_eq!(c.parser, None);
    // an unsupported video encoding is rejected
    assert_eq!(c.select_stream("video", "VP8"), StreamSelection::Reject);
    assert_eq!(c.parser, None);
    // the first supported video offer creates the pair
    assert_eq!(
        c.select_stream("video", "H264"),
        StreamSelection::Negotiate(ParserKind::H264)
    );
    assert_eq!(c.parser, Some(ParserKind::H264));
}

#[test]
fn negotiation_is_reentrant() {
    // re-entrant offers after the first successful creation no-op
    let mut c = SourceController::new(0, 0);
    c.mark_attached();
    assert_eq!(
        c.select_stream("video", "H265"),
        StreamSelection::Negotiate(ParserKind::H265)
    );
    assert_eq!(c.select_stream("video", "H265"), StreamSelection::AlreadyNegotiated);
    assert_eq!(c.select_stream("video", "H264"), StreamSelection::AlreadyNegotiated);
    assert_eq!(c.parser, Some(ParserKind::H265));
}

#[test]
fn stream_offers_are_routed_to_the_live_source() {
    let mut m = PipelineManager::new();
    m.update_config(&vec![test_config(1)], 0);
    assert_eq!(
        m.on_stream_offer(1, "video", "H264"),
        Some(StreamSelection::Negotiate(ParserKind::H264))
    );
    assert_eq!(
        m.on_stream_offer(1, "video", "H264"),
        Some(StreamSelection::AlreadyNegotiated)
    );
    assert_eq!(m.on_stream_offer(1, "audio", "OPUS"), Some(StreamSelection::Reject));
    // an offer for a source that is gone is declined outright
    m.remove_source(1);
    assert_eq!(m.on_stream_offer(1, "video", "H264"), None);
}

#[test]
fn pad_decisions() {
    assert!(pad_link_decision(false));
    assert!(!pad_link_decision(true));
    assert_eq!(
        uri_pad_decision("video/x-raw(memory:NVMM)", true, false),
        PadDecision::Link
    );
    assert_eq!(uri_pad_decision("video/x-raw", true, true), PadDecision::Ignore);
    assert_eq!(
        uri_pad_decision("audio/x-raw", true, false),
        PadDecision::RejectNotVideo
    );
    assert_eq!(
        uri_pad_decision("video/x-raw", false, false),
        PadDecision::RejectNoDeviceMemory
    );
}

#[test]
fn bus_classification() {
    // only the graph-level fatal class stops the run loop
    assert_eq!(bus_action(BusMessageKind::EndOfStream), BusAction::SetReady);
    assert_eq!(bus_action(BusMessageKind::FatalError), BusAction::StopNull);
    assert_eq!(bus_action(BusMessageKind::Other), BusAction::Ignore);
}

#[test]
fn liveness_reports_last_seen_durations() {
    let mut m = PipelineManager::new();
    m.update_config(&vec![test_config(1), test_config(2)], 0);
    m.on_stream_started(1);
    m.on_buffer(1, 400);
    // source 2 never started delivering: absent
    let mut liveness = m.sources_liveness(1_000);
    liveness.sort();
    assert_eq!(liveness, vec![(1u8, Some(600u64)), (2u8, None)]);
}

#[test]
fn removal_cancels_timers_and_stale_callbacks_are_no_ops() {
    let mut m = PipelineManager::new();
    m.update_config(&vec![test_config(1)], 0);
    m.on_stream_started(1);
    // a reset is in flight with a poller installed
    assert_eq!(TickOutcome::Reset, m.watchdog_tick(1, 0, 10_000));
    let w = m.on_reset_result(1, StateChangeOutcome::Async, GraphState::Paused).unwrap();
    // removing the source drops the entry with everything cancelled
    let ops = m.remove_source(1);
    assert_eq!(ops, vec![SourceOp::Detach { id: 1 }]);
    assert!(m.entries.is_empty());
    // forced late callbacks on the stale handles are no-ops, not crashes
    assert_eq!(TickOutcome::Stale, m.watchdog_tick(1, 0, 11_000));
    assert_eq!(m.on_async_poll(1, w, StateChangeOutcome::Success, GraphState::Playing), None);
    m.on_buffer(1, 11_000);
    m.on_eos(1);
    m.on_stream_started(1);
    m.on_state_observed(1, GraphState::Playing);
    assert!(m.entries.is_empty());
}

#[test]
fn a_recreated_source_ignores_the_old_timer_handle() {
    let mut m = PipelineManager::new();
    m.update_config(&vec![test_config(1)], 0);
    let old_timer = m.entries[0].controller.watch_timer.unwrap();
    m.remove_source(1);
    m.update_config(&vec![test_config(1)], 5);
    m.on_stream_started(1);
    let new_timer = m.entries[0].controller.watch_timer.unwrap();
    assert_ne!(old_timer, new_timer);
    // a firing of the old source's timer must not reset the new source
    assert_eq!(TickOutcome::Stale, m.watchdog_tick(1, old_timer, 60_000));
    assert_eq!(TickOutcome::Reset, m.watchdog_tick(1, new_timer, 60_000));
}
