use apogee::engine::{classify, BufferSettings, ConnectLatch, DecodeMonitor, EngineEvent};
use apogee::output::BufferState;
use apogee::session::{BufferingReason, ErrorClass, Generation};
use apogee::source::SourceError;

#[test]
fn buffering_accepts_defaults_and_valid_boundaries() {
    assert!(BufferSettings::default().validate().is_ok());
    assert!(BufferSettings {
        capacity_ms: 100,
        start_ms: 50,
        rebuffer_ms: 0
    }
    .validate()
    .is_ok());
    assert!(BufferSettings {
        capacity_ms: 10_000,
        start_ms: 10_000,
        rebuffer_ms: 9_999
    }
    .validate()
    .is_ok());
}

#[test]
fn buffering_rejects_unreachable_or_unbounded_thresholds() {
    for (capacity_ms, start_ms, rebuffer_ms) in [
        (99, 50, 0),
        (10_001, 500, 150),
        (2000, 49, 0),
        (100, 101, 0),
        (2000, 500, 500),
        (2000, 500, 501),
    ] {
        assert!(BufferSettings {
            capacity_ms,
            start_ms,
            rebuffer_ms
        }
        .validate()
        .is_err());
    }
}

#[test]
fn each_buffering_refusal_explains_itself() {
    let err = |c, s, r| {
        BufferSettings {
            capacity_ms: c,
            start_ms: s,
            rebuffer_ms: r,
        }
        .validate()
        .unwrap_err()
    };
    assert_eq!(err(99, 50, 0), "Buffer capacity must be between 100 and 10,000 ms");
    assert_eq!(
        err(2000, 49, 0),
        "Startup buffer must be at least 50 ms and no greater than capacity"
    );
    assert_eq!(
        err(2000, 500, 500),
        "Rebuffer threshold must be less than the startup buffer"
    );
}

#[test]
fn connect_decided_latch_allows_exactly_one_outcome_playing_first() {
    let mut latch = ConnectLatch::new();
    let mut events = Vec::new();
    if latch.claim_playing() {
        events.push("playing");
    }
    if latch.claim_failure(false) {
        events.push("failed");
    }
    assert_eq!(
        events.len(),
        1,
        "exactly one outcome must be reported, got {events:?}"
    );
    assert_eq!(events[0], "playing");
}

#[test]
fn connect_decided_latch_allows_exactly_one_outcome_failure_first() {
    let mut latch = ConnectLatch::new();
    let mut events = Vec::new();
    if latch.claim_failure(false) {
        events.push("failed");
    }
    if latch.claim_playing() {
        events.push("playing");
    }
    assert_eq!(
        events.len(),
        1,
        "exactly one outcome must be reported, got {events:?}"
    );
    assert_eq!(events[0], "failed");
}

#[test]
fn a_post_play_failure_is_never_suppressed_by_the_connect_latch() {
    let mut latch = ConnectLatch::new();
    let mut events = Vec::new();
    if latch.claim_playing() {
        events.push("playing");
    }
    if latch.claim_failure(true) {
        events.push("failed");
    }
    assert_eq!(
        events.len(),
        2,
        "both outcomes must be reported: {events:?}"
    );
    assert_eq!(events, vec!["playing", "failed"]);
}

#[test]
fn a_4xx_or_unsupported_source_is_permanent_and_a_5xx_is_not() {
    assert_eq!(
        classify(&SourceError::Status { status: 401, detail: None }),
        ErrorClass::Permanent
    );
    assert_eq!(
        classify(&SourceError::Status { status: 503, detail: None }),
        ErrorClass::Transient
    );
    assert_eq!(
        classify(&SourceError::Unsupported("x".to_string())),
        ErrorClass::Permanent
    );
    assert_eq!(classify(&SourceError::Cancelled), ErrorClass::Transient);
}

#[test]
fn the_decode_monitor_reports_only_changes() {
    let generation = Generation::default();
    let (mut monitor, first) = DecodeMonitor::start(generation);
    assert_eq!(
        first,
        EngineEvent::Buffering {
            generation,
            reason: BufferingReason::Connecting
        }
    );
    let mut latch = ConnectLatch::new();
    assert_eq!(monitor.observe_buffer(BufferState::Buffering, &mut latch), None);
    assert_eq!(
        monitor.observe_buffer(BufferState::Playing, &mut latch),
        Some(EngineEvent::Playing { generation })
    );
    assert_eq!(monitor.observe_buffer(BufferState::Playing, &mut latch), None);
    assert_eq!(
        monitor.observe_buffer(BufferState::Buffering, &mut latch),
        Some(EngineEvent::Buffering {
            generation,
            reason: BufferingReason::Underrun
        })
    );
    assert_eq!(monitor.underrun(0), None);
    assert_eq!(
        monitor.underrun(300),
        Some(EngineEvent::Underrun { generation, frames: 300 })
    );
    assert_eq!(
        monitor.underrun(450),
        Some(EngineEvent::Underrun { generation, frames: 150 })
    );
    assert_eq!(monitor.bitrate(None), None);
    assert_eq!(
        monitor.bitrate(Some(256)),
        Some(EngineEvent::Bitrate { generation, kbps: Some(256) })
    );
    assert_eq!(monitor.bitrate(Some(256)), None);
}

#[test]
fn a_startup_failure_after_the_watchdog_won_is_held_back() {
    let generation = Generation::default();
    let (monitor, _) = DecodeMonitor::start(generation);
    let mut latch = ConnectLatch::new();
    assert!(latch.claim_failure(false));
    assert_eq!(monitor.output_failed(&mut latch), None);
}

#[test]
fn a_clean_end_of_a_live_stream_is_a_transient_failure() {
    let generation = Generation::default();
    let (monitor, _) = DecodeMonitor::start(generation);
    let mut latch = ConnectLatch::new();
    assert_eq!(
        monitor.source_finished(&mut latch, &Ok(())),
        Some(EngineEvent::Failed {
            generation,
            class: ErrorClass::Transient,
            message: "the stream ended".to_string()
        })
    );
}
