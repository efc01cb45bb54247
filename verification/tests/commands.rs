use apogee::commands::{should_follow_default, urlencoding, DeviceMigration, PlayerCore, StationRequest};
use apogee::device::DeviceRequest;
use apogee::engine::EngineEvent;
use apogee::session::{Controller, ErrorClass, Generation, PlaybackState, MAX_CONNECT_ATTEMPTS};

fn request() -> StationRequest {
    StationRequest {
        base_url: "https://example.invalid/".to_string(),
        username: "user name".to_string(),
        password: "p@ss/word".to_string(),
        stream_id: 1_080_037,
        station_id: "1080037".to_string(),
    }
}

#[test]
fn stream_urls_preserve_the_provider_path_shape() {
    let r = request();
    assert_eq!(
        r.url_for(".ts"),
        "https://example.invalid/live/user%20name/p%40ss%2Fword/1080037.ts"
    );
}

#[test]
fn credentials_are_percent_encoded_so_they_cannot_change_the_url_structure() {
    let r = request();
    let url = r.url_for(".ts");
    assert!(
        !url.contains("p@ss/word"),
        "credentials must be escaped: {url}"
    );
    assert_eq!(
        url.matches('/').count(),
        6,
        "unexpected path depth in {url}"
    );
}

#[test]
fn commands_a_trailing_slash_on_the_base_url_does_not_double_up() {
    let mut r = request();
    r.base_url = "https://example.invalid///".to_string();
    assert!(r
        .url_for(".ts")
        .starts_with("https://example.invalid/live/"));
}

#[test]
fn both_extension_candidates_are_reachable_from_the_same_request() {
    let r = request();
    assert!(r
        .url_for(Controller::extension_for_attempt(0))
        .ends_with(".ts"));
    assert!(r
        .url_for(Controller::extension_for_attempt(1))
        .ends_with(".m3u8"));
}

fn fresh_inner() -> (PlayerCore, Generation) {
    let mut controller = Controller::new();
    let generation = controller.play("station-a");
    let inner = PlayerCore {
        controller,
        request: Some(request()),
        attempt_serial: 1,
        active_attempt: Some(1),
    };
    (inner, generation)
}

#[test]
fn a_new_retry_attempt_invalidates_late_events_from_the_previous_attempt() {
    let (mut inner, generation) = fresh_inner();
    let first = inner.active_attempt.unwrap();
    assert!(inner.accepts_attempt(generation, first));

    let retry = inner.begin_attempt();
    assert_ne!(first, retry);
    assert!(!inner.accepts_attempt(generation, first));
    assert!(inner.accepts_attempt(generation, retry));
}

#[test]
fn stopping_invalidates_the_active_attempt_even_when_the_generation_matches() {
    let (mut inner, generation) = fresh_inner();
    let attempt = inner.active_attempt.unwrap();
    inner.controller.stop();
    inner.active_attempt = None;
    assert!(!inner.accepts_attempt(generation, attempt));
}

#[test]
fn a_startup_failure_schedules_a_retry_instead_of_only_logging() {
    let (mut inner, generation) = fresh_inner();
    let (snapshot, retry) = inner.route_startup_failure(generation, "device busy", 0);

    assert_eq!(
        snapshot.state,
        PlaybackState::Recovering,
        "a recoverable device failure must not be a dead end"
    );
    let (url, _delay_ms) = retry.expect("a start failure must schedule another attempt");
    assert!(
        url.ends_with(".m3u8"),
        "the next attempt should alternate the extension: {url}"
    );
}

#[test]
fn repeated_startup_failures_keep_retrying_within_the_attempt_budget() {
    let (mut inner, generation) = fresh_inner();
    for attempt in 1..MAX_CONNECT_ATTEMPTS {
        let (snapshot, retry) = inner.route_startup_failure(generation, "device busy", 0);
        assert_eq!(
            snapshot.state,
            PlaybackState::Recovering,
            "attempt {attempt}: should still be recovering within the attempt budget"
        );
        assert!(
            retry.is_some(),
            "attempt {attempt}: a startup failure must schedule another attempt"
        );
    }
}

#[test]
fn a_permanent_looking_error_class_is_never_produced_for_a_device_failure() {
    let (mut inner, generation) = fresh_inner();
    let (snapshot, retry) = inner.route_startup_failure(generation, "device busy", 0);
    assert_ne!(
        snapshot.state,
        PlaybackState::Failed,
        "a single device-open failure must not be treated as terminal"
    );
    assert!(retry.is_some());
}

#[test]
fn a_device_recovering_within_the_budget_can_still_succeed() {
    let (mut inner, generation) = fresh_inner();
    let (first, retry) = inner.route_startup_failure(generation, "device busy", 0);
    assert_eq!(first.state, PlaybackState::Recovering);
    assert!(retry.is_some());
    assert!(inner.controller.attempt() < MAX_CONNECT_ATTEMPTS);
}

#[test]
fn a_startup_failure_for_a_stale_generation_is_ignored() {
    let (mut inner, generation) = fresh_inner();
    let newer = inner.controller.play("station-b");
    assert_ne!(generation, newer);

    let (snapshot, retry) = inner.route_startup_failure(generation, "device busy", 0);
    assert!(
        retry.is_none(),
        "a stale attempt must never schedule a retry"
    );
    assert_eq!(
        snapshot.generation, newer,
        "the stale failure must not have touched the current generation's state"
    );
    assert_eq!(
        snapshot.state,
        PlaybackState::Connecting,
        "the newer station's own connecting state must be untouched by the old attempt"
    );
}

#[test]
fn a_startup_failure_with_no_pending_request_never_schedules_a_retry() {
    let mut controller = Controller::new();
    let generation = controller.play("station-a");
    let mut inner = PlayerCore {
        controller,
        request: None,
        attempt_serial: 1,
        active_attempt: Some(1),
    };
    let (_snapshot, retry) = inner.route_startup_failure(generation, "device busy", 0);
    assert!(retry.is_none());
}

#[test]
fn credentials_with_every_reserved_character_are_escaped() {
    assert_eq!(urlencoding("a/b?c#d&e=f g"), "a%2Fb%3Fc%23d%26e%3Df%20g");
    assert_eq!(urlencoding("safe-_.~AZaz09"), "safe-_.~AZaz09");
    assert_eq!(urlencoding("é"), "%C3%A9");
}

#[test]
fn engine_events_of_a_replaced_attempt_change_nothing() {
    let mut core = PlayerCore::new();
    let (generation, attempt, url, snapshot) = core.play(request());
    assert!(url.ends_with(".ts"));
    assert_eq!(snapshot.state, PlaybackState::Connecting);
    let retry = core.begin_attempt();
    assert_ne!(retry, attempt);
    let before = core.controller.snapshot();
    assert!(core
        .apply_event(attempt, EngineEvent::Playing { generation }, 10)
        .is_none());
    assert_eq!(core.controller.snapshot(), before);
    let (after, _) = core
        .apply_event(retry, EngineEvent::Playing { generation }, 10)
        .expect("the active attempt is accepted");
    assert_eq!(after.state, PlaybackState::Playing);
}

#[test]
fn a_failure_event_asks_for_the_next_url() {
    let mut core = PlayerCore::new();
    let (generation, attempt, _, _) = core.play(request());
    let (snapshot, retry) = core
        .apply_event(
            attempt,
            EngineEvent::Failed {
                generation,
                class: ErrorClass::Transient,
                message: "the stream ended".to_string(),
            },
            0,
        )
        .unwrap();
    assert_eq!(snapshot.state, PlaybackState::Recovering);
    let (g, url, _) = retry.expect("a transient failure is retried");
    assert_eq!(g, generation);
    assert!(url.ends_with("1080037.m3u8"), "{url}");
}

#[test]
fn stop_clears_the_request_and_restart_needs_one() {
    let mut core = PlayerCore::new();
    core.play(request());
    let snapshot = core.stop();
    assert_eq!(snapshot.state, PlaybackState::Stopped);
    assert!(core.restart().is_none());
}

#[test]
fn device_migration_persists_the_request() {
    let m = DeviceMigration::from_request(&DeviceRequest::Specific("alsa:x".to_string()), None);
    assert_eq!(m.device_id.as_deref(), Some("alsa:x"));
    let d = DeviceMigration::from_request(&DeviceRequest::SystemDefault, Some("n".to_string()));
    assert_eq!(d.device_id, None);
    assert_eq!(d.notice.as_deref(), Some("n"));
}

#[test]
fn only_a_changed_known_default_is_followed() {
    assert!(should_follow_default(&Some("a".into()), &Some("b".into())));
    assert!(!should_follow_default(&Some("a".into()), &Some("a".into())));
    assert!(!should_follow_default(&Some("a".into()), &None));
}
