use container_probe::Format;
use apogee::detect::Unsupported;
use apogee::network::NetworkError;
use apogee::source::{reload_delay, schedule_action, slice_byte_range, ActionKind, SourceError};
use std::time::Duration;

#[test]
fn a_valid_range_returns_exactly_those_bytes() {
    let data: Vec<u8> = (0..=255u8).collect();
    assert_eq!(
        slice_byte_range(&data, 10, 4).unwrap(),
        vec![10, 11, 12, 13]
    );
    assert_eq!(slice_byte_range(&data, 0, 1).unwrap(), vec![0]);
    assert_eq!(slice_byte_range(&data, 254, 2).unwrap(), vec![254, 255]);
}

#[test]
fn a_zero_length_range_is_empty_rather_than_an_error() {
    let data = vec![1u8, 2, 3];
    assert_eq!(slice_byte_range(&data, 1, 0).unwrap(), Vec::<u8>::new());
}

#[test]
fn a_range_past_the_end_is_rejected_instead_of_truncating() {
    let data = vec![1u8, 2, 3, 4];
    assert!(slice_byte_range(&data, 2, 5).is_err());
    assert!(slice_byte_range(&data, 4, 1).is_err());
    assert!(slice_byte_range(&data, 99, 1).is_err());
}

#[test]
fn arithmetic_overflow_is_rejected_rather_than_wrapping() {
    let data = vec![1u8, 2, 3];
    assert!(slice_byte_range(&data, u64::MAX, 1).is_err());
    assert!(slice_byte_range(&data, 1, u64::MAX).is_err());
}

#[test]
fn time_spent_delivering_audio_counts_toward_the_reload_interval() {
    assert_eq!(
        reload_delay(3000, Duration::from_millis(1250).as_nanos()),
        Duration::from_millis(1750).as_nanos()
    );
    assert_eq!(
        reload_delay(3000, Duration::from_secs(3).as_nanos()),
        Duration::ZERO.as_nanos()
    );
    assert_eq!(
        reload_delay(3000, Duration::from_secs(8).as_nanos()),
        Duration::ZERO.as_nanos()
    );
}

#[test]
fn a_server_reason_leads_the_message() {
    let error = SourceError::Status {
        status: 503,
        detail: Some("No streams assigned to channel".to_string()),
    };
    let message = error.to_string();
    assert!(
        message.starts_with("No streams assigned to channel"),
        "the server's reason must lead: {message}"
    );
    assert!(
        message.contains("503"),
        "the status is still useful: {message}"
    );
}

#[test]
fn a_bare_status_still_reads_sensibly() {
    let error = SourceError::Status {
        status: 502,
        detail: None,
    };
    assert_eq!(error.to_string(), "server returned HTTP 502");
}

#[test]
fn a_credential_in_an_error_body_never_survives() {
    let error = SourceError::from_network(NetworkError::Status {
        status: reqwest::StatusCode::FORBIDDEN.as_u16(),
        detail: Some("denied for http://host/live/user/hunter2/1.ts".to_string()),
    });
    let message = error.to_string();
    assert!(
        !message.contains("hunter2"),
        "leaked a credential: {message}"
    );
}

#[test]
fn every_source_error_reads_as_documented() {
    assert_eq!(
        SourceError::Network("timed out".to_string()).to_string(),
        "network error: timed out"
    );
    assert_eq!(
        SourceError::StreamEndedDuringDetection { examined: 1234 }.to_string(),
        "connection closed before the stream format could be identified (1234 bytes examined)"
    );
    assert_eq!(
        SourceError::NoVariants.to_string(),
        "HLS master playlist named no renditions"
    );
    assert_eq!(SourceError::Cancelled.to_string(), "cancelled");
    assert_eq!(
        SourceError::Demux("bad".to_string()).to_string(),
        "stream demux error: bad"
    );
}

#[test]
fn a_range_error_names_what_went_wrong() {
    let data = vec![1u8, 2, 3, 4];
    assert_eq!(
        slice_byte_range(&data, 2, 5),
        Err(SourceError::Demux("byte-range exceeded the fetched resource".to_string()))
    );
}

#[test]
fn cancellation_stays_cancellation_and_transport_text_is_redacted() {
    assert_eq!(
        SourceError::from_network(NetworkError::Cancelled),
        SourceError::Cancelled
    );
    let error = SourceError::from_network(NetworkError::Transport(
        "error sending request for url (http://host/live/u/secret/1.ts)".to_string(),
    ));
    let SourceError::Network(message) = error else {
        panic!("expected a network error");
    };
    assert!(!message.contains("secret"), "{message}");
    assert!(message.starts_with("network error: error sending request"), "{message}");
}

#[test]
fn unsupported_verdicts_read_as_actionable_messages() {
    assert_eq!(
        SourceError::from_unsupported(Unsupported::EncryptedPlaylist),
        SourceError::Unsupported(
            "HLS playlist is encrypted (EXT-X-KEY); decryption is not supported".to_string()
        )
    );
    assert_eq!(
        SourceError::from_unsupported(Unsupported::BudgetExhausted { examined: 64 }),
        SourceError::Unsupported(
            "could not identify the stream format within 64 probed bytes".to_string()
        )
    );
}

#[test]
fn a_wait_behind_a_reload_is_serviced_before_it() {
    let mut queue: std::collections::VecDeque<(ActionKind, &str)> = std::collections::VecDeque::new();
    schedule_action(&mut queue, ActionKind::Other, "segment");
    schedule_action(&mut queue, ActionKind::FetchPlaylist, "reload");
    schedule_action(&mut queue, ActionKind::Wait, "wait");
    let order: Vec<&str> = queue.iter().map(|(_, name)| *name).collect();
    assert_eq!(order, vec!["segment", "wait", "reload"]);
}

#[test]
fn ambiguous_candidates_are_listed_as_debug_shows_them() {
    let error = SourceError::from_unsupported(Unsupported::Ambiguous {
        candidates: vec![Format::AdtsAac, Format::Mp3],
    });
    assert_eq!(
        error,
        SourceError::Unsupported("stream format is ambiguous between [AdtsAac, Mp3]".to_string())
    );
}
