use apogee::diagnostics::body_summary;
use apogee::audio_out::{account_callback, OutputStats};
use apogee::diagnostics::{
    case_index, cases, client_profile, diagnostic_origin, key_has_outer_whitespace,
    sends_origin, uses_fresh_client, worker_limit, LocalAddress,
};
use apogee::logs::{combine_logs, is_app_log};
use apogee::network::NetworkError;
use apogee::pipeline::{supports, CodecKind, HlsIngest, IngestInput, PipelineError, SourceEvent, TrackInfo};

#[test]
fn diagnostic_variants_are_configured_as_named() {
    let names = cases();
    assert_eq!(names.len(), 10);
    let legacy = client_profile("legacy-combined");
    assert!(legacy.legacy_user_agent && legacy.cookie_store && !legacy.http1_only);
    let pooled = client_profile("pooled");
    assert!(!pooled.legacy_user_agent && pooled.http1_only && !pooled.cookie_store && !pooled.no_proxy);
    assert_eq!(pooled.local_address, LocalAddress::System);
    assert_eq!(client_profile("ipv6").local_address, LocalAddress::Ipv6Unspecified);
    assert!(client_profile("direct").no_proxy);
    assert!(uses_fresh_client("fresh") && !uses_fresh_client("pooled"));
    assert!(sends_origin("origin") && sends_origin("legacy-combined") && !sends_origin("http2"));
}

#[test]
fn the_second_round_runs_backwards() {
    let order: Vec<usize> = (0..2)
        .flat_map(|round| (0..3).map(move |step| case_index(round, step, 3)))
        .collect();
    assert_eq!(order, vec![0, 1, 2, 2, 1, 0]);
}

#[test]
fn diagnostic_details_are_read_without_the_key() {
    assert_eq!(diagnostic_origin("tauri", "ignored"), "tauri://localhost");
    assert_eq!(diagnostic_origin("http", "http://localhost:1420"), "http://localhost:1420");
    assert!(worker_limit(&NetworkError::Status { status: 503, detail: Some("error 1102".to_string()) }));
    assert!(!worker_limit(&NetworkError::Status { status: 503, detail: None }));
    assert!(key_has_outer_whitespace(" key"));
    assert!(!key_has_outer_whitespace("key"));
}

#[test]
fn log_files_are_selected_and_combined_in_order() {
    assert!(is_app_log("apogee_2024-01-01.log", "apogee"));
    assert!(is_app_log("apogee.log", "apogee"));
    assert!(!is_app_log("apogee.txt", "apogee"));
    assert!(!is_app_log("other.log", "apogee"));
    let files = vec![
        ("a.log".to_string(), "one\n".to_string()),
        ("b.log".to_string(), "two".to_string()),
    ];
    assert_eq!(combine_logs(&files), "=== a.log ===\none\n=== b.log ===\ntwo\n");
}

#[test]
fn a_callback_accounts_for_every_frame() {
    let account = account_callback(512, 200, false);
    assert_eq!((account.played, account.underrun, account.confirms_playback), (200, 312, true));
    let silent = account_callback(512, 0, true);
    assert_eq!((silent.played, silent.underrun, silent.confirms_playback), (0, 512, false));
    assert_eq!(OutputStats::new().snapshot(), (0, 0, false, false));
}

#[test]
fn only_aac_and_layer_three_are_decodable() {
    assert!(supports(CodecKind::Aac));
    assert!(supports(CodecKind::MpegAudio { layer: 3 }));
    assert!(!supports(CodecKind::MpegAudio { layer: 2 }));
    assert!(!supports(CodecKind::Other));
}

#[test]
fn hls_ingest_forwards_markers_and_ignores_unselected_samples() {
    let mut ingest = HlsIngest::new();
    assert_eq!(ingest.inits(), 0);
    let events = ingest.translate(IngestInput::Discontinuity).ok().unwrap();
    assert!(matches!(events.as_slice(), [SourceEvent::Discontinuity]));
    let events = ingest.translate(IngestInput::EndOfStream).ok().unwrap();
    assert!(matches!(events.as_slice(), [SourceEvent::EndOfStream]));
    let events = ingest
        .translate(IngestInput::Samples { track_id: 1, samples: Vec::new() })
        .ok()
        .unwrap();
    assert!(events.is_empty());
    assert!(matches!(
        ingest.translate(IngestInput::Init(b"not an init section".to_vec())),
        Err(PipelineError::Demux(_))
    ));
    assert_eq!(ingest.inits(), 0);
}

fn data_spec(id: u32) -> transmux::TrackSpec {
    transmux::TrackSpec::new(
        transmux::TrackId::new(id),
        90_000,
        transmux::CodecConfig::Data {
            stream_type: 6,
            descriptors: Vec::new(),
            carriage: transmux::ir::DataCarriage::Pes,
        },
    )
}

#[test]
fn the_first_supported_track_is_selected_and_its_configuration_handed_on() {
    let mut ingest = HlsIngest::new();
    let tracks = vec![
        (TrackInfo { track_id: 1, codec: CodecKind::Other }, data_spec(1)),
        (TrackInfo { track_id: 2, codec: CodecKind::MpegAudio { layer: 2 } }, data_spec(2)),
        (TrackInfo { track_id: 3, codec: CodecKind::Aac }, data_spec(3)),
        (TrackInfo { track_id: 4, codec: CodecKind::MpegAudio { layer: 3 } }, data_spec(4)),
    ];
    let events = ingest.accept_tracks(tracks).ok().unwrap();
    assert_eq!(events.len(), 1);
    match &events[0] {
        SourceEvent::Track(spec) => assert!(*spec == data_spec(3)),
        _ => panic!("expected the selected track's configuration"),
    }
    assert_eq!(ingest.inits(), 1);
    let none = vec![(TrackInfo { track_id: 7, codec: CodecKind::Other }, data_spec(7))];
    assert!(matches!(ingest.accept_tracks(none), Err(PipelineError::NoAudioTrack)));
    assert_eq!(ingest.inits(), 1);
}

#[test]
fn pipeline_errors_read_as_documented() {
    assert_eq!(
        PipelineError::NoAudioTrack.to_string(),
        "stream contains no supported audio track"
    );
    assert_eq!(
        PipelineError::SamplesBeforeTrack.to_string(),
        "stream sent audio before declaring its format"
    );
}

#[test]
fn access_units_before_a_track_configuration_are_refused() {
    let mut tally = apogee::pipeline::PipelineTally::new();
    assert_eq!(tally.admit_access(), Err(PipelineError::SamplesBeforeTrack));
    tally.track_configured();
    assert_eq!(tally.admit_access(), Ok(()));
}

#[test]
fn the_tally_counts_audio_bytes_and_frames_per_channel() {
    let mut tally = apogee::pipeline::PipelineTally::new();
    tally.track_configured();
    tally.record_block(418, 2304, 2);
    tally.record_block(400, 2048, 0);
    assert_eq!(tally.compressed_bytes(), 818);
    assert_eq!(tally.decoded_frames(), 1152 + 2048);
    assert!(!tally.has_bitrate_evidence(44100));
    assert!(!tally.has_bitrate_evidence(0));
    assert!(tally.has_bitrate_evidence(3200));
}

#[test]
fn only_a_configured_decoder_is_reset() {
    let mut tally = apogee::pipeline::PipelineTally::new();
    assert!(!tally.discontinuity());
    assert_eq!(tally.resets(), 0);
    tally.track_configured();
    assert!(tally.discontinuity());
    assert_eq!(tally.resets(), 1);
}

#[test]
fn a_diagnostic_body_is_summarised_by_its_station_count() {
    assert_eq!(body_summary(br#"{"stations":{"a":1,"b":2}}"#), (true, Some(2)));
    assert_eq!(body_summary(br#"{"stations":[1,2]}"#), (true, None));
    assert_eq!(body_summary(b"not json"), (false, None));
}

#[test]
fn bitrate_is_unknown_until_there_is_enough_evidence() {
    let tally = apogee::pipeline::PipelineTally::new();
    assert!(!tally.has_bitrate_evidence(44100), "no evidence yet means no guess");
}
