use apogee::hls::{HlsSession, HlsStep};
use apogee::network::NetworkError;
use apogee::pipeline::TsIngest;
use apogee::source::SourceError;
use hls_runtime::client::Action;

const MEDIA: &str = "#EXTM3U\n#EXT-X-VERSION:3\n#EXT-X-TARGETDURATION:6\n#EXT-X-MEDIA-SEQUENCE:1\n#EXTINF:6.0,\nseg1.ts\n#EXTINF:6.0,\nseg2.ts\n";

const ENCRYPTED: &str = "#EXTM3U\n#EXT-X-TARGETDURATION:6\n#EXT-X-KEY:METHOD=AES-128,URI=\"k\"\n#EXTINF:6.0,\nseg1.ts\n";

const ENCRYPTION_MESSAGE: &str = "HLS playlist is encrypted (EXT-X-KEY); decryption is not supported";

fn session() -> HlsSession {
    match HlsSession::from_initial_playlist("https://example.invalid/live/index.m3u8", MEDIA.as_bytes()) {
        Ok(session) => session,
        Err(error) => panic!("a plain media playlist must open: {}", error.to_string()),
    }
}

/// Every request the session hands out before it has nothing left to do.
fn requests(session: &mut HlsSession) -> Vec<Action> {
    let mut out = Vec::new();
    for _ in 0..1000 {
        match session.next_step() {
            Ok(HlsStep::Perform(action)) => out.push(action),
            Ok(HlsStep::Again) => {}
            Ok(HlsStep::Idle) => return out,
            Ok(HlsStep::Event(_)) => panic!("no resource arrived, so no event can come"),
            Err(error) => panic!("unexpected error: {}", error.to_string()),
        }
    }
    panic!("the session never went idle");
}

#[test]
fn an_encrypted_first_playlist_is_refused_before_the_client_sees_it() {
    match HlsSession::from_initial_playlist("https://example.invalid/a.m3u8", ENCRYPTED.as_bytes()) {
        Err(SourceError::Unsupported(message)) => assert_eq!(message, ENCRYPTION_MESSAGE),
        Err(other) => panic!("wrong error: {}", other.to_string()),
        Ok(_) => panic!("an encrypted playlist must be refused"),
    }
}

#[test]
fn segments_are_fetched_first_and_the_wait_comes_before_the_reload() {
    let mut session = session();
    let actions = requests(&mut session);
    assert!(
        matches!(actions.first(), Some(Action::FetchResource { url, .. }) if url.ends_with("seg1.ts")),
        "the first segment comes first: {actions:?}"
    );
    let wait = actions.iter().position(|a| matches!(a, Action::WaitMs(_)));
    let reload = actions.iter().position(|a| matches!(a, Action::FetchPlaylist { .. }));
    if let (Some(wait), Some(reload)) = (wait, reload) {
        assert!(wait < reload, "the wait must come before the reload: {actions:?}");
    }
    assert!(matches!(session.next_step(), Ok(HlsStep::Idle)));
}

#[test]
fn a_reload_that_turns_encrypted_is_refused() {
    let mut session = session();
    let _ = requests(&mut session);
    match session.playlist_arrived(ENCRYPTED.as_bytes()) {
        Err(SourceError::Unsupported(message)) => assert_eq!(message, ENCRYPTION_MESSAGE),
        other => panic!("an encrypted reload must be refused: {:?}", other.map_err(|e| e.to_string())),
    }
}

#[test]
fn a_byte_range_past_the_resource_is_a_demux_error() {
    let mut session = session();
    let actions = requests(&mut session);
    let Some(Action::FetchResource { id, .. }) = actions.first() else {
        panic!("expected a resource fetch first: {actions:?}");
    };
    match session.resource_arrived(*id, Some((4, 8)), &[0u8; 6]) {
        Err(SourceError::Demux(message)) => {
            assert_eq!(message, "byte-range exceeded the fetched resource")
        }
        other => panic!("wrong outcome: {:?}", other.map_err(|e| e.to_string())),
    }
}

#[test]
fn a_failed_fetch_keeps_cancellation_and_status() {
    let mut session = session();
    assert_eq!(session.fetch_failed(None, NetworkError::Cancelled), SourceError::Cancelled);
    assert_eq!(
        session.fetch_failed(None, NetworkError::Status { status: 503, detail: None }),
        SourceError::Status { status: 503, detail: None }
    );
}

#[test]
fn a_fresh_ts_ingest_has_nothing_to_say() {
    let mut ingest = TsIngest::new();
    ingest.feed(&[]);
    assert!(ingest.poll_step().is_none());
    ingest.finish();
    assert!(ingest.poll_step().is_none());
}

#[test]
fn hls_client_requests_playlist_without_owning_http() {
    let mut client = hls_runtime::client::HlsClient::new("https://example.invalid/live.m3u8");
    assert!(matches!(client.poll(), Some(Action::FetchPlaylist { .. })));
    assert!(client.next_output().is_none());
}

#[test]
fn hls_and_direct_ts_share_the_same_sample_type() {
    let output = hls_runtime::client::Output::Samples {
        track_id: transmux::TrackId::new(1),
        samples: Vec::<transmux::Sample>::new(),
    };
    assert!(matches!(output, hls_runtime::client::Output::Samples { .. }));
    let mut direct = transmux::StreamingTsDemux::new();
    direct.feed(&[]);
    assert!(direct.poll_event().is_none());
}

fn session_for(playlist: &[u8]) -> HlsSession {
    match HlsSession::from_initial_playlist("http://localhost/live.m3u8", playlist) {
        Ok(session) => session,
        Err(error) => panic!("the playlist must open: {}", error.to_string()),
    }
}

#[test]
fn ended_playlists_have_no_reload_or_wait() {
    let mut session =
        session_for(b"#EXTM3U\n#EXT-X-TARGETDURATION:6\n#EXTINF:6,\n0.ts\n#EXT-X-ENDLIST\n");
    let actions = requests(&mut session);
    assert_eq!(actions.len(), 1, "{actions:?}");
    assert!(matches!(actions[0], Action::FetchResource { .. }));
}

#[test]
fn blocking_reload_has_no_added_wait() {
    let mut session = session_for(b"#EXTM3U\n#EXT-X-TARGETDURATION:6\n#EXT-X-SERVER-CONTROL:CAN-BLOCK-RELOAD=YES\n#EXT-X-PART-INF:PART-TARGET=1.0\n#EXTINF:6,\n0.ts\n");
    let actions = requests(&mut session);
    assert!(!actions.iter().any(|action| matches!(action, Action::WaitMs(_))));
    assert!(matches!(
        actions.last(),
        Some(Action::FetchPlaylist { blocking: Some(_), .. })
    ));
}

#[test]
fn every_live_reload_fetches_new_audio_before_its_wait_and_reload() {
    let first = "#EXTM3U\n#EXT-X-TARGETDURATION:6\n#EXT-X-MEDIA-SEQUENCE:0\n#EXTINF:6,\n0.ts\n";
    let mut session = session_for(first.as_bytes());
    for sequence in 0..3 {
        if sequence > 0 {
            let playlist = format!(
                "#EXTM3U\n#EXT-X-TARGETDURATION:6\n#EXT-X-MEDIA-SEQUENCE:{sequence}\n#EXTINF:6,\n{sequence}.ts\n"
            );
            if let Err(error) = session.playlist_arrived(playlist.as_bytes()) {
                panic!("a reload must be accepted: {}", error.to_string());
            }
        }
        let actions = requests(&mut session);
        assert_eq!(actions.len(), 3, "{actions:?}");
        assert!(matches!(&actions[0], Action::FetchResource { url, .. } if url.ends_with(&format!("{sequence}.ts"))));
        assert!(matches!(actions[1], Action::WaitMs(3000)));
        assert!(matches!(actions[2], Action::FetchPlaylist { .. }));
    }
}

#[test]
fn draining_a_ts_ingest_without_a_track_yields_nothing() {
    let mut ingest = TsIngest::new();
    let mut packet = vec![0x47u8, 0x01, 0x00, 0x10];
    packet.extend(std::iter::repeat(0xFFu8).take(184));
    for _ in 0..8 {
        ingest.feed(&packet);
    }
    assert!(ingest.poll().is_none());
    ingest.finish();
    assert!(ingest.poll().is_none());
    assert!(ingest.poll_step().is_none());
}

/// A TS segment written out here: 16 packets of 188 bytes on one PID.
fn segment() -> Vec<u8> {
    let mut bytes = Vec::new();
    for i in 0..16u8 {
        bytes.extend_from_slice(&[0x47, 0x01, 0x00, 0x10 | (i & 0x0F)]);
        bytes.extend(std::iter::repeat(0xFFu8).take(184));
    }
    bytes
}

/// The next request the session hands out, skipping internal steps and events.
fn next_request(session: &mut HlsSession) -> Option<Action> {
    for _ in 0..1000 {
        match session.next_step() {
            Ok(HlsStep::Perform(action)) => return Some(action),
            Ok(HlsStep::Again) | Ok(HlsStep::Event(_)) => {}
            Ok(HlsStep::Idle) => return None,
            Err(error) => panic!("unexpected error: {}", error.to_string()),
        }
    }
    panic!("the session never settled");
}

#[test]
fn live_reload_wait_precedes_reload_and_never_new_segments() {
    let mut session: Option<HlsSession> = None;
    for sequence in 0..3 {
        let playlist = format!(
            "#EXTM3U\n#EXT-X-TARGETDURATION:6\n#EXT-X-MEDIA-SEQUENCE:{sequence}\n#EXTINF:6,\n{sequence}.ts\n"
        );
        match session.as_mut() {
            None => session = Some(session_for(playlist.as_bytes())),
            Some(s) => {
                if let Err(error) = s.playlist_arrived(playlist.as_bytes()) {
                    panic!("a reload must be accepted: {}", error.to_string());
                }
            }
        }
        let s = session.as_mut().unwrap();
        let Some(Action::FetchResource { id, .. }) = next_request(s) else {
            panic!("new audio must be fetched before waiting or reloading");
        };
        if let Err(error) = s.resource_arrived(id, None, &segment()) {
            panic!("the segment must be accepted: {}", error.to_string());
        }
        assert!(matches!(next_request(s), Some(Action::WaitMs(3000))));
        assert!(matches!(next_request(s), Some(Action::FetchPlaylist { .. })));
        assert!(next_request(s).is_none());
    }
}
