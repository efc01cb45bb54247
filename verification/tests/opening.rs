use apogee::detect::{classify_complete_hls_playlist, is_encrypted_playlist, Detection, SourceKind, Unsupported};
use apogee::source::{
    append_playlist_chunk, check_probed_playlist, master_variant_uri, reject_if_encrypted,
    route_detection, ProbeRun, ProbeStep, Route, SourceError, MAX_PROBED_PLAYLIST_BYTES,
};

#[test]
fn a_probe_run_replays_every_byte_even_past_its_budget() {
    let mut run = ProbeRun::new(4);
    assert!(matches!(run.next_step(), ProbeStep::NeedChunk));
    run.feed(Some(b"#EX")).unwrap();
    assert!(matches!(run.next_step(), ProbeStep::NeedChunk));
    run.feed(Some(b"TM3U\n#EXT-X-VERSION:3\n")).unwrap();
    match run.next_step() {
        ProbeStep::Concluded(Detection::Unsupported(Unsupported::BudgetExhausted { examined })) => {
            assert_eq!(examined, 4)
        }
        ProbeStep::Concluded(other) => panic!("unexpected verdict {other:?}"),
        ProbeStep::NeedChunk => panic!("a full budget must conclude"),
    }
    assert_eq!(run.into_raw(), b"#EXTM3U\n#EXT-X-VERSION:3\n".to_vec());
}

#[test]
fn a_body_that_ends_before_a_verdict_says_how_much_was_seen() {
    let mut run = ProbeRun::new(1024);
    run.feed(Some(b"#EX")).unwrap();
    assert_eq!(
        run.feed(None),
        Err(SourceError::StreamEndedDuringDetection { examined: 3 })
    );
}

#[test]
fn verdicts_route_to_a_path_or_an_actionable_error() {
    assert!(matches!(
        route_detection(Detection::Identified(SourceKind::MpegTs { stride: 188 })),
        Route::DirectTs
    ));
    assert!(matches!(
        route_detection(Detection::Identified(SourceKind::HlsMasterPlaylist)),
        Route::AssemblePlaylist
    ));
    match route_detection(Detection::Identified(SourceKind::Mp3)) {
        Route::Refuse(error) => assert_eq!(
            error.to_string(),
            "unsupported source: raw MP3 elementary streams are not a supported source yet"
        ),
        _ => panic!("MP3 must be refused"),
    }
    match route_detection(Detection::Unsupported(Unsupported::UnknownFormat)) {
        Route::Refuse(error) => assert_eq!(
            error,
            SourceError::Unsupported("stream bytes did not match any supported format".to_string())
        ),
        _ => panic!("an unknown format must be refused"),
    }
}

#[test]
fn playlist_assembly_refuses_before_growing_past_the_bound() {
    let mut buffer = vec![0u8; MAX_PROBED_PLAYLIST_BYTES - 1];
    assert!(check_probed_playlist(&buffer).is_ok());
    assert!(append_playlist_chunk(&mut buffer, b"x").is_ok());
    assert_eq!(buffer.len(), MAX_PROBED_PLAYLIST_BYTES);
    let error = append_playlist_chunk(&mut buffer, b"y").unwrap_err();
    assert_eq!(buffer.len(), MAX_PROBED_PLAYLIST_BYTES, "the buffer must not grow");
    assert_eq!(
        error,
        SourceError::Unsupported("playlist body exceeded 2097152 bytes without ending".to_string())
    );
}

#[test]
fn a_master_playlist_leads_to_its_best_variant() {
    let body = b"#EXTM3U\n#EXT-X-STREAM-INF:BANDWIDTH=1\nlow.m3u8\n#EXT-X-STREAM-INF:BANDWIDTH=9\nhigh.m3u8\n";
    assert_eq!(master_variant_uri(body).unwrap(), "high.m3u8");
    assert_eq!(master_variant_uri(b"#EXTM3U\n"), Err(SourceError::NoVariants));
    assert_eq!(
        master_variant_uri(&[0xff, 0xfe]),
        Err(SourceError::Unsupported("HLS master playlist was not valid UTF-8".to_string()))
    );
}

#[test]
fn an_encryption_tag_anywhere_in_a_complete_body_is_refused() {
    let body = b"#EXTM3U\n#EXTINF:6,\n0.ts\n#EXT-X-KEY:METHOD=AES-128,URI=\"k\"\n";
    assert!(is_encrypted_playlist(body));
    assert!(reject_if_encrypted(body).is_err());
    assert_eq!(
        classify_complete_hls_playlist(body),
        Err(Unsupported::EncryptedPlaylist)
    );
    let media = b"\xEF\xBB\xBF #EXTM3U\n#EXTINF:6,\n0.ts\n";
    assert!(reject_if_encrypted(media).is_ok());
    assert_eq!(
        classify_complete_hls_playlist(media),
        Ok(SourceKind::HlsMediaPlaylist)
    );
    assert_eq!(
        classify_complete_hls_playlist(b"<html>"),
        Err(Unsupported::UnknownFormat)
    );
}
