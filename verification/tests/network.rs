use apogee::network::{
    chunk_exceeds, declared_length_exceeds, diagnostic_text, error_detail, parse_allowed_url,
    redact_text, redact_url, resolve_relative, stellar_response_headers, NetworkError,
    NetworkServiceConfig,
};

#[test]
fn stellar_diagnostic_errors_are_bounded_and_cannot_inject_log_lines() {
    let output = diagnostic_text(
        &format!(
            "key=private-key\nhttps://example.com/private/path?token=secret {}",
            "x".repeat(1000)
        ),
        &[("x-api-key", "private-key")],
    );
    assert!(output.chars().count() <= 512);
    assert!(!output.contains("private-key"));
    assert!(!output.contains("/private/path"));
    assert!(!output.contains("token=secret"));
    assert!(!output.contains('\n'));
}

#[test]
fn stellar_diagnostics_allowlist_headers_and_redact_echoed_keys() {
    let headers = vec![
        ("cf-ray".to_string(), Some("test-ray-IAD".to_string())),
        ("server".to_string(), Some("cloudflare".to_string())),
        ("retry-after".to_string(), Some("30".to_string())),
        ("set-cookie".to_string(), Some("private-cookie".to_string())),
        ("x-api-key".to_string(), Some("private-key".to_string())),
        ("cf-error-type".to_string(), Some("echo private-key".to_string())),
    ];
    let output = stellar_response_headers(&headers, &[("X-API-Key", "private-key")]);
    assert!(output.contains("cf-ray=test-ray-IAD"));
    assert!(output.contains("server=cloudflare"));
    assert!(output.contains("retry-after=30"));
    assert!(output.contains("echo [redacted]"));
    assert!(!output.contains("private-key"));
    assert!(!output.contains("private-cookie"));
    assert!(!output.contains("set-cookie"));
}

#[test]
fn redact_url_strips_credential_path_segments() {
    let url = parse_allowed_url("http://provider.example:8080/live/produser/sup3rSecret/42.ts").unwrap();
    let redacted = redact_url(&url);
    assert!(!redacted.contains("sup3rSecret"));
    assert!(!redacted.contains("produser"));
    assert!(redacted.contains("provider.example"));
    assert!(redacted.contains("8080"));
}

#[test]
fn redact_text_finds_and_redacts_embedded_urls() {
    let text = "error sending request for url (http://host/live/produser/sup3rSecret/1.ts)";
    let redacted = redact_text(text);
    assert!(!redacted.contains("sup3rSecret"));
    assert!(!redacted.contains("produser"));
    assert!(redacted.contains("error sending request for url"));
}

#[test]
fn parse_allowed_url_rejects_non_http_schemes() {
    assert!(matches!(
        parse_allowed_url("file:///etc/passwd"),
        Err(NetworkError::DisallowedScheme(scheme)) if scheme == "file"
    ));
    assert!(parse_allowed_url("https://example.com/x.m3u8").is_ok());
    assert!(parse_allowed_url("http://127.0.0.1:8080/live/1.ts").is_ok());
}

#[test]
fn resolve_relative_rejects_a_non_http_absolute_reference() {
    let base = parse_allowed_url("https://example.com/live/stream.m3u8").unwrap();
    assert!(matches!(
        resolve_relative(&base, "file:///etc/passwd"),
        Err(NetworkError::DisallowedScheme(scheme)) if scheme == "file"
    ));
    let resolved = resolve_relative(&base, "seg-2.ts").unwrap();
    assert_eq!(resolved.href, "https://example.com/live/seg-2.ts");
}

#[test]
fn a_redacted_url_keeps_only_scheme_host_port_and_shape() {
    let url = parse_allowed_url("http://provider.example:8080/live/u/p/42.ts?x=1").unwrap();
    assert_eq!(
        redact_url(&url),
        "http://provider.example:8080/<redacted:4-segment-path>?<redacted-query>"
    );
}

#[test]
fn text_without_urls_passes_through_and_an_unparseable_url_is_masked() {
    assert_eq!(redact_text("plain words, no links"), "plain words, no links");
    assert_eq!(redact_text("see http://[bad"), "see <redacted-url>");
}

#[test]
fn network_errors_read_as_documented() {
    assert_eq!(
        NetworkError::BodyTooLarge { limit: 512 }.message(),
        "response body exceeded 512 bytes"
    );
    assert_eq!(
        NetworkError::Status { status: 404, detail: None }.message(),
        "unsuccessful response status 404 Not Found"
    );
    assert_eq!(
        NetworkError::Status { status: 503, detail: Some("busy".to_string()) }.message(),
        "busy (HTTP 503)"
    );
    assert_eq!(
        NetworkError::DisallowedScheme("file".to_string()).message(),
        "disallowed URL scheme \"file\""
    );
}

#[test]
fn body_bounds_are_checked_before_growing() {
    assert!(declared_length_exceeds(Some(11), 10));
    assert!(!declared_length_exceeds(Some(10), 10));
    assert!(!declared_length_exceeds(None, 10));
    assert!(chunk_exceeds(8, 3, 10));
    assert!(!chunk_exceeds(7, 3, 10));
}

#[test]
fn an_error_body_gives_its_reason() {
    assert_eq!(
        error_detail(br#"{"error":"No streams assigned to channel"}"#).as_deref(),
        Some("No streams assigned to channel")
    );
    assert_eq!(error_detail(b"  plain reason \n").as_deref(), Some("plain reason"));
    assert_eq!(error_detail(b"   "), None);
    let long = "y".repeat(300);
    assert_eq!(error_detail(long.as_bytes()).map(|s| s.chars().count()), Some(200));
}

#[test]
fn the_default_network_policy_values() {
    let config = NetworkServiceConfig::default();
    assert_eq!(config.continuous_ts_connect_timeout_ms, 20_000);
    assert_eq!(config.hls_segment_max_concurrency, 4);
    assert_eq!(config.segment_permits(), 4);
}
