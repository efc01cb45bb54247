use apogee::artwork::{check_artwork, is_image};
use apogee::network::NetworkError;
use apogee::secrets::check_allowed_key;
use apogee::stellar::{self, history_url, key_headers, HISTORY_BASE};
use apogee::updater::{
    check_update_endpoint, github_error_message, github_releases_url, valid_repository,
    DownloadEvent, DownloadProgress,
};
use apogee::xtream::{self, XtreamCredentials};

#[test]
fn accepts_image_types_and_unlabelled_bodies() {
    assert!(is_image(Some("image/jpeg")));
    assert!(is_image(Some("Image/PNG; charset=binary")));
    assert!(is_image(None));
}

#[test]
fn rejects_non_image_types() {
    assert!(!is_image(Some("text/html")));
    assert!(!is_image(Some("application/json")));
}

#[test]
fn artwork_refusals_explain_themselves() {
    assert_eq!(
        check_artwork(Some("text/html"), 10),
        Err("artwork response was not an image".to_string())
    );
    assert_eq!(
        check_artwork(Some(" image/png "), 0),
        Err("artwork response was empty".to_string())
    );
    assert_eq!(check_artwork(None, 3), Ok(()));
}

#[test]
fn a_channel_id_cannot_escape_its_path_segment() {
    let url = history_url("../../admin").unwrap();
    let tail = url
        .strip_prefix(HISTORY_BASE)
        .expect("must stay under the base path");
    assert!(!tail.contains('/'), "channel id escaped its segment: {url}");
    assert_eq!(tail, "..%2F..%2Fadmin");
}

#[test]
fn a_channel_id_cannot_inject_a_query_string_or_fragment() {
    let tail = history_url("x?admin=1#frag")
        .unwrap()
        .strip_prefix(HISTORY_BASE)
        .unwrap()
        .to_string();
    assert!(!tail.contains('?') && !tail.contains('#'), "{tail}");
}

#[test]
fn ordinary_channel_ids_pass_through_unchanged() {
    assert_eq!(
        history_url("siriusxmhits1").unwrap(),
        format!("{HISTORY_BASE}siriusxmhits1")
    );
}

#[test]
fn an_empty_channel_id_is_rejected() {
    assert!(history_url("").is_err());
}

#[test]
fn errors_never_contain_a_url_or_a_key() {
    let error = NetworkError::Transport(
        "error sending request for url (https://api.stellartunerlog.com/v1/history/x)".into(),
    );
    let message = stellar::describe("/history", &error);
    assert!(!message.contains("http"), "leaked a URL: {message}");
}

#[test]
fn status_codes_are_preserved_because_401_versus_500_matters_to_the_user() {
    let error = NetworkError::Status {
        status: reqwest::StatusCode::UNAUTHORIZED.as_u16(),
        detail: None,
    };
    assert_eq!(
        stellar::describe("/history", &error),
        "StellarTunerLog /history failed: HTTP 401"
    );
}

#[test]
fn only_a_non_empty_key_is_sent() {
    assert!(key_headers(None).is_empty());
    assert!(key_headers(Some("")).is_empty());
    assert_eq!(key_headers(Some("k")), vec![("X-API-Key", "k")]);
}

fn creds() -> XtreamCredentials {
    XtreamCredentials {
        base_url: "http://example.invalid:9191/".to_string(),
        username: "user name".to_string(),
        password: "p@ss&word".to_string(),
    }
}

#[test]
fn credentials_are_query_escaped_so_they_cannot_inject_parameters() {
    let url = creds().player_api_url("get_live_streams", &[]).unwrap();
    assert!(
        !url.contains("p@ss&word"),
        "password must be escaped: {url}"
    );
    assert!(url.contains("password=p%40ss%26word"), "{url}");
    assert!(
        url.contains("username=user+name") || url.contains("username=user%20name"),
        "{url}"
    );
}

#[test]
fn xtream_a_trailing_slash_on_the_base_url_does_not_double_up() {
    let url = creds().player_api_url("get_live_categories", &[]).unwrap();
    assert!(
        url.starts_with("http://example.invalid:9191/player_api.php?"),
        "{url}"
    );
}

#[test]
fn extra_parameters_are_appended() {
    let url = creds()
        .player_api_url("get_live_streams", &[("category_id", "43")])
        .unwrap();
    assert!(url.contains("action=get_live_streams"), "{url}");
    assert!(url.contains("category_id=43"), "{url}");
}

#[test]
fn an_invalid_base_url_is_reported_without_echoing_credentials() {
    let bad = XtreamCredentials {
        base_url: "not a url".to_string(),
        ..creds()
    };
    let err = bad.player_api_url("get_live_categories", &[]).unwrap_err();
    assert!(
        !err.contains("p@ss"),
        "error must not carry the password: {err}"
    );
}

#[test]
fn user_facing_errors_never_contain_a_url() {
    let cases = [
        NetworkError::Transport(
            "error sending request for url (http://h/player_api.php?password=hunter2)".into(),
        ),
        NetworkError::InvalidUrl("http://h/player_api.php?password=hunter2".into()),
    ];
    for error in cases {
        let message = xtream::describe("get_live_streams", &error);
        assert!(
            !message.contains("hunter2"),
            "leaked a credential: {message}"
        );
        assert!(!message.contains("http"), "leaked a URL: {message}");
    }
}

#[test]
fn a_status_error_keeps_the_code_because_it_is_actionable() {
    let error = NetworkError::Status {
        status: reqwest::StatusCode::UNAUTHORIZED.as_u16(),
        detail: None,
    };
    assert_eq!(
        xtream::describe("get_live_streams", &error),
        "get_live_streams failed: HTTP 401"
    );
}

#[test]
fn accepts_an_ordinary_owner_and_name() {
    assert!(valid_repository("slamanna212/Apogee"));
    assert!(valid_repository("some-org/some_repo.js"));
}

#[test]
fn rejects_anything_that_could_escape_the_path() {
    for bad in [
        "owner",
        "owner/name/extra",
        "owner/",
        "/name",
        "owner/name?x=1",
        "owner/name#frag",
        "owner/na me",
        "../../etc",
    ] {
        assert!(!valid_repository(bad), "should have been rejected: {bad}");
    }
}

#[test]
fn the_release_list_url_and_its_errors() {
    assert_eq!(
        github_releases_url("slamanna212/Apogee").unwrap(),
        "https://api.github.com/repos/slamanna212/Apogee/releases"
    );
    assert_eq!(
        github_releases_url("../../etc").unwrap_err(),
        "invalid repository identifier"
    );
    assert_eq!(
        github_error_message(&NetworkError::Status { status: 403, detail: None }),
        "GitHub API request failed: 403"
    );
    assert_eq!(
        github_error_message(&NetworkError::Cancelled),
        "GitHub API request failed: cancelled"
    );
}

#[test]
fn update_endpoints_must_be_on_github() {
    assert!(check_update_endpoint("https://github.com/o/r/releases/download/v1/latest.json").is_ok());
    assert_eq!(
        check_update_endpoint("https://example.com/latest.json").unwrap_err(),
        "update endpoint host must be github.com"
    );
    assert!(check_update_endpoint("not a url").is_err());
}

#[test]
fn a_download_announces_its_start_once() {
    let mut progress = DownloadProgress::new();
    assert_eq!(
        progress.on_chunk(10, Some(30)),
        vec![
            DownloadEvent::Started { content_length: Some(30) },
            DownloadEvent::Progress { chunk_length: 10 }
        ]
    );
    assert_eq!(
        progress.on_chunk(20, Some(30)),
        vec![DownloadEvent::Progress { chunk_length: 20 }]
    );
    assert_eq!(progress.on_finish(), DownloadEvent::Finished);
}

#[test]
fn only_the_frontend_key_is_allowed() {
    assert!(check_allowed_key("xtream_password").is_ok());
    assert_eq!(
        check_allowed_key("lastfm_session").unwrap_err(),
        "secrets: key \"lastfm_session\" is not allowed"
    );
}
