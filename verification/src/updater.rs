//! Update checks: which endpoint may be asked, which repository may be listed, what a
//! failed listing reads as, and the progress events of a download.
use vstd::prelude::*;
use crate::network::{redact_text, redact_text_spec, url_parse, url_parse_view, NetworkError, ParsedUrl};
use crate::text::{chars_of, decimal, push_decimal, push_str, push_string, string_from_chars};

verus! {

/// The only host an update manifest may be fetched from.
pub const ALLOWED_UPDATE_ENDPOINT_HOST: &'static str = "github.com";

/// The outcome of checking an update endpoint: the parsed URL when it parses and names
/// the allowed host; otherwise the parse error's text, or the host requirement.
pub open spec fn endpoint_spec(url: Seq<char>) -> Result<crate::network::ParsedUrlView, Seq<char>> {
    match url_parse_view(url) {
        Err(e) => Err(e),
        Ok(u) => if u.host == Some(ALLOWED_UPDATE_ENDPOINT_HOST@) {
            Ok(u)
        } else {
            Err("update endpoint host must be github.com"@)
        },
    }
}

/// Checks the endpoint the frontend chose before anything is fetched from it.
pub fn check_update_endpoint(url: &str) -> (r: Result<ParsedUrl, String>)
    ensures
        match endpoint_spec(url@) {
            Ok(u) => r matches Ok(p) && p@ == u,
            Err(e) => r matches Err(m) && m@ == e,
        },
{
    match url_parse(url) {
        Err(e) => Err(e),
        Ok(parsed) => {
            let allowed = match &parsed.host {
                Some(host) => crate::detect::str_eq(host.as_str(), ALLOWED_UPDATE_ENDPOINT_HOST),
                None => false,
            };
            if allowed {
                Ok(parsed)
            } else {
                Err(String::from_str("update endpoint host must be github.com"))
            }
        },
    }
}

/// Characters a repository identifier may hold.
pub open spec fn is_repo_char(c: char) -> bool {
    ('0' <= c && c <= '9') || ('A' <= c && c <= 'Z') || ('a' <= c && c <= 'z') || c == '-' || c == '_'
        || c == '.' || c == '/'
}

/// Whether `repo` is `owner/name`: exactly one `/`, with a non-empty part on each side,
/// and nothing but ASCII letters, digits and `-_./`. Nothing else can be interpolated
/// into the API path safely.
pub open spec fn valid_repository_spec(repo: Seq<char>) -> bool {
    &&& forall|i: int| 0 <= i < repo.len() ==> is_repo_char(#[trigger] repo[i])
    &&& exists|k: int| 0 < k < repo.len() - 1 && repo[k] == '/' && forall|j: int|
        0 <= j < repo.len() && j != k ==> #[trigger] repo[j] != '/'
}

pub fn valid_repository(repo: &str) -> (r: bool)
    ensures
        r == valid_repository_spec(repo@),
{
    let v = chars_of(repo);
    let mut slash: Option<usize> = None;
    let mut slashes: usize = 0;
    let mut i: usize = 0;
    while i < v.len()
        invariant
            v@ == repo@,
            i <= v@.len(),
            forall|j: int| 0 <= j < i ==> is_repo_char(#[trigger] v@[j]),
            slashes <= i,
            slashes == 0 ==> slash is None && forall|j: int| 0 <= j < i ==> #[trigger] v@[j] != '/',
            slashes == 1 ==> (slash matches Some(k) && k < i && v@[k as int] == '/' && forall|j: int|
                0 <= j < i && j != k ==> #[trigger] v@[j] != '/'),
            slashes >= 2 ==> exists|a: int, b: int| 0 <= a < b < i && v@[a] == '/' && v@[b] == '/',
        decreases v@.len() - i,
    {
        let c = v[i];
        let allowed = ('0' <= c && c <= '9') || ('A' <= c && c <= 'Z') || ('a' <= c && c <= 'z')
            || c == '-' || c == '_' || c == '.' || c == '/';
        if !allowed {
            return false;
        }
        if c == '/' {
            if slashes == 1 {
                proof {
                    let k = slash.unwrap() as int;
                    assert(v@[k] == '/' && v@[i as int] == '/');
                }
            }
            if slashes == 0 {
                slash = Some(i);
            }
            slashes = if slashes >= 2 { 2 } else { slashes + 1 };
        }
        i = i + 1;
    }
    if slashes != 1 {
        proof {
            if slashes >= 2 {
                let (a, b) = choose|a: int, b: int| 0 <= a < b < i && v@[a] == '/' && v@[b] == '/';
                if valid_repository_spec(repo@) {
                    let k = choose|k: int| 0 < k < repo@.len() - 1 && repo@[k] == '/' && forall|j: int|
                        0 <= j < repo@.len() && j != k ==> #[trigger] repo@[j] != '/';
                    assert(repo@[a] == '/' && repo@[b] == '/');
                }
            }
        }
        return false;
    }
    match slash {
        Some(k) => {
            proof {
                if valid_repository_spec(repo@) {
                    let m = choose|m: int| 0 < m < repo@.len() - 1 && repo@[m] == '/' && forall|j: int|
                        0 <= j < repo@.len() && j != m ==> #[trigger] repo@[j] != '/';
                    assert(m == k);
                }
            }
            0 < k && k + 1 < v.len()
        },
        None => false,
    }
}

/// The release list URL of a valid repository, or the refusal of an invalid one.
pub fn github_releases_url(repo: &str) -> (r: Result<String, String>)
    ensures
        valid_repository_spec(repo@) ==> (r matches Ok(u) && u@ == "https://api.github.com/repos/"@ + repo@ + "/releases"@),
        !valid_repository_spec(repo@) ==> (r matches Err(e) && e@ == "invalid repository identifier"@),
{
    if !valid_repository(repo) {
        return Err(String::from_str("invalid repository identifier"));
    }
    let mut out: Vec<char> = Vec::new();
    push_str(&mut out, "https://api.github.com/repos/");
    push_str(&mut out, repo);
    push_str(&mut out, "/releases");
    Ok(string_from_chars(out.as_slice()))
}

/// What a failed release listing reads as: the status code alone, or the redacted
/// message of any other failure.
pub fn github_error_message(error: &NetworkError) -> (r: String)
    ensures
        match *error {
            NetworkError::Status { status, .. } => r@ == "GitHub API request failed: "@ + decimal(status as nat),
            other => r@ == "GitHub API request failed: "@ + redact_text_spec(other.message_spec()),
        },
{
    let mut out: Vec<char> = Vec::new();
    push_str(&mut out, "GitHub API request failed: ");
    match error {
        NetworkError::Status { status, .. } => push_decimal(&mut out, *status as u64),
        other => {
            let text = other.message();
            let redacted = redact_text(text.as_str());
            push_string(&mut out, &redacted);
        },
    }
    string_from_chars(out.as_slice())
}

/// Download progress in the shape the frontend's progress handling reads.
#[derive(Debug, Clone, PartialEq, Eq)]
pub enum DownloadEvent {
    Started { content_length: Option<u64> },
    Progress { chunk_length: usize },
    Finished,
}

/// Turns per-chunk callbacks into progress events: the first chunk also announces the
/// start, since the download reports every chunk alike.
#[derive(Debug)]
pub struct DownloadProgress {
    started: bool,
}

impl View for DownloadProgress {
    type V = bool;

    /// Whether the start was announced.
    closed spec fn view(&self) -> bool {
        self.started
    }
}

impl DownloadProgress {
    pub fn new() -> (r: Self)
        ensures
            !r@,
    {
        DownloadProgress { started: false }
    }

    /// The events for one received chunk.
    pub fn on_chunk(&mut self, chunk_length: usize, content_length: Option<u64>) -> (r: Vec<DownloadEvent>)
        ensures
            final(self)@,
            !old(self)@ ==> r@ == seq![DownloadEvent::Started { content_length }, DownloadEvent::Progress { chunk_length }],
            old(self)@ ==> r@ == seq![DownloadEvent::Progress { chunk_length }],
    {
        let mut events: Vec<DownloadEvent> = Vec::new();
        if !self.started {
            self.started = true;
            events.push(DownloadEvent::Started { content_length });
        }
        events.push(DownloadEvent::Progress { chunk_length });
        events
    }

    /// The event for a completed download.
    pub fn on_finish(&self) -> (r: DownloadEvent)
        ensures
            r == DownloadEvent::Finished,
    {
        DownloadEvent::Finished
    }
}

/// The events of any run of chunks.
pub open spec fn chunk_events(started: bool, chunks: Seq<(usize, Option<u64>)>) -> Seq<DownloadEvent>
    decreases chunks.len(),
{
    if chunks.len() == 0 {
        Seq::empty()
    } else {
        let (n, total) = chunks[0];
        let head = if started {
            seq![DownloadEvent::Progress { chunk_length: n }]
        } else {
            seq![DownloadEvent::Started { content_length: total }, DownloadEvent::Progress { chunk_length: n }]
        };
        head + chunk_events(true, chunks.drop_first())
    }
}

/// However a download is chunked, it announces its start exactly once, first, and then
/// one progress event per chunk.
pub proof fn law_a_download_starts_exactly_once(chunks: Seq<(usize, Option<u64>)>)
    requires
        chunks.len() > 0,
    ensures
        chunk_events(false, chunks)[0] is Started,
        chunk_events(false, chunks).len() == chunks.len() + 1,
        forall|i: int| 1 <= i < chunk_events(false, chunks).len() ==> #[trigger] chunk_events(false, chunks)[i] is Progress,
{
    lemma_later_chunks_only_progress(chunks.drop_first());
    let tail = chunk_events(true, chunks.drop_first());
    let head = seq![DownloadEvent::Started { content_length: chunks[0].1 }, DownloadEvent::Progress { chunk_length: chunks[0].0 }];
    assert forall|i: int| 1 <= i < chunk_events(false, chunks).len() implies #[trigger] chunk_events(false, chunks)[i] is Progress by {
        if i >= 2 {
            assert(chunk_events(false, chunks)[i] == tail[i - 2]);
        }
    }
}

proof fn lemma_later_chunks_only_progress(chunks: Seq<(usize, Option<u64>)>)
    ensures
        chunk_events(true, chunks).len() == chunks.len(),
        forall|i: int| 0 <= i < chunk_events(true, chunks).len() ==> #[trigger] chunk_events(true, chunks)[i] is Progress,
    decreases chunks.len(),
{
    if chunks.len() > 0 {
        lemma_later_chunks_only_progress(chunks.drop_first());
        let tail = chunk_events(true, chunks.drop_first());
        assert forall|i: int| 0 <= i < chunk_events(true, chunks).len() implies #[trigger] chunk_events(true, chunks)[i] is Progress by {
            if i >= 1 {
                assert(chunk_events(true, chunks)[i] == tail[i - 1]);
            }
        }
    }
}

} // verus!
