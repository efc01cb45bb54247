//! The policy half of the HTTP layer: its errors and their messages, the http/https
//! scheme restriction, and redaction of URLs and free text before anything reaches a log
//! or the user.
//!
//! Stream URLs carry credentials in path segments, so redaction never assumes where a
//! credential lives: it keeps scheme, host and port and replaces the whole path and query.
//! URL parsing itself is `url`'s; what is done with the parts is stated here.
use vstd::prelude::*;
use crate::detect::str_eq;
use crate::text::{chars_of, decimal, push_decimal, push_str, push_string, string_from_chars};

verus! {

// ---------------------------------------------------------------------------------------
// Errors
// ---------------------------------------------------------------------------------------

/// Error type for every network operation. `Transport` always holds an already-redacted
/// message, and `Status` keeps the numeric code because whether a retry can help
/// depends on it.
#[derive(Debug, Clone)]
pub enum NetworkError {
    /// The URL (initial request or a redirect target) used a scheme other than http(s).
    DisallowedScheme(String),
    /// The URL or URL reference could not be parsed.
    InvalidUrl(String),
    /// The caller's cancellation fired while a request, read or wait was pending.
    Cancelled,
    /// A response body exceeded the profile's byte bound.
    BodyTooLarge { limit: usize },
    /// An unsuccessful HTTP status, with any short error message the server sent.
    Status { status: u16, detail: Option<String> },
    /// The continuous stream delivered no data for longer than its stall timeout.
    Stalled,
    /// The continuous stream's request received no response headers in time.
    ResponseTimedOut,
    /// Client construction or another transport failure; pre-redacted.
    Transport(String),
}

/// What `reqwest::StatusCode::canonical_reason` gives for `status`, or `None` where
/// `StatusCode::from_u16` refuses the number.
pub uninterp spec fn canonical_reason_view(status: u16) -> Option<Seq<char>>;

/// Calls `reqwest::StatusCode::from_u16(status)` and, when that succeeds, its
/// `canonical_reason`. Claims only that the result is determined by the number.
#[verifier::external_body]
fn canonical_reason(status: u16) -> (r: Option<String>)
    ensures
        r matches Some(s) ==> canonical_reason_view(status) == Some(s@),
        r is None ==> canonical_reason_view(status) is None,
{
    match reqwest::StatusCode::from_u16(status) {
        Ok(code) => code.canonical_reason().map(|reason| reason.to_string()),
        Err(_) => None,
    }
}

/// How `reqwest::StatusCode` displays itself: the number, a space, and the canonical
/// reason or `<unknown status code>`.
pub open spec fn status_display(status: u16) -> Seq<char> {
    decimal(status as nat) + " "@ + match canonical_reason_view(status) {
        Some(reason) => reason,
        None => "<unknown status code>"@,
    }
}

/// The `Debug` form of a string: the text in double quotes. Only the plain case is
/// written out here; see [`NetworkError::message`].
pub open spec fn quoted(s: Seq<char>) -> Seq<char> {
    "\""@ + s + "\""@
}

impl NetworkError {
    /// The text `NetworkError` displays.
    pub open spec fn message_spec(&self) -> Seq<char> {
        match self {
            NetworkError::DisallowedScheme(scheme) => "disallowed URL scheme "@ + quoted(scheme@),
            NetworkError::InvalidUrl(m) => "invalid URL: "@ + m@,
            NetworkError::Cancelled => "cancelled"@,
            NetworkError::BodyTooLarge { limit } => "response body exceeded "@ + decimal(
                *limit as nat,
            ) + " bytes"@,
            NetworkError::Status { status, detail } => match detail {
                Some(d) => d@ + " (HTTP "@ + decimal(*status as nat) + ")"@,
                None => "unsuccessful response status "@ + status_display(*status),
            },
            NetworkError::Stalled => "no data received before the stall timeout"@,
            NetworkError::ResponseTimedOut => "no response headers received before the timeout"@,
            NetworkError::Transport(m) => "network error: "@ + m@,
        }
    }

    /// The message shown for this error. A scheme is quoted as `{:?}` would quote it;
    /// schemes are ASCII letters, digits, `+`, `-` and `.`, which `Debug` leaves as they
    /// are.
    pub fn message(&self) -> (r: String)
        ensures
            r@ == self.message_spec(),
    {
        let mut out: Vec<char> = Vec::new();
        match self {
            NetworkError::DisallowedScheme(scheme) => {
                push_str(&mut out, "disallowed URL scheme ");
                push_str(&mut out, "\"");
                push_string(&mut out, scheme);
                push_str(&mut out, "\"");
            },
            NetworkError::InvalidUrl(m) => {
                push_str(&mut out, "invalid URL: ");
                push_string(&mut out, m);
            },
            NetworkError::Cancelled => {
                push_str(&mut out, "cancelled");
            },
            NetworkError::BodyTooLarge { limit } => {
                push_str(&mut out, "response body exceeded ");
                push_decimal(&mut out, *limit as u64);
                push_str(&mut out, " bytes");
            },
            NetworkError::Status { status, detail } => match detail {
                Some(d) => {
                    push_string(&mut out, d);
                    push_str(&mut out, " (HTTP ");
                    push_decimal(&mut out, *status as u64);
                    push_str(&mut out, ")");
                },
                None => {
                    push_str(&mut out, "unsuccessful response status ");
                    push_decimal(&mut out, *status as u64);
                    push_str(&mut out, " ");
                    match canonical_reason(*status) {
                        Some(reason) => push_string(&mut out, &reason),
                        None => push_str(&mut out, "<unknown status code>"),
                    }
                },
            },
            NetworkError::Stalled => {
                push_str(&mut out, "no data received before the stall timeout");
            },
            NetworkError::ResponseTimedOut => {
                push_str(&mut out, "no response headers received before the timeout");
            },
            NetworkError::Transport(m) => {
                push_str(&mut out, "network error: ");
                push_string(&mut out, m);
            },
        }
        proof {
            assert(out@ =~= self.message_spec());
        }
        string_from_chars(&out)
    }
}

// ---------------------------------------------------------------------------------------
// URLs
// ---------------------------------------------------------------------------------------

/// The parts of a parsed `url::Url` that this module reads.
#[derive(Debug, Clone)]
pub struct ParsedUrl {
    /// The full serialisation, `Url::as_str`.
    pub href: String,
    pub scheme: String,
    pub host: Option<String>,
    pub port: Option<u16>,
    /// How many path segments `Url::path_segments` yields; 0 for a cannot-be-a-base URL.
    pub segment_count: usize,
    pub has_query: bool,
}

/// [`ParsedUrl`] with its text as sequences.
pub struct ParsedUrlView {
    pub href: Seq<char>,
    pub scheme: Seq<char>,
    pub host: Option<Seq<char>>,
    pub port: Option<u16>,
    pub segment_count: usize,
    pub has_query: bool,
}

pub open spec fn opt_view(o: Option<String>) -> Option<Seq<char>> {
    match o {
        Some(s) => Some(s@),
        None => None,
    }
}

impl View for ParsedUrl {
    type V = ParsedUrlView;

    open spec fn view(&self) -> ParsedUrlView {
        ParsedUrlView {
            href: self.href@,
            scheme: self.scheme@,
            host: opt_view(self.host),
            port: self.port,
            segment_count: self.segment_count,
            has_query: self.has_query,
        }
    }
}

/// A parse outcome with its text as sequences.
pub open spec fn parsed_view(r: Result<ParsedUrl, String>) -> Result<ParsedUrlView, Seq<char>> {
    match r {
        Ok(u) => Ok(u@),
        Err(e) => Err(e@),
    }
}

/// What `url::Url::parse(input)` gives: the parts of the URL, or the parse error's text.
pub uninterp spec fn url_parse_view(input: Seq<char>) -> Result<ParsedUrlView, Seq<char>>;

/// What `url::Url::parse(base)` followed by `Url::join(reference)` gives.
pub uninterp spec fn url_join_view(base: Seq<char>, reference: Seq<char>) -> Result<
    ParsedUrlView,
    Seq<char>,
>;

/// Calls `url::Url::parse` and reads the parts back off the result; on failure, the
/// `ParseError`'s display text. Claims only that the outcome is determined by the input.
#[verifier::external_body]
pub(crate) fn url_parse(input: &str) -> (r: Result<ParsedUrl, String>)
    ensures
        url_parse_view(input@) == parsed_view(r),
{
    match url::Url::parse(input) {
        Ok(url) => Ok(ParsedUrl {
            href: url.as_str().to_string(),
            scheme: url.scheme().to_string(),
            host: url.host_str().map(|host| host.to_string()),
            port: url.port(),
            segment_count: url.path_segments().map(|segments| segments.count()).unwrap_or(0),
            has_query: url.query().is_some(),
        }),
        Err(error) => Err(error.to_string()),
    }
}

/// Calls `url::Url::parse(base)` and then `Url::join(reference)` on it.
#[verifier::external_body]
fn url_join(base: &str, reference: &str) -> (r: Result<ParsedUrl, String>)
    ensures
        url_join_view(base@, reference@) == parsed_view(r),
{
    match url::Url::parse(base).and_then(|url| url.join(reference)) {
        Ok(url) => Ok(ParsedUrl {
            href: url.as_str().to_string(),
            scheme: url.scheme().to_string(),
            host: url.host_str().map(|host| host.to_string()),
            port: url.port(),
            segment_count: url.path_segments().map(|segments| segments.count()).unwrap_or(0),
            has_query: url.query().is_some(),
        }),
        Err(error) => Err(error.to_string()),
    }
}

/// Only http and https are ever fetched.
pub open spec fn is_allowed_scheme_spec(scheme: Seq<char>) -> bool {
    scheme == "http"@ || scheme == "https"@
}

pub fn is_allowed_scheme(url: &ParsedUrl) -> (r: bool)
    ensures
        r == is_allowed_scheme_spec(url.scheme@),
{
    str_eq(url.scheme.as_str(), "http") || str_eq(url.scheme.as_str(), "https")
}

/// The outcome of parsing `raw` under the scheme restriction.
pub open spec fn parse_allowed_spec(raw: Seq<char>) -> Result<ParsedUrlView, Seq<char>> {
    match url_parse_view(raw) {
        Ok(u) => if is_allowed_scheme_spec(u.scheme) {
            Ok(u)
        } else {
            Err(u.scheme)
        },
        Err(e) => Err(e),
    }
}

/// Parses `raw` and rejects any scheme other than http/https. Host and port are not
/// restricted: local and private provider addresses must keep working.
pub fn parse_allowed_url(raw: &str) -> (r: Result<ParsedUrl, NetworkError>)
    ensures
        match url_parse_view(raw@) {
            Ok(u) => if is_allowed_scheme_spec(u.scheme) {
                r matches Ok(p) && p@ == u
            } else {
                r matches Err(NetworkError::DisallowedScheme(s)) && s@ == u.scheme
            },
            Err(e) => r matches Err(NetworkError::InvalidUrl(m)) && m@ == e,
        },
{
    match url_parse(raw) {
        Ok(url) => {
            if !is_allowed_scheme(&url) {
                return Err(NetworkError::DisallowedScheme(url.scheme));
            }
            Ok(url)
        },
        Err(e) => Err(NetworkError::InvalidUrl(e)),
    }
}

/// Resolves `reference` (relative or absolute) against `base`, the effective URL of a
/// previous response, and re-checks the scheme, since an absolute reference can name any.
pub fn resolve_relative(base: &ParsedUrl, reference: &str) -> (r: Result<ParsedUrl, NetworkError>)
    ensures
        match url_join_view(base.href@, reference@) {
            Ok(u) => if is_allowed_scheme_spec(u.scheme) {
                r matches Ok(p) && p@ == u
            } else {
                r matches Err(NetworkError::DisallowedScheme(s)) && s@ == u.scheme
            },
            Err(e) => r matches Err(NetworkError::InvalidUrl(m)) && m@ == e,
        },
{
    match url_join(base.href.as_str(), reference) {
        Ok(url) => {
            if !is_allowed_scheme(&url) {
                return Err(NetworkError::DisallowedScheme(url.scheme));
            }
            Ok(url)
        },
        Err(e) => Err(NetworkError::InvalidUrl(e)),
    }
}

// ---------------------------------------------------------------------------------------
// Redaction
// ---------------------------------------------------------------------------------------

/// The host as logged.
pub open spec fn host_part(u: ParsedUrlView) -> Seq<char> {
    match u.host {
        Some(h) => h,
        None => "<no-host>"@,
    }
}

/// The port as logged, if the URL names one.
pub open spec fn port_part(u: ParsedUrlView) -> Seq<char> {
    match u.port {
        Some(p) => ":"@ + decimal(p as nat),
        None => Seq::empty(),
    }
}

/// The path as logged: only how many segments it had.
pub open spec fn path_part(u: ParsedUrlView) -> Seq<char> {
    if u.segment_count > 0 {
        "/<redacted:"@ + decimal(u.segment_count as nat) + "-segment-path>"@
    } else {
        Seq::empty()
    }
}

/// The query as logged: only that there was one.
pub open spec fn query_part(u: ParsedUrlView) -> Seq<char> {
    if u.has_query {
        "?<redacted-query>"@
    } else {
        Seq::empty()
    }
}

/// A URL as it may be logged: scheme, host and port, and only the number of path
/// segments and whether a query was present.
pub open spec fn redact_url_spec(u: ParsedUrlView) -> Seq<char> {
    u.scheme + "://"@ + host_part(u) + port_part(u) + path_part(u) + query_part(u)
}

/// Redacts a URL for logging; see [`redact_url_spec`].
pub fn redact_url(url: &ParsedUrl) -> (r: String)
    ensures
        r@ == redact_url_spec(url@),
{
    let mut out: Vec<char> = Vec::new();
    push_url_redacted(&mut out, url);
    string_from_chars(&out)
}

fn push_url_redacted(out: &mut Vec<char>, url: &ParsedUrl)
    ensures
        final(out)@ == old(out)@ + redact_url_spec(url@),
{
    let ghost start = out@;
    push_string(out, &url.scheme);
    push_str(out, "://");
    match &url.host {
        Some(host) => push_string(out, host),
        None => push_str(out, "<no-host>"),
    }
    let ghost a = out@;
    assert(a =~= start + url.scheme@ + "://"@ + host_part(url@));
    push_port_part(out, url);
    let ghost b = out@;
    push_path_and_query(out, url);
    assert(out@ =~= start + redact_url_spec(url@));
}

fn push_port_part(out: &mut Vec<char>, url: &ParsedUrl)
    ensures
        final(out)@ == old(out)@ + port_part(url@),
{
    match url.port {
        Some(port) => {
            push_str(out, ":");
            push_decimal(out, port as u64);
        },
        None => {
            assert(out@ =~= out@ + port_part(url@));
        },
    }
}

fn push_path_and_query(out: &mut Vec<char>, url: &ParsedUrl)
    ensures
        final(out)@ == old(out)@ + path_part(url@) + query_part(url@),
{
    let ghost start = out@;
    if url.segment_count > 0 {
        push_str(out, "/<redacted:");
        push_decimal(out, url.segment_count as u64);
        push_str(out, "-segment-path>");
    }
    let ghost b = out@;
    assert(b =~= start + path_part(url@));
    if url.has_query {
        push_str(out, "?<redacted-query>");
    }
    assert(out@ =~= b + query_part(url@));
}

/// Whether `p` occurs in `s` at index `i`.
pub open spec fn occurs_at(s: Seq<char>, p: Seq<char>, i: int) -> bool {
    0 <= i && i + p.len() <= s.len() && s.subrange(i, i + p.len()) == p
}

/// The first index at or after `i` where `p` occurs in `s`, as `str::find` reports it.
pub open spec fn find_from(s: Seq<char>, p: Seq<char>, i: int) -> Option<int>
    decreases s.len() - i,
{
    if i < 0 || i + p.len() > s.len() {
        None
    } else if occurs_at(s, p, i) {
        Some(i)
    } else if i >= s.len() {
        None
    } else {
        find_from(s, p, i + 1)
    }
}

pub proof fn lemma_find_from(s: Seq<char>, p: Seq<char>, i: int)
    requires
        0 <= i,
    ensures
        find_from(s, p, i) matches Some(j) ==> i <= j && occurs_at(s, p, j) && forall|m: int|
            i <= m < j ==> !occurs_at(s, p, m),
        find_from(s, p, i) is None ==> forall|m: int| i <= m ==> !occurs_at(s, p, m),
    decreases s.len() - i,
{
    if i < 0 || i + p.len() > s.len() {
    } else if occurs_at(s, p, i) {
    } else if i >= s.len() {
        assert(s.subrange(i, i + p.len()) =~= p);
    } else {
        lemma_find_from(s, p, i + 1);
    }
}

/// Where the first `http://` or `https://` begins.
pub open spec fn url_start(s: Seq<char>) -> Option<int> {
    match (find_from(s, "http://"@, 0), find_from(s, "https://"@, 0)) {
        (Some(a), Some(b)) => Some(if a <= b { a } else { b }),
        (Some(a), None) => Some(a),
        (None, Some(b)) => Some(b),
        (None, None) => None,
    }
}

/// Characters that end a URL embedded in free text: whitespace and the punctuation that
/// commonly surrounds one in error output and log lines.
pub open spec fn is_url_end(c: char) -> bool {
    crate::text::is_ws(c) || c == '"' || c == '\'' || c == '<' || c == '>' || c == '(' || c == ')'
        || c == ','
}

/// The first index at or after `i` holding a URL-ending character, or the length.
pub open spec fn span_end_from(s: Seq<char>, i: int) -> int
    decreases s.len() - i,
{
    if i < 0 || i >= s.len() {
        s.len() as int
    } else if is_url_end(s[i]) {
        i
    } else {
        span_end_from(s, i + 1)
    }
}

pub proof fn lemma_span_end_from(s: Seq<char>, i: int)
    requires
        0 <= i <= s.len(),
    ensures
        i <= span_end_from(s, i) <= s.len(),
        span_end_from(s, i) < s.len() ==> is_url_end(s[span_end_from(s, i)]),
        forall|m: int| i <= m < span_end_from(s, i) ==> !is_url_end(#[trigger] s[m]),
    decreases s.len() - i,
{
    if i < s.len() && !is_url_end(s[i]) {
        lemma_span_end_from(s, i + 1);
    }
}

pub proof fn lemma_url_start(s: Seq<char>)
    ensures
        url_start(s) matches Some(k) ==> 0 <= k && k + 7 <= s.len() && s[k] == 'h',
{
    reveal_strlit("http://");
    reveal_strlit("https://");
    lemma_find_from(s, "http://"@, 0);
    lemma_find_from(s, "https://"@, 0);
    if let Some(k) = url_start(s) {
        if find_from(s, "http://"@, 0) == Some(k) {
            assert(s.subrange(k, k + 7)[0] == s[k]);
        } else {
            assert(s.subrange(k, k + 8)[0] == s[k]);
        }
    }
}

/// How one URL span is logged: redacted when it parses, a placeholder otherwise.
pub open spec fn redact_span(span: Seq<char>) -> Seq<char> {
    match url_parse_view(span) {
        Ok(u) => redact_url_spec(u),
        Err(_) => "<redacted-url>"@,
    }
}

/// Free text with every `http://`/`https://` URL in it redacted; everything else is kept.
pub open spec fn redact_text_spec(s: Seq<char>) -> Seq<char>
    decreases s.len(),
{
    match url_start(s) {
        None => s,
        Some(k) => {
            let c = s.subrange(k, s.len() as int);
            let e = span_end_from(c, 0);
            proof {
                lemma_url_start(s);
                lemma_span_end_from(c, 0);
                assert(c[0] == s[k]);
            }
            s.subrange(0, k) + redact_span(c.subrange(0, e)) + redact_text_spec(
                c.subrange(e, c.len() as int),
            )
        },
    }
}

/// `v[a..b]` as a new vector.
pub fn sub_chars(v: &Vec<char>, a: usize, b: usize) -> (r: Vec<char>)
    requires
        a <= b <= v@.len(),
    ensures
        r@ == v@.subrange(a as int, b as int),
{
    let mut out: Vec<char> = Vec::new();
    let mut i = a;
    while i < b
        invariant
            a <= i <= b <= v@.len(),
            out@ == v@.subrange(a as int, i as int),
        decreases b - i,
    {
        out.push(v[i]);
        i = i + 1;
        assert(out@ =~= v@.subrange(a as int, i as int));
    }
    out
}

/// The first index at or after `from` where `p` occurs in `v`.
pub fn find_chars(v: &Vec<char>, from: usize, p: &str) -> (r: Option<usize>)
    requires
        from <= v@.len(),
    ensures
        match r {
            Some(i) => find_from(v@, p@, from as int) == Some(i as int),
            None => find_from(v@, p@, from as int) is None,
        },
{
    let pv = chars_of(p);
    let mut i = from;
    loop
        invariant
            from <= i <= v@.len(),
            pv@ == p@,
            find_from(v@, p@, i as int) == find_from(v@, p@, from as int),
        decreases v@.len() - i,
    {
        if pv.len() > v.len() - i {
            return None;
        }
        if crate::text::chars_start_with_at(v, i, p) {
            proof {
                assert(v@.subrange(i as int, v@.len() as int).subrange(0, p@.len() as int)
                    =~= v@.subrange(i as int, i + p@.len()));
            }
            return Some(i);
        }
        proof {
            assert(v@.subrange(i as int, v@.len() as int).subrange(0, p@.len() as int)
                =~= v@.subrange(i as int, i + p@.len()));
        }
        if i >= v.len() {
            return None;
        }
        i = i + 1;
    }
}

/// Where the first `http://` or `https://` in `text` begins.
pub fn find_url_start(text: &Vec<char>) -> (r: Option<usize>)
    ensures
        match r {
            Some(i) => url_start(text@) == Some(i as int),
            None => url_start(text@) is None,
        },
{
    let a = find_chars(text, 0, "http://");
    let b = find_chars(text, 0, "https://");
    match (a, b) {
        (Some(x), Some(y)) => Some(if x <= y { x } else { y }),
        (Some(x), None) => Some(x),
        (None, Some(y)) => Some(y),
        (None, None) => None,
    }
}

fn is_url_end_char(c: char) -> (r: bool)
    ensures
        r == is_url_end(c),
{
    crate::text::is_whitespace(c) || c == '"' || c == '\'' || c == '<' || c == '>' || c == '('
        || c == ')' || c == ','
}

/// Where a URL embedded at the start of `candidate` ends: the first whitespace or
/// surrounding punctuation, or the end of the text.
pub fn url_span_end(candidate: &Vec<char>) -> (r: usize)
    ensures
        r == span_end_from(candidate@, 0),
{
    let mut i: usize = 0;
    while i < candidate.len() && !is_url_end_char(candidate[i])
        invariant
            i <= candidate@.len(),
            span_end_from(candidate@, i as int) == span_end_from(candidate@, 0),
        decreases candidate@.len() - i,
    {
        i = i + 1;
    }
    i
}

/// No character of `p` ends a URL.
pub open spec fn free_of_url_ends(p: Seq<char>) -> bool {
    forall|j: int| 0 <= j < p.len() ==> !is_url_end(#[trigger] p[j])
}

proof fn lemma_schemes_hold_no_url_end()
    ensures
        free_of_url_ends("http://"@),
        free_of_url_ends("https://"@),
        "http://"@.len() == 7,
        "https://"@.len() == 8,
{
    reveal_strlit("http://");
    reveal_strlit("https://");
}

/// Where `p` can occur in `a + b` when `a` ends in a URL-ending character that `p` never
/// holds: inside `a`, or inside `b`, never across the seam.
proof fn lemma_occurs_across_seam(a: Seq<char>, b: Seq<char>, p: Seq<char>, i: int)
    requires
        p.len() > 0,
        free_of_url_ends(p),
        a.len() > 0,
        is_url_end(a.last()),
        0 <= i,
    ensures
        occurs_at(a + b, p, i) <==> (occurs_at(a, p, i) || (i >= a.len() && occurs_at(b, p, i - a.len()))),
{
    let n = a.len() as int;
    let m = p.len() as int;
    if i + m <= n {
        assert((a + b).subrange(i, i + m) =~= a.subrange(i, i + m));
    } else if i < n {
        if occurs_at(a + b, p, i) {
            assert((a + b).subrange(i, i + m)[n - 1 - i] == (a + b)[n - 1]);
            assert(p[n - 1 - i] == a.last());
        }
    } else if i + m <= n + b.len() {
        assert((a + b).subrange(i, i + m) =~= b.subrange(i - n, i - n + m));
    }
}

proof fn lemma_find_across_seam(a: Seq<char>, b: Seq<char>, p: Seq<char>)
    requires
        p.len() > 0,
        free_of_url_ends(p),
        a.len() > 0,
        is_url_end(a.last()),
    ensures
        find_from(a + b, p, 0) == match find_from(a, p, 0) {
            Some(i) => Some(i),
            None => match find_from(b, p, 0) {
                Some(j) => Some(j + a.len()),
                None => None,
            },
        },
        find_from(a, p, 0) matches Some(i) ==> i + p.len() <= a.len(),
{
    let n = a.len() as int;
    lemma_find_from(a + b, p, 0);
    lemma_find_from(a, p, 0);
    lemma_find_from(b, p, 0);
    let f = find_from(a + b, p, 0);
    match find_from(a, p, 0) {
        Some(i) => {
            lemma_occurs_across_seam(a, b, p, i);
            if let Some(j) = f {
                lemma_occurs_across_seam(a, b, p, j);
            }
        },
        None => match find_from(b, p, 0) {
            Some(j) => {
                lemma_occurs_across_seam(a, b, p, j + n);
                if let Some(m) = f {
                    lemma_occurs_across_seam(a, b, p, m);
                }
            },
            None => {
                if let Some(m) = f {
                    lemma_occurs_across_seam(a, b, p, m);
                }
            },
        },
    }
}

proof fn lemma_url_start_across_seam(a: Seq<char>, b: Seq<char>)
    requires
        a.len() > 0,
        is_url_end(a.last()),
    ensures
        url_start(a + b) == match url_start(a) {
            Some(k) => Some(k),
            None => match url_start(b) {
                Some(j) => Some(j + a.len()),
                None => None,
            },
        },
{
    lemma_schemes_hold_no_url_end();
    let h = "http://"@;
    let t = "https://"@;
    lemma_find_across_seam(a, b, h);
    lemma_find_across_seam(a, b, t);
    lemma_find_from(b, h, 0);
    lemma_find_from(b, t, 0);
    let n = a.len() as int;
    match (find_from(a, h, 0), find_from(a, t, 0)) {
        (Some(x), Some(y)) => {},
        (Some(x), None) => {
            assert(x < n);
            if let Some(y) = find_from(b, t, 0) {
                assert(find_from(a + b, t, 0) == Some(y + n));
            }
        },
        (None, Some(y)) => {
            assert(y < n);
            if let Some(x) = find_from(b, h, 0) {
                assert(find_from(a + b, h, 0) == Some(x + n));
            }
        },
        (None, None) => {},
    }
}

proof fn lemma_span_end_across_seam(c: Seq<char>, b: Seq<char>, i: int)
    requires
        0 <= i <= c.len(),
        span_end_from(c, i) < c.len(),
    ensures
        span_end_from(c + b, i) == span_end_from(c, i),
    decreases c.len() - i,
{
    if !is_url_end(c[i]) {
        lemma_span_end_across_seam(c, b, i + 1);
    }
}

/// Redaction only touches URLs: text that ends in a URL-ending character (a space, a
/// comma, a bracket or a quote) is redacted on its own, so whatever follows it is
/// redacted on its own too, and nothing of either is lost or moved.
pub proof fn law_redaction_works_piece_by_piece(a: Seq<char>, b: Seq<char>)
    requires
        a.len() > 0,
        is_url_end(a.last()),
    ensures
        redact_text_spec(a + b) == redact_text_spec(a) + redact_text_spec(b),
    decreases a.len(),
{
    let s = a + b;
    lemma_url_start_across_seam(a, b);
    lemma_url_start(a);
    lemma_url_start(b);
    lemma_url_start(s);
    reveal_strlit("http://");
    match url_start(a) {
        Some(k) => {
            let ca = a.subrange(k, a.len() as int);
            let e = span_end_from(ca, 0);
            lemma_span_end_from(ca, 0);
            assert(ca[0] == a[k]);
            assert(ca[ca.len() - 1] == a.last());
            let c = s.subrange(k, s.len() as int);
            assert(c =~= ca + b);
            lemma_span_end_across_seam(ca, b, 0);
            let ra = ca.subrange(e, ca.len() as int);
            assert(c.subrange(0, e) =~= ca.subrange(0, e));
            assert(c.subrange(e, c.len() as int) =~= ra + b);
            assert(ra.last() == a.last());
            law_redaction_works_piece_by_piece(ra, b);
            assert(s.subrange(0, k) =~= a.subrange(0, k));
            assert(redact_text_spec(s) == s.subrange(0, k) + redact_span(c.subrange(0, e)) + redact_text_spec(
                c.subrange(e, c.len() as int),
            ));
            assert(redact_text_spec(a) == a.subrange(0, k) + redact_span(ca.subrange(0, e)) + redact_text_spec(ra));
            assert(redact_text_spec(s) =~= redact_text_spec(a) + redact_text_spec(b));
        },
        None => {
            assert(redact_text_spec(a) == a);
            match url_start(b) {
                None => {
                    assert(redact_text_spec(s) == s);
                },
                Some(j) => {
                    let k = j + a.len();
                    let c = s.subrange(k, s.len() as int);
                    let cb = b.subrange(j, b.len() as int);
                    assert(c =~= cb);
                    assert(s.subrange(0, k) =~= a + b.subrange(0, j));
                    let e = span_end_from(c, 0);
                    assert(redact_text_spec(s) == s.subrange(0, k) + redact_span(c.subrange(0, e)) + redact_text_spec(
                        c.subrange(e, c.len() as int),
                    ));
                    assert(redact_text_spec(b) == b.subrange(0, j) + redact_span(cb.subrange(0, e)) + redact_text_spec(
                        cb.subrange(e, cb.len() as int),
                    ));
                    assert(redact_text_spec(s) =~= a + redact_text_spec(b));
                },
            }
        },
    }
}

fn push_redacted_span(out: &mut Vec<char>, span: &Vec<char>)
    ensures
        final(out)@ == old(out)@ + redact_span(span@),
{
    let text = string_from_chars(span.as_slice());
    match url_parse(text.as_str()) {
        Ok(url) => push_url_redacted(out, &url),
        Err(_) => push_str(out, "<redacted-url>"),
    }
}

fn push_redacted_text(out: &mut Vec<char>, s: &Vec<char>)
    ensures
        final(out)@ == old(out)@ + redact_text_spec(s@),
    decreases s@.len(),
{
    match find_url_start(s) {
        None => {
            let mut rest = sub_chars(s, 0, s.len());
            assert(rest@ =~= s@);
            out.append(&mut rest);
        },
        Some(k) => {
            proof {
                lemma_url_start(s@);
            }
            let ghost start = out@;
            let mut before = sub_chars(s, 0, k);
            out.append(&mut before);
            let c = sub_chars(s, k, s.len());
            let e = url_span_end(&c);
            proof {
                lemma_span_end_from(c@, 0);
                assert(c@[0] == s@[k as int]);
            }
            let span = sub_chars(&c, 0, e);
            push_redacted_span(out, &span);
            let rest = sub_chars(&c, e, c.len());
            push_redacted_text(out, &rest);
            assert(out@ =~= start + redact_text_spec(s@));
        },
    }
}

/// Redacts every `http://`/`https://` URL found anywhere inside free text: a span that
/// parses is logged as [`redact_url`] gives it, anything else as a fixed placeholder.
/// Error text from the transport embeds request URLs as text, so every message that may
/// mention one goes through this.
pub fn redact_text(input: &str) -> (r: String)
    ensures
        r@ == redact_text_spec(input@),
{
    let v = chars_of(input);
    let mut out: Vec<char> = Vec::new();
    push_redacted_text(&mut out, &v);
    assert(out@ =~= redact_text_spec(input@));
    string_from_chars(out.as_slice())
}

/// Redacting text that holds no URL leaves it as it is.
pub proof fn law_text_without_urls_is_unchanged(s: Seq<char>)
    requires
        url_start(s) is None,
    ensures
        redact_text_spec(s) == s,
{
}

// ---------------------------------------------------------------------------------------
// Diagnostics
// ---------------------------------------------------------------------------------------

/// `s` with every non-overlapping occurrence of `pat`, left to right, replaced by `rep`,
/// as `str::replace` does for a non-empty pattern.
pub open spec fn replace_all(s: Seq<char>, pat: Seq<char>, rep: Seq<char>) -> Seq<char>
    decreases s.len(),
{
    if pat.len() == 0 {
        s
    } else {
        match find_from(s, pat, 0) {
            None => s,
            Some(i) => {
                proof {
                    lemma_find_from(s, pat, 0);
                }
                s.subrange(0, i) + rep + replace_all(s.subrange(i + pat.len(), s.len() as int), pat, rep)
            },
        }
    }
}

fn push_replaced(out: &mut Vec<char>, s: &Vec<char>, pat: &str, rep: &str)
    requires
        pat@.len() > 0,
    ensures
        final(out)@ == old(out)@ + replace_all(s@, pat@, rep@),
    decreases s@.len(),
{
    match find_chars(s, 0, pat) {
        None => {
            let mut rest = sub_chars(s, 0, s.len());
            assert(rest@ =~= s@);
            out.append(&mut rest);
        },
        Some(i) => {
            proof {
                lemma_find_from(s@, pat@, 0);
            }
            let ghost start = out@;
            let mut before = sub_chars(s, 0, i);
            out.append(&mut before);
            push_str(out, rep);
            let n = pat.unicode_len();
            assert(occurs_at(s@, pat@, i as int));
            assert(n == pat@.len());
            let total = s.len();
            assert(i + n <= total);
            let rest = sub_chars(s, i + n, total);
            push_replaced(out, &rest, pat, rep);
            assert(out@ =~= start + replace_all(s@, pat@, rep@));
        },
    }
}

/// Whether a request header carries the API key.
pub open spec fn is_key_header(name: Seq<char>, value: Seq<char>) -> bool {
    crate::text::lower_ascii_all(name) == crate::text::lower_ascii_all("x-api-key"@)
        && value.len() > 0
}

/// `text` with the value of every API-key request header replaced by `[redacted]`.
pub open spec fn scrub_keys(text: Seq<char>, headers: Seq<(&str, &str)>) -> Seq<char>
    decreases headers.len(),
{
    if headers.len() == 0 {
        text
    } else {
        let h = headers.last();
        let t = scrub_keys(text, headers.drop_last());
        if is_key_header(h.0@, h.1@) {
            replace_all(t, h.1@, "[redacted]"@)
        } else {
            t
        }
    }
}

/// Longest diagnostic text, in characters.
pub const DIAGNOSTIC_MAX_CHARS: usize = 512;

/// `s` cut to at most `n` characters with every control character made a space.
pub open spec fn bounded_plain(s: Seq<char>, n: int) -> Seq<char> {
    let t = if s.len() <= n { s } else { s.subrange(0, n) };
    Seq::new(t.len(), |i: int| if crate::text::is_control(t[i]) { ' ' } else { t[i] })
}

/// Diagnostic text as it may be logged.
pub open spec fn diagnostic_spec(text: Seq<char>, headers: Seq<(&str, &str)>) -> Seq<char> {
    bounded_plain(redact_text_spec(scrub_keys(text, headers)), DIAGNOSTIC_MAX_CHARS as int)
}

/// Makes server-supplied text safe to log: the request's API key is replaced wherever it
/// is echoed, URLs are redacted, the result is cut to 512 characters, and control
/// characters become spaces, so the text can neither leak the key nor forge log lines.
pub fn diagnostic_text(text: &str, request_headers: &[(&str, &str)]) -> (r: String)
    ensures
        r@ == diagnostic_spec(text@, request_headers@),
        r@.len() <= DIAGNOSTIC_MAX_CHARS,
        forall|i: int| 0 <= i < r@.len() ==> !crate::text::is_control(#[trigger] r@[i]),
{
    let mut safe = chars_of(text);
    let mut k: usize = 0;
    while k < request_headers.len()
        invariant
            k <= request_headers@.len(),
            safe@ == scrub_keys(text@, request_headers@.subrange(0, k as int)),
        decreases request_headers@.len() - k,
    {
        let (name, value) = request_headers[k];
        proof {
            let pre = request_headers@.subrange(0, k as int + 1);
            assert(pre.drop_last() =~= request_headers@.subrange(0, k as int));
            assert(pre.last() == request_headers@[k as int]);
        }
        if crate::text::eq_ignore_ascii_case(name, "x-api-key") && !value.is_empty() {
            let mut next: Vec<char> = Vec::new();
            push_replaced(&mut next, &safe, value, "[redacted]");
            safe = next;
        }
        k = k + 1;
    }
    assert(request_headers@.subrange(0, k as int) =~= request_headers@);
    let mut redacted: Vec<char> = Vec::new();
    push_redacted_text(&mut redacted, &safe);
    let ghost full = redacted@;
    let n = if redacted.len() <= DIAGNOSTIC_MAX_CHARS { redacted.len() } else { DIAGNOSTIC_MAX_CHARS };
    let mut out: Vec<char> = Vec::new();
    let mut i: usize = 0;
    while i < n
        invariant
            n <= redacted@.len(),
            redacted@ == full,
            n == (if full.len() <= DIAGNOSTIC_MAX_CHARS { full.len() as int } else { DIAGNOSTIC_MAX_CHARS as int }),
            i <= n,
            out@.len() == i,
            forall|j: int| 0 <= j < i ==> out@[j] == (if crate::text::is_control(full[j]) { ' ' } else { full[j] }),
        decreases n - i,
    {
        let c = redacted[i];
        out.push(if crate::text::is_control_char(c) { ' ' } else { c });
        i = i + 1;
    }
    assert(out@ =~= diagnostic_spec(text@, request_headers@));
    string_from_chars(out.as_slice())
}

/// The response headers worth logging for a failing request: request identity, caching
/// and rate-limit fields. Cookies, authorisation and whole header maps never are.
pub open spec fn diagnostic_header_names() -> Seq<Seq<char>> {
    seq![
        "cf-ray"@, "server"@, "date"@, "content-type"@, "content-length"@, "content-encoding"@,
        "cf-cache-status"@, "age"@, "retry-after"@, "ratelimit-limit"@, "ratelimit-remaining"@,
        "ratelimit-reset"@, "x-ratelimit-limit"@, "x-ratelimit-remaining"@, "x-ratelimit-reset"@,
        "cf-error-type"@, "cf-error-origin"@,
    ]
}

/// The first value recorded under `name`: `None` when the name is absent, `Some(None)`
/// when its first value is not visible ASCII text.
pub open spec fn first_header(headers: Seq<(String, Option<String>)>, name: Seq<char>) -> Option<Option<Seq<char>>>
    decreases headers.len(),
{
    if headers.len() == 0 {
        None
    } else if headers[0].0@ == name {
        Some(opt_view(headers[0].1))
    } else {
        first_header(headers.drop_first(), name)
    }
}

/// The `name=value` entries logged for the first `n` allowlisted names.
pub open spec fn header_entries(headers: Seq<(String, Option<String>)>, request: Seq<(&str, &str)>, n: int) -> Seq<Seq<char>>
    decreases n,
{
    if n <= 0 {
        Seq::empty()
    } else {
        let before = header_entries(headers, request, n - 1);
        let name = diagnostic_header_names()[n - 1];
        match first_header(headers, name) {
            Some(Some(v)) => before.push(name + "="@ + diagnostic_spec(v, request)),
            _ => before,
        }
    }
}

/// `parts` joined with `sep` between them.
pub open spec fn join(parts: Seq<Seq<char>>, sep: Seq<char>) -> Seq<char>
    decreases parts.len(),
{
    if parts.len() == 0 {
        Seq::empty()
    } else if parts.len() == 1 {
        parts[0]
    } else {
        join(parts.drop_last(), sep) + sep + parts.last()
    }
}

fn find_header(headers: &[(String, Option<String>)], name: &str) -> (r: Option<Option<String>>)
    ensures
        match r {
            None => first_header(headers@, name@) is None,
            Some(v) => first_header(headers@, name@) == Some(opt_view(v)),
        },
{
    let mut i: usize = 0;
    assert(headers@.subrange(0, headers@.len() as int) =~= headers@);
    while i < headers.len()
        invariant
            i <= headers@.len(),
            first_header(headers@.subrange(i as int, headers@.len() as int), name@) == first_header(headers@, name@),
        decreases headers@.len() - i,
    {
        proof {
            let tail = headers@.subrange(i as int, headers@.len() as int);
            assert(tail[0] == headers@[i as int]);
            assert(tail.drop_first() =~= headers@.subrange(i as int + 1, headers@.len() as int));
        }
        if str_eq(headers[i].0.as_str(), name) {
            return Some(headers[i].1.clone());
        }
        i = i + 1;
    }
    None
}

/// The allowlisted response headers of a failing request, each value made safe with
/// [`diagnostic_text`], joined with `; `. `headers` lists the response's header names
/// (lowercase) with each value's text, or `None` where a value is not visible ASCII.
pub fn stellar_response_headers(headers: &[(String, Option<String>)], request_headers: &[(&str, &str)]) -> (r: String)
    ensures
        r@ == join(header_entries(headers@, request_headers@, 17), "; "@),
{
    let names: Vec<&str> = vec![
        "cf-ray", "server", "date", "content-type", "content-length", "content-encoding",
        "cf-cache-status", "age", "retry-after", "ratelimit-limit", "ratelimit-remaining",
        "ratelimit-reset", "x-ratelimit-limit", "x-ratelimit-remaining", "x-ratelimit-reset",
        "cf-error-type", "cf-error-origin",
    ];
    assert(names@.len() == 17);
    assert forall|j: int| 0 <= j < 17 implies #[trigger] names@[j]@ == diagnostic_header_names()[j] by {}
    let mut out: Vec<char> = Vec::new();
    let mut count: usize = 0;
    let mut i: usize = 0;
    while i < names.len()
        invariant
            i <= 17,
            names@.len() == 17,
            forall|j: int| 0 <= j < 17 ==> #[trigger] names@[j]@ == diagnostic_header_names()[j],
            count == header_entries(headers@, request_headers@, i as int).len(),
            count <= i,
            out@ == join(header_entries(headers@, request_headers@, i as int), "; "@),
        decreases 17 - i,
    {
        let name = names[i];
        match find_header(headers, name) {
            Some(Some(value)) => {
                let safe = diagnostic_text(value.as_str(), request_headers);
                if count > 0 {
                    push_str(&mut out, "; ");
                }
                push_str(&mut out, name);
                push_str(&mut out, "=");
                push_string(&mut out, &safe);
                count = count + 1;
                proof {
                    let e = header_entries(headers@, request_headers@, i as int + 1);
                    let prev = header_entries(headers@, request_headers@, i as int);
                    assert(e == prev.push(name@ + "="@ + diagnostic_spec(value@, request_headers@)));
                    assert(e.drop_last() =~= prev);
                    if prev.len() == 0 {
                        assert(out@ =~= join(e, "; "@));
                    } else {
                        assert(out@ =~= join(e, "; "@));
                    }
                }
            },
            _ => {},
        }
        i = i + 1;
    }
    string_from_chars(out.as_slice())
}

// ---------------------------------------------------------------------------------------
// Bodies
// ---------------------------------------------------------------------------------------

/// A declared `Content-Length` already over the bound refuses the body before it is read.
pub fn declared_length_exceeds(content_length: Option<u64>, max_bytes: usize) -> (r: bool)
    ensures
        r == (content_length matches Some(n) && n > max_bytes),
{
    match content_length {
        Some(n) => n > max_bytes as u64,
        None => false,
    }
}

/// Whether appending a chunk of `chunk_len` bytes to `buffered` bytes would pass the
/// bound. Checked before the body grows, so it never holds more than the bound, even
/// for a moment.
pub fn chunk_exceeds(buffered: usize, chunk_len: usize, max_bytes: usize) -> (r: bool)
    ensures
        r == ((if buffered + chunk_len > usize::MAX { usize::MAX as int } else { buffered + chunk_len }) > max_bytes),
{
    buffered.saturating_add(chunk_len) > max_bytes
}

/// At most this many bytes of an error body are read for its reason.
pub const MAX_DETAIL_BYTES: usize = 512;

/// What `serde_json` finds under `key` when `text` parses as a JSON object whose `key`
/// holds a string; `None` otherwise.
pub uninterp spec fn json_string_field_view(text: Seq<char>, key: Seq<char>) -> Option<Seq<char>>;

/// Parses `text` with `serde_json::from_str` as a `Value` and reads `key` as a string.
#[verifier::external_body]
fn json_string_field(text: &str, key: &str) -> (r: Option<String>)
    ensures
        opt_view(r) == json_string_field_view(text@, key@),
{
    serde_json::from_str::<serde_json::Value>(text)
        .ok()
        .and_then(|value| value.get(key)?.as_str().map(str::to_string))
}

/// The first of the `error`, `message` and `detail` string fields of a JSON body.
pub open spec fn json_reason(text: Seq<char>) -> Option<Seq<char>> {
    match json_string_field_view(text, "error"@) {
        Some(m) => Some(m),
        None => match json_string_field_view(text, "message"@) {
            Some(m) => Some(m),
            None => json_string_field_view(text, "detail"@),
        },
    }
}

/// The reason an error body gives, as the user sees it: the body's first 512 bytes
/// decoded leniently and trimmed; a JSON `error`/`message`/`detail` string if there is
/// one, else the first 200 characters; then trimmed again and redacted. `None` when
/// nothing is left.
pub open spec fn error_detail_spec(body: Seq<u8>) -> Option<Seq<char>> {
    let head = if body.len() <= MAX_DETAIL_BYTES { body } else { body.subrange(0, MAX_DETAIL_BYTES as int) };
    let text = crate::text::trim(crate::detect::utf8_lossy_view(head));
    if text.len() == 0 {
        None
    } else {
        let message = match json_reason(text) {
            Some(m) => m,
            None => if text.len() <= 200 { text } else { text.subrange(0, 200) },
        };
        let out = redact_text_spec(crate::text::trim(message));
        if out.len() == 0 {
            None
        } else {
            Some(out)
        }
    }
}

/// Extracts a short, human-readable reason from an error response body; see
/// [`error_detail_spec`].
pub fn error_detail(body: &[u8]) -> (r: Option<String>)
    ensures
        opt_view(r) == error_detail_spec(body@),
{
    let n = if body.len() <= MAX_DETAIL_BYTES { body.len() } else { MAX_DETAIL_BYTES };
    let head = &body[0..n];
    assert(head@ =~= (if body@.len() <= MAX_DETAIL_BYTES { body@ } else { body@.subrange(0, MAX_DETAIL_BYTES as int) }));
    let decoded = chars_of(crate::detect::utf8_lossy(head).as_str());
    let (a, b) = crate::text::trim_bounds(&decoded, 0, decoded.len());
    assert(decoded@.subrange(0, decoded@.len() as int) =~= decoded@);
    let text_chars = sub_chars(&decoded, a, b);
    let ghost head_v = if body@.len() <= MAX_DETAIL_BYTES { body@ } else { body@.subrange(0, MAX_DETAIL_BYTES as int) };
    assert(text_chars@ == crate::text::trim(crate::detect::utf8_lossy_view(head_v)));
    if text_chars.len() == 0 {
        return None;
    }
    let text = string_from_chars(text_chars.as_slice());
    let reason = match json_string_field(text.as_str(), "error") {
        Some(m) => Some(m),
        None => match json_string_field(text.as_str(), "message") {
            Some(m) => Some(m),
            None => json_string_field(text.as_str(), "detail"),
        },
    };
    let message_chars = match reason {
        Some(m) => chars_of(m.as_str()),
        None => {
            let k = if text_chars.len() <= 200 { text_chars.len() } else { 200 };
            sub_chars(&text_chars, 0, k)
        },
    };
    let (c, d) = crate::text::trim_bounds(&message_chars, 0, message_chars.len());
    assert(message_chars@.subrange(0, message_chars@.len() as int) =~= message_chars@);
    let trimmed = sub_chars(&message_chars, c, d);
    assert(text@ == text_chars@);
    assert(message_chars@ == (match json_reason(text@) {
        Some(m) => m,
        None => if text@.len() <= 200 { text@ } else { text@.subrange(0, 200) },
    }));
    assert(trimmed@ == crate::text::trim(message_chars@));
    let mut out: Vec<char> = Vec::new();
    push_redacted_text(&mut out, &trimmed);
    assert(out@ =~= redact_text_spec(trimmed@));
    if out.len() == 0 {
        None
    } else {
        Some(string_from_chars(out.as_slice()))
    }
}

// ---------------------------------------------------------------------------------------
// Configuration
// ---------------------------------------------------------------------------------------

/// Tunable policy values for every traffic profile, times in milliseconds.
#[derive(Debug, Clone)]
pub struct NetworkServiceConfig {
    pub json_api_timeout_ms: u64,
    pub json_api_max_body_bytes: usize,
    pub artwork_timeout_ms: u64,
    pub artwork_max_body_bytes: usize,
    /// Bounds only the TCP/TLS connect phase: a live stream has no total timeout.
    pub continuous_ts_connect_timeout_ms: u64,
    /// Bounds the wait for response headers once connected.
    pub continuous_ts_response_timeout_ms: u64,
    /// Longest gap allowed between two chunks of a continuous stream.
    pub continuous_ts_stall_timeout_ms: u64,
    pub hls_playlist_timeout_ms: u64,
    pub hls_playlist_max_body_bytes: usize,
    pub hls_segment_timeout_ms: u64,
    pub hls_segment_max_body_bytes: usize,
    /// Caps concurrent in-flight segment fetches.
    pub hls_segment_max_concurrency: usize,
}

impl Default for NetworkServiceConfig {
    fn default() -> (r: Self)
        ensures
            r.json_api_timeout_ms == 10_000,
            r.json_api_max_body_bytes == 2 * 1024 * 1024,
            r.artwork_timeout_ms == 15_000,
            r.artwork_max_body_bytes == 3 * 1024 * 1024,
            r.continuous_ts_connect_timeout_ms == 20_000,
            r.continuous_ts_response_timeout_ms == 20_000,
            r.continuous_ts_stall_timeout_ms == 15_000,
            r.hls_playlist_timeout_ms == 10_000,
            r.hls_playlist_max_body_bytes == 512 * 1024,
            r.hls_segment_timeout_ms == 20_000,
            r.hls_segment_max_body_bytes == 4 * 1024 * 1024,
            r.hls_segment_max_concurrency == 4,
    {
        NetworkServiceConfig {
            json_api_timeout_ms: 10_000,
            json_api_max_body_bytes: 2 * 1024 * 1024,
            artwork_timeout_ms: 15_000,
            artwork_max_body_bytes: 3 * 1024 * 1024,
            continuous_ts_connect_timeout_ms: 20_000,
            continuous_ts_response_timeout_ms: 20_000,
            continuous_ts_stall_timeout_ms: 15_000,
            hls_playlist_timeout_ms: 10_000,
            hls_playlist_max_body_bytes: 512 * 1024,
            hls_segment_timeout_ms: 20_000,
            hls_segment_max_body_bytes: 4 * 1024 * 1024,
            hls_segment_max_concurrency: 4,
        }
    }
}

impl NetworkServiceConfig {
    /// Segment fetch permits: the configured cap, but never zero, which would deadlock.
    pub fn segment_permits(&self) -> (r: usize)
        ensures
            r == if self.hls_segment_max_concurrency == 0 { 1 } else { self.hls_segment_max_concurrency },
    {
        if self.hls_segment_max_concurrency == 0 { 1 } else { self.hls_segment_max_concurrency }
    }
}

} // verus!
