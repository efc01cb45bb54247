//! StellarTunerLog requests: the history URL, the request headers, and the messages a
//! failure is shown as.
//!
//! The endpoints differ in authentication on purpose: now-playing and channels are
//! keyless, history needs an API key. The key travels in a header, never in a URL, and
//! failures are shown as fixed texts rather than formatted from transport errors.
use vstd::prelude::*;
use vstd::string::StringSliceAdditionalSpecFns;
use crate::network::NetworkError;
use crate::text::{decimal, has_prefix, is_pct_safe, lemma_pct_encode_is_safe, pct_encode, push_decimal, push_pct_encoded, push_str, push_string, string_from_chars};

verus! {

pub const NOWPLAYING_URL: &'static str = "https://api.stellartunerlog.com/v1/nowplaying";
pub const CHANNELS_URL: &'static str = "https://api.stellartunerlog.com/v1/channels";
pub const HISTORY_BASE: &'static str = "https://api.stellartunerlog.com/v1/history/";

/// The history URL of a channel: the base followed by the `%`-encoded channel id, or the
/// refusal of an empty id.
pub open spec fn history_url_spec(channel_id: Seq<char>) -> Result<Seq<char>, Seq<char>> {
    if channel_id.len() == 0 {
        Err("StellarTunerLog /history needs a channel id"@)
    } else {
        Ok(HISTORY_BASE@ + pct_encode(vstd::utf8::encode_utf8(channel_id)))
    }
}

/// Builds the history URL, escaping the channel id so it cannot leave its path segment.
pub fn history_url(channel_id: &str) -> (r: Result<String, String>)
    ensures
        match history_url_spec(channel_id@) {
            Ok(u) => r matches Ok(s) && s@ == u,
            Err(e) => r matches Err(s) && s@ == e,
        },
{
    if channel_id.is_empty() {
        return Err(String::from_str("StellarTunerLog /history needs a channel id"));
    }
    let mut out: Vec<char> = Vec::new();
    push_str(&mut out, HISTORY_BASE);
    push_pct_encoded(&mut out, channel_id);
    assert(out@ =~= HISTORY_BASE@ + pct_encode(channel_id.spec_bytes()));
    Ok(string_from_chars(out.as_slice()))
}

/// A history URL stays under the history base, and what follows the base holds no `/`,
/// `?` or `#`: a channel id can neither traverse out of its segment nor add a query or
/// a fragment.
pub proof fn law_channel_ids_stay_in_their_segment(channel_id: Seq<char>)
    ensures
        history_url_spec(channel_id) matches Ok(u) ==> has_prefix(u, HISTORY_BASE@) && forall|i: int|
            HISTORY_BASE@.len() <= i < u.len() ==> {
                let c = #[trigger] u[i];
                c != '/' && c != '?' && c != '#'
            },
{
    let bytes = vstd::utf8::encode_utf8(channel_id);
    lemma_pct_encode_is_safe(bytes);
    if channel_id.len() > 0 {
        let u = HISTORY_BASE@ + pct_encode(bytes);
        assert(u.subrange(0, HISTORY_BASE@.len() as int) =~= HISTORY_BASE@);
        assert forall|i: int| HISTORY_BASE@.len() <= i < u.len() implies {
            let c = #[trigger] u[i];
            c != '/' && c != '?' && c != '#'
        } by {
            assert(u[i] == pct_encode(bytes)[i - HISTORY_BASE@.len()]);
        }
    }
}

/// The message a failed request to `endpoint` is shown as. A status keeps its code,
/// since 401 and 500 ask different things of the user; nothing else is formatted from
/// the error, so no URL or key can appear.
pub open spec fn describe_spec(endpoint: Seq<char>, error: NetworkError) -> Seq<char> {
    let lead = "StellarTunerLog "@ + endpoint;
    match error {
        NetworkError::Status { status, detail } => match detail {
            Some(d) => lead + " failed: "@ + d@ + " (HTTP "@ + decimal(status as nat) + ")"@,
            None => lead + " failed: HTTP "@ + decimal(status as nat),
        },
        NetworkError::Cancelled => lead + " was cancelled"@,
        NetworkError::BodyTooLarge { .. } => lead + " failed: response was unexpectedly large"@,
        _ => lead + " failed: could not reach the server"@,
    }
}

pub fn describe(endpoint: &str, error: &NetworkError) -> (r: String)
    ensures
        r@ == describe_spec(endpoint@, *error),
{
    let mut out: Vec<char> = Vec::new();
    push_str(&mut out, "StellarTunerLog ");
    push_str(&mut out, endpoint);
    match error {
        NetworkError::Status { status, detail } => match detail {
            Some(d) => {
                push_str(&mut out, " failed: ");
                push_string(&mut out, d);
                push_str(&mut out, " (HTTP ");
                push_decimal(&mut out, *status as u64);
                push_str(&mut out, ")");
            },
            None => {
                push_str(&mut out, " failed: HTTP ");
                push_decimal(&mut out, *status as u64);
            },
        },
        NetworkError::Cancelled => push_str(&mut out, " was cancelled"),
        NetworkError::BodyTooLarge { .. } => push_str(&mut out, " failed: response was unexpectedly large"),
        _ => push_str(&mut out, " failed: could not reach the server"),
    }
    assert(out@ =~= describe_spec(endpoint@, *error));
    string_from_chars(out.as_slice())
}

/// The request headers for an optional API key: the key header when a non-empty key is
/// given, none otherwise.
pub fn key_headers<'a>(api_key: Option<&'a str>) -> (r: Vec<(&'static str, &'a str)>)
    ensures
        match api_key {
            Some(k) => if k@.len() > 0 {
                r@.len() == 1 && r@[0].0@ == "X-API-Key"@ && r@[0].1 == k
            } else {
                r@.len() == 0
            },
            None => r@.len() == 0,
        },
{
    let mut headers: Vec<(&'static str, &'a str)> = Vec::new();
    match api_key {
        Some(key) => {
            if !key.is_empty() {
                headers.push(("X-API-Key", key));
            }
        },
        None => {},
    }
    headers
}

/// The message for a body that is not JSON.
pub fn invalid_json_message(endpoint: &str) -> (r: String)
    ensures
        r@ == "StellarTunerLog "@ + endpoint@ + " returned invalid JSON"@,
{
    let mut out: Vec<char> = Vec::new();
    push_str(&mut out, "StellarTunerLog ");
    push_str(&mut out, endpoint);
    push_str(&mut out, " returned invalid JSON");
    string_from_chars(out.as_slice())
}

} // verus!
