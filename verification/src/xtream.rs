//! Xtream Codes `player_api.php` requests: the API URL and the messages a failure is
//! shown as.
//!
//! Credentials travel in query parameters here, unlike stream URLs where they are path
//! segments, so they are query-escaped by `url`, and no failure message is ever built
//! from a URL.
use vstd::prelude::*;
use crate::network::NetworkError;
use crate::text::{decimal, push_decimal, push_str, push_string, string_from_chars, trim_end_char, trim_end_matches_char};

verus! {

/// What the frontend sends to reach an Xtream server.
#[derive(Debug, Clone)]
pub struct XtreamCredentials {
    pub base_url: String,
    pub username: String,
    pub password: String,
}

/// Query parameters as text.
pub open spec fn pairs_view(pairs: Seq<(&str, &str)>) -> Seq<(Seq<char>, Seq<char>)> {
    Seq::new(pairs.len(), |i: int| (pairs[i].0@, pairs[i].1@))
}

/// What `url::Url::parse(base)` gives once the pairs are appended to its query with
/// `query_pairs_mut().extend_pairs`, serialised; `None` when `base` does not parse.
pub uninterp spec fn url_with_query_view(base: Seq<char>, pairs: Seq<(Seq<char>, Seq<char>)>) -> Option<Seq<char>>;

/// Parses `base` with `url::Url::parse`, appends `pairs` form-urlencoded to its query, and
/// serialises the result.
#[verifier::external_body]
fn url_with_query(base: &str, pairs: &[(&str, &str)]) -> (r: Option<String>)
    ensures
        crate::network::opt_view(r) == url_with_query_view(base@, pairs_view(pairs@)),
{
    let mut url = url::Url::parse(base).ok()?;
    url.query_pairs_mut().extend_pairs(pairs.iter());
    Some(url.to_string())
}

/// The API address: the base without trailing slashes, then `/player_api.php`.
pub open spec fn api_base(base_url: Seq<char>) -> Seq<char> {
    trim_end_char(base_url, '/') + "/player_api.php"@
}

/// The query of an API call: credentials and action first, then the extra parameters.
pub open spec fn api_pairs(c: XtreamCredentials, action: Seq<char>, extra: Seq<(Seq<char>, Seq<char>)>) -> Seq<(Seq<char>, Seq<char>)> {
    seq![("username"@, c.username@), ("password"@, c.password@), ("action"@, action)] + extra
}

impl XtreamCredentials {
    /// The URL of one API call, or a message that does not echo the credentials when the
    /// server address is not a URL.
    pub fn player_api_url(&self, action: &str, extra: &[(&str, &str)]) -> (r: Result<String, String>)
        ensures
            match url_with_query_view(api_base(self.base_url@), api_pairs(*self, action@, pairs_view(extra@))) {
                Some(u) => r matches Ok(s) && s@ == u,
                None => r matches Err(e) && e@ == "the Xtream server address is not a valid URL"@,
            },
    {
        let mut base = trim_end_matches_char(self.base_url.as_str(), '/');
        push_str(&mut base, "/player_api.php");
        let base_text = string_from_chars(base.as_slice());
        let mut pairs: Vec<(&str, &str)> = Vec::new();
        pairs.push(("username", self.username.as_str()));
        pairs.push(("password", self.password.as_str()));
        pairs.push(("action", action));
        let mut i: usize = 0;
        while i < extra.len()
            invariant
                i <= extra@.len(),
                pairs@.len() == 3 + i,
                pairs_view(pairs@) == api_pairs(*self, action@, pairs_view(extra@.subrange(0, i as int))),
            decreases extra@.len() - i,
        {
            let ghost before = pairs@;
            pairs.push(extra[i]);
            proof {
                let want = api_pairs(*self, action@, pairs_view(extra@.subrange(0, i as int + 1)));
                let had = api_pairs(*self, action@, pairs_view(extra@.subrange(0, i as int)));
                assert forall|k: int| 0 <= k < pairs@.len() implies pairs_view(pairs@)[k] == want[k] by {
                    if k < before.len() {
                        assert(pairs@[k] == before[k]);
                        assert(pairs_view(before)[k] == had[k]);
                    } else {
                        assert(pairs@[k] == extra@[i as int]);
                    }
                }
                assert(pairs_view(pairs@) =~= want);
            }
            i = i + 1;
        }
        assert(extra@.subrange(0, i as int) =~= extra@);
        match url_with_query(base_text.as_str(), pairs.as_slice()) {
            Some(url) => Ok(url),
            None => Err(String::from_str("the Xtream server address is not a valid URL")),
        }
    }
}

/// The message a failed `action` is shown as. A status keeps its code because it is
/// actionable; nothing else is formatted from the error, whose text could hold the URL
/// and with it the credentials.
pub open spec fn describe_spec(action: Seq<char>, error: NetworkError) -> Seq<char> {
    match error {
        NetworkError::Status { status, detail } => match detail {
            Some(d) => action + " failed: "@ + d@ + " (HTTP "@ + decimal(status as nat) + ")"@,
            None => action + " failed: HTTP "@ + decimal(status as nat),
        },
        NetworkError::Cancelled => action + " was cancelled"@,
        NetworkError::BodyTooLarge { .. } => action
            + " failed: the server sent an unexpectedly large response"@,
        _ => action + " failed: could not reach the Xtream server"@,
    }
}

pub fn describe(action: &str, error: &NetworkError) -> (r: String)
    ensures
        r@ == describe_spec(action@, *error),
{
    let mut out: Vec<char> = Vec::new();
    push_str(&mut out, action);
    match error {
        NetworkError::Status { status, detail } => match detail {
            Some(d) => {
                push_str(&mut out, " failed: ");
                push_string(&mut out, d);
                push_str(&mut out, " (HTTP ");
                push_decimal(&mut out, *status as u64);
                push_str(&mut out, ")");
            },
            None => {
                push_str(&mut out, " failed: HTTP ");
                push_decimal(&mut out, *status as u64);
            },
        },
        NetworkError::Cancelled => push_str(&mut out, " was cancelled"),
        NetworkError::BodyTooLarge { .. } => push_str(&mut out, " failed: the server sent an unexpectedly large response"),
        _ => push_str(&mut out, " failed: could not reach the Xtream server"),
    }
    assert(out@ =~= describe_spec(action@, *error));
    string_from_chars(out.as_slice())
}

/// The message for a body that is not JSON.
pub fn invalid_json_message(action: &str) -> (r: String)
    ensures
        r@ == action@ + " failed: the server did not return valid JSON (is this an Xtream server?)"@,
{
    let mut out: Vec<char> = Vec::new();
    push_str(&mut out, action);
    push_str(&mut out, " failed: the server did not return valid JSON (is this an Xtream server?)");
    string_from_chars(out.as_slice())
}

} // verus!
