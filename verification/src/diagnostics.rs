//! The plan of the StellarTunerLog comparison run: which client variants are tried, how
//! each is configured, in which order, and what the run reads off a failure. The run
//! itself performs requests and writes log lines; it never logs a key or a raw body.
use vstd::prelude::*;
use crate::detect::str_eq;
use crate::network::{find_from, NetworkError};
use crate::text::{chars_of, trim, trim_bounds};

verus! {

/// The endpoint the run compares clients against.
pub const DIAGNOSTIC_URL: &'static str = "https://api.stellartunerlog.com/v1/nowplaying";

/// The client variants, in the order of the first round.
pub open spec fn diagnostic_cases() -> Seq<Seq<char>> {
    seq![
        "pooled"@, "fresh"@, "old-user-agent"@, "origin"@, "http2"@, "cookies"@, "direct"@,
        "ipv4"@, "ipv6"@, "legacy-combined"@,
    ]
}

pub fn cases() -> (r: Vec<&'static str>)
    ensures
        r@.len() == diagnostic_cases().len(),
        forall|i: int| 0 <= i < r@.len() ==> #[trigger] r@[i]@ == diagnostic_cases()[i],
{
    let r = vec![
        "pooled", "fresh", "old-user-agent", "origin", "http2", "cookies", "direct", "ipv4",
        "ipv6", "legacy-combined",
    ];
    assert forall|i: int| 0 <= i < r@.len() implies #[trigger] r@[i]@ == diagnostic_cases()[i] by {}
    r
}

/// Which local address a variant binds.
#[derive(Debug, Clone, Copy, PartialEq, Eq, Structural)]
pub enum LocalAddress {
    System,
    Ipv4Unspecified,
    Ipv6Unspecified,
}

/// How one variant's client is built. Every variant uses a fixed endpoint with
/// redirects off, so the key is never forwarded to another host.
#[derive(Debug, Clone, Copy, PartialEq, Eq, Structural)]
pub struct ClientProfile {
    /// Send the old HTTP plugin's user agent instead of the app's own.
    pub legacy_user_agent: bool,
    pub http1_only: bool,
    pub cookie_store: bool,
    pub no_proxy: bool,
    pub local_address: LocalAddress,
}

pub open spec fn profile_spec(case: Seq<char>) -> ClientProfile {
    ClientProfile {
        legacy_user_agent: case == "old-user-agent"@ || case == "legacy-combined"@,
        http1_only: !(case == "http2"@ || case == "legacy-combined"@),
        cookie_store: case == "cookies"@ || case == "legacy-combined"@,
        no_proxy: case == "direct"@,
        local_address: if case == "ipv4"@ {
            LocalAddress::Ipv4Unspecified
        } else if case == "ipv6"@ {
            LocalAddress::Ipv6Unspecified
        } else {
            LocalAddress::System
        },
    }
}

pub fn client_profile(case: &str) -> (r: ClientProfile)
    ensures
        r == profile_spec(case@),
{
    let legacy = str_eq(case, "legacy-combined");
    ClientProfile {
        legacy_user_agent: str_eq(case, "old-user-agent") || legacy,
        http1_only: !(str_eq(case, "http2") || legacy),
        cookie_store: str_eq(case, "cookies") || legacy,
        no_proxy: str_eq(case, "direct"),
        local_address: if str_eq(case, "ipv4") {
            LocalAddress::Ipv4Unspecified
        } else if str_eq(case, "ipv6") {
            LocalAddress::Ipv6Unspecified
        } else {
            LocalAddress::System
        },
    }
}

/// Whether a variant builds a new client for every request rather than reusing one.
pub fn uses_fresh_client(case: &str) -> (r: bool)
    ensures
        r == (case@ == "fresh"@ || case@ == "legacy-combined"@),
{
    str_eq(case, "fresh") || str_eq(case, "legacy-combined")
}

/// Whether a variant sends the app's `Origin` header.
pub fn sends_origin(case: &str) -> (r: bool)
    ensures
        r == (case@ == "origin"@ || case@ == "legacy-combined"@),
{
    str_eq(case, "origin") || str_eq(case, "legacy-combined")
}

/// The variant tried at `step` of `round`: forwards in the first round, backwards in
/// the second, so that no variant always runs first or last.
pub open spec fn case_index_spec(round: int, step: int, count: int) -> int {
    if round == 0 {
        step
    } else {
        count - 1 - step
    }
}

pub fn case_index(round: usize, step: usize, count: usize) -> (r: usize)
    requires
        step < count,
    ensures
        r == case_index_spec(round as int, step as int, count as int),
{
    if round == 0 {
        step
    } else {
        count - 1 - step
    }
}

/// Each round tries every variant exactly once: the steps of a round map onto the
/// variants one to one, and every variant is reached by some step.
pub proof fn law_each_round_tries_every_variant_once(round: int, a: int, b: int, count: int)
    requires
        0 <= a < count,
        0 <= b < count,
    ensures
        0 <= case_index_spec(round, a, count) < count,
        case_index_spec(round, a, count) == case_index_spec(round, b, count) ==> a == b,
        case_index_spec(round, case_index_spec(round, a, count), count) == a,
{
}

/// The origin the app's webview presents: `tauri://localhost` inside the app, the
/// window's own origin otherwise.
pub fn diagnostic_origin(scheme: &str, ascii_origin: &str) -> (r: String)
    ensures
        scheme@ == "tauri"@ ==> r@ == "tauri://localhost"@,
        scheme@ != "tauri"@ ==> r@ == ascii_origin@,
{
    if str_eq(scheme, "tauri") {
        String::from_str("tauri://localhost")
    } else {
        ascii_origin.to_owned()
    }
}

/// Whether a failure body reports the provider's worker limit (its error 1102).
pub fn worker_limit(error: &NetworkError) -> (r: bool)
    ensures
        r == (error matches NetworkError::Status { detail: Some(d), .. } && find_from(d@, "1102"@, 0) is Some),
{
    match error {
        NetworkError::Status { detail: Some(d), .. } => {
            let v = chars_of(d.as_str());
            crate::network::find_chars(&v, 0, "1102").is_some()
        },
        _ => false,
    }
}

/// Whether a key has whitespace around it, a common copy-and-paste mistake.
pub fn key_has_outer_whitespace(key: &str) -> (r: bool)
    ensures
        r == (trim(key@) != key@),
{
    let v = chars_of(key);
    let (a, b) = trim_bounds(&v, 0, v.len());
    assert(v@.subrange(0, v@.len() as int) =~= v@);
    if a == 0 && b == v.len() {
        assert(v@.subrange(0, v@.len() as int) =~= v@);
        false
    } else {
        proof {
            if trim(key@) == key@ {
                assert(v@.subrange(a as int, b as int).len() == v@.len());
            }
        }
        true
    }
}

/// The kind of a JSON value, as far as counting entries goes.
#[derive(Debug, Clone, Copy, PartialEq, Eq, Structural)]
pub enum JsonKind {
    Object,
    Array,
    /// A string, number, boolean or null.
    Scalar,
}

/// What `serde_json::from_slice` makes of `body` as a `Value`, read at `key`: `None` when
/// the body is not JSON; otherwise, when the body is an object holding `key`, that value's
/// kind and its number of entries (zero for a scalar).
pub uninterp spec fn json_field_shape_view(body: Seq<u8>, key: Seq<char>) -> Option<Option<(JsonKind, usize)>>;

/// Parses `body` with `serde_json::from_slice` as a `Value` and reads the value at `key`
/// with `Value::get`: its kind, and its length through `as_object` or `as_array`.
#[verifier::external_body]
fn json_field_shape(body: &[u8], key: &str) -> (r: Option<Option<(JsonKind, usize)>>)
    ensures
        r == json_field_shape_view(body@, key@),
{
    let json = serde_json::from_slice::<serde_json::Value>(body).ok()?;
    Some(json.get(key).map(|value| match value {
        serde_json::Value::Object(map) => (JsonKind::Object, map.len()),
        serde_json::Value::Array(items) => (JsonKind::Array, items.len()),
        _ => (JsonKind::Scalar, 0),
    }))
}

/// What a run logs of a body: whether it is JSON, and the number of entries in its
/// `"stations"` object, when it holds one.
pub open spec fn body_summary_spec(body: Seq<u8>) -> (bool, Option<usize>) {
    match json_field_shape_view(body, "stations"@) {
        None => (false, None),
        Some(Some((JsonKind::Object, n))) => (true, Some(n)),
        Some(_) => (true, None),
    }
}

/// What a run logs of a successful body: whether it is valid JSON, and how many stations
/// its `"stations"` object lists; a `"stations"` field of any other kind counts none.
pub fn body_summary(body: &[u8]) -> (r: (bool, Option<usize>))
    ensures
        r == body_summary_spec(body@),
{
    proof {
        reveal_strlit("stations");
    }
    match json_field_shape(body, "stations") {
        None => (false, None),
        Some(Some((JsonKind::Object, n))) => (true, Some(n)),
        Some(_) => (true, None),
    }
}

} // verus!
