//! Output device descriptions and requests, and the migration of a device setting saved
//! by the old MPV-based player.
//!
//! MPV identifiers (`alsa/default`, `pulse/<sink>`, `wasapi/<guid>`, ...) live in another
//! namespace than the device ids the player uses now, so a saved one is matched by
//! description, and only a confident match is accepted. Anything else falls back to the
//! system default: audio from the default device beats silence from one that is gone.
use vstd::prelude::*;
use crate::network::find_from;
use crate::text::{ascii_lower, chars_of, push_str, push_string, string_from_chars, trim, trim_bounds, to_ascii_lower};

verus! {

/// How a device is presented to the UI and persisted.
#[derive(Debug, Clone, PartialEq, Eq)]
pub struct DeviceDescriptor {
    /// Stable identity, persisted. Empty only if the backend could not supply one.
    pub id: String,
    /// Human-readable name. Never assumed unique.
    pub name: String,
    /// Backend or host, such as "Alsa", "Wasapi" or "CoreAudio".
    pub backend: String,
    /// Whether this is the system default output.
    pub is_default: bool,
}

/// Which device the user asked for, kept apart from the one in use so that a temporary
/// unplug does not erase the preference.
#[derive(Debug, Clone, PartialEq, Eq)]
pub enum DeviceRequest {
    /// Follow the system default, including when the default changes.
    SystemDefault,
    /// A specific device, by persisted id.
    Specific(String),
}

impl Default for DeviceRequest {
    fn default() -> (r: Self)
        ensures
            r is SystemDefault,
    {
        DeviceRequest::SystemDefault
    }
}

impl DeviceRequest {
    /// Whether this follows the system default.
    pub fn is_system_default(&self) -> (r: bool)
        ensures
            r == (self is SystemDefault),
    {
        match self {
            DeviceRequest::SystemDefault => true,
            DeviceRequest::Specific(_) => false,
        }
    }
}

#[derive(Debug, Clone, PartialEq, Eq)]
pub enum DeviceError {
    /// No output device exists at all. Recoverable: the user can plug one in.
    NoOutputDevice,
    Backend(String),
}

impl DeviceError {
    pub open spec fn message_spec(&self) -> Seq<char> {
        match self {
            DeviceError::NoOutputDevice => "no audio output device is available"@,
            DeviceError::Backend(e) => "audio backend error: "@ + e@,
        }
    }

    /// The message shown for this error.
    pub fn to_string(&self) -> (r: String)
        ensures
            r@ == self.message_spec(),
    {
        let mut out: Vec<char> = Vec::new();
        match self {
            DeviceError::NoOutputDevice => push_str(&mut out, "no audio output device is available"),
            DeviceError::Backend(e) => {
                push_str(&mut out, "audio backend error: ");
                push_string(&mut out, e);
            },
        }
        assert(out@ =~= self.message_spec());
        string_from_chars(out.as_slice())
    }
}

// ---------------------------------------------------------------------------------------
// Migration
// ---------------------------------------------------------------------------------------

pub open spec fn is_ascii_alnum(c: char) -> bool {
    ('0' <= c && c <= '9') || ('A' <= c && c <= 'Z') || ('a' <= c && c <= 'z')
}

/// `s` reduced to its ASCII letters and digits, lowercased, so that punctuation, spacing
/// and case do not decide a match.
pub open spec fn normalize_spec(s: Seq<char>) -> Seq<char>
    decreases s.len(),
{
    if s.len() == 0 {
        Seq::empty()
    } else if is_ascii_alnum(s.last()) {
        normalize_spec(s.drop_last()).push(ascii_lower(s.last()))
    } else {
        normalize_spec(s.drop_last())
    }
}

pub fn normalize(s: &str) -> (r: Vec<char>)
    ensures
        r@ == normalize_spec(s@),
{
    let v = chars_of(s);
    let mut out: Vec<char> = Vec::new();
    let mut i: usize = 0;
    while i < v.len()
        invariant
            v@ == s@,
            i <= v@.len(),
            out@ == normalize_spec(v@.subrange(0, i as int)),
        decreases v@.len() - i,
    {
        let c = v[i];
        proof {
            let pre = v@.subrange(0, i as int + 1);
            assert(pre.drop_last() =~= v@.subrange(0, i as int));
            assert(pre.last() == c);
        }
        if ('0' <= c && c <= '9') || ('A' <= c && c <= 'Z') || ('a' <= c && c <= 'z') {
            out.push(to_ascii_lower(c));
        }
        i = i + 1;
    }
    assert(v@.subrange(0, i as int) =~= v@);
    out
}

/// Whether `s` ends with `p`.
pub open spec fn ends_with(s: Seq<char>, p: Seq<char>) -> bool {
    p.len() <= s.len() && s.subrange(s.len() - p.len(), s.len() as int) == p
}

/// MPV's own ways of saying "system default".
pub open spec fn is_mpv_default(s: Seq<char>) -> bool {
    s == "auto"@ || ends_with(s, "/default"@) || s == "default"@
}

/// The device-specific part of an MPV identifier: what follows the first `/`, or all of
/// it when there is none.
pub open spec fn mpv_tail(s: Seq<char>) -> Seq<char> {
    match find_from(s, "/"@, 0) {
        Some(i) => s.subrange(i + 1, s.len() as int),
        None => s,
    }
}

/// The first device, among the first `n`, whose id normalises to `t`.
pub open spec fn exact_index(av: Seq<DeviceDescriptor>, t: Seq<char>, n: int) -> Option<int>
    decreases n,
{
    if n <= 0 {
        None
    } else {
        match exact_index(av, t, n - 1) {
            Some(i) => Some(i),
            None => if normalize_spec(av[n - 1].id@) == t {
                Some(n - 1)
            } else {
                None
            },
        }
    }
}

proof fn lemma_exact_index_stable(av: Seq<DeviceDescriptor>, t: Seq<char>, m: int, n: int)
    requires
        m <= n,
        exact_index(av, t, m) is Some,
    ensures
        exact_index(av, t, n) == exact_index(av, t, m),
    decreases n - m,
{
    if m < n {
        lemma_exact_index_stable(av, t, m, n - 1);
    }
}

proof fn lemma_hit_indices_below(av: Seq<DeviceDescriptor>, t: Seq<char>, n: int)
    ensures
        forall|k: int| 0 <= k < hit_indices(av, t, n).len() ==> 0 <= #[trigger] hit_indices(av, t, n)[k] < n,
    decreases n,
{
    if n > 0 {
        lemma_hit_indices_below(av, t, n - 1);
        let h = hit_indices(av, t, n - 1);
        if is_hit(av[n - 1], t) {
            assert forall|k: int| 0 <= k < h.push(n - 1).len() implies 0 <= #[trigger] h.push(n - 1)[k] < n by {
                if k < h.len() {
                    assert(h.push(n - 1)[k] == h[k]);
                }
            }
        }
    }
}

/// Whether a device's name and the stored name contain one another once normalised.
pub open spec fn is_hit(d: DeviceDescriptor, t: Seq<char>) -> bool {
    find_from(normalize_spec(d.name@), t, 0) is Some || find_from(t, normalize_spec(d.name@), 0) is Some
}

/// The indices, among the first `n`, of devices whose names match `t`.
pub open spec fn hit_indices(av: Seq<DeviceDescriptor>, t: Seq<char>, n: int) -> Seq<int>
    decreases n,
{
    if n <= 0 {
        Seq::empty()
    } else if is_hit(av[n - 1], t) {
        hit_indices(av, t, n - 1).push(n - 1)
    } else {
        hit_indices(av, t, n - 1)
    }
}

/// The outcome of migrating a stored MPV device identifier: the request, and the notice
/// explaining why the stored value could not be honoured, if it could not.
pub open spec fn migrate_spec(stored: Option<Seq<char>>, av: Seq<DeviceDescriptor>) -> (Option<Seq<char>>, Option<Seq<char>>) {
    let s = match stored {
        Some(x) => trim(x),
        None => Seq::empty(),
    };
    let t = normalize_spec(mpv_tail(s));
    if s.len() == 0 || is_mpv_default(s) || t.len() == 0 {
        (None, None)
    } else {
        match exact_index(av, t, av.len() as int) {
            Some(i) => (Some(av[i].id@), None),
            None => {
                let hits = hit_indices(av, t, av.len() as int);
                if hits.len() == 1 {
                    (Some(av[hits[0]].id@), None)
                } else if hits.len() >= 2 {
                    (None, Some("Your saved audio device ("@ + s
                        + ") matched more than one device, so the system default is being used."@))
                } else {
                    (None, Some("Your saved audio device ("@ + s
                        + ") could not be matched, so the system default is being used."@))
                }
            },
        }
    }
}

/// The request as an optional device id, `None` meaning the system default.
pub open spec fn request_id(r: DeviceRequest) -> Option<Seq<char>> {
    match r {
        DeviceRequest::SystemDefault => None,
        DeviceRequest::Specific(id) => Some(id@),
    }
}

fn substring_found(hay: &Vec<char>, needle: &Vec<char>) -> (r: bool)
    ensures
        r == (find_from(hay@, needle@, 0) is Some),
{
    let needle_text = string_from_chars(needle.as_slice());
    crate::network::find_chars(hay, 0, needle_text.as_str()).is_some()
}

/// Migrates a stored MPV device identifier to a device request; see [`migrate_spec`].
pub fn migrate_mpv_device(stored: Option<&str>, available: &[DeviceDescriptor]) -> (r: (DeviceRequest, Option<String>))
    ensures
        (request_id(r.0), crate::network::opt_view(r.1)) == migrate_spec(
            match stored {
                Some(x) => Some(x@),
                None => None,
            },
            available@,
        ),
{
    let raw = match stored {
        Some(x) => chars_of(x),
        None => Vec::new(),
    };
    let (a, b) = trim_bounds(&raw, 0, raw.len());
    assert(raw@.subrange(0, raw@.len() as int) =~= raw@);
    let s = crate::network::sub_chars(&raw, a, b);
    let ghost sv = s@;
    let text = string_from_chars(s.as_slice());
    let ghost stored_v: Option<Seq<char>> = match stored {
        Some(x) => Some(x@),
        None => None,
    };
    assert(sv == match stored_v {
        Some(x) => trim(x),
        None => Seq::<char>::empty(),
    }) by {
        if stored_v is None {
            assert(raw@.len() == 0);
        }
    }
    let slash = crate::network::find_chars(&s, 0, "/");
    let tail = match slash {
        Some(i) => {
            proof {
                crate::network::lemma_find_from(s@, "/"@, 0);
                reveal_strlit("/");
            }
            crate::network::sub_chars(&s, i + 1, s.len())
        },
        None => crate::network::sub_chars(&s, 0, s.len()),
    };
    assert(s@.subrange(0, s@.len() as int) =~= s@);
    assert(tail@ == mpv_tail(sv));
    let tail_text = string_from_chars(tail.as_slice());
    let t = normalize(tail_text.as_str());
    if s.len() == 0 || is_default_spelling(&s) || t.len() == 0 {
        return (DeviceRequest::SystemDefault, None);
    }
    let mut i: usize = 0;
    while i < available.len()
        invariant
            i <= available@.len(),
            exact_index(available@, t@, i as int) is None,
            stored_v == match stored {
                Some(x) => Some(x@),
                None => None,
            },
            sv == match stored_v {
                Some(x) => trim(x),
                None => Seq::<char>::empty(),
            },
            t@ == normalize_spec(mpv_tail(sv)),
            !(sv.len() == 0 || is_mpv_default(sv) || t@.len() == 0),
        decreases available@.len() - i,
    {
        let id = normalize(available[i].id.as_str());
        if crate::detect::str_eq(string_from_chars(id.as_slice()).as_str(), string_from_chars(t.as_slice()).as_str()) {
            proof {
                assert(exact_index(available@, t@, i as int + 1) == Some(i as int));
                lemma_exact_index_stable(available@, t@, i as int + 1, available@.len() as int);
            }
            let found = available[i].id.clone();
            assert(found@ == available@[i as int].id@);
            assert(exact_index(available@, t@, available@.len() as int) == Some(i as int));
            assert(migrate_spec(stored_v, available@) == (Some(available@[i as int].id@), None::<Seq<char>>));
            return (DeviceRequest::Specific(found), None);
        }
        i = i + 1;
    }
    let mut hits: Vec<usize> = Vec::new();
    let mut j: usize = 0;
    while j < available.len()
        invariant
            j <= available@.len(),
            hits@.len() == hit_indices(available@, t@, j as int).len(),
            forall|k: int| 0 <= k < hits@.len() ==> hits@[k] == hit_indices(available@, t@, j as int)[k],
            forall|k: int| 0 <= k < hits@.len() ==> hits@[k] < j,
        decreases available@.len() - j,
    {
        let name = normalize(available[j].name.as_str());
        if substring_found(&name, &t) || substring_found(&t, &name) {
            hits.push(j);
        }
        j = j + 1;
    }
    assert(exact_index(available@, t@, available@.len() as int) is None);
    if hits.len() == 1 {
        let found = available[hits[0]].id.clone();
        assert(found@ == available@[hits@[0] as int].id@);
        proof {
            let hs = hit_indices(available@, t@, available@.len() as int);
            assert(hs.len() == 1);
            assert(hs[0] == hits@[0]);
            assert(migrate_spec(stored_v, available@) == (Some(available@[hs[0]].id@), None::<Seq<char>>));
        }
        return (DeviceRequest::Specific(found), None);
    }
    let mut notice: Vec<char> = Vec::new();
    push_str(&mut notice, "Your saved audio device (");
    push_string(&mut notice, &text);
    if hits.len() >= 2 {
        push_str(&mut notice, ") matched more than one device, so the system default is being used.");
    } else {
        push_str(&mut notice, ") could not be matched, so the system default is being used.");
    }
    (DeviceRequest::SystemDefault, Some(string_from_chars(notice.as_slice())))
}

fn is_default_spelling(s: &Vec<char>) -> (r: bool)
    ensures
        r == is_mpv_default(s@),
{
    let text = string_from_chars(s.as_slice());
    let suffix = "/default";
    let n = suffix.unicode_len();
    let ends = if n <= s.len() {
        let tail = crate::network::sub_chars(s, s.len() - n, s.len());
        crate::detect::str_eq(string_from_chars(tail.as_slice()).as_str(), suffix)
    } else {
        false
    };
    crate::detect::str_eq(text.as_str(), "auto") || ends || crate::detect::str_eq(text.as_str(), "default")
}

proof fn lemma_exact_index_below(av: Seq<DeviceDescriptor>, t: Seq<char>, n: int)
    ensures
        exact_index(av, t, n) matches Some(i) ==> 0 <= i < n,
    decreases n,
{
    if n > 0 {
        lemma_exact_index_below(av, t, n - 1);
    }
}

/// Migration never invents a device: a specific request always names one of the devices
/// that are available, and with none available the result is the system default.
pub proof fn law_migration_only_picks_listed_devices(stored: Option<Seq<char>>, av: Seq<DeviceDescriptor>)
    ensures
        migrate_spec(stored, av).0 matches Some(id) ==> exists|i: int| 0 <= i < av.len() && av[i].id@ == id,
        av.len() == 0 ==> migrate_spec(stored, av).0 is None,
{
    let s = match stored {
        Some(x) => crate::text::trim(x),
        None => Seq::empty(),
    };
    let t = normalize_spec(mpv_tail(s));
    lemma_exact_index_below(av, t, av.len() as int);
    lemma_hit_indices_below(av, t, av.len() as int);
    if let Some(i) = exact_index(av, t, av.len() as int) {
        assert(av[i].id@ == av[i].id@);
    } else {
        let hs = hit_indices(av, t, av.len() as int);
        if hs.len() == 1 {
            assert(0 <= hs[0] < av.len());
            assert(av[hs[0]].id@ == av[hs[0]].id@);
        }
    }
}

} // verus!
