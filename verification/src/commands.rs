//! The player's command-level state: which station request is active, which attempt
//! of it may still report back, how an engine event changes playback state, and what a
//! failed start leads to. The commands that hold a lock, open devices and publish
//! snapshots to the window are thin shells around these decisions.
use vstd::prelude::*;
use vstd::string::StringSliceAdditionalSpecFns;
use crate::device::DeviceRequest;
use crate::engine::EngineEvent;
use crate::session::{
    audible_spec, bitrate_spec, buffering_spec, error_next_spec, error_spec, extension_spec,
    format_spec, next_view, opt_str, play_spec, stop_spec, Controller, ControllerView, ErrorClass,
    Generation, Next, NextView, Snapshot,
};
use crate::text::{
    decimal, is_pct_safe, lemma_pct_encode_is_safe, pct_encode, push_decimal, push_pct_encoded,
    push_str, string_from_chars, trim_end_char, trim_end_matches_char,
};

verus! {

// ---------------------------------------------------------------------------------------
// Station requests and stream URLs
// ---------------------------------------------------------------------------------------

/// Enough to build both URL candidates for a station. Credentials live here and in the
/// keyring only; they never appear in a snapshot or an event.
#[derive(Debug, Clone)]
pub struct StationRequest {
    pub base_url: String,
    pub username: String,
    pub password: String,
    pub stream_id: i64,
    /// Shown in diagnostics and used as the snapshot's station identity.
    pub station_id: String,
}

/// An integer as `{n}` formats it.
pub open spec fn signed_decimal(n: i64) -> Seq<char> {
    if n < 0 {
        "-"@ + decimal((-n) as nat)
    } else {
        decimal(n as nat)
    }
}

/// The stream URL of one attempt: the provider's `{base}/live/{user}/{password}/{id}{ext}`
/// shape, with the base's trailing slashes dropped and both credentials `%`-encoded.
pub open spec fn stream_url_spec(r: StationRequest, extension: Seq<char>) -> Seq<char> {
    trim_end_char(r.base_url@, '/') + "/live/"@ + pct_encode(spec_bytes_of(r.username@))
        + "/"@ + pct_encode(spec_bytes_of(r.password@)) + "/"@ + signed_decimal(r.stream_id)
        + extension
}

/// The UTF-8 bytes of a character sequence.
pub open spec fn spec_bytes_of(s: Seq<char>) -> Seq<u8> {
    vstd::utf8::encode_utf8(s)
}

/// Percent-encodes a path segment: provider credentials can hold characters that would
/// otherwise change the URL's structure.
pub fn urlencoding(segment: &str) -> (r: String)
    ensures
        r@ == pct_encode(segment.spec_bytes()),
{
    let mut out: Vec<char> = Vec::new();
    push_pct_encoded(&mut out, segment);
    assert(out@ =~= pct_encode(segment.spec_bytes()));
    string_from_chars(out.as_slice())
}

fn push_signed_decimal(out: &mut Vec<char>, n: i64)
    ensures
        final(out)@ == old(out)@ + signed_decimal(n),
{
    if n < 0 {
        push_str(out, "-");
        let magnitude: u64 = (0i128 - n as i128) as u64;
        push_decimal(out, magnitude);
    } else {
        push_decimal(out, n as u64);
    }
}

impl StationRequest {
    /// The stream URL for one attempt; see [`stream_url_spec`].
    pub fn url_for(&self, extension: &str) -> (r: String)
        ensures
            r@ == stream_url_spec(*self, extension@),
    {
        let mut out = trim_end_matches_char(self.base_url.as_str(), '/');
        push_str(&mut out, "/live/");
        push_pct_encoded(&mut out, self.username.as_str());
        push_str(&mut out, "/");
        push_pct_encoded(&mut out, self.password.as_str());
        push_str(&mut out, "/");
        push_signed_decimal(&mut out, self.stream_id);
        push_str(&mut out, extension);
        assert(out@ =~= stream_url_spec(*self, extension@));
        string_from_chars(out.as_slice())
    }
}

/// Credentials cannot change a stream URL's structure: once encoded they hold no `/`,
/// `?`, `#`, `&`, `=` or space, only unreserved characters, `%` and hex digits.
pub proof fn law_credentials_stay_inside_their_segments(credential: Seq<u8>)
    ensures
        forall|i: int| 0 <= i < pct_encode(credential).len() ==> {
            let c = #[trigger] pct_encode(credential)[i];
            is_pct_safe(c) && c != '/' && c != '?' && c != '#' && c != '&' && c != '=' && c != ' '
        },
{
    lemma_pct_encode_is_safe(credential);
}

// ---------------------------------------------------------------------------------------
// The player's core state
// ---------------------------------------------------------------------------------------

/// What the player keeps between commands, apart from the running session itself.
#[derive(Debug)]
pub struct PlayerCore {
    pub controller: Controller,
    /// The station being played, kept to build retry URLs.
    pub request: Option<StationRequest>,
    /// Counts attempts; each start or retry takes the next number.
    pub attempt_serial: u64,
    /// The attempt whose events are still accepted.
    pub active_attempt: Option<u64>,
}

/// The snapshot shows exactly the controller's state.
pub open spec fn shows(s: Snapshot, v: ControllerView) -> bool {
    &&& s.generation@ == v.generation
    &&& s.revision == v.revision
    &&& opt_str(s.station_id) == v.station_id
    &&& s.state == v.state
    &&& s.buffering_reason == v.buffering_reason
    &&& s.attempt == v.attempt
    &&& s.bitrate_kbps == v.bitrate_kbps
    &&& s.sample_rate == v.sample_rate
    &&& opt_str(s.device) == v.device
    &&& opt_str(s.error) == v.error
}

/// The next attempt number; it wraps rather than overflowing.
pub open spec fn next_serial(serial: u64) -> u64 {
    if serial == u64::MAX {
        0
    } else {
        (serial + 1) as u64
    }
}

/// The retry a failure report leads to: its URL and delay, when the controller asks for
/// another attempt and there is a request to build the URL from.
pub open spec fn retry_of(next: Option<NextView>, request: Option<StationRequest>) -> Option<(Seq<char>, u64)> {
    match (next, request) {
        (Some(NextView::Retry { delay_ms, extension, .. }), Some(r)) => Some(
            (stream_url_spec(r, extension), delay_ms),
        ),
        _ => None,
    }
}

/// The controller after an accepted engine event.
pub open spec fn event_spec(v: ControllerView, e: EngineEvent, now_ms: u64) -> ControllerView {
    match e {
        EngineEvent::Buffering { generation, reason } => buffering_spec(v, generation@, reason),
        EngineEvent::Playing { generation } => audible_spec(v, generation@, now_ms),
        EngineEvent::Format { generation, sample_rate, .. } => format_spec(v, generation@, sample_rate),
        EngineEvent::Bitrate { generation, kbps } => bitrate_spec(v, generation@, kbps),
        EngineEvent::Underrun { .. } => v,
        EngineEvent::Failed { generation, class, message } => error_spec(
            v,
            generation@,
            class,
            message@,
            now_ms,
        ),
    }
}

/// The retry an accepted engine event asks for.
pub open spec fn event_retry(v: ControllerView, e: EngineEvent, request: Option<StationRequest>, now_ms: u64) -> Option<(Seq<char>, u64)> {
    match e {
        EngineEvent::Failed { generation, class, .. } => retry_of(
            error_next_spec(v, generation@, class, now_ms),
            request,
        ),
        _ => None,
    }
}

fn retry_for(next: Option<Next>, request: &Option<StationRequest>) -> (r: Option<(String, u64)>)
    ensures
        match r {
            Some((url, delay)) => retry_of(
                match next {
                    Some(n) => Some(next_view(n)),
                    None => None,
                },
                *request,
            ) == Some((url@, delay)),
            None => retry_of(
                match next {
                    Some(n) => Some(next_view(n)),
                    None => None,
                },
                *request,
            ) is None,
        },
{
    match (next, request) {
        (Some(Next::Retry { extension, delay_ms, .. }), Some(r)) => Some((r.url_for(extension), delay_ms)),
        _ => None,
    }
}

impl PlayerCore {
    /// Room for the controller's next change.
    pub open spec fn ready(&self) -> bool {
        self.controller@.has_room() && self.controller@.attempt < u32::MAX
    }

    /// Whether an event of `attempt` for generation `g` still changes anything: the
    /// attempt is the active one and the controller accepts the generation.
    pub open spec fn takes_event(&self, attempt: u64, g: u64) -> bool {
        self.active_attempt == Some(attempt) && self.controller@.accepts(g)
    }

    pub fn new() -> (r: Self)
        ensures
            r.controller@ == crate::session::initial_view(),
            r.request is None,
            r.attempt_serial == 0,
            r.active_attempt is None,
    {
        PlayerCore { controller: Controller::new(), request: None, attempt_serial: 0, active_attempt: None }
    }

    /// Starts a new attempt: only its events are accepted from now on.
    pub fn begin_attempt(&mut self) -> (r: u64)
        ensures
            r == next_serial(old(self).attempt_serial),
            final(self).attempt_serial == r,
            final(self).active_attempt == Some(r),
            final(self).controller@ == old(self).controller@,
            final(self).request == old(self).request,
    {
        self.attempt_serial = self.attempt_serial.wrapping_add(1);
        self.active_attempt = Some(self.attempt_serial);
        self.attempt_serial
    }

    /// Whether an event of `attempt` for `generation` may still change anything.
    pub fn accepts_attempt(&self, generation: Generation, attempt: u64) -> (r: bool)
        ensures
            r == (self.controller@.accepts(generation@) && self.active_attempt == Some(attempt)),
    {
        let current = match self.active_attempt {
            Some(a) => a == attempt,
            None => false,
        };
        self.controller.accepts(generation) && current
    }

    /// Plays `request`: a new generation and a first attempt on the `.ts` URL. Returns
    /// the generation, the attempt, the URL and the snapshot to publish.
    pub fn play(&mut self, request: StationRequest) -> (r: (Generation, u64, String, Snapshot))
        requires
            old(self).ready(),
        ensures
            final(self).controller@ == play_spec(old(self).controller@, request.station_id@),
            r.0@ == final(self).controller@.generation,
            r.1 == next_serial(old(self).attempt_serial),
            final(self).attempt_serial == r.1,
            final(self).active_attempt == Some(r.1),
            r.2@ == stream_url_spec(request, extension_spec(0)),
            final(self).request == Some(request),
            shows(r.3, final(self).controller@),
    {
        let generation = self.controller.play(request.station_id.as_str());
        let attempt = self.begin_attempt();
        let url = request.url_for(Controller::extension_for_attempt(0));
        self.request = Some(request);
        (generation, attempt, url, self.controller.snapshot())
    }

    /// Stops playback: a new generation, and no attempt or request stays active.
    pub fn stop(&mut self) -> (r: Snapshot)
        requires
            old(self).ready(),
        ensures
            final(self).controller@ == stop_spec(old(self).controller@),
            final(self).active_attempt is None,
            final(self).request is None,
            final(self).attempt_serial == old(self).attempt_serial,
            shows(r, final(self).controller@),
    {
        self.controller.stop();
        self.active_attempt = None;
        self.request = None;
        self.controller.snapshot()
    }

    /// Restarts the active station, for instance on another output device: a new
    /// generation invalidates every late event of the old source before teardown.
    /// `None` when nothing is playing.
    pub fn restart(&mut self) -> (r: Option<(Generation, u64, String, Snapshot)>)
        requires
            old(self).ready(),
        ensures
            match old(self).request {
                None => r is None && final(self).controller@ == old(self).controller@
                    && final(self).active_attempt == old(self).active_attempt
                    && final(self).attempt_serial == old(self).attempt_serial,
                Some(req) => r matches Some((g, a, url, snap)) && final(self).controller@ == play_spec(
                    old(self).controller@,
                    req.station_id@,
                ) && g@ == final(self).controller@.generation && a == next_serial(old(self).attempt_serial)
                    && final(self).active_attempt == Some(a) && url@ == stream_url_spec(req, extension_spec(0))
                    && shows(snap, final(self).controller@),
            },
            final(self).request == old(self).request,
    {
        match &self.request {
            None => None,
            Some(req) => {
                let generation = self.controller.play(req.station_id.as_str());
                self.attempt_serial = self.attempt_serial.wrapping_add(1);
                self.active_attempt = Some(self.attempt_serial);
                let url = req.url_for(Controller::extension_for_attempt(0));
                Some((generation, self.attempt_serial, url, self.controller.snapshot()))
            },
        }
    }

    /// Keeps a freshly started session only if its attempt is still the active one, and
    /// records the device it actually opened. Returns whether the session is kept.
    pub fn adopt_session(&mut self, generation: Generation, attempt: u64, device: Option<String>) -> (r: bool)
        requires
            old(self).ready(),
        ensures
            r == (old(self).controller@.accepts(generation@) && old(self).active_attempt == Some(attempt)),
            r ==> final(self).controller@ == crate::session::device_spec(old(self).controller@, opt_str(device)),
            !r ==> final(self).controller@ == old(self).controller@,
            final(self).active_attempt == old(self).active_attempt,
            final(self).request == old(self).request,
            final(self).attempt_serial == old(self).attempt_serial,
    {
        if self.accepts_attempt(generation, attempt) {
            self.controller.set_device(device);
            true
        } else {
            false
        }
    }

    /// Routes a failed start, initial or retry, through the same retry policy as any
    /// other failure. A device that cannot be opened may be busy for a moment, so this
    /// is transient; the attempt budget still bounds it. Returns the snapshot and, when
    /// another attempt is due, its URL and delay.
    pub fn route_startup_failure(&mut self, generation: Generation, message: &str, now_ms: u64) -> (r: (Snapshot, Option<(String, u64)>))
        requires
            old(self).ready(),
        ensures
            final(self).controller@ == error_spec(old(self).controller@, generation@, ErrorClass::Transient, message@, now_ms),
            shows(r.0, final(self).controller@),
            match r.1 {
                Some((url, delay)) => retry_of(
                    error_next_spec(old(self).controller@, generation@, ErrorClass::Transient, now_ms),
                    old(self).request,
                ) == Some((url@, delay)),
                None => retry_of(
                    error_next_spec(old(self).controller@, generation@, ErrorClass::Transient, now_ms),
                    old(self).request,
                ) is None,
            },
            final(self).request == old(self).request,
            final(self).active_attempt == old(self).active_attempt,
            final(self).attempt_serial == old(self).attempt_serial,
    {
        let next = self.controller.on_error(generation, ErrorClass::Transient, message, now_ms);
        let snapshot = self.controller.snapshot();
        let retry = retry_for(next, &self.request);
        (snapshot, retry)
    }

    /// Applies one engine event of `attempt`. An event of a replaced attempt, or of a
    /// generation the controller no longer accepts, changes nothing and publishes
    /// nothing (`None`). Otherwise the controller moves and the snapshot to publish is
    /// returned, with the retry a failure asks for.
    pub fn apply_event(&mut self, attempt: u64, event: EngineEvent, now_ms: u64) -> (r: Option<(Snapshot, Option<(Generation, String, u64)>)>)
        requires
            old(self).ready(),
        ensures
            !old(self).takes_event(attempt, event.generation_spec()@) ==> r is None && final(self).controller@
                == old(self).controller@,
            old(self).takes_event(attempt, event.generation_spec()@) ==> (r matches Some((snap, retry)) && final(self).controller@ == event_spec(
                    old(self).controller@,
                    event,
                    now_ms,
                ) && shows(snap, final(self).controller@) && match retry {
                    Some((g, url, delay)) => g == event.generation_spec() && event_retry(
                        old(self).controller@,
                        event,
                        old(self).request,
                        now_ms,
                    ) == Some((url@, delay)),
                    None => event_retry(old(self).controller@, event, old(self).request, now_ms) is None,
                }),
            final(self).request == old(self).request,
            final(self).active_attempt == old(self).active_attempt,
            final(self).attempt_serial == old(self).attempt_serial,
    {
        let generation = event.generation();
        if !self.accepts_attempt(generation, attempt) {
            return None;
        }
        let mut retry: Option<(Generation, String, u64)> = None;
        match event {
            EngineEvent::Buffering { generation, reason } => {
                self.controller.on_buffering(generation, reason);
            },
            EngineEvent::Playing { generation } => {
                self.controller.on_audible(generation, now_ms);
            },
            EngineEvent::Format { generation, sample_rate, .. } => {
                self.controller.set_format(generation, sample_rate);
            },
            EngineEvent::Bitrate { generation, kbps } => {
                self.controller.set_bitrate(generation, kbps);
            },
            EngineEvent::Underrun { .. } => {},
            EngineEvent::Failed { generation, class, message } => {
                let next = self.controller.on_error(generation, class, message.as_str(), now_ms);
                match retry_for(next, &self.request) {
                    Some((url, delay)) => {
                        retry = Some((generation, url, delay));
                    },
                    None => {},
                }
            },
        }
        Some((self.controller.snapshot(), retry))
    }
}

/// A late event from an attempt that a retry replaced never changes playback state:
/// once `begin_attempt` has moved a player from its active attempt to the next one, no
/// event of the replaced attempt is taken, whatever its generation, so `apply_event`
/// with it returns `None` and leaves the controller as it was.
pub proof fn law_a_new_attempt_invalidates_the_previous_one(before: PlayerCore, after: PlayerCore, g: u64)
    requires
        before.active_attempt == Some(before.attempt_serial),
        after.attempt_serial == next_serial(before.attempt_serial),
        after.active_attempt == Some(after.attempt_serial),
    ensures
        !after.takes_event(before.attempt_serial, g),
{
}

// ---------------------------------------------------------------------------------------
// Devices
// ---------------------------------------------------------------------------------------

/// The result of migrating a saved MPV device identifier.
#[derive(Debug, Clone)]
pub struct DeviceMigration {
    /// The device id to persist, or `None` to follow the system default. The caller must
    /// persist it, or the migration would silently undo itself on the next launch.
    pub device_id: Option<String>,
    /// Why the stored value could not be honoured, when it could not.
    pub notice: Option<String>,
}

impl DeviceMigration {
    /// The persisted form of a migrated request.
    pub fn from_request(request: &DeviceRequest, notice: Option<String>) -> (r: Self)
        ensures
            opt_str(r.device_id) == crate::device::request_id(*request),
            opt_str(r.notice) == opt_str(notice),
    {
        let device_id = match request {
            DeviceRequest::Specific(id) => Some(id.clone()),
            DeviceRequest::SystemDefault => None,
        };
        DeviceMigration { device_id, notice }
    }
}

/// Whether a session that follows the system default must reopen: only when a current
/// default is known and differs from the device in use.
pub fn should_follow_default(in_use: &Option<String>, new_default: &Option<String>) -> (r: bool)
    ensures
        r == (new_default is Some && opt_str(*new_default) != opt_str(*in_use)),
{
    match (new_default, in_use) {
        (Some(a), Some(b)) => !String::eq(a, b),
        (Some(_), None) => true,
        (None, _) => false,
    }
}

} // verus!
