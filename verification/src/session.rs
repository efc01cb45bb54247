//! Session identity, state, and retry budget.
//!
//! One controller owns playback truth. Every accepted play or stop gets a strictly
//! increasing [`Generation`], so an asynchronous completion that belongs to a session the
//! user has already moved on from can be discarded rather than allowed to emit audio or
//! overwrite state. Selecting the same station twice deliberately produces two different
//! generations: channel identity alone is not enough to tell those sessions apart.
//!
//! The module is free of I/O and time sources: every transition is a pure function of the
//! previous state and its arguments, stated as a spec function that the executable method
//! is proved to follow.
use vstd::prelude::*;

verus! {

/// Monotonic session identity. Never reused within a process.
#[derive(Debug, Clone, Copy, PartialEq, Eq, Structural, PartialOrd, Ord, Default, Hash)]
pub struct Generation(u64);

impl View for Generation {
    type V = u64;

    closed spec fn view(&self) -> u64 {
        self.0
    }
}

impl Generation {
    pub fn value(self) -> (r: u64)
        ensures
            r == self@,
    {
        self.0
    }
}

/// Internal playback state.
#[derive(Debug, Clone, Copy, PartialEq, Eq, Structural)]
pub enum PlaybackState {
    Stopped,
    Connecting,
    Buffering,
    Playing,
    /// Lost a working stream and is trying to get back, with retries left.
    Recovering,
    Failed,
}

/// The frontend status string each state projects onto.
pub open spec fn frontend_status(s: PlaybackState) -> Seq<char> {
    match s {
        PlaybackState::Stopped => "stopped"@,
        PlaybackState::Connecting | PlaybackState::Buffering | PlaybackState::Recovering => "loading"@,
        PlaybackState::Playing => "playing"@,
        PlaybackState::Failed => "error"@,
    }
}

impl PlaybackState {
    /// Projection onto the frontend's `PlayerStatus` union.
    pub fn as_frontend_status(self) -> (r: &'static str)
        ensures
            r@ == frontend_status(self),
    {
        match self {
            PlaybackState::Stopped => "stopped",
            PlaybackState::Connecting | PlaybackState::Buffering | PlaybackState::Recovering => "loading",
            PlaybackState::Playing => "playing",
            PlaybackState::Failed => "error",
        }
    }

    /// The frontend tracks buffering separately from status.
    pub fn is_buffering(self) -> (r: bool)
        ensures
            r <==> (self == PlaybackState::Buffering || self == PlaybackState::Recovering),
    {
        match self {
            PlaybackState::Buffering | PlaybackState::Recovering => true,
            _ => false,
        }
    }

    /// Whether real audio is reaching the device.
    pub fn is_audible(self) -> (r: bool)
        ensures
            r <==> self == PlaybackState::Playing,
    {
        match self {
            PlaybackState::Playing => true,
            _ => false,
        }
    }
}

/// Whether an error can be retried at all.
#[derive(Debug, Clone, Copy, PartialEq, Eq, Structural)]
pub enum ErrorClass {
    /// Worth another attempt: timeouts, resets, upstream station spin-up.
    Transient,
    /// Retrying cannot help: bad credentials, unsupported content, a non-media body.
    Permanent,
}

/// Why playback is not yet audible.
#[derive(Debug, Clone, Copy, PartialEq, Eq, Structural)]
pub enum BufferingReason {
    Connecting,
    FillingBuffer,
    Underrun,
    Reconnecting,
}

/// Attempts a session may make before a transient failure is final.
pub const MAX_CONNECT_ATTEMPTS: u32 = 4;

/// Base delay between attempts.
pub const RETRY_DELAY_MS: u64 = 1500;

/// How long one attempt may take to produce audible output.
pub const CONNECT_TIMEOUT_MS: u64 = 20000;

/// Ceiling on the backoff delay between attempts.
pub const MAX_RETRY_DELAY_MS: u64 = 8000;

/// Uninterrupted audible playback that must elapse before the retry budget is refilled.
pub const STABLE_PLAY_RESET_MS: u64 = 30000;

/// `2^n` as a mathematical integer.
pub open spec fn pow2(n: nat) -> nat
    decreases n,
{
    if n == 0 {
        1
    } else {
        2 * pow2((n - 1) as nat)
    }
}

/// Exponential backoff: `RETRY_DELAY_MS * 2^(min(attempt - 1, 6))`, capped at
/// `MAX_RETRY_DELAY_MS` (attempt 0 is treated like attempt 1).
pub open spec fn retry_delay_spec(attempt: u32) -> u64 {
    let shift: nat = if attempt == 0 {
        0
    } else if attempt - 1 > 6 {
        6
    } else {
        (attempt - 1) as nat
    };
    let raw = RETRY_DELAY_MS * pow2(shift);
    if raw > MAX_RETRY_DELAY_MS {
        MAX_RETRY_DELAY_MS
    } else {
        raw as u64
    }
}

/// Delay before the attempt numbered `attempt` (1-based), with exponential backoff.
pub fn retry_delay_ms(attempt: u32) -> (r: u64)
    ensures
        r == retry_delay_spec(attempt),
        r <= MAX_RETRY_DELAY_MS,
{
    let shift: u32 = if attempt == 0 {
        0
    } else if attempt - 1 > 6 {
        6
    } else {
        attempt - 1
    };
    let factor: u64 = match shift {
        0 => 1,
        1 => 2,
        2 => 4,
        3 => 8,
        4 => 16,
        5 => 32,
        _ => 64,
    };
    assert(factor == pow2(shift as nat)) by {
        reveal_with_fuel(pow2, 7);
    }
    let raw = RETRY_DELAY_MS * factor;
    if raw > MAX_RETRY_DELAY_MS {
        MAX_RETRY_DELAY_MS
    } else {
        raw
    }
}

/// Backoff doubles from one attempt to the next until it reaches the cap: the first retry
/// (and an attempt numbered 0, treated like the first) waits `RETRY_DELAY_MS`, and each later one waits twice as long as the one before it,
/// but never longer than `MAX_RETRY_DELAY_MS`.
pub proof fn law_backoff_doubles_until_the_cap(attempt: u32)
    requires
        1 <= attempt < u32::MAX,
    ensures
        retry_delay_spec(0) == RETRY_DELAY_MS,
        retry_delay_spec(1) == RETRY_DELAY_MS,
        retry_delay_spec(attempt) <= retry_delay_spec((attempt + 1) as u32),
        retry_delay_spec((attempt + 1) as u32) == if 2 * retry_delay_spec(attempt) < MAX_RETRY_DELAY_MS {
            2 * retry_delay_spec(attempt)
        } else {
            MAX_RETRY_DELAY_MS as int
        },
{
    reveal_with_fuel(pow2, 7);
}

/// Which URL extension attempt `attempt` uses: `.ts` for even attempts, `.m3u8` for odd.
pub open spec fn extension_spec(attempt: u32) -> Seq<char> {
    if attempt % 2 == 0 {
        ".ts"@
    } else {
        ".m3u8"@
    }
}

/// A point-in-time view for the UI. Carries both identity and ordering so a late snapshot
/// cannot overwrite a newer event.
#[derive(Debug, Clone, PartialEq)]
pub struct Snapshot {
    pub generation: Generation,
    /// Strictly increasing across every observable change, for any generation.
    pub revision: u64,
    pub station_id: Option<String>,
    pub state: PlaybackState,
    pub buffering_reason: Option<BufferingReason>,
    pub attempt: u32,
    pub bitrate_kbps: Option<u32>,
    pub sample_rate: Option<u32>,
    pub device: Option<String>,
    /// Already redacted. Never carries credentials.
    pub error: Option<String>,
}

/// The view of an optional string.
pub open spec fn opt_str(o: Option<String>) -> Option<Seq<char>> {
    match o {
        Some(s) => Some(s@),
        None => None,
    }
}

/// The mathematical state of a [`Controller`].
pub struct ControllerView {
    pub generation: u64,
    pub revision: u64,
    pub state: PlaybackState,
    pub station_id: Option<Seq<char>>,
    pub buffering_reason: Option<BufferingReason>,
    pub attempt: u32,
    pub bitrate_kbps: Option<u32>,
    pub sample_rate: Option<u32>,
    pub device: Option<Seq<char>>,
    pub error: Option<Seq<char>>,
    /// Monotonic milliseconds at which the current Playing stretch began.
    pub playing_since_ms: Option<u64>,
}

impl ControllerView {
    /// Whether a completion belonging to `g` may still affect state.
    pub open spec fn accepts(self, g: u64) -> bool {
        g == self.generation && self.state != PlaybackState::Stopped
    }

    /// Room for one more generation and one more revision.
    pub open spec fn has_room(self) -> bool {
        self.generation < u64::MAX && self.revision < u64::MAX
    }

    /// Everything a snapshot exposes.
    pub open spec fn observable(self) -> (
        u64,
        Option<Seq<char>>,
        PlaybackState,
        Option<BufferingReason>,
        u32,
        Option<u32>,
        Option<u32>,
        Option<Seq<char>>,
        Option<Seq<char>>,
    ) {
        (
            self.generation,
            self.station_id,
            self.state,
            self.buffering_reason,
            self.attempt,
            self.bitrate_kbps,
            self.sample_rate,
            self.device,
            self.error,
        )
    }
}

/// The state of a fresh controller.
pub open spec fn initial_view() -> ControllerView {
    ControllerView {
        generation: 0,
        revision: 0,
        state: PlaybackState::Stopped,
        station_id: None,
        buffering_reason: None,
        attempt: 0,
        bitrate_kbps: None,
        sample_rate: None,
        device: None,
        error: None,
        playing_since_ms: None,
    }
}

/// A play request: a fresh generation, `Connecting`, and the previous session's metadata
/// cleared. The device preference is kept.
pub open spec fn play_spec(v: ControllerView, station: Seq<char>) -> ControllerView {
    ControllerView {
        generation: (v.generation + 1) as u64,
        revision: (v.revision + 1) as u64,
        state: PlaybackState::Connecting,
        station_id: Some(station),
        buffering_reason: Some(BufferingReason::Connecting),
        attempt: 0,
        bitrate_kbps: None,
        sample_rate: None,
        device: v.device,
        error: None,
        playing_since_ms: None,
    }
}

/// A stop: a fresh generation, `Stopped`, everything but the device cleared.
pub open spec fn stop_spec(v: ControllerView) -> ControllerView {
    ControllerView {
        generation: (v.generation + 1) as u64,
        revision: (v.revision + 1) as u64,
        state: PlaybackState::Stopped,
        station_id: None,
        buffering_reason: None,
        attempt: 0,
        bitrate_kbps: None,
        sample_rate: None,
        device: v.device,
        error: None,
        playing_since_ms: None,
    }
}

/// Transport connected but audio is not flowing yet.
pub open spec fn buffering_spec(v: ControllerView, g: u64, reason: BufferingReason) -> ControllerView {
    if !v.accepts(g) {
        v
    } else {
        ControllerView {
            revision: (v.revision + 1) as u64,
            state: PlaybackState::Buffering,
            buffering_reason: Some(reason),
            playing_since_ms: None,
            ..v
        }
    }
}

/// The output device is consuming samples for this session.
pub open spec fn audible_spec(v: ControllerView, g: u64, now_ms: u64) -> ControllerView {
    if !v.accepts(g) {
        v
    } else {
        ControllerView {
            revision: (v.revision + 1) as u64,
            state: PlaybackState::Playing,
            buffering_reason: None,
            error: None,
            playing_since_ms: match v.playing_since_ms {
                Some(t) => Some(t),
                None => Some(now_ms),
            },
            ..v
        }
    }
}

/// Whether the playing stretch that just ended lasted long enough to refill the budget.
pub open spec fn stable_play_elapsed(v: ControllerView, now_ms: u64) -> bool {
    match v.playing_since_ms {
        Some(since) => now_ms >= since && now_ms - since >= STABLE_PLAY_RESET_MS,
        None => false,
    }
}

/// The attempt count a failure starts from: refilled to zero after sustained playback.
pub open spec fn attempts_before_failure(v: ControllerView, now_ms: u64) -> u32 {
    if stable_play_elapsed(v, now_ms) {
        0
    } else {
        v.attempt
    }
}

/// What the controller wants done after a failure.
#[derive(Debug, Clone, Copy, PartialEq, Eq)]
pub enum Next {
    Retry { attempt: u32, delay_ms: u64, extension: &'static str },
    GiveUp,
}

/// The decision a failure produces, with the extension as a character sequence.
pub enum NextView {
    Retry { attempt: u32, delay_ms: u64, extension: Seq<char> },
    GiveUp,
}

pub open spec fn next_view(n: Next) -> NextView {
    match n {
        Next::Retry { attempt, delay_ms, extension } => NextView::Retry {
            attempt,
            delay_ms,
            extension: extension@,
        },
        Next::GiveUp => NextView::GiveUp,
    }
}

/// Whether a failure of `class` after `attempts` earlier attempts is final. A permanent
/// error always is; a transient one once the attempts reach [`MAX_CONNECT_ATTEMPTS`].
pub open spec fn gives_up(class: ErrorClass, attempts: u32) -> bool {
    class == ErrorClass::Permanent || attempts + 1 >= MAX_CONNECT_ATTEMPTS
}

/// State after a failure report.
pub open spec fn error_spec(v: ControllerView, g: u64, class: ErrorClass, msg: Seq<char>, now_ms: u64) -> ControllerView {
    if !v.accepts(g) {
        v
    } else {
        let base = attempts_before_failure(v, now_ms);
        if class == ErrorClass::Permanent {
            ControllerView {
                revision: (v.revision + 1) as u64,
                state: PlaybackState::Failed,
                buffering_reason: None,
                error: Some(msg),
                attempt: base,
                playing_since_ms: None,
                ..v
            }
        } else if base + 1 >= MAX_CONNECT_ATTEMPTS {
            ControllerView {
                revision: (v.revision + 1) as u64,
                state: PlaybackState::Failed,
                buffering_reason: None,
                error: Some(msg),
                attempt: (base + 1) as u32,
                playing_since_ms: None,
                ..v
            }
        } else {
            ControllerView {
                revision: (v.revision + 1) as u64,
                state: PlaybackState::Recovering,
                buffering_reason: Some(BufferingReason::Reconnecting),
                error: None,
                attempt: (base + 1) as u32,
                playing_since_ms: None,
                ..v
            }
        }
    }
}

/// The step a failure report asks for.
pub open spec fn error_next_spec(v: ControllerView, g: u64, class: ErrorClass, now_ms: u64) -> Option<NextView> {
    if !v.accepts(g) {
        None
    } else if gives_up(class, attempts_before_failure(v, now_ms)) {
        Some(NextView::GiveUp)
    } else {
        let a = (attempts_before_failure(v, now_ms) + 1) as u32;
        Some(NextView::Retry { attempt: a, delay_ms: retry_delay_spec(a), extension: extension_spec(a) })
    }
}

/// A bitrate report; a repeated value is not a change.
pub open spec fn bitrate_spec(v: ControllerView, g: u64, kbps: Option<u32>) -> ControllerView {
    if !v.accepts(g) || v.bitrate_kbps == kbps {
        v
    } else {
        ControllerView { revision: (v.revision + 1) as u64, bitrate_kbps: kbps, ..v }
    }
}

/// A format report.
pub open spec fn format_spec(v: ControllerView, g: u64, rate: u32) -> ControllerView {
    if !v.accepts(g) {
        v
    } else {
        ControllerView { revision: (v.revision + 1) as u64, sample_rate: Some(rate), ..v }
    }
}

/// The effective output device; independent of sessions.
pub open spec fn device_spec(v: ControllerView, device: Option<Seq<char>>) -> ControllerView {
    if v.device == device {
        v
    } else {
        ControllerView { revision: (v.revision + 1) as u64, device, ..v }
    }
}

/// State after `n` consecutive transient failures of session `g`, all reported at `now_ms`.
pub open spec fn after_transient_failures(v: ControllerView, g: u64, n: nat, now_ms: u64) -> ControllerView
    decreases n,
{
    if n == 0 {
        v
    } else {
        error_spec(after_transient_failures(v, g, (n - 1) as nat, now_ms), g, ErrorClass::Transient, Seq::empty(), now_ms)
    }
}

/// State after a sequence of flapping cycles: each cycle becomes audible at `t.0` and then
/// fails transiently at `t.1`.
pub open spec fn after_flapping(v: ControllerView, g: u64, cycles: Seq<(u64, u64)>) -> ControllerView
    decreases cycles.len(),
{
    if cycles.len() == 0 {
        v
    } else {
        let prev = after_flapping(v, g, cycles.drop_last());
        let t = cycles.last();
        error_spec(audible_spec(prev, g, t.0), g, ErrorClass::Transient, Seq::empty(), t.1)
    }
}

/// One call on a controller, with the values its contract reads.
pub enum ControllerOp {
    Play(Seq<char>),
    Stop,
    Buffering(u64, BufferingReason),
    Audible(u64, u64),
    Error(u64, ErrorClass, Seq<char>, u64),
    Bitrate(u64, Option<u32>),
    Format(u64, u32),
    Device(Option<Seq<char>>),
}

/// The controller after one call, as that call's contract states it.
pub open spec fn apply_op(v: ControllerView, op: ControllerOp) -> ControllerView {
    match op {
        ControllerOp::Play(station) => play_spec(v, station),
        ControllerOp::Stop => stop_spec(v),
        ControllerOp::Buffering(g, reason) => buffering_spec(v, g, reason),
        ControllerOp::Audible(g, now_ms) => audible_spec(v, g, now_ms),
        ControllerOp::Error(g, class, msg, now_ms) => error_spec(v, g, class, msg, now_ms),
        ControllerOp::Bitrate(g, kbps) => bitrate_spec(v, g, kbps),
        ControllerOp::Format(g, rate) => format_spec(v, g, rate),
        ControllerOp::Device(device) => device_spec(v, device),
    }
}

/// The controller after a run of calls.
pub open spec fn run_ops(v: ControllerView, ops: Seq<ControllerOp>) -> ControllerView
    decreases ops.len(),
{
    if ops.len() == 0 {
        v
    } else {
        apply_op(run_ops(v, ops.drop_last()), ops.last())
    }
}

/// How many of the calls are plays or stops.
pub open spec fn plays_and_stops(ops: Seq<ControllerOp>) -> nat
    decreases ops.len(),
{
    if ops.len() == 0 {
        0
    } else {
        plays_and_stops(ops.drop_last()) + match ops.last() {
            ControllerOp::Play(_) | ControllerOp::Stop => 1nat,
            _ => 0nat,
        }
    }
}

/// From a fresh controller, the generation counts the plays and stops exactly: each
/// raises it by one and every other call leaves it, so a generation is never reused.
/// The revision grows by at most one per call.
pub proof fn law_generation_counts_plays_and_stops(ops: Seq<ControllerOp>)
    requires
        ops.len() < u64::MAX,
    ensures
        run_ops(initial_view(), ops).generation == plays_and_stops(ops),
        run_ops(initial_view(), ops).revision <= ops.len(),
    decreases ops.len(),
{
    if ops.len() > 0 {
        law_generation_counts_plays_and_stops(ops.drop_last());
        lemma_plays_and_stops_bounded(ops.drop_last());
    }
}

proof fn lemma_plays_and_stops_bounded(ops: Seq<ControllerOp>)
    ensures
        plays_and_stops(ops) <= ops.len(),
    decreases ops.len(),
{
    if ops.len() > 0 {
        lemma_plays_and_stops_bounded(ops.drop_last());
    }
}

/// On any controller reached from a fresh one, stopped means no station, and a stopped
/// controller holds no attempt, buffering reason, bitrate, sample rate or error: only a
/// play leaves `Stopped`, and no report is taken while stopped.
pub proof fn law_stopped_means_no_session(ops: Seq<ControllerOp>)
    ensures
        (run_ops(initial_view(), ops).state == PlaybackState::Stopped) == (run_ops(initial_view(), ops).station_id is None),
        run_ops(initial_view(), ops).state == PlaybackState::Stopped ==> {
            let v = run_ops(initial_view(), ops);
            &&& v.attempt == 0
            &&& v.buffering_reason is None
            &&& v.bitrate_kbps is None
            &&& v.sample_rate is None
            &&& v.error is None
        },
    decreases ops.len(),
{
    if ops.len() > 0 {
        law_stopped_means_no_session(ops.drop_last());
    }
}

/// A bitrate report repeated right after changes nothing, whatever the counters: the
/// first one either was refused or already recorded that bitrate.
pub proof fn law_repeated_bitrate_reports_change_nothing(v: ControllerView, g: u64, kbps: Option<u32>)
    ensures
        bitrate_spec(bitrate_spec(v, g, kbps), g, kbps) == bitrate_spec(v, g, kbps),
        !(bitrate_spec(v, g, kbps).accepts(g) && bitrate_spec(v, g, kbps).bitrate_kbps != kbps),
{
}

/// Every accepted play or stop takes a generation strictly greater than any before it, so
/// two selections of the same station are two distinct sessions.
pub proof fn law_generations_are_fresh(v: ControllerView, station: Seq<char>)
    requires
        v.has_room(),
    ensures
        play_spec(v, station).generation > v.generation,
        stop_spec(v).generation > v.generation,
        play_spec(play_spec(v, station), station).generation != play_spec(v, station).generation
            || !play_spec(v, station).has_room(),
{
}

/// A completion that belongs to another generation, or arrives after a stop, changes
/// nothing and asks for nothing.
pub proof fn law_stale_completions_change_nothing(
    v: ControllerView,
    g: u64,
    reason: BufferingReason,
    class: ErrorClass,
    msg: Seq<char>,
    now_ms: u64,
    kbps: Option<u32>,
    rate: u32,
)
    requires
        !v.accepts(g),
    ensures
        buffering_spec(v, g, reason) == v,
        audible_spec(v, g, now_ms) == v,
        error_spec(v, g, class, msg, now_ms) == v,
        error_next_spec(v, g, class, now_ms) is None,
        bitrate_spec(v, g, kbps) == v,
        format_spec(v, g, rate) == v,
{
}

/// A stopped controller accepts nothing, not even its own current generation.
pub proof fn law_stop_rejects_every_generation(v: ControllerView, g: u64)
    ensures
        !stop_spec(v).accepts(g),
        !initial_view().accepts(g),
{
}

/// The revision never decreases, and every change a snapshot can observe advances it.
pub proof fn law_revision_orders_every_observable_change(
    v: ControllerView,
    g: u64,
    station: Seq<char>,
    reason: BufferingReason,
    class: ErrorClass,
    msg: Seq<char>,
    now_ms: u64,
    kbps: Option<u32>,
    rate: u32,
    device: Option<Seq<char>>,
)
    requires
        v.has_room(),
    ensures
        play_spec(v, station).revision > v.revision,
        stop_spec(v).revision > v.revision,
        buffering_spec(v, g, reason).revision >= v.revision,
        buffering_spec(v, g, reason).observable() != v.observable()
            ==> buffering_spec(v, g, reason).revision > v.revision,
        audible_spec(v, g, now_ms).revision >= v.revision,
        audible_spec(v, g, now_ms).observable() != v.observable()
            ==> audible_spec(v, g, now_ms).revision > v.revision,
        error_spec(v, g, class, msg, now_ms).revision >= v.revision,
        error_spec(v, g, class, msg, now_ms).observable() != v.observable()
            ==> error_spec(v, g, class, msg, now_ms).revision > v.revision,
        bitrate_spec(v, g, kbps).revision >= v.revision,
        bitrate_spec(v, g, kbps).observable() != v.observable()
            ==> bitrate_spec(v, g, kbps).revision > v.revision,
        format_spec(v, g, rate).revision >= v.revision,
        format_spec(v, g, rate).observable() != v.observable()
            ==> format_spec(v, g, rate).revision > v.revision,
        device_spec(v, device).revision >= v.revision,
        device_spec(v, device).observable() != v.observable()
            ==> device_spec(v, device).revision > v.revision,
{
}

/// A permanent failure of the current session is final at once and does not consume an
/// attempt.
pub proof fn law_permanent_failures_never_retry(v: ControllerView, g: u64, msg: Seq<char>, now_ms: u64)
    requires
        v.accepts(g),
    ensures
        error_next_spec(v, g, ErrorClass::Permanent, now_ms) == Some(NextView::GiveUp),
        error_spec(v, g, ErrorClass::Permanent, msg, now_ms).state == PlaybackState::Failed,
        error_spec(v, g, ErrorClass::Permanent, msg, now_ms).attempt == attempts_before_failure(v, now_ms),
        error_spec(v, g, ErrorClass::Permanent, msg, now_ms).error == Some(msg),
{
}

/// Consecutive transient failures of a fresh session retry with attempts 1, 2, ... and
/// give up exactly at [`MAX_CONNECT_ATTEMPTS`], leaving the session `Failed`.
pub proof fn law_transient_retries_are_bounded(v: ControllerView, station: Seq<char>, n: nat, now_ms: u64)
    requires
        v.has_room(),
        v.revision + MAX_CONNECT_ATTEMPTS + 1 < u64::MAX,
        1 <= n <= MAX_CONNECT_ATTEMPTS,
    ensures
        ({
            let p = play_spec(v, station);
            let before = after_transient_failures(p, p.generation, (n - 1) as nat, now_ms);
            &&& before.attempt == n - 1
            &&& before.accepts(p.generation)
            &&& n < MAX_CONNECT_ATTEMPTS ==> error_next_spec(before, p.generation, ErrorClass::Transient, now_ms)
                == Some(NextView::Retry { attempt: n as u32, delay_ms: retry_delay_spec(n as u32), extension: extension_spec(n as u32) })
            &&& n == MAX_CONNECT_ATTEMPTS ==> error_next_spec(before, p.generation, ErrorClass::Transient, now_ms)
                == Some(NextView::GiveUp)
            &&& n == MAX_CONNECT_ATTEMPTS ==> after_transient_failures(p, p.generation, n, now_ms).state
                == PlaybackState::Failed
        }),
    decreases n,
{
    let p = play_spec(v, station);
    if n > 1 {
        law_transient_retries_are_bounded(v, station, (n - 1) as nat, now_ms);
    }
}

/// A stream that keeps becoming audible and dropping again before
/// [`STABLE_PLAY_RESET_MS`] has passed never refills its budget: each cycle spends one
/// attempt, and the session fails after [`MAX_CONNECT_ATTEMPTS`] cycles.
pub proof fn law_flapping_streams_terminate(v: ControllerView, station: Seq<char>, cycles: Seq<(u64, u64)>)
    requires
        v.has_room(),
        v.revision + 2 * MAX_CONNECT_ATTEMPTS + 2 < u64::MAX,
        1 <= cycles.len() <= MAX_CONNECT_ATTEMPTS,
        forall|i: int| 0 <= i < cycles.len() ==> #[trigger] cycles[i].0 <= cycles[i].1
            && cycles[i].1 - cycles[i].0 < STABLE_PLAY_RESET_MS,
    ensures
        ({
            let p = play_spec(v, station);
            let after = after_flapping(p, p.generation, cycles);
            &&& after.attempt == cycles.len()
            &&& after.revision == p.revision + 2 * cycles.len()
            &&& after.playing_since_ms is None
            &&& after.generation == p.generation
            &&& (after.state == PlaybackState::Failed) == (cycles.len() == MAX_CONNECT_ATTEMPTS)
            &&& cycles.len() < MAX_CONNECT_ATTEMPTS ==> after.state == PlaybackState::Recovering
        }),
    decreases cycles.len(),
{
    let p = play_spec(v, station);
    if cycles.len() > 1 {
        let prefix = cycles.drop_last();
        assert forall|i: int| 0 <= i < prefix.len() implies #[trigger] prefix[i].0 <= prefix[i].1
            && prefix[i].1 - prefix[i].0 < STABLE_PLAY_RESET_MS by {
            assert(prefix[i] == cycles[i]);
        }
        law_flapping_streams_terminate(v, station, prefix);
    }
    let t = cycles.last();
    assert(t == cycles[cycles.len() - 1]);
    let prev = after_flapping(p, p.generation, cycles.drop_last());
    assert(prev.attempt == cycles.len() - 1);
    assert(prev.playing_since_ms is None);
    assert(prev.accepts(p.generation));
    let mid = audible_spec(prev, p.generation, t.0);
    assert(mid.playing_since_ms == Some(t.0));
    assert(!stable_play_elapsed(mid, t.1));
    assert(after_flapping(p, p.generation, cycles) == error_spec(mid, p.generation, ErrorClass::Transient, Seq::empty(), t.1));
}

/// Only uninterrupted audible playback of at least [`STABLE_PLAY_RESET_MS`] refills the
/// retry budget: a failure after it restarts counting from the first attempt.
pub proof fn law_budget_refills_only_after_sustained_playback(v: ControllerView, g: u64, msg: Seq<char>, now_ms: u64)
    requires
        v.accepts(g),
        v.attempt < u32::MAX,
    ensures
        stable_play_elapsed(v, now_ms) ==> error_spec(v, g, ErrorClass::Transient, msg, now_ms).attempt == 1,
        !stable_play_elapsed(v, now_ms) ==> error_spec(v, g, ErrorClass::Transient, msg, now_ms).attempt == v.attempt + 1,
{
}

/// The selected device is not per-session, and a new session starts without the previous
/// station's metadata.
pub proof fn law_sessions_keep_the_device_and_clear_metadata(v: ControllerView, station: Seq<char>)
    ensures
        play_spec(v, station).device == v.device,
        stop_spec(v).device == v.device,
        play_spec(v, station).bitrate_kbps is None,
        play_spec(v, station).sample_rate is None,
        play_spec(v, station).error is None,
        play_spec(v, station).attempt == 0,
        play_spec(v, station).station_id == Some(station),
{
}

/// Owns playback truth for the process.
#[derive(Debug)]
pub struct Controller {
    generation: Generation,
    revision: u64,
    state: PlaybackState,
    station_id: Option<String>,
    buffering_reason: Option<BufferingReason>,
    attempt: u32,
    bitrate_kbps: Option<u32>,
    sample_rate: Option<u32>,
    device: Option<String>,
    error: Option<String>,
    playing_since_ms: Option<u64>,
}

impl View for Controller {
    type V = ControllerView;

    closed spec fn view(&self) -> ControllerView {
        ControllerView {
            generation: self.generation.0,
            revision: self.revision,
            state: self.state,
            station_id: opt_str(self.station_id),
            buffering_reason: self.buffering_reason,
            attempt: self.attempt,
            bitrate_kbps: self.bitrate_kbps,
            sample_rate: self.sample_rate,
            device: opt_str(self.device),
            error: opt_str(self.error),
            playing_since_ms: self.playing_since_ms,
        }
    }
}

impl Default for Controller {
    fn default() -> (r: Self)
        ensures
            r@ == initial_view(),
    {
        Self::new()
    }
}

fn clone_opt_string(o: &Option<String>) -> (r: Option<String>)
    ensures
        opt_str(r) == opt_str(*o),
{
    match o {
        Some(s) => Some(s.clone()),
        None => None,
    }
}

fn opt_string_eq(a: &Option<String>, b: &Option<String>) -> (r: bool)
    ensures
        r <==> opt_str(*a) == opt_str(*b),
{
    match (a, b) {
        (Some(x), Some(y)) => String::eq(x, y),
        (None, None) => true,
        _ => false,
    }
}

fn string_of(s: &str) -> (r: String)
    ensures
        r@ == s@,
{
    String::from_str(s)
}

impl Controller {
    pub fn new() -> (r: Self)
        ensures
            r@ == initial_view(),
    {
        Controller {
            generation: Generation(0),
            revision: 0,
            state: PlaybackState::Stopped,
            station_id: None,
            buffering_reason: None,
            attempt: 0,
            bitrate_kbps: None,
            sample_rate: None,
            device: None,
            error: None,
            playing_since_ms: None,
        }
    }

    fn bump(&mut self)
        requires
            old(self)@.revision < u64::MAX,
        ensures
            final(self)@ == (ControllerView { revision: (old(self)@.revision + 1) as u64, ..old(self)@ }),
    {
        self.revision = self.revision + 1;
    }

    /// Accept a play request and start a new session. Always allocates a fresh
    /// generation, even for the station already playing.
    pub fn play(&mut self, station_id: &str) -> (r: Generation)
        requires
            old(self)@.has_room(),
        ensures
            final(self)@ == play_spec(old(self)@, station_id@),
            r@ == final(self)@.generation,
    {
        self.generation = Generation(self.generation.0 + 1);
        self.station_id = Some(string_of(station_id));
        self.state = PlaybackState::Connecting;
        self.buffering_reason = Some(BufferingReason::Connecting);
        self.attempt = 0;
        self.bitrate_kbps = None;
        self.sample_rate = None;
        self.error = None;
        self.playing_since_ms = None;
        self.bump();
        self.generation
    }

    /// Accept a stop. Invalidates the current session by taking a new generation.
    pub fn stop(&mut self) -> (r: Generation)
        requires
            old(self)@.has_room(),
        ensures
            final(self)@ == stop_spec(old(self)@),
            r@ == final(self)@.generation,
    {
        self.generation = Generation(self.generation.0 + 1);
        self.state = PlaybackState::Stopped;
        self.station_id = None;
        self.buffering_reason = None;
        self.attempt = 0;
        self.bitrate_kbps = None;
        self.sample_rate = None;
        self.error = None;
        self.playing_since_ms = None;
        self.bump();
        self.generation
    }

    pub fn generation(&self) -> (r: Generation)
        ensures
            r@ == self@.generation,
    {
        self.generation
    }

    pub fn state(&self) -> (r: PlaybackState)
        ensures
            r == self@.state,
    {
        self.state
    }

    pub fn attempt(&self) -> (r: u32)
        ensures
            r == self@.attempt,
    {
        self.attempt
    }

    /// Whether a completion belonging to `generation` may still affect state.
    pub fn accepts(&self, generation: Generation) -> (r: bool)
        ensures
            r == self@.accepts(generation@),
    {
        generation.0 == self.generation.0 && self.state != PlaybackState::Stopped
    }

    /// Which URL extension attempt `attempt` should use: `.ts` and `.m3u8` alternate.
    pub fn extension_for_attempt(attempt: u32) -> (r: &'static str)
        ensures
            r@ == extension_spec(attempt),
    {
        if attempt % 2 == 0 {
            ".ts"
        } else {
            ".m3u8"
        }
    }

    /// Report that the transport connected but audio is not flowing yet.
    pub fn on_buffering(&mut self, generation: Generation, reason: BufferingReason) -> (r: bool)
        requires
            old(self)@.has_room(),
        ensures
            r == old(self)@.accepts(generation@),
            final(self)@ == buffering_spec(old(self)@, generation@, reason),
    {
        if !self.accepts(generation) {
            return false;
        }
        self.state = PlaybackState::Buffering;
        self.buffering_reason = Some(reason);
        self.playing_since_ms = None;
        self.bump();
        true
    }

    /// Report that the output device is actually consuming samples for this session.
    pub fn on_audible(&mut self, generation: Generation, now_ms: u64) -> (r: bool)
        requires
            old(self)@.has_room(),
        ensures
            r == old(self)@.accepts(generation@),
            final(self)@ == audible_spec(old(self)@, generation@, now_ms),
    {
        if !self.accepts(generation) {
            return false;
        }
        if self.playing_since_ms.is_none() {
            self.playing_since_ms = Some(now_ms);
        }
        self.state = PlaybackState::Playing;
        self.buffering_reason = None;
        self.error = None;
        self.bump();
        true
    }

    /// Report a failure. Returns the next step. The retry budget refills only after
    /// [`STABLE_PLAY_RESET_MS`] of uninterrupted audible playback.
    pub fn on_error(&mut self, generation: Generation, class: ErrorClass, redacted_message: &str, now_ms: u64) -> (r: Option<Next>)
        requires
            old(self)@.has_room(),
            old(self)@.attempt < u32::MAX,
        ensures
            final(self)@ == error_spec(old(self)@, generation@, class, redacted_message@, now_ms),
            match r {
                Some(n) => error_next_spec(old(self)@, generation@, class, now_ms) == Some(next_view(n)),
                None => error_next_spec(old(self)@, generation@, class, now_ms) is None,
            },
    {
        if !self.accepts(generation) {
            return None;
        }
        match self.playing_since_ms {
            Some(since) => {
                if now_ms >= since && now_ms - since >= STABLE_PLAY_RESET_MS {
                    self.attempt = 0;
                }
            },
            None => {},
        }
        self.playing_since_ms = None;

        if class == ErrorClass::Permanent {
            self.state = PlaybackState::Failed;
            self.buffering_reason = None;
            self.error = Some(string_of(redacted_message));
            self.bump();
            return Some(Next::GiveUp);
        }
        self.attempt = self.attempt + 1;
        if self.attempt >= MAX_CONNECT_ATTEMPTS {
            self.state = PlaybackState::Failed;
            self.buffering_reason = None;
            self.error = Some(string_of(redacted_message));
            self.bump();
            return Some(Next::GiveUp);
        }
        self.state = PlaybackState::Recovering;
        self.buffering_reason = Some(BufferingReason::Reconnecting);
        self.error = None;
        self.bump();
        let attempt = self.attempt;
        Some(Next::Retry {
            attempt,
            delay_ms: retry_delay_ms(attempt),
            extension: Self::extension_for_attempt(attempt),
        })
    }

    pub fn set_bitrate(&mut self, generation: Generation, kbps: Option<u32>) -> (r: bool)
        requires
            old(self)@.has_room(),
        ensures
            r == (old(self)@.accepts(generation@) && old(self)@.bitrate_kbps != kbps),
            final(self)@ == bitrate_spec(old(self)@, generation@, kbps),
    {
        if !self.accepts(generation) || self.bitrate_kbps == kbps {
            return false;
        }
        self.bitrate_kbps = kbps;
        self.bump();
        true
    }

    pub fn set_format(&mut self, generation: Generation, sample_rate: u32) -> (r: bool)
        requires
            old(self)@.has_room(),
        ensures
            r == old(self)@.accepts(generation@),
            final(self)@ == format_spec(old(self)@, generation@, sample_rate),
    {
        if !self.accepts(generation) {
            return false;
        }
        self.sample_rate = Some(sample_rate);
        self.bump();
        true
    }

    /// The effective output device. Tracked independently of sessions so a station
    /// change does not erase it.
    pub fn set_device(&mut self, device: Option<String>)
        requires
            old(self)@.has_room(),
        ensures
            final(self)@ == device_spec(old(self)@, opt_str(device)),
    {
        if !opt_string_eq(&self.device, &device) {
            self.device = device;
            self.bump();
        }
    }

    pub fn snapshot(&self) -> (r: Snapshot)
        ensures
            r.generation@ == self@.generation,
            r.revision == self@.revision,
            opt_str(r.station_id) == self@.station_id,
            r.state == self@.state,
            r.buffering_reason == self@.buffering_reason,
            r.attempt == self@.attempt,
            r.bitrate_kbps == self@.bitrate_kbps,
            r.sample_rate == self@.sample_rate,
            opt_str(r.device) == self@.device,
            opt_str(r.error) == self@.error,
    {
        Snapshot {
            generation: self.generation,
            revision: self.revision,
            station_id: clone_opt_string(&self.station_id),
            state: self.state,
            buffering_reason: self.buffering_reason,
            attempt: self.attempt,
            bitrate_kbps: self.bitrate_kbps,
            sample_rate: self.sample_rate,
            device: clone_opt_string(&self.device),
            error: clone_opt_string(&self.error),
        }
    }
}

} // verus!
