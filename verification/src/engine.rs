//! The decisions of a playback session, apart from the threads, rings and devices that
//! carry them out: validating the buffering settings, classifying a failure, the
//! single-attempt latch that lets exactly one startup outcome through, and the decode
//! loop's bookkeeping of what has already been reported.
use vstd::prelude::*;
use crate::output::{frames_for_millis_spec, BufferState};
use crate::session::{BufferingReason, ErrorClass, Generation};
use crate::source::SourceError;
use crate::text::{push_str, push_string, string_from_chars};

verus! {

// ---------------------------------------------------------------------------------------
// Buffering
// ---------------------------------------------------------------------------------------

/// Decoded audio buffering, fixed for the lifetime of an output session.
#[derive(Debug, Clone, Copy, PartialEq, Eq, Structural)]
pub struct BufferSettings {
    pub capacity_ms: u64,
    pub start_ms: u64,
    pub rebuffer_ms: u64,
}

impl Default for BufferSettings {
    fn default() -> (r: Self)
        ensures
            r.capacity_ms == 2000,
            r.start_ms == 500,
            r.rebuffer_ms == 150,
    {
        BufferSettings { capacity_ms: 2000, start_ms: 500, rebuffer_ms: 150 }
    }
}

/// Why buffering settings are refused, or `None` when they are usable: the capacity is
/// 100 to 10,000 ms, the startup buffer at least 50 ms and within the capacity, and the
/// rebuffer threshold below the startup buffer.
pub open spec fn buffer_settings_problem(s: BufferSettings) -> Option<Seq<char>> {
    if !(100 <= s.capacity_ms && s.capacity_ms <= 10_000) {
        Some("Buffer capacity must be between 100 and 10,000 ms"@)
    } else if s.start_ms < 50 || s.start_ms > s.capacity_ms {
        Some("Startup buffer must be at least 50 ms and no greater than capacity"@)
    } else if s.rebuffer_ms >= s.start_ms {
        Some("Rebuffer threshold must be less than the startup buffer"@)
    } else {
        None
    }
}

impl BufferSettings {
    pub fn validate(&self) -> (r: Result<(), String>)
        ensures
            match buffer_settings_problem(*self) {
                Some(m) => r matches Err(e) && e@ == m,
                None => r is Ok,
            },
    {
        if !(100 <= self.capacity_ms && self.capacity_ms <= 10_000) {
            return Err(String::from_str("Buffer capacity must be between 100 and 10,000 ms"));
        }
        if self.start_ms < 50 || self.start_ms > self.capacity_ms {
            return Err(
                String::from_str("Startup buffer must be at least 50 ms and no greater than capacity"),
            );
        }
        if self.rebuffer_ms >= self.start_ms {
            return Err(String::from_str("Rebuffer threshold must be less than the startup buffer"));
        }
        Ok(())
    }
}

/// Settings that validate give the output gate what it needs at any real device rate:
/// the rebuffer threshold stays strictly below the startup threshold once both are
/// converted to frames, the startup threshold fits inside the ring, and the
/// conversions cannot overflow.
pub proof fn law_valid_buffering_gives_a_working_gate(s: BufferSettings, sample_rate: u32)
    requires
        buffer_settings_problem(s) is None,
        sample_rate >= 1000,
    ensures
        frames_for_millis_spec(sample_rate, s.rebuffer_ms) < frames_for_millis_spec(sample_rate, s.start_ms),
        frames_for_millis_spec(sample_rate, s.start_ms) <= frames_for_millis_spec(sample_rate, s.capacity_ms),
        sample_rate * s.capacity_ms <= u64::MAX,
{
    let r = sample_rate as int;
    let a = s.rebuffer_ms as int;
    let b = s.start_ms as int;
    let c = s.capacity_ms as int;
    assert(r * a + r <= r * b) by (nonlinear_arith)
        requires
            a + 1 <= b,
            r >= 0,
    ;
    assert((r * a) / 1000 < (r * b) / 1000) by (nonlinear_arith)
        requires
            r * a + r <= r * b,
            r >= 1000,
            a >= 0,
    ;
    assert((r * b) / 1000 <= (r * c) / 1000) by (nonlinear_arith)
        requires
            b <= c,
            r >= 0,
    ;
    assert(r * c <= 0xffff_ffff * 10_000) by (nonlinear_arith)
        requires
            0 <= r <= 0xffff_ffff,
            0 <= c <= 10_000,
    ;
}

// ---------------------------------------------------------------------------------------
// Failure classes
// ---------------------------------------------------------------------------------------

/// Only two failures are final: content this app cannot play, and a 4xx answer. A
/// transport failure, a 5xx or other status, a demux failure, a cancellation, a stream
/// that ended during detection and a master playlist without variants are all retried.
pub proof fn law_only_unsupported_content_and_client_errors_are_permanent(error: SourceError)
    ensures
        classify_spec(error) == ErrorClass::Permanent <==> (error is Unsupported || (error matches SourceError::Status {
            status,
            ..
        } && 400 <= status < 500)),
        classify_spec(error) == ErrorClass::Transient <==> classify_spec(error) != ErrorClass::Permanent,
        error is Network ==> classify_spec(error) == ErrorClass::Transient,
{
}

/// Whether retrying could possibly help. Unsupported content cannot be fixed by asking
/// again, and a 4xx says the request itself is wrong (bad credentials, an unknown
/// channel). A 5xx says the server could not serve it now, so it stays retryable.
pub open spec fn classify_spec(error: SourceError) -> ErrorClass {
    match error {
        SourceError::Unsupported(_) => ErrorClass::Permanent,
        SourceError::Status { status, .. } => if 400 <= status && status < 500 {
            ErrorClass::Permanent
        } else {
            ErrorClass::Transient
        },
        _ => ErrorClass::Transient,
    }
}

pub fn classify(error: &SourceError) -> (r: ErrorClass)
    ensures
        r == classify_spec(*error),
{
    match error {
        SourceError::Unsupported(_) => ErrorClass::Permanent,
        SourceError::Status { status, .. } => {
            if 400 <= *status && *status < 500 {
                ErrorClass::Permanent
            } else {
                ErrorClass::Transient
            }
        },
        _ => ErrorClass::Transient,
    }
}

// ---------------------------------------------------------------------------------------
// The connect latch
// ---------------------------------------------------------------------------------------

/// A single-attempt latch. Of the connect watchdog's timeout and the decode thread's
/// first confirmed frame, whichever claims it first is the only startup outcome reported
/// for the attempt. A failure once playback was announced is never held back by it.
#[derive(Debug)]
pub struct ConnectLatch {
    decided: bool,
}

impl View for ConnectLatch {
    type V = bool;

    /// Whether a startup outcome has been claimed.
    closed spec fn view(&self) -> bool {
        self.decided
    }
}

/// A claim on the latch: a confirmed audible frame, or a failure, made before or after
/// playback was announced.
#[derive(Debug, Clone, Copy, PartialEq, Eq, Structural)]
pub enum Claim {
    Playing,
    Failure { announced_playing: bool },
}

/// Whether a claim is reported, and whether the latch is decided afterwards.
pub open spec fn claim_spec(decided: bool, claim: Claim) -> (bool, bool) {
    match claim {
        Claim::Playing => (!decided, true),
        Claim::Failure { announced_playing } => (
            announced_playing || !decided,
            decided || !announced_playing,
        ),
    }
}

impl ConnectLatch {
    pub fn new() -> (r: Self)
        ensures
            !r@,
    {
        ConnectLatch { decided: false }
    }

    /// The first audible frame claims the latch; it is reported only if nothing else
    /// claimed it first.
    pub fn claim_playing(&mut self) -> (r: bool)
        ensures
            (r, final(self)@) == claim_spec(old(self)@, Claim::Playing),
    {
        let first = !self.decided;
        self.decided = true;
        first
    }

    /// A failure is reported if playback was already announced (the latch is not
    /// consulted then), or if it is the first to claim the latch.
    pub fn claim_failure(&mut self, announced_playing: bool) -> (r: bool)
        ensures
            (r, final(self)@) == claim_spec(old(self)@, Claim::Failure { announced_playing }),
    {
        if announced_playing {
            return true;
        }
        let first = !self.decided;
        self.decided = true;
        first
    }
}

/// Of two startup outcomes claimed on a fresh latch (a confirmed frame, or a failure
/// before playback was announced), in either order, the first is reported and the second
/// is held back. A failure after playback was announced is reported whatever the latch.
pub proof fn law_one_startup_outcome_per_attempt(first: Claim, second: Claim, decided: bool)
    requires
        first != (Claim::Failure { announced_playing: true }),
        second != (Claim::Failure { announced_playing: true }),
    ensures
        claim_spec(false, first).0,
        !claim_spec(claim_spec(false, first).1, second).0,
        claim_spec(decided, Claim::Failure { announced_playing: true }).0,
{
}

// ---------------------------------------------------------------------------------------
// What the decode loop reports
// ---------------------------------------------------------------------------------------

/// A state change the decode loop reports for its generation. The spectrum levels for
/// the visualiser travel separately; they are not playback state.
#[derive(Debug, Clone, PartialEq)]
pub enum EngineEvent {
    Buffering { generation: Generation, reason: BufferingReason },
    Playing { generation: Generation },
    Format { generation: Generation, sample_rate: u32, channels: u16 },
    Bitrate { generation: Generation, kbps: Option<u32> },
    Underrun { generation: Generation, frames: u64 },
    Failed { generation: Generation, class: ErrorClass, message: String },
}

impl EngineEvent {
    /// The generation this event belongs to.
    pub open spec fn generation_spec(&self) -> Generation {
        match self {
            EngineEvent::Buffering { generation, .. } => *generation,
            EngineEvent::Playing { generation } => *generation,
            EngineEvent::Format { generation, .. } => *generation,
            EngineEvent::Bitrate { generation, .. } => *generation,
            EngineEvent::Underrun { generation, .. } => *generation,
            EngineEvent::Failed { generation, .. } => *generation,
        }
    }

    pub fn generation(&self) -> (r: Generation)
        ensures
            r == self.generation_spec(),
    {
        match self {
            EngineEvent::Buffering { generation, .. } => *generation,
            EngineEvent::Playing { generation } => *generation,
            EngineEvent::Format { generation, .. } => *generation,
            EngineEvent::Bitrate { generation, .. } => *generation,
            EngineEvent::Underrun { generation, .. } => *generation,
            EngineEvent::Failed { generation, .. } => *generation,
        }
    }
}

/// What the decode loop has already reported.
/// Whether the decode thread goes on or ends.
#[derive(Debug, Clone, Copy, PartialEq, Eq, Structural)]
pub enum Flow {
    Continue,
    Stop,
}

pub struct MonitorView {
    pub generation: Generation,
    /// Whether playback has been confirmed audible once.
    pub has_played: bool,
    /// The buffer state last seen.
    pub observed: BufferState,
    /// The underrun frame total last reported.
    pub last_underrun: u64,
    /// The bitrate last reported.
    pub last_bitrate: Option<u32>,
}

/// The decode loop's memory of what it has reported, so that every report is a change.
#[derive(Debug)]
pub struct DecodeMonitor {
    generation: Generation,
    has_played: bool,
    observed: BufferState,
    last_underrun: u64,
    last_bitrate: Option<u32>,
}

impl View for DecodeMonitor {
    type V = MonitorView;

    closed spec fn view(&self) -> MonitorView {
        MonitorView {
            generation: self.generation,
            has_played: self.has_played,
            observed: self.observed,
            last_underrun: self.last_underrun,
            last_bitrate: self.last_bitrate,
        }
    }
}

/// The monitor after seeing buffer state `current`.
pub open spec fn observe_spec(m: MonitorView, current: BufferState) -> MonitorView {
    if current == m.observed {
        m
    } else {
        MonitorView {
            observed: current,
            has_played: m.has_played || current == BufferState::Playing,
            ..m
        }
    }
}

impl DecodeMonitor {
    /// A monitor for a fresh session, which starts out buffering while it connects; the
    /// second value is that first report.
    pub fn start(generation: Generation) -> (r: (Self, EngineEvent))
        ensures
            r.0@ == (MonitorView {
                generation,
                has_played: false,
                observed: BufferState::Buffering,
                last_underrun: 0,
                last_bitrate: None,
            }),
            r.1 == (EngineEvent::Buffering { generation, reason: BufferingReason::Connecting }),
    {
        (
            DecodeMonitor {
                generation,
                has_played: false,
                observed: BufferState::Buffering,
                last_underrun: 0,
                last_bitrate: None,
            },
            EngineEvent::Buffering { generation, reason: BufferingReason::Connecting },
        )
    }

    pub fn has_played(&self) -> (r: bool)
        ensures
            r == self@.has_played,
    {
        self.has_played
    }

    /// Reacts to the output gate's state. Only a change is reported: the first move to
    /// playing goes through the latch; later ones are reported as they come; falling back
    /// to buffering after playback is an underrun.
    pub fn observe_buffer(&mut self, current: BufferState, latch: &mut ConnectLatch) -> (r: Option<EngineEvent>)
        ensures
            final(self)@ == observe_spec(old(self)@, current),
            current == old(self)@.observed ==> r is None && final(latch)@ == old(latch)@,
            current != old(self)@.observed && current == BufferState::Playing && !old(self)@.has_played
                ==> final(latch)@ && r == (if old(latch)@ { None } else {
                    Some(EngineEvent::Playing { generation: old(self)@.generation })
                }),
            current != old(self)@.observed && current == BufferState::Playing && old(self)@.has_played
                ==> final(latch)@ == old(latch)@ && r == Some(EngineEvent::Playing { generation: old(self)@.generation }),
            current != old(self)@.observed && current == BufferState::Buffering ==> final(latch)@ == old(latch)@
                && r == (if old(self)@.has_played {
                    Some(EngineEvent::Buffering {
                        generation: old(self)@.generation,
                        reason: BufferingReason::Underrun,
                    })
                } else {
                    None
                }),
    {
        if current == self.observed {
            return None;
        }
        self.observed = current;
        match current {
            BufferState::Playing => {
                if self.has_played {
                    Some(EngineEvent::Playing { generation: self.generation })
                } else {
                    self.has_played = true;
                    if latch.claim_playing() {
                        Some(EngineEvent::Playing { generation: self.generation })
                    } else {
                        None
                    }
                }
            },
            BufferState::Buffering => {
                if self.has_played {
                    Some(EngineEvent::Buffering { generation: self.generation, reason: BufferingReason::Underrun })
                } else {
                    None
                }
            },
        }
    }

    /// Reports a failure of this attempt, unless it is a startup failure and the startup
    /// outcome was already claimed.
    pub fn fail(&self, latch: &mut ConnectLatch, class: ErrorClass, message: String) -> (r: Option<EngineEvent>)
        ensures
            final(latch)@ == (old(latch)@ || !self@.has_played),
            r == (if self@.has_played || !old(latch)@ {
                Some(EngineEvent::Failed { generation: self@.generation, class, message })
            } else {
                None
            }),
    {
        if latch.claim_failure(self.has_played) {
            Some(EngineEvent::Failed { generation: self.generation, class, message })
        } else {
            None
        }
    }

    /// The output device failed: a transient failure, since the device may come back.
    pub fn output_failed(&self, latch: &mut ConnectLatch) -> (r: Option<EngineEvent>)
        ensures
            final(latch)@ == (old(latch)@ || !self@.has_played),
            self@.has_played || !old(latch)@ ==> (r matches Some(EngineEvent::Failed { generation, class, message })
                && generation == self@.generation && class == ErrorClass::Transient
                && message@ == "the audio output device failed"@),
            !(self@.has_played || !old(latch)@) ==> r is None,
    {
        self.fail(latch, ErrorClass::Transient, String::from_str("the audio output device failed"))
    }

    /// The source finished: a clean end is a transient failure for a live stream, and an
    /// error is classified and reported with its message.
    pub fn source_finished(&self, latch: &mut ConnectLatch, outcome: &Result<(), SourceError>) -> (r: Option<EngineEvent>)
        ensures
            final(latch)@ == (old(latch)@ || !self@.has_played),
            self@.has_played || !old(latch)@ ==> (r matches Some(EngineEvent::Failed { generation, class, message })
                && generation == self@.generation && match outcome {
                    Ok(()) => class == ErrorClass::Transient && message@ == "the stream ended"@,
                    Err(e) => class == classify_spec(*e) && message@ == e.message_spec(),
                }),
            !(self@.has_played || !old(latch)@) ==> r is None,
    {
        match outcome {
            Ok(()) => self.fail(latch, ErrorClass::Transient, String::from_str("the stream ended")),
            Err(error) => {
                let class = classify(error);
                self.fail(latch, class, error.to_string())
            },
        }
    }

    /// Decoding or demuxing failed: permanent, the same bytes would fail again.
    /// A poll that found no input waiting. A failed output device ends the thread, with
    /// its failure reported unless the latch holds it back; otherwise the thread polls
    /// again and reports nothing. So an idle session notices a dead device at the next
    /// poll rather than waiting for input that may never come.
    pub fn idle_poll(&self, latch: &mut ConnectLatch, output_failed: bool) -> (r: (Flow, Option<EngineEvent>))
        ensures
            !output_failed ==> r == (Flow::Continue, None::<EngineEvent>) && final(latch)@ == old(latch)@,
            output_failed ==> r.0 == Flow::Stop && final(latch)@ == (old(latch)@ || !self@.has_played),
            output_failed && (self@.has_played || !old(latch)@) ==> (r.1 matches Some(EngineEvent::Failed {
                generation,
                class,
                message,
            }) && generation == self@.generation && class == ErrorClass::Transient
                && message@ == "the audio output device failed"@),
            output_failed && !(self@.has_played || !old(latch)@) ==> r.1 is None,
    {
        if output_failed {
            (Flow::Stop, self.output_failed(latch))
        } else {
            (Flow::Continue, None)
        }
    }

    /// The source task finished: the thread ends, reporting the outcome as
    /// [`DecodeMonitor::source_finished`] does.
    pub fn source_ended(&self, latch: &mut ConnectLatch, outcome: &Result<(), SourceError>) -> (r: (Flow, Option<EngineEvent>))
        ensures
            r.0 == Flow::Stop,
            final(latch)@ == (old(latch)@ || !self@.has_played),
            self@.has_played || !old(latch)@ ==> (r.1 matches Some(EngineEvent::Failed { generation, class, message })
                && generation == self@.generation && match outcome {
                    Ok(()) => class == ErrorClass::Transient && message@ == "the stream ended"@,
                    Err(e) => class == classify_spec(*e) && message@ == e.message_spec(),
                }),
            !(self@.has_played || !old(latch)@) ==> r.1 is None,
    {
        (Flow::Stop, self.source_finished(latch, outcome))
    }

    pub fn pipeline_failed(&self, latch: &mut ConnectLatch, message: String) -> (r: Option<EngineEvent>)
        ensures
            final(latch)@ == (old(latch)@ || !self@.has_played),
            r == (if self@.has_played || !old(latch)@ {
                Some(EngineEvent::Failed { generation: self@.generation, class: ErrorClass::Permanent, message })
            } else {
                None
            }),
    {
        self.fail(latch, ErrorClass::Permanent, message)
    }

    /// The decoded format cannot be converted for the device: permanent.
    pub fn format_failed(&self, latch: &mut ConnectLatch, reason: &str) -> (r: Option<EngineEvent>)
        ensures
            final(latch)@ == (old(latch)@ || !self@.has_played),
            self@.has_played || !old(latch)@ ==> (r matches Some(EngineEvent::Failed { generation, class, message })
                && generation == self@.generation && class == ErrorClass::Permanent
                && message@ == "unsupported audio format: "@ + reason@),
            !(self@.has_played || !old(latch)@) ==> r is None,
    {
        let mut text: Vec<char> = Vec::new();
        push_str(&mut text, "unsupported audio format: ");
        push_str(&mut text, reason);
        self.fail(latch, ErrorClass::Permanent, string_from_chars(text.as_slice()))
    }

    /// The decoded stream's format, reported when it is new or conversion changed.
    pub fn format(&self, changed: bool, sample_rate: u32, channels: u16) -> (r: Option<EngineEvent>)
        ensures
            r == (if changed {
                Some(EngineEvent::Format { generation: self@.generation, sample_rate, channels })
            } else {
                None
            }),
    {
        if changed {
            Some(EngineEvent::Format { generation: self.generation, sample_rate, channels })
        } else {
            None
        }
    }

    /// Reports frames of silence the output filled in since the last report, given the
    /// output's running total.
    pub fn underrun(&mut self, total: u64) -> (r: Option<EngineEvent>)
        ensures
            total > old(self)@.last_underrun ==> r == Some(EngineEvent::Underrun {
                generation: old(self)@.generation,
                frames: (total - old(self)@.last_underrun) as u64,
            }) && final(self)@ == (MonitorView { last_underrun: total, ..old(self)@ }),
            total <= old(self)@.last_underrun ==> r is None && final(self)@ == old(self)@,
    {
        if total > self.last_underrun {
            let frames = total - self.last_underrun;
            self.last_underrun = total;
            Some(EngineEvent::Underrun { generation: self.generation, frames })
        } else {
            None
        }
    }

    /// Reports the bitrate estimate when it differs from the last one reported.
    pub fn bitrate(&mut self, kbps: Option<u32>) -> (r: Option<EngineEvent>)
        ensures
            kbps != old(self)@.last_bitrate ==> r == Some(EngineEvent::Bitrate { generation: old(self)@.generation, kbps })
                && final(self)@ == (MonitorView { last_bitrate: kbps, ..old(self)@ }),
            kbps == old(self)@.last_bitrate ==> r is None && final(self)@ == old(self)@,
    {
        let same = match (kbps, self.last_bitrate) {
            (Some(a), Some(b)) => a == b,
            (None, None) => true,
            _ => false,
        };
        if same {
            None
        } else {
            self.last_bitrate = kbps;
            Some(EngineEvent::Bitrate { generation: self.generation, kbps })
        }
    }
}

/// The frames reported by successive underrun checks against running totals.
pub open spec fn underrun_reports(last: u64, totals: Seq<u64>) -> int
    decreases totals.len(),
{
    if totals.len() == 0 {
        0
    } else {
        let t = totals[0];
        if t > last {
            (t - last) + underrun_reports(t, totals.drop_first())
        } else {
            underrun_reports(last, totals.drop_first())
        }
    }
}

/// Over any run of checks against a total that only grows, the underruns reported add
/// up to exactly the growth of the total: nothing is counted twice or lost.
pub proof fn law_underrun_reports_add_up(last: u64, totals: Seq<u64>)
    requires
        forall|i: int| 0 <= i < totals.len() ==> last <= #[trigger] totals[i],
        forall|i: int, j: int| 0 <= i <= j < totals.len() ==> totals[i] <= totals[j],
    ensures
        totals.len() > 0 ==> underrun_reports(last, totals) == totals.last() - last,
    decreases totals.len(),
{
    if totals.len() > 1 {
        let rest = totals.drop_first();
        assert forall|i: int| 0 <= i < rest.len() implies totals[0] <= #[trigger] rest[i] by {
            assert(rest[i] == totals[i + 1]);
        }
        assert forall|i: int, j: int| 0 <= i <= j < rest.len() implies rest[i] <= rest[j] by {
            assert(rest[i] == totals[i + 1]);
            assert(rest[j] == totals[j + 1]);
        }
        law_underrun_reports_add_up(totals[0], rest);
        assert(rest.last() == totals.last());
    } else if totals.len() == 1 {
        assert(totals.drop_first().len() == 0);
        assert(underrun_reports(totals[0], totals.drop_first()) == 0);
        assert(underrun_reports(last, totals.drop_first()) == 0);
    }
}

} // verus!
