//! What stops a source, and the small decisions a source makes while it runs: how its
//! errors read, how an HLS byte range is cut from a fetched resource, how long a live
//! playlist reload still has to wait, and in which order the HLS client's requests are
//! serviced.
//!
//! Every message here is already redacted: credentials live in URL path segments, and a
//! message may have started inside a transport error that embedded a request URL.
use vstd::prelude::*;
use std::collections::VecDeque;
use container_probe::Format;
use crate::detect::{
    classify_complete_spec, detect_spec, is_encrypted_playlist, push_spec, select_variant,
    select_variant_spec, tag_key, contains_tag_spec, Detection, DetectionView, Detector,
    SourceKind, Unsupported, UnsupportedView,
};
use crate::pipeline::PipelineError;
use crate::network::{opt_view, redact_text, redact_text_spec, NetworkError};
use crate::text::{decimal, push_decimal, push_str, push_string, string_from_chars};

verus! {

/// Errors that stop opening a source or reading its next event. Every variant is
/// actionable: none should ever surface as silence or an endless stall.
#[derive(Debug, Clone, PartialEq, Eq)]
pub enum SourceError {
    /// Transport, timeout, redirect or body-bound failure.
    Network(String),
    /// The server answered with an unsuccessful status. The code survives because
    /// whether a retry can help depends on it; the body often carries the reason.
    Status { status: u16, detail: Option<String> },
    /// Bytes were identified as something this app does not play, or not identified.
    Unsupported(String),
    /// The HLS client or ingest could not make sense of a playlist or resource.
    Demux(String),
    /// The connection closed before detection reached a conclusion.
    StreamEndedDuringDetection { examined: usize },
    /// An HLS master playlist named no renditions.
    NoVariants,
    /// The caller's cancellation fired while a request, read or wait was pending.
    Cancelled,
}

impl SourceError {
    /// The text `SourceError` displays. A server's own reason leads: "No streams
    /// assigned to channel" tells the user what to fix where "503" does not.
    pub open spec fn message_spec(&self) -> Seq<char> {
        match self {
            SourceError::Network(m) => "network error: "@ + m@,
            SourceError::Status { status, detail } => match detail {
                Some(d) => d@ + " (HTTP "@ + decimal(*status as nat) + ")"@,
                None => "server returned HTTP "@ + decimal(*status as nat),
            },
            SourceError::Unsupported(m) => "unsupported source: "@ + m@,
            SourceError::Demux(m) => "stream demux error: "@ + m@,
            SourceError::StreamEndedDuringDetection { examined } =>
                "connection closed before the stream format could be identified ("@ + decimal(
                    *examined as nat,
                ) + " bytes examined)"@,
            SourceError::NoVariants => "HLS master playlist named no renditions"@,
            SourceError::Cancelled => "cancelled"@,
        }
    }

    /// The message shown for this error; see [`SourceError::message_spec`].
    pub fn to_string(&self) -> (r: String)
        ensures
            r@ == self.message_spec(),
    {
        let mut out: Vec<char> = Vec::new();
        match self {
            SourceError::Network(m) => {
                push_str(&mut out, "network error: ");
                push_string(&mut out, m);
            },
            SourceError::Status { status, detail } => match detail {
                Some(d) => {
                    push_string(&mut out, d);
                    push_str(&mut out, " (HTTP ");
                    push_decimal(&mut out, *status as u64);
                    push_str(&mut out, ")");
                },
                None => {
                    push_str(&mut out, "server returned HTTP ");
                    push_decimal(&mut out, *status as u64);
                },
            },
            SourceError::Unsupported(m) => {
                push_str(&mut out, "unsupported source: ");
                push_string(&mut out, m);
            },
            SourceError::Demux(m) => {
                push_str(&mut out, "stream demux error: ");
                push_string(&mut out, m);
            },
            SourceError::StreamEndedDuringDetection { examined } => {
                push_str(&mut out, "connection closed before the stream format could be identified (");
                push_decimal(&mut out, *examined as u64);
                push_str(&mut out, " bytes examined)");
            },
            SourceError::NoVariants => {
                push_str(&mut out, "HLS master playlist named no renditions");
            },
            SourceError::Cancelled => {
                push_str(&mut out, "cancelled");
            },
        }
        assert(out@ =~= self.message_spec());
        string_from_chars(out.as_slice())
    }

    /// What a network failure becomes: cancellation stays cancellation, a status keeps
    /// its code and a redacted reason, and everything else becomes its redacted message.
    pub fn from_network(error: NetworkError) -> (r: Self)
        ensures
            match error {
                NetworkError::Cancelled => r is Cancelled,
                NetworkError::Status { status, detail } => r matches SourceError::Status {
                    status: s,
                    detail: d,
                } && s == status && opt_view(d) == match detail {
                    Some(x) => Some(redact_text_spec(x@)),
                    None => None,
                },
                other => r matches SourceError::Network(m) && m@ == redact_text_spec(
                    other.message_spec(),
                ),
            },
    {
        match error {
            NetworkError::Cancelled => SourceError::Cancelled,
            NetworkError::Status { status, detail } => SourceError::Status {
                status,
                detail: match detail {
                    Some(d) => Some(redact_text(d.as_str())),
                    None => None,
                },
            },
            other => {
                let text = other.message();
                SourceError::Network(redact_text(text.as_str()))
            },
        }
    }

    /// What a detection verdict that cannot be played becomes.
    pub fn from_unsupported(unsupported: Unsupported) -> (r: Self)
        ensures
            r matches SourceError::Unsupported(m) && m@ == unsupported_message(unsupported),
    {
        let mut out: Vec<char> = Vec::new();
        match &unsupported {
            Unsupported::NotMedia { preview } => {
                push_str(
                    &mut out,
                    "server returned a non-media (HTML/JSON) body instead of an audio stream: ",
                );
                let redacted = redact_text(preview.as_str());
                push_string(&mut out, &redacted);
            },
            Unsupported::EncryptedPlaylist => {
                push_str(&mut out, "HLS playlist is encrypted (EXT-X-KEY); decryption is not supported");
            },
            Unsupported::UnknownFormat => {
                push_str(&mut out, "stream bytes did not match any supported format");
            },
            Unsupported::Ambiguous { candidates } => {
                push_str(&mut out, "stream format is ambiguous between ");
                let listed = formats_debug(candidates);
                push_string(&mut out, &listed);
            },
            Unsupported::BudgetExhausted { examined } => {
                push_str(&mut out, "could not identify the stream format within ");
                push_decimal(&mut out, *examined as u64);
                push_str(&mut out, " probed bytes");
            },
        }
        assert(out@ =~= unsupported_message(unsupported));
        SourceError::Unsupported(string_from_chars(out.as_slice()))
    }
}

/// How `{:?}` shows one `container_probe::Format`: the derived `Debug` writes the
/// variant's name. The enum is `#[non_exhaustive]`, so a wildcard arm is required; the
/// version used has no variant beyond these.
pub open spec fn format_debug_view(format: Format) -> Seq<char> {
    match format {
        Format::MpegTs => "MpegTs"@,
        Format::Isobmff => "Isobmff"@,
        Format::MpegPs => "MpegPs"@,
        Format::Matroska => "Matroska"@,
        Format::WebM => "WebM"@,
        Format::Flv => "Flv"@,
        Format::Mxf => "Mxf"@,
        Format::Wav => "Wav"@,
        Format::Ogg => "Ogg"@,
        Format::Asf => "Asf"@,
        Format::AdtsAac => "AdtsAac"@,
        Format::Mp3 => "Mp3"@,
        Format::AnnexB => "AnnexB"@,
        _ => Seq::empty(),
    }
}

/// The entries of a list as `{:?}` separates them: each shown in turn, with `", "`
/// between two.
pub open spec fn debug_entries(formats: Seq<Format>) -> Seq<char>
    decreases formats.len(),
{
    if formats.len() == 0 {
        Seq::empty()
    } else if formats.len() == 1 {
        format_debug_view(formats[0])
    } else {
        debug_entries(formats.drop_last()) + ", "@ + format_debug_view(formats.last())
    }
}

/// How `{:?}` shows a list of formats: its entries in square brackets.
pub open spec fn formats_debug_view(formats: Seq<Format>) -> Seq<char> {
    "["@ + debug_entries(formats) + "]"@
}

/// Formats the candidates with `{:?}`: `Vec`'s `Debug` lists the entries in square
/// brackets separated by `", "`, each entry by the derived `Debug` of `Format`.
#[verifier::external_body]
fn formats_debug(formats: &Vec<Format>) -> (r: String)
    ensures
        r@ == formats_debug_view(formats@),
{
    format!("{formats:?}")
}

/// The message of an unplayable detection verdict.
pub open spec fn unsupported_message(u: Unsupported) -> Seq<char> {
    match u {
        Unsupported::NotMedia { preview } =>
            "server returned a non-media (HTML/JSON) body instead of an audio stream: "@
                + redact_text_spec(preview@),
        Unsupported::EncryptedPlaylist =>
            "HLS playlist is encrypted (EXT-X-KEY); decryption is not supported"@,
        Unsupported::UnknownFormat => "stream bytes did not match any supported format"@,
        Unsupported::Ambiguous { candidates } => "stream format is ambiguous between "@
            + formats_debug_view(candidates@),
        Unsupported::BudgetExhausted { examined } => "could not identify the stream format within "@
            + decimal(examined as nat) + " probed bytes"@,
    }
}

// ---------------------------------------------------------------------------------------
// Byte ranges
// ---------------------------------------------------------------------------------------

/// Where a byte range cannot be served, the reason; `None` where it can.
pub open spec fn byte_range_problem(len: nat, offset: u64, length: u64) -> Option<Seq<char>> {
    if offset > usize::MAX {
        Some("byte-range offset overflowed usize"@)
    } else if length > usize::MAX {
        Some("byte-range length overflowed usize"@)
    } else if offset + length > usize::MAX {
        Some("byte-range end overflowed usize"@)
    } else if offset + length > len {
        Some("byte-range exceeded the fetched resource"@)
    } else {
        None
    }
}

/// Cuts `length` bytes at `offset` out of a whole fetched resource. A range past the end
/// is an error rather than a short read, which would hand the demuxer a truncated
/// access unit; arithmetic that would overflow is an error rather than a wrap.
pub fn slice_byte_range(bytes: &[u8], offset: u64, length: u64) -> (r: Result<Vec<u8>, SourceError>)
    ensures
        match byte_range_problem(bytes@.len(), offset, length) {
            Some(reason) => r matches Err(SourceError::Demux(m)) && m@ == reason,
            None => r matches Ok(v) && v@ == bytes@.subrange(offset as int, offset + length),
        },
{
    if offset > usize::MAX as u64 {
        return Err(SourceError::Demux(String::from_str("byte-range offset overflowed usize")));
    }
    if length > usize::MAX as u64 {
        return Err(SourceError::Demux(String::from_str("byte-range length overflowed usize")));
    }
    let start = offset as usize;
    let len = length as usize;
    let end = match start.checked_add(len) {
        Some(end) => end,
        None => {
            return Err(SourceError::Demux(String::from_str("byte-range end overflowed usize")));
        },
    };
    if end > bytes.len() {
        return Err(SourceError::Demux(String::from_str("byte-range exceeded the fetched resource")));
    }
    let mut out: Vec<u8> = Vec::new();
    let mut i = start;
    while i < end
        invariant
            start <= i <= end <= bytes@.len(),
            out@ == bytes@.subrange(start as int, i as int),
        decreases end - i,
    {
        out.push(bytes[i]);
        i = i + 1;
        assert(out@ =~= bytes@.subrange(start as int, i as int));
    }
    Ok(out)
}

// ---------------------------------------------------------------------------------------
// Live playlist pacing
// ---------------------------------------------------------------------------------------

/// Nanoseconds in a millisecond.
pub const NANOS_PER_MILLI: u128 = 1_000_000;

/// How much of a reload interval is still to wait, in nanoseconds, after `elapsed_nanos`
/// have passed since the playlist arrived. Downloading and draining segments already
/// spends part of the interval; it is not added again as a fresh sleep.
pub fn reload_delay(interval_ms: u64, elapsed_nanos: u128) -> (r: u128)
    ensures
        r == if interval_ms * NANOS_PER_MILLI > elapsed_nanos {
            interval_ms * NANOS_PER_MILLI - elapsed_nanos
        } else {
            0
        },
{
    let interval = interval_ms as u128 * NANOS_PER_MILLI;
    if interval > elapsed_nanos {
        interval - elapsed_nanos
    } else {
        0
    }
}

/// What kind of request the HLS client asked for, as far as pacing is concerned.
#[derive(Debug, Clone, Copy, PartialEq, Eq, Structural)]
pub enum ActionKind {
    /// Fetch (or reload) the media playlist.
    FetchPlaylist,
    /// Wait before the next reload.
    Wait,
    /// Anything else, such as fetching a segment.
    Other,
}

/// The queue after one more polled action. The client queues new resources, then the
/// reload, then the wait before it; serviced literally, the old wait would run ahead of
/// the new playlist's audio. So a wait that arrives right behind a reload is placed
/// ahead of that reload instead, and newly discovered audio is fetched at once.
pub open spec fn scheduled<A>(queue: Seq<(ActionKind, A)>, kind: ActionKind, action: A) -> Seq<(ActionKind, A)> {
    if kind == ActionKind::Wait && queue.len() > 0 && queue.last().0 == ActionKind::FetchPlaylist {
        queue.drop_last().push((kind, action)).push(queue.last())
    } else {
        queue.push((kind, action))
    }
}

/// Scheduling only reorders: the queue grows by exactly the new request, keeps every
/// request it held, and holds nothing else.
pub proof fn law_scheduling_only_reorders<A>(queue: Seq<(ActionKind, A)>, kind: ActionKind, action: A)
    ensures
        scheduled(queue, kind, action).len() == queue.len() + 1,
        scheduled(queue, kind, action).contains((kind, action)),
        forall|i: int| 0 <= i < queue.len() ==> scheduled(queue, kind, action).contains(#[trigger] queue[i]),
        forall|x: (ActionKind, A)| #[trigger] scheduled(queue, kind, action).contains(x) ==> x == (kind, action)
            || queue.contains(x),
{
    let r = scheduled(queue, kind, action);
    if kind == ActionKind::Wait && queue.len() > 0 && queue.last().0 == ActionKind::FetchPlaylist {
        let n = queue.len() as int;
        assert(r[n - 1] == (kind, action));
        assert forall|i: int| 0 <= i < queue.len() implies r.contains(#[trigger] queue[i]) by {
            if i == n - 1 {
                assert(r[n] == queue[i]);
            } else {
                assert(r[i] == queue[i]);
            }
        }
        assert forall|x: (ActionKind, A)| #[trigger] r.contains(x) implies x == (kind, action) || queue.contains(x) by {
            let j = choose|j: int| 0 <= j < r.len() && r[j] == x;
            if j < n - 1 {
                assert(queue[j] == x);
            } else if j == n {
                assert(queue[n - 1] == x);
            }
        }
    } else {
        assert(r[queue.len() as int] == (kind, action));
        assert forall|i: int| 0 <= i < queue.len() implies r.contains(#[trigger] queue[i]) by {
            assert(r[i] == queue[i]);
        }
        assert forall|x: (ActionKind, A)| #[trigger] r.contains(x) implies x == (kind, action) || queue.contains(x) by {
            let j = choose|j: int| 0 <= j < r.len() && r[j] == x;
            if j < queue.len() {
                assert(queue[j] == x);
            }
        }
    }
}

/// Adds one polled action to the service queue; see [`scheduled`].
pub fn schedule_action<A>(queue: &mut VecDeque<(ActionKind, A)>, kind: ActionKind, action: A)
    ensures
        final(queue)@ == scheduled(old(queue)@, kind, action),
{
    let n = queue.len();
    if kind == ActionKind::Wait && n > 0 && queue[n - 1].0 == ActionKind::FetchPlaylist {
        let reload = queue.pop_back();
        match reload {
            Some(reload) => {
                queue.push_back((kind, action));
                queue.push_back(reload);
            },
            None => {},
        }
    } else {
        queue.push_back((kind, action));
    }
}

// ---------------------------------------------------------------------------------------
// Opening a source
// ---------------------------------------------------------------------------------------

/// The detection run of [`open`]'s first connection: the detector's bounded prefix, and
/// separately every byte read while reaching a verdict, which is what gets replayed into
/// the chosen path. The detector stops retaining at its budget; the replay never drops a
/// byte a chunk carried past it.
#[derive(Debug)]
pub struct ProbeRun {
    detector: Detector,
    raw: Vec<u8>,
}

pub struct ProbeRunView {
    /// What the detector retained.
    pub retained: Seq<u8>,
    pub budget: usize,
    /// Every byte read so far.
    pub raw: Seq<u8>,
}

impl View for ProbeRun {
    type V = ProbeRunView;

    closed spec fn view(&self) -> ProbeRunView {
        ProbeRunView { retained: self.detector@.buf, budget: self.detector@.budget, raw: self.raw@ }
    }
}

/// What a detection run needs next.
pub enum ProbeStep {
    /// Another chunk of the body.
    NeedChunk,
    /// The verdict.
    Concluded(Detection),
}

/// The next step of a run: the verdict when detection has one; exhaustion when it still
/// wants more but the budget is full; otherwise another chunk.
pub open spec fn probe_step_spec(v: ProbeRunView) -> Option<DetectionView> {
    match detect_spec(v.retained, v.budget, None) {
        DetectionView::NeedMoreData { .. } => if v.retained.len() >= v.budget {
            Some(DetectionView::Unsupported(UnsupportedView::BudgetExhausted { examined: v.retained.len() as usize }))
        } else {
            None
        },
        d => Some(d),
    }
}

impl ProbeRun {
    pub fn new(budget: usize) -> (r: Self)
        ensures
            r@.retained == Seq::<u8>::empty(),
            r@.budget == budget,
            r@.raw == Seq::<u8>::empty(),
    {
        ProbeRun { detector: Detector::with_budget(budget), raw: Vec::new() }
    }

    pub fn next_step(&self) -> (r: ProbeStep)
        ensures
            match probe_step_spec(self@) {
                None => r is NeedChunk,
                Some(d) => r matches ProbeStep::Concluded(x) && x@ == d,
            },
    {
        match self.detector.detect(None) {
            Detection::NeedMoreData { .. } => {
                if self.detector.is_full() {
                    ProbeStep::Concluded(
                        Detection::Unsupported(Unsupported::BudgetExhausted { examined: self.detector.buffered().len() }),
                    )
                } else {
                    ProbeStep::NeedChunk
                }
            },
            other => ProbeStep::Concluded(other),
        }
    }

    /// Takes the next chunk of the body, or its end: a body that ends before a verdict is
    /// an error naming how many bytes were examined.
    pub fn feed(&mut self, chunk: Option<&[u8]>) -> (r: Result<(), SourceError>)
        ensures
            chunk is None ==> (r matches Err(SourceError::StreamEndedDuringDetection { examined })
                && examined == old(self)@.raw.len()),
            chunk is None ==> final(self)@ == old(self)@,
            chunk matches Some(c) ==> r is Ok && final(self)@ == (ProbeRunView {
                retained: push_spec(old(self)@.retained, old(self)@.budget, c@),
                budget: old(self)@.budget,
                raw: old(self)@.raw + c@,
            }),
    {
        match chunk {
            None => {
                Err(SourceError::StreamEndedDuringDetection { examined: self.raw.len() })
            },
            Some(c) => {
                let ghost before = self.raw@;
                let mut i: usize = 0;
                while i < c.len()
                    invariant
                        i <= c@.len(),
                        self.raw@ == before + c@.subrange(0, i as int),
                        self.detector@ == old(self).detector@,
                        before == old(self)@.raw,
                        chunk == Some(c),
                    decreases c@.len() - i,
                {
                    self.raw.push(c[i]);
                    i = i + 1;
                    assert(self.raw@ =~= before + c@.subrange(0, i as int));
                }
                assert(c@.subrange(0, i as int) =~= c@);
                self.detector.push(c);
                Ok(())
            },
        }
    }

    /// Every byte read, for replay into the chosen path.
    pub fn into_raw(self) -> (r: Vec<u8>)
        ensures
            r@ == self@.raw,
    {
        self.raw
    }
}

/// The bytes of a run of chunks, in order.
pub open spec fn joined(chunks: Seq<Seq<u8>>) -> Seq<u8>
    decreases chunks.len(),
{
    if chunks.len() == 0 {
        Seq::empty()
    } else {
        joined(chunks.drop_last()) + chunks.last()
    }
}

/// The raw bytes after feeding a run of chunks.
pub open spec fn raw_after(raw: Seq<u8>, chunks: Seq<Seq<u8>>) -> Seq<u8>
    decreases chunks.len(),
{
    if chunks.len() == 0 {
        raw
    } else {
        raw_after(raw, chunks.drop_last()) + chunks.last()
    }
}

/// Detection never consumes bytes playback needs: however a body is chunked, what a run
/// replays is every byte it read, in order, whatever the detector's budget kept.
pub proof fn law_every_probed_byte_is_replayed(chunks: Seq<Seq<u8>>)
    ensures
        raw_after(Seq::empty(), chunks) == joined(chunks),
    decreases chunks.len(),
{
    if chunks.len() > 0 {
        law_every_probed_byte_is_replayed(chunks.drop_last());
    }
}

/// Where a verdict leads: straight to the direct TS path, to assembling the whole
/// playlist first (its subtype and encryption need the complete body), or to an error.
pub enum Route {
    DirectTs,
    AssemblePlaylist,
    Refuse(SourceError),
}

/// Routes a detection verdict. Formats without an adapter are refused with a clear
/// message, and every refusal is actionable rather than a silent stall.
pub fn route_detection(detection: Detection) -> (r: Route)
    requires
        !(detection is NeedMoreData),
    ensures
        match detection {
            Detection::Identified(SourceKind::MpegTs { .. }) => r is DirectTs,
            Detection::Identified(SourceKind::HlsMediaPlaylist) => r is AssemblePlaylist,
            Detection::Identified(SourceKind::HlsMasterPlaylist) => r is AssemblePlaylist,
            Detection::Identified(SourceKind::AdtsAac) => r matches Route::Refuse(SourceError::Unsupported(m))
                && m@ == "raw ADTS AAC elementary streams are not a supported source yet"@,
            Detection::Identified(SourceKind::Mp3) => r matches Route::Refuse(SourceError::Unsupported(m))
                && m@ == "raw MP3 elementary streams are not a supported source yet"@,
            Detection::Identified(SourceKind::Isobmff) => r matches Route::Refuse(SourceError::Unsupported(m))
                && m@ == "raw ISO-BMFF/fragmented MP4 is not a supported source yet"@,
            Detection::Unsupported(u) => r matches Route::Refuse(SourceError::Unsupported(m))
                && m@ == unsupported_message(u),
            Detection::NeedMoreData { .. } => false,
        },
{
    match detection {
        Detection::Identified(SourceKind::MpegTs { .. }) => Route::DirectTs,
        Detection::Identified(SourceKind::HlsMediaPlaylist) => Route::AssemblePlaylist,
        Detection::Identified(SourceKind::HlsMasterPlaylist) => Route::AssemblePlaylist,
        Detection::Identified(SourceKind::AdtsAac) => Route::Refuse(SourceError::Unsupported(
            String::from_str("raw ADTS AAC elementary streams are not a supported source yet"),
        )),
        Detection::Identified(SourceKind::Mp3) => Route::Refuse(SourceError::Unsupported(
            String::from_str("raw MP3 elementary streams are not a supported source yet"),
        )),
        Detection::Identified(SourceKind::Isobmff) => Route::Refuse(SourceError::Unsupported(
            String::from_str("raw ISO-BMFF/fragmented MP4 is not a supported source yet"),
        )),
        Detection::Unsupported(u) => Route::Refuse(SourceError::from_unsupported(u)),
        Detection::NeedMoreData { .. } => Route::Refuse(SourceError::Cancelled),
    }
}

/// Largest playlist body read off the probe connection; a real live playlist is nowhere
/// near it, and a larger one fails loudly rather than growing memory without bound.
pub const MAX_PROBED_PLAYLIST_BYTES: usize = 2097152;

/// The refusal of a playlist body past the bound.
pub open spec fn oversized_playlist_message() -> Seq<char> {
    "playlist body exceeded "@ + decimal(MAX_PROBED_PLAYLIST_BYTES as nat) + " bytes without ending"@
}

fn oversized_playlist() -> (r: SourceError)
    ensures
        r matches SourceError::Unsupported(m) && m@ == oversized_playlist_message(),
{
    let mut out: Vec<char> = Vec::new();
    push_str(&mut out, "playlist body exceeded ");
    push_decimal(&mut out, MAX_PROBED_PLAYLIST_BYTES as u64);
    push_str(&mut out, " bytes without ending");
    SourceError::Unsupported(string_from_chars(out.as_slice()))
}

/// Checks the bytes already probed before assembling the rest of the playlist.
pub fn check_probed_playlist(buffer: &Vec<u8>) -> (r: Result<(), SourceError>)
    ensures
        buffer@.len() > MAX_PROBED_PLAYLIST_BYTES ==> (r matches Err(SourceError::Unsupported(m))
            && m@ == oversized_playlist_message()),
        buffer@.len() <= MAX_PROBED_PLAYLIST_BYTES ==> r is Ok,
{
    if buffer.len() > MAX_PROBED_PLAYLIST_BYTES {
        return Err(oversized_playlist());
    }
    Ok(())
}

/// Appends one more chunk of the playlist body, refusing it before the buffer grows
/// past the bound, even for a moment; an oversized playlist fails explicitly rather than
/// being silently truncated.
pub fn append_playlist_chunk(buffer: &mut Vec<u8>, chunk: &[u8]) -> (r: Result<(), SourceError>)
    ensures
        old(buffer)@.len() + chunk@.len() > MAX_PROBED_PLAYLIST_BYTES ==> (r matches Err(
            SourceError::Unsupported(m),
        ) && m@ == oversized_playlist_message()) && final(buffer)@ == old(buffer)@,
        old(buffer)@.len() + chunk@.len() <= MAX_PROBED_PLAYLIST_BYTES ==> r is Ok && final(buffer)@
            == old(buffer)@ + chunk@,
{
    let projected = buffer.len().saturating_add(chunk.len());
    if projected > MAX_PROBED_PLAYLIST_BYTES {
        return Err(oversized_playlist());
    }
    let ghost before = buffer@;
    let mut i: usize = 0;
    while i < chunk.len()
        invariant
            i <= chunk@.len(),
            buffer@ == before + chunk@.subrange(0, i as int),
        decreases chunk@.len() - i,
    {
        buffer.push(chunk[i]);
        i = i + 1;
        assert(buffer@ =~= before + chunk@.subrange(0, i as int));
    }
    assert(chunk@.subrange(0, i as int) =~= chunk@);
    Ok(())
}

/// The error for a playlist body that kept trickling in past the assembly deadline.
pub fn playlist_assembly_timed_out() -> (r: SourceError)
    ensures
        r matches SourceError::Network(m) && m@ == "timed out assembling the initial HLS playlist body"@,
{
    SourceError::Network(String::from_str("timed out assembling the initial HLS playlist body"))
}

/// What `std::str::from_utf8` makes of `bytes`: the text when they are valid UTF-8.
#[verifier::external_body]
fn utf8_text(bytes: &[u8]) -> (r: Option<String>)
    ensures
        r is Some <==> vstd::utf8::valid_utf8(bytes@),
        r matches Some(s) ==> s@ == vstd::utf8::decode_utf8(bytes@),
{
    std::str::from_utf8(bytes).ok().map(|text| text.to_string())
}

/// The URI of the variant a master playlist body leads to: refused when the body is not
/// UTF-8, and `NoVariants` when it names none.
pub fn master_variant_uri(body: &[u8]) -> (r: Result<String, SourceError>)
    ensures
        !vstd::utf8::valid_utf8(body@) ==> (r matches Err(SourceError::Unsupported(m))
            && m@ == "HLS master playlist was not valid UTF-8"@),
        vstd::utf8::valid_utf8(body@) ==> match select_variant_spec(vstd::utf8::decode_utf8(body@)) {
            Some(uri) => r matches Ok(u) && u@ == uri,
            None => r == Err::<String, SourceError>(SourceError::NoVariants),
        },
{
    let text = match utf8_text(body) {
        Some(t) => t,
        None => {
            return Err(SourceError::Unsupported(String::from_str("HLS master playlist was not valid UTF-8")));
        },
    };
    match select_variant(text.as_str()) {
        Some(uri) => Ok(uri.to_owned()),
        None => Err(SourceError::NoVariants),
    }
}

/// The error for a selected variant that is not a playable media playlist.
pub fn variant_not_playable() -> (r: SourceError)
    ensures
        r matches SourceError::Unsupported(m) && m@ == "selected HLS variant did not resolve to a playable media playlist"@,
{
    SourceError::Unsupported(String::from_str("selected HLS variant did not resolve to a playable media playlist"))
}

/// Refuses a playlist body carrying `#EXT-X-KEY` before it reaches the HLS client, which
/// has no encryption policy of its own.
pub fn reject_if_encrypted(body: &[u8]) -> (r: Result<(), SourceError>)
    ensures
        contains_tag_spec(body@, tag_key()) ==> (r matches Err(SourceError::Unsupported(m))
            && m@ == unsupported_message(Unsupported::EncryptedPlaylist)),
        !contains_tag_spec(body@, tag_key()) ==> r is Ok,
{
    if is_encrypted_playlist(body) {
        return Err(SourceError::from_unsupported(Unsupported::EncryptedPlaylist));
    }
    Ok(())
}

/// A refusal by the HLS client, whose text can carry a resolved resource URL.
pub fn client_error(text: &str) -> (r: SourceError)
    ensures
        r matches SourceError::Demux(m) && m@ == redact_text_spec(text@),
{
    SourceError::Demux(redact_text(text))
}

/// A pipeline error never embeds a URL, so its message is kept as it is.
pub fn pipeline_error(error: &PipelineError) -> (r: SourceError)
    ensures
        r matches SourceError::Demux(m) && m@ == error.message_spec(),
{
    SourceError::Demux(error.to_string())
}

} // verus!
