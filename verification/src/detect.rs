//! Bounded source detection: decide what a stream actually is from its first bytes.
//!
//! Extensions and MIME types are hints, never decisions. Every byte examined here is
//! retained and replayed into the chosen path. Text formats (HLS playlists, HTML or JSON
//! error bodies) are recognised here; binary containers are judged by `container-probe`.
use vstd::prelude::*;
use vstd::utf8::{valid_utf8, decode_utf8};
use container_probe::{Detail, Format, Probe};
use crate::text::{chars_of, chars_start_with_at, has_prefix, is_ws, trim, trim_bounds, ascii_lower, to_ascii_lower, byte_lower, string_from_chars};

verus! {

/// Upper bound on retained probe bytes, as `container_probe::DEFAULT_BUDGET`.
pub const MAX_PROBE_BYTES: usize = 65536;

#[verifier::external_type_specification]
pub struct ExFormat(Format);

/// What the bytes turned out to be.
#[derive(Debug, Clone, Copy, PartialEq, Eq, Structural)]
pub enum SourceKind {
    /// Continuous MPEG-TS, the direct path. `stride` is the measured packet size.
    MpegTs { stride: u16 },
    /// An HLS media playlist.
    HlsMediaPlaylist,
    /// An HLS master playlist; a variant must be selected first (see `select_variant`).
    HlsMasterPlaylist,
    /// Raw ADTS AAC elementary stream.
    AdtsAac,
    /// Raw MPEG-1/2 Layer III elementary stream.
    Mp3,
    /// ISO base media / fragmented MP4.
    Isobmff,
}

/// Why a source cannot be played. Every variant is actionable.
#[derive(Debug, Clone, PartialEq, Eq)]
pub enum Unsupported {
    /// The origin returned an HTML or JSON body, typically an error page.
    NotMedia { preview: String },
    /// An HLS playlist carrying `#EXT-X-KEY`; decryption is not supported.
    EncryptedPlaylist,
    /// Bytes were conclusive and are not a format this app handles.
    UnknownFormat,
    /// Several formats tied and the content is genuinely ambiguous.
    Ambiguous { candidates: Vec<Format> },
    /// The probe budget was exhausted without reaching a conclusion.
    BudgetExhausted { examined: usize },
}

/// Outcome of a detection attempt.
#[derive(Debug, Clone, PartialEq, Eq)]
pub enum Detection {
    Identified(SourceKind),
    /// Inconclusive so far, but more bytes could decide it. Not an error.
    NeedMoreData { need_at_least: usize },
    Unsupported(Unsupported),
}

/// [`Unsupported`] with its text and candidates as sequences.
pub enum UnsupportedView {
    NotMedia { preview: Seq<char> },
    EncryptedPlaylist,
    UnknownFormat,
    Ambiguous { candidates: Seq<Format> },
    BudgetExhausted { examined: usize },
}

/// [`Detection`] as a mathematical value.
pub enum DetectionView {
    Identified(SourceKind),
    NeedMoreData { need_at_least: usize },
    Unsupported(UnsupportedView),
}

impl View for Unsupported {
    type V = UnsupportedView;

    open spec fn view(&self) -> UnsupportedView {
        match self {
            Unsupported::NotMedia { preview } => UnsupportedView::NotMedia { preview: preview@ },
            Unsupported::EncryptedPlaylist => UnsupportedView::EncryptedPlaylist,
            Unsupported::UnknownFormat => UnsupportedView::UnknownFormat,
            Unsupported::Ambiguous { candidates } => UnsupportedView::Ambiguous { candidates: candidates@ },
            Unsupported::BudgetExhausted { examined } => UnsupportedView::BudgetExhausted { examined: *examined },
        }
    }
}

impl View for Detection {
    type V = DetectionView;

    open spec fn view(&self) -> DetectionView {
        match self {
            Detection::Identified(k) => DetectionView::Identified(*k),
            Detection::NeedMoreData { need_at_least } => DetectionView::NeedMoreData { need_at_least: *need_at_least },
            Detection::Unsupported(u) => DetectionView::Unsupported(u@),
        }
    }
}

// ---------------------------------------------------------------------------------------
// What container-probe reports
// ---------------------------------------------------------------------------------------

/// One tied candidate: its format and, for MPEG-TS, the measured packet stride.
#[derive(Debug, Clone, Copy)]
pub struct ProbeCandidate {
    pub format: Format,
    pub ts_stride: Option<u16>,
}

/// The outcome of `container_probe::probe_with_budget`, holding what detection reads.
pub enum ProbeOutcome {
    Identified { format: Format, ts_stride: Option<u16> },
    Ambiguous { candidates: Vec<ProbeCandidate> },
    Insufficient { need_at_least: usize },
    Unknown,
}

pub enum ProbeOutcomeView {
    Identified { format: Format, ts_stride: Option<u16> },
    Ambiguous { candidates: Seq<ProbeCandidate> },
    Insufficient { need_at_least: usize },
    Unknown,
}

impl View for ProbeOutcome {
    type V = ProbeOutcomeView;

    open spec fn view(&self) -> ProbeOutcomeView {
        match self {
            ProbeOutcome::Identified { format, ts_stride } => ProbeOutcomeView::Identified { format: *format, ts_stride: *ts_stride },
            ProbeOutcome::Ambiguous { candidates } => ProbeOutcomeView::Ambiguous { candidates: candidates@ },
            ProbeOutcome::Insufficient { need_at_least } => ProbeOutcomeView::Insufficient { need_at_least: *need_at_least },
            ProbeOutcome::Unknown => ProbeOutcomeView::Unknown,
        }
    }
}

/// What `container_probe::probe_with_budget(data, budget)` concludes.
pub uninterp spec fn container_probe_view(data: Seq<u8>, budget: usize) -> ProbeOutcomeView;

/// Calls `container_probe::probe_with_budget`, keeping each candidate's format and, for
/// an MPEG-TS lattice, its stride. Claims only that the result is a function of the bytes
/// and the budget.
#[verifier::external_body]
fn probe_prefix(data: &[u8], budget: usize) -> (r: ProbeOutcome)
    ensures
        r@ == container_probe_view(data@, budget),
{
    let stride = |d: Detail| match d { Detail::Ts { stride, .. } => Some(stride), _ => None };
    match container_probe::probe_with_budget(data, budget) {
        Probe::Identified { format, detail, .. } => ProbeOutcome::Identified { format, ts_stride: stride(detail) },
        Probe::Ambiguous { candidates, .. } => ProbeOutcome::Ambiguous {
            candidates: candidates.iter().map(|c| ProbeCandidate { format: c.format, ts_stride: stride(c.detail) }).collect(),
        },
        Probe::Insufficient { need_at_least, .. } => ProbeOutcome::Insufficient { need_at_least },
        _ => ProbeOutcome::Unknown,
    }
}

/// What `String::from_utf8_lossy` makes of `bytes`.
pub uninterp spec fn utf8_lossy_view(bytes: Seq<u8>) -> Seq<char>;

/// Calls `String::from_utf8_lossy`. Its documentation promises that valid UTF-8 decodes
/// unchanged; invalid sequences become U+FFFD, which is left unstated.
#[verifier::external_body]
pub(crate) fn utf8_lossy(bytes: &[u8]) -> (r: String)
    ensures
        r@ == utf8_lossy_view(bytes@),
        valid_utf8(bytes@) ==> r@ == decode_utf8(bytes@),
{
    String::from_utf8_lossy(bytes).into_owned()
}

// ---------------------------------------------------------------------------------------
// Specification
// ---------------------------------------------------------------------------------------

/// `#EXTM3U`.
pub open spec fn extm3u() -> Seq<u8> {
    seq![0x23u8, 0x45, 0x58, 0x54, 0x4d, 0x33, 0x55]
}

/// `#EXT-X-KEY`.
pub open spec fn tag_key() -> Seq<u8> {
    seq![0x23u8, 0x45, 0x58, 0x54, 0x2d, 0x58, 0x2d, 0x4b, 0x45, 0x59]
}

/// `#EXT-X-STREAM-INF`.
pub open spec fn tag_stream_inf() -> Seq<u8> {
    seq![0x23u8, 0x45, 0x58, 0x54, 0x2d, 0x58, 0x2d, 0x53, 0x54, 0x52, 0x45, 0x41, 0x4d, 0x2d, 0x49, 0x4e, 0x46]
}

/// `b` without a leading UTF-8 byte-order mark.
pub open spec fn strip_bom_spec(b: Seq<u8>) -> Seq<u8> {
    if b.len() >= 3 && b[0] == 0xEF && b[1] == 0xBB && b[2] == 0xBF {
        b.subrange(3, b.len() as int)
    } else {
        b
    }
}

/// `u8::is_ascii_whitespace`: space, tab, line feed, form feed, carriage return.
pub open spec fn is_ascii_ws(b: u8) -> bool {
    b == 0x20 || b == 0x09 || b == 0x0A || b == 0x0C || b == 0x0D
}

/// `b` without its leading ASCII whitespace.
pub open spec fn trim_ascii_start_spec(b: Seq<u8>) -> Seq<u8>
    decreases b.len(),
{
    if b.len() > 0 && is_ascii_ws(b[0]) {
        trim_ascii_start_spec(b.drop_first())
    } else {
        b
    }
}

/// The body detection looks at: BOM and leading ASCII whitespace removed.
pub open spec fn body_spec(buf: Seq<u8>) -> Seq<u8> {
    trim_ascii_start_spec(strip_bom_spec(buf))
}

/// Whether `t` occurs in `h` at `i`, ignoring ASCII case.
pub open spec fn tag_at(h: Seq<u8>, t: Seq<u8>, i: int) -> bool {
    0 <= i && i + t.len() <= h.len() && forall|j: int| 0 <= j < t.len() ==> byte_lower(#[trigger] h[i + j]) == byte_lower(t[j])
}

/// Whether `t` occurs anywhere in `h`, ignoring ASCII case.
pub open spec fn contains_tag_spec(h: Seq<u8>, t: Seq<u8>) -> bool {
    exists|i: int| tag_at(h, t, i)
}

/// A strict, still-incomplete prefix of `#EXTM3U`.
pub open spec fn is_playlist_prefix_spec(b: Seq<u8>) -> bool {
    b.len() < 7 && extm3u().subrange(0, b.len() as int) == b
}

/// The playlist verdict for a body starting with `#EXTM3U`: encrypted, master, or media.
pub open spec fn detect_playlist_spec(b: Seq<u8>) -> Option<DetectionView> {
    if !(b.len() >= 7 && b.subrange(0, 7) == extm3u()) {
        None
    } else if contains_tag_spec(b, tag_key()) {
        Some(DetectionView::Unsupported(UnsupportedView::EncryptedPlaylist))
    } else if contains_tag_spec(b, tag_stream_inf()) {
        Some(DetectionView::Identified(SourceKind::HlsMasterPlaylist))
    } else {
        Some(DetectionView::Identified(SourceKind::HlsMediaPlaylist))
    }
}

/// Line breaks turned into spaces.
pub open spec fn newlines_to_spaces(s: Seq<char>) -> Seq<char> {
    s.map_values(|c: char| if c == '\n' || c == '\r' { ' ' } else { c })
}

/// A preview of an HTML or JSON body: its first 120 bytes decoded, line breaks turned into
/// spaces, trimmed. `None` when the body does not start with `<`, `{` or `[`.
pub open spec fn non_media_preview_spec(b: Seq<u8>) -> Option<Seq<char>> {
    if b.len() == 0 || !(b[0] == 0x3C || b[0] == 0x7B || b[0] == 0x5B) {
        None
    } else {
        let take = if b.len() < 120 { b.len() as int } else { 120 };
        Some(trim(newlines_to_spaces(utf8_lossy_view(b.subrange(0, take)))))
    }
}

/// The media type of a declared content type: lowercased, parameters dropped, trimmed.
pub open spec fn media_type(ct: Seq<char>) -> Seq<char> {
    let lowered = lower_all(ct);
    let cut = if exists|i: int| 0 <= i < lowered.len() && lowered[i] == ';' {
        choose|i: int| 0 <= i < lowered.len() && lowered[i] == ';' && forall|j: int| 0 <= j < i ==> lowered[j] != ';'
    } else {
        lowered.len() as int
    };
    trim(lowered.subrange(0, cut))
}

/// Every character lowercased (ASCII only).
pub open spec fn lower_all(s: Seq<char>) -> Seq<char> {
    Seq::new(s.len(), |i: int| ascii_lower(s[i]))
}

/// The format a declared content type hints at, used only to break a tie.
pub open spec fn hint_format_spec(ct: Seq<char>) -> Option<Format> {
    let m = media_type(ct);
    if m == "video/mp2t"@ || m == "audio/mp2t"@ {
        Some(Format::MpegTs)
    } else if m == "audio/aac"@ || m == "audio/aacp"@ {
        Some(Format::AdtsAac)
    } else if m == "audio/mpeg"@ || m == "audio/mp3"@ {
        Some(Format::Mp3)
    } else if m == "video/mp4"@ || m == "audio/mp4"@ {
        Some(Format::Isobmff)
    } else {
        None
    }
}

/// The source kind a probed format maps to; TS without a measured stride is 188.
pub open spec fn map_format_spec(format: Format, ts_stride: Option<u16>) -> Option<SourceKind> {
    match format {
        Format::MpegTs => Some(SourceKind::MpegTs { stride: match ts_stride { Some(s) => s, None => 188 } }),
        Format::AdtsAac => Some(SourceKind::AdtsAac),
        Format::Mp3 => Some(SourceKind::Mp3),
        Format::Isobmff => Some(SourceKind::Isobmff),
        _ => None,
    }
}

/// The first candidate whose format is `f`.
pub open spec fn first_with_format(cands: Seq<ProbeCandidate>, f: Format) -> Option<int> {
    if exists|i: int| 0 <= i < cands.len() && cands[i].format == f {
        Some(choose|i: int| 0 <= i < cands.len() && cands[i].format == f && forall|j: int| 0 <= j < i ==> cands[j].format != f)
    } else {
        None
    }
}

/// The binary verdict, from what container-probe reports on the retained bytes.
pub open spec fn probe_verdict(p: ProbeOutcomeView, buf: Seq<u8>, budget: usize, ct: Option<Seq<char>>) -> DetectionView {
    match p {
        ProbeOutcomeView::Identified { format, ts_stride } => match map_format_spec(format, ts_stride) {
            Some(k) => DetectionView::Identified(k),
            None => DetectionView::Unsupported(UnsupportedView::UnknownFormat),
        },
        ProbeOutcomeView::Ambiguous { candidates } => {
            let hinted = match ct { Some(c) => hint_format_spec(c), None => None };
            let pick = match hinted { Some(f) => first_with_format(candidates, f), None => None };
            let kind = match pick {
                Some(i) => map_format_spec(candidates[i].format, candidates[i].ts_stride),
                None => None,
            };
            match kind {
                Some(k) => DetectionView::Identified(k),
                None => DetectionView::Unsupported(UnsupportedView::Ambiguous {
                    candidates: candidates.map_values(|c: ProbeCandidate| c.format),
                }),
            }
        },
        ProbeOutcomeView::Insufficient { need_at_least } => if buf.len() >= budget {
            DetectionView::Unsupported(UnsupportedView::BudgetExhausted { examined: buf.len() as usize })
        } else {
            DetectionView::NeedMoreData { need_at_least }
        },
        ProbeOutcomeView::Unknown => DetectionView::Unsupported(UnsupportedView::UnknownFormat),
    }
}

/// A format the probe identifies is reported under the source kind of the same name:
/// MP3 as `Mp3`, ADTS AAC as `AdtsAac`, ISO BMFF as `Isobmff`, and MPEG-TS as `MpegTs`
/// with the stride the probe measured (188 where it measured none). Any other format is
/// unsupported.
pub proof fn law_identified_formats_keep_their_names(
    p: ProbeOutcomeView,
    buf: Seq<u8>,
    budget: usize,
    ct: Option<Seq<char>>,
)
    ensures
        p matches ProbeOutcomeView::Identified { format: Format::Mp3, .. } ==> probe_verdict(p, buf, budget, ct)
            == DetectionView::Identified(SourceKind::Mp3),
        p matches ProbeOutcomeView::Identified { format: Format::AdtsAac, .. } ==> probe_verdict(p, buf, budget, ct)
            == DetectionView::Identified(SourceKind::AdtsAac),
        p matches ProbeOutcomeView::Identified { format: Format::Isobmff, .. } ==> probe_verdict(p, buf, budget, ct)
            == DetectionView::Identified(SourceKind::Isobmff),
        p matches ProbeOutcomeView::Identified { format: Format::MpegTs, ts_stride: Some(s) } ==> probe_verdict(
            p,
            buf,
            budget,
            ct,
        ) == DetectionView::Identified(SourceKind::MpegTs { stride: s }),
        p matches ProbeOutcomeView::Identified { format: Format::MpegTs, ts_stride: None } ==> probe_verdict(
            p,
            buf,
            budget,
            ct,
        ) == DetectionView::Identified(SourceKind::MpegTs { stride: 188 }),
        p matches ProbeOutcomeView::Identified { format, .. } && format != Format::Mp3 && format != Format::AdtsAac
            && format != Format::Isobmff && format != Format::MpegTs ==> probe_verdict(p, buf, budget, ct)
            == DetectionView::Unsupported(UnsupportedView::UnknownFormat),
{
}

/// The full decision on the retained prefix: playlists first, then HTML/JSON bodies, then
/// a still-incomplete `#EXTM3U`, and only then the binary probe.
pub open spec fn detect_spec(buf: Seq<u8>, budget: usize, ct: Option<Seq<char>>) -> DetectionView {
    let body = body_spec(buf);
    match detect_playlist_spec(body) {
        Some(d) => d,
        None => match non_media_preview_spec(body) {
            Some(p) => DetectionView::Unsupported(UnsupportedView::NotMedia { preview: p }),
            None => if body.len() > 0 && is_playlist_prefix_spec(body) {
                DetectionView::NeedMoreData { need_at_least: 7 }
            } else {
                probe_verdict(container_probe_view(buf, budget), buf, budget, ct)
            },
        },
    }
}

/// What a push appends: as much of `chunk` as still fits the budget.
pub open spec fn push_spec(buf: Seq<u8>, budget: usize, chunk: Seq<u8>) -> Seq<u8> {
    if buf.len() >= budget {
        buf
    } else {
        let room = budget - buf.len();
        let take = if room < chunk.len() { room } else { chunk.len() as int };
        buf + chunk.subrange(0, take)
    }
}

/// The bytes of a sequence of chunks, in order.
pub open spec fn concat(chunks: Seq<Seq<u8>>) -> Seq<u8>
    decreases chunks.len(),
{
    if chunks.len() == 0 {
        Seq::empty()
    } else {
        concat(chunks.drop_last()) + chunks.last()
    }
}

/// The retained prefix after pushing `chunks` one by one into an empty detector.
pub open spec fn after_pushes(budget: usize, chunks: Seq<Seq<u8>>) -> Seq<u8>
    decreases chunks.len(),
{
    if chunks.len() == 0 {
        Seq::empty()
    } else {
        push_spec(after_pushes(budget, chunks.drop_last()), budget, chunks.last())
    }
}

/// Whatever the chunking, the detector retains exactly the first `budget` bytes of the
/// stream (or all of it, if shorter), in order: never more than the budget, never a byte
/// that playback would then miss.
pub proof fn law_retained_bytes_are_the_bounded_prefix(budget: usize, chunks: Seq<Seq<u8>>)
    ensures
        ({
            let total = concat(chunks);
            let n = if total.len() < budget { total.len() as int } else { budget as int };
            after_pushes(budget, chunks) == total.subrange(0, n)
        }),
        after_pushes(budget, chunks).len() <= budget,
    decreases chunks.len(),
{
    let total = concat(chunks);
    if chunks.len() == 0 {
        assert(total.subrange(0, 0) =~= Seq::<u8>::empty());
    } else {
        law_retained_bytes_are_the_bounded_prefix(budget, chunks.drop_last());
        let prev = concat(chunks.drop_last());
        let c = chunks.last();
        assert(total == prev + c);
        let m = if prev.len() < budget { prev.len() as int } else { budget as int };
        let buf = prev.subrange(0, m);
        let n = if total.len() < budget { total.len() as int } else { budget as int };
        if buf.len() >= budget {
            assert(buf =~= total.subrange(0, n));
        } else {
            let room = budget - buf.len();
            let take = if room < c.len() { room } else { c.len() as int };
            assert(buf == prev);
            assert(buf + c.subrange(0, take) =~= total.subrange(0, n));
        }
    }
}

/// The verdict depends on the stream's bytes only, never on how the network split them
/// into chunks.
pub proof fn law_detection_ignores_chunk_boundaries(budget: usize, a: Seq<Seq<u8>>, b: Seq<Seq<u8>>, ct: Option<Seq<char>>)
    requires
        concat(a) == concat(b),
    ensures
        after_pushes(budget, a) == after_pushes(budget, b),
        detect_spec(after_pushes(budget, a), budget, ct) == detect_spec(after_pushes(budget, b), budget, ct),
{
    law_retained_bytes_are_the_bounded_prefix(budget, a);
    law_retained_bytes_are_the_bounded_prefix(budget, b);
}

/// A body starting with `#EXTM3U` is always judged a playlist, whatever the declared type
/// says: encrypted first, then master, then media.
pub proof fn law_playlists_are_recognised_by_their_bytes(buf: Seq<u8>, budget: usize, ct: Option<Seq<char>>)
    requires
        body_spec(buf).len() >= 7,
        body_spec(buf).subrange(0, 7) == extm3u(),
    ensures
        detect_spec(buf, budget, ct) == detect_playlist_spec(body_spec(buf))->0,
        contains_tag_spec(body_spec(buf), tag_key())
            ==> detect_spec(buf, budget, ct) == DetectionView::Unsupported(UnsupportedView::EncryptedPlaylist),
{
}

// ---------------------------------------------------------------------------------------
// Detector
// ---------------------------------------------------------------------------------------

/// The retained prefix and its budget.
pub struct DetectorView {
    pub buf: Seq<u8>,
    pub budget: usize,
}

/// Accumulates a bounded prefix and decides what it is.
#[derive(Debug)]
pub struct Detector {
    buf: Vec<u8>,
    budget: usize,
}

impl View for Detector {
    type V = DetectorView;

    closed spec fn view(&self) -> DetectorView {
        DetectorView { buf: self.buf@, budget: self.budget }
    }
}

impl Detector {
    pub fn new() -> (r: Self)
        ensures
            r@.buf == Seq::<u8>::empty(),
            r@.budget == MAX_PROBE_BYTES,
    {
        Self::with_budget(MAX_PROBE_BYTES)
    }

    pub fn with_budget(budget: usize) -> (r: Self)
        ensures
            r@.buf == Seq::<u8>::empty(),
            r@.budget == budget,
    {
        Detector { buf: Vec::with_capacity(if budget < 8192 { budget } else { 8192 }), budget }
    }

    /// Append a network chunk. Retains at most `budget` bytes; detection is a prefix
    /// decision, so later bytes cannot change it.
    pub fn push(&mut self, chunk: &[u8])
        ensures
            final(self)@.budget == old(self)@.budget,
            final(self)@.buf == push_spec(old(self)@.buf, old(self)@.budget, chunk@),
    {
        if self.buf.len() >= self.budget {
            return;
        }
        let room = self.budget - self.buf.len();
        let take = if room < chunk.len() { room } else { chunk.len() };
        let ghost before = self.buf@;
        let mut i: usize = 0;
        while i < take
            invariant
                take <= chunk@.len(),
                i <= take,
                self.budget == old(self)@.budget,
                before == old(self)@.buf,
                self.buf@ == before + chunk@.subrange(0, i as int),
            decreases take - i,
        {
            self.buf.push(chunk[i]);
            i = i + 1;
            assert(self.buf@ =~= before + chunk@.subrange(0, i as int));
        }
    }

    /// Every byte examined so far, for replay into the selected path.
    pub fn buffered(&self) -> (r: &[u8])
        ensures
            r@ == self@.buf,
    {
        self.buf.as_slice()
    }

    pub fn is_full(&self) -> (r: bool)
        ensures
            r == (self@.buf.len() >= self@.budget),
    {
        self.buf.len() >= self.budget
    }

    /// Decide, using the accumulated prefix. `content_type` is consulted only to break a
    /// genuine tie between probed formats.
    pub fn detect(&self, content_type: Option<&str>) -> (r: Detection)
        ensures
            r@ == detect_spec(self@.buf, self@.budget, match content_type { Some(c) => Some(c@), None => None }),
    {
        let start = body_start(&self.buf);
        let ghost body = body_spec(self.buf@);
        if let Some(d) = detect_playlist(&self.buf, start) {
            return d;
        }
        if let Some(preview) = non_media_preview(&self.buf, start) {
            return Detection::Unsupported(Unsupported::NotMedia { preview });
        }
        if start < self.buf.len() && is_playlist_prefix(&self.buf, start) {
            return Detection::NeedMoreData { need_at_least: 7 };
        }
        let probed = probe_prefix(self.buf.as_slice(), self.budget);
        match probed {
            ProbeOutcome::Identified { format, ts_stride } => match map_format(format, ts_stride) {
                Some(kind) => Detection::Identified(kind),
                None => Detection::Unsupported(Unsupported::UnknownFormat),
            },
            ProbeOutcome::Ambiguous { candidates } => {
                if let Some(ct) = content_type {
                    if let Some(hinted) = hint_format(ct) {
                        if let Some(i) = find_format(&candidates, hinted) {
                            if let Some(kind) = map_format(candidates[i].format, candidates[i].ts_stride) {
                                return Detection::Identified(kind);
                            }
                        }
                    }
                }
                Detection::Unsupported(Unsupported::Ambiguous { candidates: candidate_formats(&candidates) })
            },
            ProbeOutcome::Insufficient { need_at_least } => {
                if self.is_full() {
                    Detection::Unsupported(Unsupported::BudgetExhausted { examined: self.buf.len() })
                } else {
                    Detection::NeedMoreData { need_at_least }
                }
            },
            ProbeOutcome::Unknown => Detection::Unsupported(Unsupported::UnknownFormat),
        }
    }
}

// ---------------------------------------------------------------------------------------
// Helpers
// ---------------------------------------------------------------------------------------

proof fn lemma_trim_ascii_start_skip(s: Seq<u8>, i: int)
    requires
        0 <= i <= s.len(),
        forall|j: int| 0 <= j < i ==> is_ascii_ws(#[trigger] s[j]),
    ensures
        trim_ascii_start_spec(s) == trim_ascii_start_spec(s.subrange(i, s.len() as int)),
    decreases i,
{
    if i > 0 {
        let t = s.drop_first();
        assert forall|j: int| 0 <= j < i - 1 implies is_ascii_ws(#[trigger] t[j]) by {
            assert(t[j] == s[j + 1]);
        }
        lemma_trim_ascii_start_skip(t, i - 1);
        assert(t.subrange(i - 1, t.len() as int) =~= s.subrange(i, s.len() as int));
    } else {
        assert(s.subrange(0, s.len() as int) =~= s);
    }
}

/// Where the detected body begins: after a BOM and any leading ASCII whitespace.
fn body_start(buf: &Vec<u8>) -> (r: usize)
    ensures
        r <= buf@.len(),
        buf@.subrange(r as int, buf@.len() as int) == body_spec(buf@),
{
    let mut i: usize = if buf.len() >= 3 && buf[0] == 0xEF && buf[1] == 0xBB && buf[2] == 0xBF { 3 } else { 0 };
    let ghost stripped = strip_bom_spec(buf@);
    assert(stripped == buf@.subrange(i as int, buf@.len() as int));
    let ghost i0 = i;
    while i < buf.len() && (buf[i] == 0x20 || buf[i] == 0x09 || buf[i] == 0x0A || buf[i] == 0x0C || buf[i] == 0x0D)
        invariant
            i0 <= i <= buf@.len(),
            stripped == buf@.subrange(i0 as int, buf@.len() as int),
            forall|j: int| i0 <= j < i ==> is_ascii_ws(#[trigger] buf@[j]),
        decreases buf@.len() - i,
    {
        i = i + 1;
    }
    proof {
        assert forall|j: int| 0 <= j < i - i0 implies is_ascii_ws(#[trigger] stripped[j]) by {
            assert(stripped[j] == buf@[i0 + j]);
        }
        lemma_trim_ascii_start_skip(stripped, i - i0);
        let rest = buf@.subrange(i as int, buf@.len() as int);
        assert(stripped.subrange(i - i0, stripped.len() as int) =~= rest);
        if i < buf@.len() {
            assert(rest[0] == buf@[i as int]);
        }
        assert(trim_ascii_start_spec(rest) == rest);
    }
    i
}

/// Whether `h[from..]` starts with `p`.
fn bytes_start_with(h: &Vec<u8>, from: usize, p: &Vec<u8>) -> (r: bool)
    requires
        from <= h@.len(),
    ensures
        r == (p@.len() <= h@.len() - from && h@.subrange(from as int, from + p@.len()) == p@),
{
    if p.len() > h.len() - from {
        return false;
    }
    let mut j: usize = 0;
    while j < p.len()
        invariant
            from + p@.len() <= h@.len(),
            h@.len() == h.len(),
            j <= p@.len(),
            forall|k: int| 0 <= k < j ==> h@[from + k] == p@[k],
        decreases p@.len() - j,
    {
        if h[from + j] != p[j] {
            assert(h@.subrange(from as int, from + p@.len())[j as int] == h@[from + j]);
            return false;
        }
        j = j + 1;
    }
    assert(h@.subrange(from as int, from + p@.len()) =~= p@);
    true
}

fn lower_byte(b: u8) -> (r: u8)
    ensures
        r == byte_lower(b),
{
    if 65 <= b && b <= 90 {
        b + 32
    } else {
        b
    }
}

/// Whether `tag` occurs in `h[from..]`, ignoring ASCII case.
fn contains_tag(h: &Vec<u8>, from: usize, tag: &Vec<u8>) -> (r: bool)
    requires
        from <= h@.len(),
        tag@.len() > 0,
    ensures
        r == contains_tag_spec(h@.subrange(from as int, h@.len() as int), tag@),
{
    let ghost s = h@.subrange(from as int, h@.len() as int);
    if tag.len() > h.len() - from {
        assert forall|i: int| !tag_at(s, tag@, i) by {}
        return false;
    }
    let last = h.len() - tag.len();
    let mut i: usize = from;
    while i <= last
        invariant
            from <= i <= last + 1,
            last + tag@.len() == h@.len(),
            h@.len() == h.len(),
            s == h@.subrange(from as int, h@.len() as int),
            forall|k: int| 0 <= k < i - from ==> !tag_at(s, tag@, k),
        decreases last + 1 - i,
    {
        let mut j: usize = 0;
        let mut ok = true;
        while j < tag.len()
            invariant
                i <= last,
                last + tag@.len() == h@.len(),
                h@.len() == h.len(),
                j <= tag@.len(),
                ok ==> forall|k: int| 0 <= k < j ==> byte_lower(h@[i + k]) == byte_lower(tag@[k]),
                !ok ==> exists|k: int| 0 <= k < tag@.len() && byte_lower(h@[i + k]) != byte_lower(tag@[k]),
            decreases tag@.len() - j,
        {
            if ok && lower_byte(h[i + j]) != lower_byte(tag[j]) {
                ok = false;
            }
            j = j + 1;
        }
        if ok {
            assert(tag_at(s, tag@, i - from)) by {
                assert forall|k: int| 0 <= k < tag@.len() implies byte_lower(#[trigger] s[i - from + k]) == byte_lower(tag@[k]) by {
                    assert(s[i - from + k] == h@[i + k]);
                }
            }
            return true;
        }
        proof {
            let k = choose|k: int| 0 <= k < tag@.len() && byte_lower(h@[i + k]) != byte_lower(tag@[k]);
            assert(s[i - from + k] == h@[i + k]);
        }
        i = i + 1;
    }
    assert forall|k: int| !tag_at(s, tag@, k) by {
        if 0 <= k && k + tag@.len() <= s.len() {
            assert(k < i - from);
        }
    }
    false
}

fn extm3u_bytes() -> (r: Vec<u8>)
    ensures
        r@ == extm3u(),
{
    let r = vec![0x23u8, 0x45, 0x58, 0x54, 0x4d, 0x33, 0x55];
    assert(r@ =~= extm3u());
    r
}

fn tag_key_bytes() -> (r: Vec<u8>)
    ensures
        r@ == tag_key(),
{
    let r = vec![0x23u8, 0x45, 0x58, 0x54, 0x2d, 0x58, 0x2d, 0x4b, 0x45, 0x59];
    assert(r@ =~= tag_key());
    r
}

fn tag_stream_inf_bytes() -> (r: Vec<u8>)
    ensures
        r@ == tag_stream_inf(),
{
    let r = vec![0x23u8, 0x45, 0x58, 0x54, 0x2d, 0x58, 0x2d, 0x53, 0x54, 0x52, 0x45, 0x41, 0x4d, 0x2d, 0x49, 0x4e, 0x46];
    assert(r@ =~= tag_stream_inf());
    r
}

/// The playlist verdict for the body starting at `start`.
fn detect_playlist(buf: &Vec<u8>, start: usize) -> (r: Option<Detection>)
    requires
        start <= buf@.len(),
    ensures
        match r {
            Some(d) => detect_playlist_spec(buf@.subrange(start as int, buf@.len() as int)) == Some(d@),
            None => detect_playlist_spec(buf@.subrange(start as int, buf@.len() as int)) is None,
        },
{
    let ghost b = buf@.subrange(start as int, buf@.len() as int);
    let head = extm3u_bytes();
    if !bytes_start_with(buf, start, &head) {
        assert(!(b.len() >= 7 && b.subrange(0, 7) == extm3u())) by {
            if b.len() >= 7 && b.subrange(0, 7) == extm3u() {
                assert(buf@.subrange(start as int, start + 7) =~= b.subrange(0, 7));
            }
        }
        return None;
    }
    assert(buf@.subrange(start as int, start + 7) =~= b.subrange(0, 7));
    if contains_tag(buf, start, &tag_key_bytes()) {
        return Some(Detection::Unsupported(Unsupported::EncryptedPlaylist));
    }
    if contains_tag(buf, start, &tag_stream_inf_bytes()) {
        return Some(Detection::Identified(SourceKind::HlsMasterPlaylist));
    }
    Some(Detection::Identified(SourceKind::HlsMediaPlaylist))
}

/// Whether a playlist body carries `#EXT-X-KEY` anywhere. A live origin can add the tag
/// to a reload that started out unencrypted, so every body is checked, not the first.
pub fn is_encrypted_playlist(body: &[u8]) -> (r: bool)
    ensures
        r == contains_tag_spec(body@, tag_key()),
{
    let mut v: Vec<u8> = Vec::new();
    let mut i: usize = 0;
    while i < body.len()
        invariant
            i <= body@.len(),
            v@ == body@.subrange(0, i as int),
        decreases body@.len() - i,
    {
        v.push(body[i]);
        i = i + 1;
        assert(v@ =~= body@.subrange(0, i as int));
    }
    assert(v@ =~= body@);
    assert(v@.subrange(0, v@.len() as int) =~= v@);
    contains_tag(&v, 0, &tag_key_bytes())
}

/// The verdict on a complete playlist body: the same playlist rules as detection, applied
/// to the whole body rather than to a bounded prefix, since `#EXT-X-STREAM-INF` and
/// `#EXT-X-KEY` need not appear near the top.
pub open spec fn classify_complete_spec(body: Seq<u8>) -> Result<SourceKind, UnsupportedView> {
    match detect_playlist_spec(body_spec(body)) {
        Some(DetectionView::Identified(kind)) => Ok(kind),
        Some(DetectionView::Unsupported(u)) => Err(u),
        _ => Err(UnsupportedView::UnknownFormat),
    }
}

/// Classifies a complete HLS playlist body: media, master, or refused.
pub fn classify_complete_hls_playlist(body: &[u8]) -> (r: Result<SourceKind, Unsupported>)
    ensures
        match r {
            Ok(kind) => classify_complete_spec(body@) == Ok::<SourceKind, UnsupportedView>(kind),
            Err(u) => classify_complete_spec(body@) == Err::<SourceKind, UnsupportedView>(u@),
        },
{
    let mut v: Vec<u8> = Vec::new();
    let mut i: usize = 0;
    while i < body.len()
        invariant
            i <= body@.len(),
            v@ == body@.subrange(0, i as int),
        decreases body@.len() - i,
    {
        v.push(body[i]);
        i = i + 1;
        assert(v@ =~= body@.subrange(0, i as int));
    }
    assert(v@ =~= body@);
    let start = body_start(&v);
    match detect_playlist(&v, start) {
        Some(Detection::Identified(kind)) => Ok(kind),
        Some(Detection::Unsupported(u)) => Err(u),
        _ => Err(Unsupported::UnknownFormat),
    }
}

/// A strict, incomplete prefix of `#EXTM3U` at `start`.
fn is_playlist_prefix(buf: &Vec<u8>, start: usize) -> (r: bool)
    requires
        start <= buf@.len(),
    ensures
        r == is_playlist_prefix_spec(buf@.subrange(start as int, buf@.len() as int)),
{
    let ghost b = buf@.subrange(start as int, buf@.len() as int);
    let n = buf.len() - start;
    if n >= 7 {
        return false;
    }
    let head = extm3u_bytes();
    let mut j: usize = 0;
    while j < n
        invariant
            n == buf@.len() - start,
            buf@.len() == buf.len(),
            n < 7,
            head@ == extm3u(),
            b == buf@.subrange(start as int, buf@.len() as int),
            j <= n,
            forall|k: int| 0 <= k < j ==> buf@[start + k] == extm3u()[k],
        decreases n - j,
    {
        if buf[start + j] != head[j] {
            assert(extm3u().subrange(0, n as int)[j as int] != b[j as int]);
            return false;
        }
        j = j + 1;
    }
    assert(extm3u().subrange(0, n as int) =~= b);
    true
}

/// A preview of an HTML or JSON body starting at `start`.
fn non_media_preview(buf: &Vec<u8>, start: usize) -> (r: Option<String>)
    requires
        start <= buf@.len(),
    ensures
        match r {
            Some(p) => non_media_preview_spec(buf@.subrange(start as int, buf@.len() as int)) == Some(p@),
            None => non_media_preview_spec(buf@.subrange(start as int, buf@.len() as int)) is None,
        },
{
    let ghost b = buf@.subrange(start as int, buf@.len() as int);
    if start >= buf.len() {
        return None;
    }
    let first = buf[start];
    assert(b[0] == first);
    if first != 0x3C && first != 0x7B && first != 0x5B {
        return None;
    }
    let avail = buf.len() - start;
    let take = if avail < 120 { avail } else { 120 };
    let mut piece: Vec<u8> = Vec::new();
    let mut i: usize = 0;
    while i < take
        invariant
            take <= buf@.len() - start,
            buf@.len() == buf.len(),
            i <= take,
            piece@ == buf@.subrange(start as int, start + i),
        decreases take - i,
    {
        piece.push(buf[start + i]);
        i = i + 1;
        assert(piece@ =~= buf@.subrange(start as int, start + i));
    }
    assert(piece@ =~= b.subrange(0, take as int));
    let text = utf8_lossy(piece.as_slice());
    let mut chars = chars_of(text.as_str());
    let ghost decoded = chars@;
    let mut k: usize = 0;
    while k < chars.len()
        invariant
            chars@.len() == decoded.len(),
            k <= chars@.len(),
            forall|m: int| 0 <= m < k ==> chars@[m] == (if decoded[m] == '\n' || decoded[m] == '\r' { ' ' } else { decoded[m] }),
            forall|m: int| k <= m < chars@.len() ==> chars@[m] == decoded[m],
        decreases chars@.len() - k,
    {
        let c = chars[k];
        if c == '\n' || c == '\r' {
            chars.set(k, ' ');
        }
        k = k + 1;
    }
    assert(chars@ =~= newlines_to_spaces(decoded));
    let (a, e) = trim_bounds(&chars, 0, chars.len());
    assert(chars@.subrange(0, chars@.len() as int) =~= chars@);
    let mut out: Vec<char> = Vec::new();
    let mut m: usize = a;
    while m < e
        invariant
            a <= m <= e <= chars@.len(),
            out@ == chars@.subrange(a as int, m as int),
        decreases e - m,
    {
        out.push(chars[m]);
        m = m + 1;
        assert(out@ =~= chars@.subrange(a as int, m as int));
    }
    Some(string_from_chars(out.as_slice()))
}

/// The format a declared content type hints at.
fn hint_format(content_type: &str) -> (r: Option<Format>)
    ensures
        r == hint_format_spec(content_type@),
{
    let raw = chars_of(content_type);
    let ghost lowered = lower_all(content_type@);
    let mut low: Vec<char> = Vec::new();
    let mut i: usize = 0;
    while i < raw.len()
        invariant
            raw@ == content_type@,
            lowered == lower_all(content_type@),
            i <= raw@.len(),
            low@ == lowered.subrange(0, i as int),
        decreases raw@.len() - i,
    {
        low.push(to_ascii_lower(raw[i]));
        assert(lowered[i as int] == ascii_lower(content_type@[i as int]));
        i = i + 1;
        assert(low@ =~= lowered.subrange(0, i as int));
    }
    assert(low@ =~= lowered);
    let mut cut: usize = 0;
    while cut < low.len() && low[cut] != ';'
        invariant
            cut <= low@.len(),
            forall|j: int| 0 <= j < cut ==> low@[j] != ';',
        decreases low@.len() - cut,
    {
        cut = cut + 1;
    }
    proof {
        if exists|i: int| 0 <= i < lowered.len() && lowered[i] == ';' {
            let c = choose|i: int| 0 <= i < lowered.len() && lowered[i] == ';' && forall|j: int| 0 <= j < i ==> lowered[j] != ';';
            assert(c == cut as int) by {
                if c < cut { } else if c > cut { assert(lowered[cut as int] == ';'); }
            }
        } else {
            if cut < low@.len() { assert(lowered[cut as int] == ';'); }
        }
    }
    let (a, e) = trim_bounds(&low, 0, cut);
    let mut t: Vec<char> = Vec::new();
    let mut m: usize = a;
    while m < e
        invariant
            a <= m <= e <= low@.len(),
            t@ == low@.subrange(a as int, m as int),
        decreases e - m,
    {
        t.push(low[m]);
        m = m + 1;
        assert(t@ =~= low@.subrange(a as int, m as int));
    }
    let tv = string_from_chars(t.as_slice());
    let ts = tv.as_str();
    if str_eq(ts, "video/mp2t") || str_eq(ts, "audio/mp2t") {
        Some(Format::MpegTs)
    } else if str_eq(ts, "audio/aac") || str_eq(ts, "audio/aacp") {
        Some(Format::AdtsAac)
    } else if str_eq(ts, "audio/mpeg") || str_eq(ts, "audio/mp3") {
        Some(Format::Mp3)
    } else if str_eq(ts, "video/mp4") || str_eq(ts, "audio/mp4") {
        Some(Format::Isobmff)
    } else {
        None
    }
}

/// Character-wise equality of two string slices.
pub fn str_eq(a: &str, b: &str) -> (r: bool)
    ensures
        r == (a@ == b@),
{
    let av = chars_of(a);
    let bv = chars_of(b);
    if av.len() != bv.len() {
        return false;
    }
    let mut i: usize = 0;
    while i < av.len()
        invariant
            av@ == a@,
            bv@ == b@,
            av@.len() == bv@.len(),
            i <= av@.len(),
            forall|j: int| 0 <= j < i ==> av@[j] == bv@[j],
        decreases av@.len() - i,
    {
        if av[i] != bv[i] {
            return false;
        }
        i = i + 1;
    }
    assert(av@ =~= bv@);
    true
}

fn map_format(format: Format, ts_stride: Option<u16>) -> (r: Option<SourceKind>)
    ensures
        r == map_format_spec(format, ts_stride),
{
    match format {
        Format::MpegTs => Some(SourceKind::MpegTs { stride: match ts_stride { Some(s) => s, None => 188 } }),
        Format::AdtsAac => Some(SourceKind::AdtsAac),
        Format::Mp3 => Some(SourceKind::Mp3),
        Format::Isobmff => Some(SourceKind::Isobmff),
        _ => None,
    }
}

fn same_format(a: Format, b: Format) -> (r: bool)
    ensures
        r == (a == b),
{
    match a {
        Format::MpegTs => matches!(b, Format::MpegTs),
        Format::Isobmff => matches!(b, Format::Isobmff),
        Format::MpegPs => matches!(b, Format::MpegPs),
        Format::Matroska => matches!(b, Format::Matroska),
        Format::WebM => matches!(b, Format::WebM),
        Format::Flv => matches!(b, Format::Flv),
        Format::Mxf => matches!(b, Format::Mxf),
        Format::Wav => matches!(b, Format::Wav),
        Format::Ogg => matches!(b, Format::Ogg),
        Format::Asf => matches!(b, Format::Asf),
        Format::AdtsAac => matches!(b, Format::AdtsAac),
        Format::Mp3 => matches!(b, Format::Mp3),
        Format::AnnexB => matches!(b, Format::AnnexB),
        _ => false,
    }
}

fn find_format(cands: &Vec<ProbeCandidate>, f: Format) -> (r: Option<usize>)
    ensures
        match r {
            Some(i) => first_with_format(cands@, f) == Some(i as int) && i < cands@.len(),
            None => first_with_format(cands@, f) is None,
        },
{
    let mut i: usize = 0;
    while i < cands.len()
        invariant
            i <= cands@.len(),
            forall|j: int| 0 <= j < i ==> cands@[j].format != f,
        decreases cands@.len() - i,
    {
        if same_format(cands[i].format, f) {
            proof {
                let c = choose|k: int| 0 <= k < cands@.len() && cands@[k].format == f && forall|j: int| 0 <= j < k ==> cands@[j].format != f;
                assert(c == i as int) by {
                    if c < i { } else if c > i { }
                }
            }
            return Some(i);
        }
        i = i + 1;
    }
    None
}

fn candidate_formats(cands: &Vec<ProbeCandidate>) -> (r: Vec<Format>)
    ensures
        r@ == cands@.map_values(|c: ProbeCandidate| c.format),
{
    let mut out: Vec<Format> = Vec::new();
    let mut i: usize = 0;
    while i < cands.len()
        invariant
            i <= cands@.len(),
            out@ == cands@.subrange(0, i as int).map_values(|c: ProbeCandidate| c.format),
        decreases cands@.len() - i,
    {
        out.push(cands[i].format);
        i = i + 1;
        assert(out@ =~= cands@.subrange(0, i as int).map_values(|c: ProbeCandidate| c.format));
    }
    assert(cands@.subrange(0, cands@.len() as int) =~= cands@);
    out
}

// ---------------------------------------------------------------------------------------
// Variant selection
// ---------------------------------------------------------------------------------------

/// Whether `a` sorts strictly before `b`, character by character (the order `str`
/// comparison gives, since UTF-8 preserves code point order).
pub open spec fn lex_lt(a: Seq<char>, b: Seq<char>) -> bool
    decreases a.len(),
{
    if a.len() == 0 {
        b.len() > 0
    } else if b.len() == 0 {
        false
    } else if a[0] != b[0] {
        (a[0] as u32) < (b[0] as u32)
    } else {
        lex_lt(a.drop_first(), b.drop_first())
    }
}

/// Whether `d` is a non-empty run of ASCII digits.
pub open spec fn all_digits(d: Seq<char>) -> bool {
    d.len() > 0 && forall|i: int| 0 <= i < d.len() ==> '0' <= #[trigger] d[i] && d[i] <= '9'
}

/// The decimal value of a run of digits.
pub open spec fn digits_value(d: Seq<char>) -> nat
    decreases d.len(),
{
    if d.len() == 0 {
        0
    } else {
        digits_value(d.drop_last()) * 10 + ((d.last() as u32) - 48) as nat
    }
}

/// `u64::from_str`: an optional `+`, then one or more digits, within range.
pub open spec fn parse_u64_spec(s: Seq<char>) -> Option<u64> {
    let d = if s.len() > 0 && s[0] == '+' { s.drop_first() } else { s };
    if all_digits(d) && digits_value(d) <= u64::MAX {
        Some(digits_value(d) as u64)
    } else {
        None
    }
}

/// The bandwidth a single attribute field gives, if it is `BANDWIDTH=`; an unparsable
/// value counts as 0.
pub open spec fn field_bandwidth(f: Seq<char>) -> Option<u64> {
    let t = trim(f);
    if has_prefix(t, "BANDWIDTH="@) {
        Some(match parse_u64_spec(trim(t.subrange(10, t.len() as int))) { Some(v) => v, None => 0 })
    } else {
        None
    }
}

/// Scans attribute fields, separated by commas outside double quotes, from `start`; the
/// first `BANDWIDTH=` field wins, and none means 0.
pub open spec fn bandwidth_scan(s: Seq<char>, start: int, i: int, in_quotes: bool) -> u64
    decreases s.len() - i,
{
    if i >= s.len() || i < start || start < 0 {
        match field_bandwidth(s.subrange(start, s.len() as int)) { Some(v) => v, None => 0 }
    } else if s[i] == '"' {
        bandwidth_scan(s, start, i + 1, !in_quotes)
    } else if s[i] == ',' && !in_quotes {
        match field_bandwidth(s.subrange(start, i)) {
            Some(v) => v,
            None => bandwidth_scan(s, i + 1, i + 1, in_quotes),
        }
    } else {
        bandwidth_scan(s, start, i + 1, in_quotes)
    }
}

/// The `BANDWIDTH` of an `#EXT-X-STREAM-INF` attribute list.
pub open spec fn bandwidth_spec(attrs: Seq<char>) -> u64 {
    bandwidth_scan(attrs, 0, 0, false)
}

/// Variant selection state: the best `(bandwidth, uri)` so far and the bandwidth of a
/// stream-inf tag still waiting for its URI.
pub struct VariantScan {
    pub best: Option<(u64, Seq<char>)>,
    pub pending: Option<u64>,
}

/// One trimmed playlist line.
pub open spec fn variant_step(st: VariantScan, line: Seq<char>) -> VariantScan {
    if line.len() == 0 {
        st
    } else if has_prefix(line, "#EXT-X-STREAM-INF:"@) {
        VariantScan { best: st.best, pending: Some(bandwidth_spec(line.subrange(18, line.len() as int))) }
    } else if line[0] == '#' {
        st
    } else {
        match st.pending {
            Some(bw) => VariantScan {
                best: match st.best {
                    Some((bb, bu)) => if bb > bw || (bb == bw && !lex_lt(bu, line)) {
                        Some((bb, bu))
                    } else {
                        Some((bw, line))
                    },
                    None => Some((bw, line)),
                },
                pending: None,
            },
            None => st,
        }
    }
}

/// Selection keeps the best variant seen: the bandwidth it holds never goes down, and
/// once a variant's URI arrives the kept bandwidth is at least that variant's.
pub proof fn law_selection_keeps_the_highest_bandwidth(st: VariantScan, line: Seq<char>)
    ensures
        st.best matches Some((b, _)) ==> (variant_step(st, line).best matches Some((b2, _)) && b2 >= b),
        line.len() > 0 && line[0] != '#' && st.pending is Some ==> (variant_step(st, line).best matches Some((b2, _))
            && b2 >= st.pending.unwrap()),
{
    reveal_strlit("#EXT-X-STREAM-INF:");
    if line.len() > 0 && has_prefix(line, "#EXT-X-STREAM-INF:"@) {
        assert(line[0] == line.subrange(0, 18)[0]);
    }
}

/// The end of the line starting at `p`: the next line feed, or the end of the text.
pub open spec fn line_end(s: Seq<char>, p: int) -> int {
    if exists|i: int| p <= i < s.len() && s[i] == '\n' {
        choose|i: int| p <= i < s.len() && s[i] == '\n' && forall|j: int| p <= j < i ==> s[j] != '\n'
    } else {
        s.len() as int
    }
}

/// Runs the selection over the lines from position `p` on.
pub open spec fn variant_scan(s: Seq<char>, p: int, st: VariantScan) -> VariantScan
    decreases s.len() + 1 - p,
{
    if p > s.len() || p < 0 {
        st
    } else {
        let e = line_end(s, p);
        if e < p || e > s.len() {
            st
        } else {
            variant_scan(s, e + 1, variant_step(st, trim(s.subrange(p, e))))
        }
    }
}

/// The URI `select_variant` picks: highest advertised bandwidth, ties broken toward the
/// greater URI.
pub open spec fn select_variant_spec(master: Seq<char>) -> Option<Seq<char>> {
    match variant_scan(master, 0, VariantScan { best: None, pending: None }).best {
        Some((_, uri)) => Some(uri),
        None => None,
    }
}

/// The variant a trimmed line offers, given the bandwidth of a stream-inf tag still
/// waiting for its URI: a URI line after such a tag offers `(bandwidth, uri)`.
pub open spec fn candidate_emit(pending: Option<u64>, line: Seq<char>) -> Seq<(u64, Seq<char>)> {
    if line.len() == 0 || has_prefix(line, "#EXT-X-STREAM-INF:"@) || line[0] == '#' {
        seq![]
    } else {
        match pending {
            Some(bw) => seq![(bw, line)],
            None => seq![],
        }
    }
}

/// The stream-inf bandwidth still waiting for a URI after a trimmed line.
pub open spec fn candidate_next(pending: Option<u64>, line: Seq<char>) -> Option<u64> {
    if line.len() == 0 {
        pending
    } else if has_prefix(line, "#EXT-X-STREAM-INF:"@) {
        Some(bandwidth_spec(line.subrange(18, line.len() as int)))
    } else if line[0] == '#' {
        pending
    } else {
        None
    }
}

/// The `(bandwidth, uri)` pairs a master playlist advertises from position `p` on, in
/// order: each URI line paired with the stream-inf tag before it.
pub open spec fn variant_candidates(s: Seq<char>, p: int, pending: Option<u64>) -> Seq<(u64, Seq<char>)>
    decreases s.len() + 1 - p,
{
    if p > s.len() || p < 0 {
        seq![]
    } else {
        let e = line_end(s, p);
        if e < p || e > s.len() {
            seq![]
        } else {
            let line = trim(s.subrange(p, e));
            candidate_emit(pending, line) + variant_candidates(s, e + 1, candidate_next(pending, line))
        }
    }
}

/// The variants a whole master playlist advertises.
pub open spec fn master_candidates(master: Seq<char>) -> Seq<(u64, Seq<char>)> {
    variant_candidates(master, 0, None)
}

/// The preference order on variants: by bandwidth, then by URI.
pub open spec fn variant_le(a: (u64, Seq<char>), b: (u64, Seq<char>)) -> bool {
    a.0 < b.0 || (a.0 == b.0 && !lex_lt(b.1, a.1))
}

/// `u` is the URI of a candidate that every candidate is at most.
pub open spec fn is_greatest_candidate(c: Seq<(u64, Seq<char>)>, u: Seq<char>) -> bool {
    exists|i: int|
        0 <= i < c.len() && (#[trigger] c[i]).1 == u && forall|j: int| 0 <= j < c.len() ==> variant_le(#[trigger] c[j], c[i])
}

proof fn lemma_lex_asym(a: Seq<char>, b: Seq<char>)
    ensures
        lex_lt(a, b) ==> !lex_lt(b, a),
    decreases a.len(),
{
    if a.len() > 0 && b.len() > 0 && a[0] == b[0] {
        lemma_lex_asym(a.drop_first(), b.drop_first());
    }
}

proof fn lemma_lex_total(a: Seq<char>, b: Seq<char>)
    ensures
        a != b ==> lex_lt(a, b) || lex_lt(b, a),
    decreases a.len(),
{
    if a.len() == 0 && b.len() == 0 {
        assert(a =~= b);
    } else if a.len() > 0 && b.len() > 0 && a[0] == b[0] {
        lemma_lex_total(a.drop_first(), b.drop_first());
        if a.drop_first() == b.drop_first() {
            assert(a.drop_first().len() == a.len() - 1);
            assert(b.drop_first().len() == b.len() - 1);
            assert forall|i: int| 0 <= i < a.len() implies a[i] == b[i] by {
                if i > 0 {
                    assert(a[i] == a.drop_first()[i - 1]);
                    assert(b[i] == b.drop_first()[i - 1]);
                }
            }
            assert(a =~= b);
        }
    } else if a.len() > 0 && b.len() > 0 {
        vstd::utf8::char_u32_cast(a[0], a[0] as u32);
        vstd::utf8::char_u32_cast(b[0], b[0] as u32);
    }
}

proof fn lemma_lex_trans(a: Seq<char>, b: Seq<char>, c: Seq<char>)
    ensures
        lex_lt(a, b) && lex_lt(b, c) ==> lex_lt(a, c),
    decreases a.len(),
{
    if a.len() > 0 && b.len() > 0 && c.len() > 0 && a[0] == b[0] && b[0] == c[0] {
        lemma_lex_trans(a.drop_first(), b.drop_first(), c.drop_first());
    }
}

proof fn lemma_variant_le_refl(a: (u64, Seq<char>))
    ensures
        variant_le(a, a),
{
    lemma_lex_asym(a.1, a.1);
}

proof fn lemma_variant_le_trans(a: (u64, Seq<char>), b: (u64, Seq<char>), c: (u64, Seq<char>))
    requires
        variant_le(a, b),
        variant_le(b, c),
    ensures
        variant_le(a, c),
{
    if a.0 == b.0 && b.0 == c.0 {
        lemma_lex_total(a.1, b.1);
        lemma_lex_trans(c.1, a.1, b.1);
    }
}

proof fn lemma_variant_step_offers(st: VariantScan, line: Seq<char>)
    ensures
        variant_step(st, line).pending == candidate_next(st.pending, line),
        candidate_emit(st.pending, line).len() <= 1,
        candidate_emit(st.pending, line).len() == 0 ==> variant_step(st, line).best == st.best,
        candidate_emit(st.pending, line).len() == 1 ==> (variant_step(st, line).best matches Some(x) && (x
            == candidate_emit(st.pending, line)[0] || st.best == Some(x)) && variant_le(
            candidate_emit(st.pending, line)[0],
            x,
        ) && (st.best matches Some(y) ==> variant_le(y, x))),
{
    if candidate_emit(st.pending, line).len() == 1 {
        let n = candidate_emit(st.pending, line)[0];
        lemma_variant_le_refl(n);
        if let Some(y) = st.best {
            lemma_variant_le_refl(y);
            lemma_lex_asym(y.1, n.1);
        }
    }
}

proof fn lemma_scan_keeps_greatest(s: Seq<char>, p: int, st: VariantScan)
    ensures
        ({
            let c = variant_candidates(s, p, st.pending);
            let r = variant_scan(s, p, st).best;
            &&& (r is None <==> (st.best is None && c.len() == 0))
            &&& (r matches Some(x) ==> (st.best == Some(x) || exists|i: int| 0 <= i < c.len() && c[i] == x))
            &&& (r matches Some(x) ==> (st.best matches Some(y) ==> variant_le(y, x)))
            &&& (r matches Some(x) ==> forall|j: int| 0 <= j < c.len() ==> variant_le(#[trigger] c[j], x))
        }),
    decreases s.len() + 1 - p,
{
    let c = variant_candidates(s, p, st.pending);
    let r = variant_scan(s, p, st).best;
    if p > s.len() || p < 0 || line_end(s, p) < p || line_end(s, p) > s.len() {
        if let Some(y) = st.best {
            lemma_variant_le_refl(y);
        }
    } else {
        let e = line_end(s, p);
        let line = trim(s.subrange(p, e));
        let st2 = variant_step(st, line);
        let em = candidate_emit(st.pending, line);
        let c2 = variant_candidates(s, e + 1, st2.pending);
        lemma_variant_step_offers(st, line);
        lemma_scan_keeps_greatest(s, e + 1, st2);
        assert(c == em + c2);
        assert(r == variant_scan(s, e + 1, st2).best);
        if let Some(x) = r {
            if st2.best != Some(x) {
                let i = choose|i: int| 0 <= i < c2.len() && c2[i] == x;
                assert(c[i + em.len()] == x);
            } else if em.len() == 1 && st.best != Some(x) {
                assert(c[0] == x);
            }
            if let Some(y) = st.best {
                let z = st2.best.unwrap();
                if em.len() == 0 {
                    lemma_variant_le_refl(y);
                }
                if st2.best == Some(x) {
                    lemma_variant_le_refl(x);
                }
                lemma_variant_le_trans(y, z, x);
            }
            assert forall|j: int| 0 <= j < c.len() implies variant_le(#[trigger] c[j], x) by {
                if j < em.len() {
                    let z = st2.best.unwrap();
                    if st2.best == Some(x) {
                        lemma_variant_le_refl(x);
                    }
                    lemma_variant_le_trans(em[0], z, x);
                } else {
                    assert(c[j] == c2[j - em.len()]);
                }
            }
        }
    }
}

/// The selected variant is the greatest the master playlist advertises: none is chosen
/// exactly when no URI line follows a stream-inf tag, and otherwise the chosen URI belongs
/// to a candidate that every candidate is at most, by bandwidth and then by URI.
pub proof fn law_selected_variant_is_the_greatest_candidate(master: Seq<char>)
    ensures
        select_variant_spec(master) is None <==> master_candidates(master).len() == 0,
        select_variant_spec(master) matches Some(u) ==> is_greatest_candidate(master_candidates(master), u),
{
    let st = VariantScan { best: None, pending: None };
    lemma_scan_keeps_greatest(master, 0, st);
    let c = master_candidates(master);
    if let Some((b, u)) = variant_scan(master, 0, st).best {
        let i = choose|i: int| 0 <= i < c.len() && c[i] == (b, u);
        assert(c[i].1 == u);
    }
}

proof fn lemma_digits_value_grows(d: Seq<char>, i: int)
    requires
        0 <= i <= d.len(),
    ensures
        digits_value(d.subrange(0, i)) <= digits_value(d),
    decreases d.len() - i,
{
    if i < d.len() {
        lemma_digits_value_grows(d.drop_last(), i);
        assert(d.drop_last().subrange(0, i) =~= d.subrange(0, i));
    } else {
        assert(d.subrange(0, i) =~= d);
    }
}

/// `u64::from_str` on `s[lo..hi]`.
fn parse_u64_at(s: &Vec<char>, lo: usize, hi: usize) -> (r: Option<u64>)
    requires
        lo <= hi <= s@.len(),
    ensures
        r == parse_u64_spec(s@.subrange(lo as int, hi as int)),
{
    let ghost w = s@.subrange(lo as int, hi as int);
    let mut i = lo;
    if i < hi && s[i] == '+' {
        i = i + 1;
    }
    let ghost d = if w.len() > 0 && w[0] == '+' { w.drop_first() } else { w };
    assert(w.len() > 0 ==> w[0] == s@[lo as int]);
    assert(d =~= s@.subrange(i as int, hi as int));
    if i == hi {
        return None;
    }
    let start = i;
    let mut value: u64 = 0;
    while i < hi
        invariant
            lo <= start <= i <= hi <= s@.len(),
            start < hi,
            d == s@.subrange(start as int, hi as int),
            w == s@.subrange(lo as int, hi as int),
            d == (if w.len() > 0 && w[0] == '+' { w.drop_first() } else { w }),
            forall|j: int| start <= j < i ==> '0' <= #[trigger] s@[j] && s@[j] <= '9',
            value == digits_value(s@.subrange(start as int, i as int)),
        decreases hi - i,
    {
        let c = s[i];
        if c < '0' || c > '9' {
            assert(d[i - start] == c);
            return None;
        }
        let digit = (c as u32 - 48) as u64;
        let ghost next = s@.subrange(start as int, i + 1);
        assert(next.drop_last() =~= s@.subrange(start as int, i as int));
        assert(next.last() == c);
        assert(digits_value(next) == value * 10 + digit);
        if value > (u64::MAX - digit) / 10 {
            proof {
                assert(digits_value(next) > u64::MAX) by (nonlinear_arith)
                    requires
                        digits_value(next) == value * 10 + digit,
                        value > (u64::MAX - digit) / 10,
                        digit <= 9;
                lemma_digits_value_grows(d, i + 1 - start);
                assert(d.subrange(0, i + 1 - start) =~= next);
            }
            return None;
        }
        value = value * 10 + digit;
        i = i + 1;
    }
    assert(d =~= s@.subrange(start as int, i as int));
    Some(value)
}

/// Whether `s[a..b]` sorts strictly before `s[c..e]`.
fn lex_lt_at(s: &Vec<char>, a: usize, b: usize, c: usize, e: usize) -> (r: bool)
    requires
        a <= b <= s@.len(),
        c <= e <= s@.len(),
    ensures
        r == lex_lt(s@.subrange(a as int, b as int), s@.subrange(c as int, e as int)),
    decreases b - a,
{
    let ghost x = s@.subrange(a as int, b as int);
    let ghost y = s@.subrange(c as int, e as int);
    if a == b {
        return c < e;
    }
    if c == e {
        return false;
    }
    assert(x[0] == s@[a as int] && y[0] == s@[c as int]);
    if s[a] != s[c] {
        return (s[a] as u32) < (s[c] as u32);
    }
    assert(x.drop_first() =~= s@.subrange(a + 1, b as int));
    assert(y.drop_first() =~= s@.subrange(c + 1, e as int));
    lex_lt_at(s, a + 1, b, c + 1, e)
}

/// The value of a single trimmed field `s[lo..hi]`, if it is `BANDWIDTH=`.
fn field_bandwidth_at(s: &Vec<char>, lo: usize, hi: usize) -> (r: Option<u64>)
    requires
        lo <= hi <= s@.len(),
    ensures
        r == field_bandwidth(s@.subrange(lo as int, hi as int)),
{
    let (a, b) = trim_bounds(s, lo, hi);
    let ghost t = trim(s@.subrange(lo as int, hi as int));
    assert(t == s@.subrange(a as int, b as int));
    proof {
        reveal_strlit("BANDWIDTH=");
    }
    if !chars_start_with_at(s, a, "BANDWIDTH=") || b - a < 10 {
        proof {
            if has_prefix(t, "BANDWIDTH="@) {
                assert(s@.subrange(a as int, s@.len() as int).subrange(0, 10) =~= t.subrange(0, 10));
            }
        }
        return None;
    }
    proof {
        assert(s@.subrange(a as int, s@.len() as int).subrange(0, 10) =~= t.subrange(0, 10));
    }
    let (c, e) = trim_bounds(s, a + 10, b);
    assert(t.subrange(10, t.len() as int) =~= s@.subrange(a + 10, b as int));
    let v = parse_u64_at(s, c, e);
    match v {
        Some(x) => Some(x),
        None => Some(0),
    }
}

/// The `BANDWIDTH` of the attribute list `s[lo..hi]`.
fn parse_bandwidth(s: &Vec<char>, lo: usize, hi: usize) -> (r: u64)
    requires
        lo <= hi <= s@.len(),
    ensures
        r == bandwidth_spec(s@.subrange(lo as int, hi as int)),
{
    let ghost w = s@.subrange(lo as int, hi as int);
    let mut in_quotes = false;
    let mut start = lo;
    let mut i = lo;
    while i < hi
        invariant
            lo <= start <= i <= hi <= s@.len(),
            w == s@.subrange(lo as int, hi as int),
            bandwidth_spec(w) == bandwidth_scan(w, start - lo, i - lo, in_quotes),
        decreases hi - i,
    {
        let c = s[i];
        assert(w[i - lo] == c);
        if c == '"' {
            in_quotes = !in_quotes;
        } else if c == ',' && !in_quotes {
            assert(w.subrange(start - lo, i - lo) =~= s@.subrange(start as int, i as int));
            match field_bandwidth_at(s, start, i) {
                Some(v) => {
                    return v;
                },
                None => {
                    start = i + 1;
                },
            }
        }
        i = i + 1;
    }
    assert(w.subrange(start - lo, w.len() as int) =~= s@.subrange(start as int, hi as int));
    match field_bandwidth_at(s, start, hi) {
        Some(v) => v,
        None => 0,
    }
}

/// The end of the line starting at `p` in `s`.
fn find_line_end(s: &Vec<char>, p: usize) -> (r: usize)
    requires
        p <= s@.len(),
    ensures
        r == line_end(s@, p as int),
        p <= r <= s@.len(),
{
    let mut i = p;
    while i < s.len() && s[i] != '\n'
        invariant
            p <= i <= s@.len(),
            forall|j: int| p <= j < i ==> s@[j] != '\n',
        decreases s@.len() - i,
    {
        i = i + 1;
    }
    proof {
        if exists|k: int| p <= k < s@.len() && s@[k] == '\n' {
            let k = choose|k: int| p <= k < s@.len() && s@[k] == '\n' && forall|j: int| p <= j < k ==> s@[j] != '\n';
            assert(k == i as int) by {
                if k < i { } else if k > i { }
            }
        }
    }
    i
}

/// The selection state held as positions in `s`.
pub open spec fn scan_state(s: Seq<char>, best: Option<(u64, usize, usize)>, pending: Option<u64>) -> VariantScan {
    VariantScan {
        best: match best { Some((bw, a, b)) => Some((bw, s.subrange(a as int, b as int))), None => None },
        pending,
    }
}

/// Applies one trimmed line `s[a..b]` to the selection state.
fn apply_line(s: &Vec<char>, best: Option<(u64, usize, usize)>, pending: Option<u64>, a: usize, b: usize) -> (r: (Option<(u64, usize, usize)>, Option<u64>))
    requires
        a <= b <= s@.len(),
        match best { Some((bw, x, y)) => x <= y <= s@.len(), None => true },
    ensures
        scan_state(s@, r.0, r.1) == variant_step(scan_state(s@, best, pending), s@.subrange(a as int, b as int)),
        match r.0 { Some((bw, x, y)) => x <= y <= s@.len(), None => true },
{
    let ghost line = s@.subrange(a as int, b as int);
    let ghost st = scan_state(s@, best, pending);
    proof {
        reveal_strlit("#EXT-X-STREAM-INF:");
    }
    let ghost prefix = "#EXT-X-STREAM-INF:"@;
    assert(prefix.len() == 18 && prefix[0] == '#');
    if a == b {
        return (best, pending);
    }
    if b - a >= 18 && chars_start_with_at(s, a, "#EXT-X-STREAM-INF:") {
        proof {
            assert(s@.subrange(a as int, s@.len() as int).subrange(0, 18) =~= line.subrange(0, 18));
            assert(line.subrange(18, line.len() as int) =~= s@.subrange(a + 18, b as int));
        }
        return (best, Some(parse_bandwidth(s, a + 18, b)));
    }
    proof {
        if has_prefix(line, prefix) {
            assert(s@.subrange(a as int, s@.len() as int).subrange(0, 18) =~= line.subrange(0, 18));
        }
        assert(!has_prefix(line, prefix));
        assert(line[0] == s@[a as int]);
    }
    if s[a] == '#' {
        return (best, pending);
    }
    match pending {
        Some(bw) => {
            match best {
                Some((bb, x, y)) => {
                    if bb > bw || (bb == bw && !lex_lt_at(s, x, y, a, b)) {
                        (best, None)
                    } else {
                        (Some((bw, a, b)), None)
                    }
                },
                None => (Some((bw, a, b)), None),
            }
        },
        None => (best, pending),
    }
}

/// Picks a media playlist URI from a master playlist.
///
/// Deterministic by construction: highest advertised `BANDWIDTH`, ties broken by the URI
/// itself, so the same master always yields the same choice. Returns the raw URI, which
/// the caller must resolve against the effective post-redirect playlist URL.
pub fn select_variant(master: &str) -> (r: Option<&str>)
    ensures
        match r {
            Some(u) => select_variant_spec(master@) == Some(u@) && is_greatest_candidate(
                master_candidates(master@),
                u@,
            ),
            None => select_variant_spec(master@) is None && master_candidates(master@).len() == 0,
        },
{
    proof {
        law_selected_variant_is_the_greatest_candidate(master@);
    }
    let s = chars_of(master);
    let mut best: Option<(u64, usize, usize)> = None;
    let mut pending: Option<u64> = None;
    let mut p: usize = 0;
    let mut done = false;
    let ghost init = VariantScan { best: None, pending: None };
    while !done
        invariant
            s@ == master@,
            p <= s@.len(),
            if done {
                variant_scan(s@, 0, init) == scan_state(s@, best, pending)
            } else {
                variant_scan(s@, 0, init) == variant_scan(s@, p as int, scan_state(s@, best, pending))
            },
            match best { Some((bw, a, b)) => a <= b <= s@.len(), None => true },
        decreases s@.len() + 1 - p + (if done { 0int } else { 1int }),
    {
        let e = find_line_end(&s, p);
        let (a, b) = trim_bounds(&s, p, e);
        let ghost before = scan_state(s@, best, pending);
        let (nb, np) = apply_line(&s, best, pending, a, b);
        best = nb;
        pending = np;
        proof {
            let after = scan_state(s@, best, pending);
            assert(after == variant_step(before, trim(s@.subrange(p as int, e as int))));
            assert(variant_scan(s@, p as int, before) == variant_scan(s@, e + 1, after));
            if e >= s@.len() {
                assert(variant_scan(s@, e + 1, after) == after);
            }
        }
        if e >= s.len() {
            done = true;
        } else {
            p = e + 1;
        }
    }
    match best {
        Some((_, a, b)) => Some(master.substring_char(a, b)),
        None => None,
    }
}

} // verus!
