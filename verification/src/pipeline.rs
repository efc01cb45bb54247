//! Where both source paths meet as compressed access units.
//!
//! Demux exactly once: direct MPEG-TS is demuxed by `transmux::StreamingTsDemux`, HLS by
//! the same transmux code inside the HLS client, which hands back already-demuxed
//! samples. Neither is demuxed again here; samples are forwarded untouched. What is
//! decided here is which track is played: the first audio track this app can decode,
//! and only that one, so a stream that also carries video or a second language cannot
//! make the output nondeterministic.
use vstd::prelude::*;
use transmux::{DemuxEvent, Sample, StreamingTsDemux, TrackSpec};
use broadcast_common::Unpackage;
use crate::text::{push_str, push_string, string_from_chars};

verus! {

#[verifier::external_type_specification]
#[verifier::external_body]
pub struct ExTrackSpec(TrackSpec);

#[verifier::external_type_specification]
#[verifier::external_body]
pub struct ExSample(Sample);

#[verifier::external_type_specification]
#[verifier::external_body]
pub struct ExStreamingTsDemux(StreamingTsDemux);

#[verifier::external_type_specification]
#[verifier::external_body]
pub struct ExDemuxEvent(DemuxEvent);

/// A source-agnostic event, identical for direct TS and for HLS.
pub enum SourceEvent {
    /// The selected audio track's configuration. Arrives before any `Access`.
    Track(TrackSpec),
    /// One compressed access unit of the selected track.
    Access(Sample),
    /// A genuine discontinuity: encoding, timing or codec may have changed.
    Discontinuity,
    EndOfStream,
}

/// Errors that stop a session. All are actionable rather than silent.
#[derive(Debug, Clone, PartialEq, Eq)]
pub enum PipelineError {
    NoAudioTrack,
    Decode(String),
    Demux(String),
    /// Samples arrived before any track configuration.
    SamplesBeforeTrack,
}

impl PipelineError {
    pub open spec fn message_spec(&self) -> Seq<char> {
        match self {
            PipelineError::NoAudioTrack => "stream contains no supported audio track"@,
            PipelineError::Decode(e) => "audio decode failed: "@ + e@,
            PipelineError::Demux(e) => "stream demux failed: "@ + e@,
            PipelineError::SamplesBeforeTrack => "stream sent audio before declaring its format"@,
        }
    }

    /// The message shown for this error.
    pub fn to_string(&self) -> (r: String)
        ensures
            r@ == self.message_spec(),
    {
        let mut out: Vec<char> = Vec::new();
        match self {
            PipelineError::NoAudioTrack => push_str(&mut out, "stream contains no supported audio track"),
            PipelineError::Decode(e) => {
                push_str(&mut out, "audio decode failed: ");
                push_string(&mut out, e);
            },
            PipelineError::Demux(e) => {
                push_str(&mut out, "stream demux failed: ");
                push_string(&mut out, e);
            },
            PipelineError::SamplesBeforeTrack => push_str(&mut out, "stream sent audio before declaring its format"),
        }
        assert(out@ =~= self.message_spec());
        string_from_chars(out.as_slice())
    }
}

// ---------------------------------------------------------------------------------------
// Tracks
// ---------------------------------------------------------------------------------------

/// The codec of a track, as far as deciding support goes.
#[derive(Debug, Clone, Copy, PartialEq, Eq, Structural)]
pub enum CodecKind {
    Aac,
    /// MPEG audio, with its layer (1, 2 or 3).
    MpegAudio { layer: u8 },
    Other,
}

/// What track selection reads of a track.
#[derive(Debug, Clone, Copy, PartialEq, Eq, Structural)]
pub struct TrackInfo {
    pub track_id: u32,
    pub codec: CodecKind,
}

/// Whether this app can decode a track: AAC, or MPEG audio layer III.
pub open spec fn supports_spec(codec: CodecKind) -> bool {
    match codec {
        CodecKind::Aac => true,
        CodecKind::MpegAudio { layer } => layer == 3,
        CodecKind::Other => false,
    }
}

pub fn supports(codec: CodecKind) -> (r: bool)
    ensures
        r == supports_spec(codec),
{
    match codec {
        CodecKind::Aac => true,
        CodecKind::MpegAudio { layer } => layer == 3,
        CodecKind::Other => false,
    }
}

/// The first supported track among the first `n`.
pub open spec fn first_supported(tracks: Seq<TrackInfo>, n: int) -> Option<int>
    decreases n,
{
    if n <= 0 {
        None
    } else {
        match first_supported(tracks, n - 1) {
            Some(i) => Some(i),
            None => if supports_spec(tracks[n - 1].codec) {
                Some(n - 1)
            } else {
                None
            },
        }
    }
}

/// The tracks that `transmux::Fmp4Demux::unpackage` finds in an initialization section,
/// each with the id and codec selection reads beside its full spec, or the `Debug` text of
/// its error.
pub uninterp spec fn init_tracks_view(init: Seq<u8>) -> Result<Seq<(TrackInfo, TrackSpec)>, Seq<char>>;

/// The track list of a decoded initialization section, paired with the full specs.
pub open spec fn infos_of(tracks: Seq<(TrackInfo, TrackSpec)>) -> Seq<TrackInfo> {
    Seq::new(tracks.len(), |i: int| tracks[i].0)
}

/// Unpackages an fMP4 initialization section with `transmux::Fmp4Demux`, reading each
/// track's id and codec alongside its full spec.
#[verifier::external_body]
fn unpackage_init(init: &[u8]) -> (r: Result<Vec<(TrackInfo, TrackSpec)>, String>)
    ensures
        match r {
            Ok(tracks) => init_tracks_view(init@) == Ok::<Seq<(TrackInfo, TrackSpec)>, Seq<char>>(tracks@),
            Err(e) => init_tracks_view(init@) == Err::<Seq<(TrackInfo, TrackSpec)>, Seq<char>>(e@),
        },
{
    let media = transmux::Fmp4Demux::new().unpackage(init).map_err(|e| format!("{e:?}"))?;
    Ok(media.tracks.into_iter().map(|t| {
        let codec = match &t.spec.config {
            transmux::CodecConfig::Aac { .. } => CodecKind::Aac,
            transmux::CodecConfig::MpegAudio { layer, .. } => CodecKind::MpegAudio { layer: layer.number() },
            _ => CodecKind::Other,
        };
        (TrackInfo { track_id: t.spec.track_id.value(), codec }, t.spec)
    }).collect())
}

// ---------------------------------------------------------------------------------------
// Decoding
// ---------------------------------------------------------------------------------------

/// What the decode stage decides and counts around its one decoder: whether a track is
/// configured, how many times a real discontinuity reset the decoder, compressed audio
/// bytes (access units only, never TS or HTTP overhead, so a derived bitrate is honest),
/// and decoded frames per channel. The decoder itself works on floating-point PCM and
/// lives with the caller.
#[derive(Debug)]
pub struct PipelineTally {
    configured: bool,
    resets: u32,
    compressed_bytes: u64,
    decoded_frames: u64,
}

pub struct PipelineTallyView {
    pub configured: bool,
    pub resets: u32,
    pub compressed_bytes: u64,
    pub decoded_frames: u64,
}

impl View for PipelineTally {
    type V = PipelineTallyView;

    closed spec fn view(&self) -> PipelineTallyView {
        PipelineTallyView {
            configured: self.configured,
            resets: self.resets,
            compressed_bytes: self.compressed_bytes,
            decoded_frames: self.decoded_frames,
        }
    }
}

/// Frames per channel in an interleaved block; a block that claims no channels counts
/// as mono.
pub open spec fn block_frames(samples: usize, channels: usize) -> nat {
    if channels == 0 {
        samples as nat
    } else {
        (samples / channels) as nat
    }
}

impl PipelineTally {
    pub fn new() -> (r: Self)
        ensures
            r@ == (PipelineTallyView { configured: false, resets: 0, compressed_bytes: 0, decoded_frames: 0 }),
    {
        PipelineTally { configured: false, resets: 0, compressed_bytes: 0, decoded_frames: 0 }
    }

    pub fn is_configured(&self) -> (r: bool)
        ensures
            r == self@.configured,
    {
        self.configured
    }

    /// Decoder resets so far. Ordinary segment boundaries must not cause one.
    pub fn resets(&self) -> (r: u32)
        ensures
            r == self@.resets,
    {
        self.resets
    }

    pub fn compressed_bytes(&self) -> (r: u64)
        ensures
            r == self@.compressed_bytes,
    {
        self.compressed_bytes
    }

    pub fn decoded_frames(&self) -> (r: u64)
        ensures
            r == self@.decoded_frames,
    {
        self.decoded_frames
    }

    /// A track configuration built its decoder.
    pub fn track_configured(&mut self)
        ensures
            final(self)@ == (PipelineTallyView { configured: true, ..old(self)@ }),
    {
        self.configured = true;
    }

    /// Whether an access unit may be decoded: samples that arrive before any track
    /// configuration are a clear error rather than silence.
    pub fn admit_access(&self) -> (r: Result<(), PipelineError>)
        ensures
            self@.configured ==> r is Ok,
            !self@.configured ==> r == Err::<(), PipelineError>(PipelineError::SamplesBeforeTrack),
    {
        if self.configured {
            Ok(())
        } else {
            Err(PipelineError::SamplesBeforeTrack)
        }
    }

    /// Counts one decoded access unit of `compressed_len` bytes that gave an interleaved
    /// block of `samples` values over `channels` channels.
    pub fn record_block(&mut self, compressed_len: u64, samples: usize, channels: usize)
        requires
            old(self)@.compressed_bytes + compressed_len <= u64::MAX,
            old(self)@.decoded_frames + block_frames(samples, channels) <= u64::MAX,
        ensures
            final(self)@ == (PipelineTallyView {
                compressed_bytes: (old(self)@.compressed_bytes + compressed_len) as u64,
                decoded_frames: (old(self)@.decoded_frames + block_frames(samples, channels)) as u64,
                ..old(self)@
            }),
    {
        let per_channel = if channels == 0 { 1 } else { channels };
        let frames = samples / per_channel;
        self.compressed_bytes = self.compressed_bytes + compressed_len;
        self.decoded_frames = self.decoded_frames + frames as u64;
    }

    /// A genuine discontinuity: the decoder, when there is one, is reset. Returns whether
    /// it must be.
    pub fn discontinuity(&mut self) -> (r: bool)
        requires
            old(self)@.configured ==> old(self)@.resets < u32::MAX,
        ensures
            r == old(self)@.configured,
            final(self)@ == (if r {
                PipelineTallyView { resets: (old(self)@.resets + 1) as u32, ..old(self)@ }
            } else {
                old(self)@
            }),
    {
        if self.configured {
            self.resets = self.resets + 1;
            true
        } else {
            false
        }
    }

    /// Whether there is enough evidence for a bitrate: at least a second of decoded audio
    /// at `sample_rate`. Until then the bitrate stays unknown rather than a wild guess.
    pub fn has_bitrate_evidence(&self, sample_rate: u32) -> (r: bool)
        ensures
            r == (sample_rate != 0 && self@.decoded_frames >= sample_rate),
    {
        sample_rate != 0 && self.decoded_frames >= sample_rate as u64
    }
}

// ---------------------------------------------------------------------------------------
// HLS
// ---------------------------------------------------------------------------------------

/// What the HLS client hands over, with the track id as a number.
pub enum IngestInput {
    /// Initialization section bytes, synthesised by the client even for TS segments.
    Init(Vec<u8>),
    /// Already-demuxed samples of one track.
    Samples { track_id: u32, samples: Vec<Sample> },
    Discontinuity,
    EndOfStream,
    /// Anything else the client reports, such as its track list.
    Other,
}

/// Translates the HLS client's output into the shared form. Only the initialization
/// metadata is parsed; sample payloads are forwarded untouched.
#[derive(Debug)]
pub struct HlsIngest {
    selected: Option<u32>,
    inits: u32,
}

pub struct HlsIngestView {
    pub selected: Option<u32>,
    pub inits: u32,
}

impl View for HlsIngest {
    type V = HlsIngestView;

    closed spec fn view(&self) -> HlsIngestView {
        HlsIngestView { selected: self.selected, inits: self.inits }
    }
}

/// Every sample forwarded as an access unit, in order.
pub open spec fn all_access(events: Seq<SourceEvent>, samples: Seq<Sample>) -> bool {
    events.len() == samples.len() && forall|i: int| 0 <= i < events.len() ==> #[trigger] events[i] == SourceEvent::Access(samples[i])
}

fn access_all(samples: Vec<Sample>) -> (r: Vec<SourceEvent>)
    ensures
        all_access(r@, samples@),
{
    let mut reversed: Vec<Sample> = Vec::new();
    let mut samples = samples;
    let ghost all = samples@;
    while samples.len() > 0
        invariant
            samples@.len() + reversed@.len() == all.len(),
            samples@ == all.subrange(0, samples@.len() as int),
            forall|k: int| 0 <= k < reversed@.len() ==> #[trigger] reversed@[k] == all[all.len() - 1 - k],
        decreases samples@.len(),
    {
        let ghost before = samples@;
        match samples.pop() {
            Some(s) => {
                reversed.push(s);
                assert(samples@ =~= all.subrange(0, samples@.len() as int));
            },
            None => {},
        }
    }
    let mut out: Vec<SourceEvent> = Vec::new();
    while reversed.len() > 0
        invariant
            reversed@.len() + out@.len() == all.len(),
            forall|k: int| 0 <= k < reversed@.len() ==> #[trigger] reversed@[k] == all[all.len() - 1 - k],
            forall|k: int| 0 <= k < out@.len() ==> #[trigger] out@[k] == SourceEvent::Access(all[k]),
        decreases reversed@.len(),
    {
        let ghost n = reversed@.len();
        match reversed.pop() {
            Some(s) => {
                assert(s == all[all.len() - n]);
                out.push(SourceEvent::Access(s));
            },
            None => {},
        }
    }
    out
}

/// A translation outcome with its events as a sequence.
pub open spec fn events_view(r: Result<Vec<SourceEvent>, PipelineError>) -> Result<Seq<SourceEvent>, PipelineError> {
    match r {
        Ok(v) => Ok(v@),
        Err(e) => Err(e),
    }
}

/// What taking the tracks of an initialization section does: the first supported audio
/// track is selected and its spec is the one `Track` event; with none, the section is
/// refused with `NoAudioTrack` and nothing changes.
pub open spec fn tracks_accepted(
    old: HlsIngestView,
    tracks: Seq<(TrackInfo, TrackSpec)>,
    new: HlsIngestView,
    r: Result<Seq<SourceEvent>, PipelineError>,
) -> bool {
    match first_supported(infos_of(tracks), tracks.len() as int) {
        None => r == Err::<Seq<SourceEvent>, PipelineError>(PipelineError::NoAudioTrack) && new == old,
        Some(i) => r == Ok::<Seq<SourceEvent>, PipelineError>(seq![SourceEvent::Track(tracks[i].1)])
            && new == (HlsIngestView { selected: Some(tracks[i].0.track_id), inits: (old.inits + 1) as u32 }),
    }
}

/// What translating one client output does: an initialization section selects the
/// first supported track and yields its configuration (or fails naming why); samples of
/// the selected track pass through untouched and others are dropped; markers pass
/// through; anything else yields nothing.
pub open spec fn translated(
    old: HlsIngestView,
    input: IngestInput,
    new: HlsIngestView,
    r: Result<Seq<SourceEvent>, PipelineError>,
) -> bool {
    match input {
        IngestInput::Init(bytes) => match init_tracks_view(bytes@) {
            Err(e) => (r matches Err(PipelineError::Demux(m)) && m@ == e) && new == old,
            Ok(tracks) => tracks_accepted(old, tracks, new, r),
        },
        IngestInput::Samples { track_id, samples } => new == old && if old.selected == Some(track_id) {
            r matches Ok(events) && all_access(events, samples@)
        } else {
            r == Ok::<Seq<SourceEvent>, PipelineError>(Seq::empty())
        },
        IngestInput::Discontinuity => new == old && r == Ok::<Seq<SourceEvent>, PipelineError>(
            seq![SourceEvent::Discontinuity],
        ),
        IngestInput::EndOfStream => new == old && r == Ok::<Seq<SourceEvent>, PipelineError>(
            seq![SourceEvent::EndOfStream],
        ),
        IngestInput::Other => new == old && r == Ok::<Seq<SourceEvent>, PipelineError>(Seq::empty()),
    }
}

/// How many translations of a run were initialization sections that were accepted.
pub open spec fn accepted_inits(inputs: Seq<IngestInput>, results: Seq<Result<Seq<SourceEvent>, PipelineError>>) -> nat
    decreases inputs.len(),
{
    if inputs.len() == 0 || results.len() == 0 {
        0
    } else {
        accepted_inits(inputs.drop_last(), results.drop_last()) + if inputs.last() is Init && results.last() is Ok {
            1nat
        } else {
            0nat
        }
    }
}

/// Over any run of translations, the count of parsed initialization sections grows by
/// exactly the accepted `Init` outputs: samples, markers, other outputs and refused
/// initialization sections never change it (and a fresh ingest starts at zero).
pub proof fn law_inits_count_accepted_initializations(
    views: Seq<HlsIngestView>,
    inputs: Seq<IngestInput>,
    results: Seq<Result<Seq<SourceEvent>, PipelineError>>,
)
    requires
        views.len() == inputs.len() + 1,
        results.len() == inputs.len(),
        views[0].inits + inputs.len() < u32::MAX,
        forall|i: int| 0 <= i < inputs.len() ==> translated(#[trigger] views[i], inputs[i], views[i + 1], results[i]),
    ensures
        views.last().inits == views[0].inits + accepted_inits(inputs, results),
        views.last().inits <= views[0].inits + inputs.len(),
    decreases inputs.len(),
{
    if inputs.len() > 0 {
        let n = inputs.len() as int;
        let vs = views.drop_last();
        assert forall|i: int| 0 <= i < inputs.drop_last().len() implies translated(
            #[trigger] vs[i],
            inputs.drop_last()[i],
            vs[i + 1],
            results.drop_last()[i],
        ) by {
            assert(vs[i] == views[i] && vs[i + 1] == views[i + 1]);
        }
        law_inits_count_accepted_initializations(vs, inputs.drop_last(), results.drop_last());
        assert(translated(views[n - 1], inputs[n - 1], views[n], results[n - 1]));
        assert(vs.last() == views[n - 1]);
    }
}

impl HlsIngest {
    pub fn new() -> (r: Self)
        ensures
            r@.selected is None,
            r@.inits == 0,
    {
        HlsIngest { selected: None, inits: 0 }
    }

    /// Number of initialization sections parsed. Ordinary segment boundaries must not
    /// increase it.
    pub fn inits(&self) -> (r: u32)
        ensures
            r == self@.inits,
    {
        self.inits
    }

    /// Takes the tracks of an unpackaged initialization section: selects the first one
    /// this app can decode and hands on its configuration.
    pub fn accept_tracks(&mut self, tracks: Vec<(TrackInfo, TrackSpec)>) -> (r: Result<Vec<SourceEvent>, PipelineError>)
        requires
            old(self)@.inits < u32::MAX,
        ensures
            tracks_accepted(old(self)@, tracks@, final(self)@, events_view(r)),
    {
        let ghost all = tracks@;
        let mut rest = tracks;
        let mut i: usize = 0;
        while i < rest.len()
            invariant
                rest@ == all,
                tracks@ == all,
                i <= all.len(),
                first_supported(infos_of(all), i as int) is None,
                self@ == old(self)@,
                old(self)@.inits < u32::MAX,
            decreases all.len() - i,
        {
            if supports(rest[i].0.codec) {
                proof {
                    assert(infos_of(all)[i as int] == all[i as int].0);
                    assert(first_supported(infos_of(all), i as int + 1) == Some(i as int));
                    lemma_first_supported_stable(infos_of(all), i as int + 1, all.len() as int);
                }
                let (info, spec) = rest.swap_remove(i);
                assert(info == all[i as int].0 && spec == all[i as int].1);
                self.inits = self.inits + 1;
                self.selected = Some(info.track_id);
                let mut events: Vec<SourceEvent> = Vec::new();
                events.push(SourceEvent::Track(spec));
                assert(events@ =~= seq![SourceEvent::Track(all[i as int].1)]);
                assert(self@ == (HlsIngestView {
                    selected: Some(all[i as int].0.track_id),
                    inits: (old(self)@.inits + 1) as u32,
                }));
                return Ok(events);
            }
            proof {
                assert(infos_of(all)[i as int] == all[i as int].0);
            }
            i = i + 1;
        }
        Err(PipelineError::NoAudioTrack)
    }

    /// Translates one client output into zero or more shared events.
    pub fn translate(&mut self, input: IngestInput) -> (r: Result<Vec<SourceEvent>, PipelineError>)
        requires
            old(self)@.inits < u32::MAX,
        ensures
            translated(old(self)@, input, final(self)@, events_view(r)),
    {
        match input {
            IngestInput::Init(bytes) => match unpackage_init(bytes.as_slice()) {
                Ok(tracks) => self.accept_tracks(tracks),
                Err(e) => Err(PipelineError::Demux(e)),
            },
            IngestInput::Samples { track_id, samples } => {
                let wanted = match self.selected {
                    Some(t) => t == track_id,
                    None => false,
                };
                if !wanted {
                    return Ok(Vec::new());
                }
                Ok(access_all(samples))
            },
            IngestInput::Discontinuity => {
                let mut events: Vec<SourceEvent> = Vec::new();
                events.push(SourceEvent::Discontinuity);
                Ok(events)
            },
            IngestInput::EndOfStream => {
                let mut events: Vec<SourceEvent> = Vec::new();
                events.push(SourceEvent::EndOfStream);
                Ok(events)
            },
            IngestInput::Other => Ok(Vec::new()),
        }
    }
}

proof fn lemma_first_supported_stable(tracks: Seq<TrackInfo>, m: int, n: int)
    requires
        m <= n,
        first_supported(tracks, m) is Some,
    ensures
        first_supported(tracks, n) == first_supported(tracks, m),
    decreases n - m,
{
    if m < n {
        lemma_first_supported_stable(tracks, m, n - 1);
    }
}

// ---------------------------------------------------------------------------------------
// Direct TS
// ---------------------------------------------------------------------------------------

/// One event of the streaming TS demuxer, with the parts track selection reads.
pub enum DemuxInput {
    TrackAdded { info: TrackInfo, spec: TrackSpec },
    Sample { track_id: u32, sample: Sample },
    Discontinuity,
    Other,
}

/// Selects the direct TS path's track: the first supported audio track wins and later
/// tracks are ignored.
#[derive(Debug)]
pub struct TsSelection {
    selected: Option<u32>,
}

impl View for TsSelection {
    type V = Option<u32>;

    /// The selected track, once there is one.
    closed spec fn view(&self) -> Option<u32> {
        self.selected
    }
}

impl TsSelection {
    pub fn new() -> (r: Self)
        ensures
            r@ is None,
    {
        TsSelection { selected: None }
    }

    /// The shared event one demuxer event becomes, if any.
    pub fn step(&mut self, event: DemuxInput) -> (r: Option<SourceEvent>)
        ensures
            final(self)@ == select_step(old(self)@, event),
            r == step_output(old(self)@, event),
            match event {
                DemuxInput::TrackAdded { info, spec } => if old(self)@ is None && supports_spec(info.codec) {
                    final(self)@ == Some(info.track_id) && r == Some(SourceEvent::Track(spec))
                } else {
                    final(self)@ == old(self)@ && r is None
                },
                DemuxInput::Sample { track_id, sample } => final(self)@ == old(self)@ && if old(self)@ == Some(track_id) {
                    r == Some(SourceEvent::Access(sample))
                } else {
                    r is None
                },
                DemuxInput::Discontinuity => final(self)@ == old(self)@ && r == Some(SourceEvent::Discontinuity),
                DemuxInput::Other => final(self)@ == old(self)@ && r is None,
            },
    {
        match event {
            DemuxInput::TrackAdded { info, spec } => {
                if self.selected.is_none() && supports(info.codec) {
                    self.selected = Some(info.track_id);
                    Some(SourceEvent::Track(spec))
                } else {
                    None
                }
            },
            DemuxInput::Sample { track_id, sample } => {
                let wanted = match self.selected {
                    Some(t) => t == track_id,
                    None => false,
                };
                if wanted {
                    Some(SourceEvent::Access(sample))
                } else {
                    None
                }
            },
            DemuxInput::Discontinuity => Some(SourceEvent::Discontinuity),
            DemuxInput::Other => None,
        }
    }
}

/// The shared event one demuxer event becomes under a selection: the configuration of
/// the first supported track, a sample of the selected track, or a discontinuity.
pub open spec fn step_output(selected: Option<u32>, event: DemuxInput) -> Option<SourceEvent> {
    match event {
        DemuxInput::TrackAdded { info, spec } => if selected is None && supports_spec(info.codec) {
            Some(SourceEvent::Track(spec))
        } else {
            None
        },
        DemuxInput::Sample { track_id, sample } => if selected == Some(track_id) {
            Some(SourceEvent::Access(sample))
        } else {
            None
        },
        DemuxInput::Discontinuity => Some(SourceEvent::Discontinuity),
        DemuxInput::Other => None,
    }
}

/// The selection after one demuxer event.
pub open spec fn select_step(selected: Option<u32>, event: DemuxInput) -> Option<u32> {
    match event {
        DemuxInput::TrackAdded { info, .. } => if selected is None && supports_spec(info.codec) {
            Some(info.track_id)
        } else {
            selected
        },
        _ => selected,
    }
}

/// The selection after a run of demuxer events.
pub open spec fn selection_after(selected: Option<u32>, events: Seq<DemuxInput>) -> Option<u32>
    decreases events.len(),
{
    if events.len() == 0 {
        selected
    } else {
        selection_after(select_step(selected, events[0]), events.drop_first())
    }
}

/// Once a track is selected it stays selected: no later track, however it arrives, can
/// switch the output to another one.
pub proof fn law_the_selected_track_never_changes(track: u32, events: Seq<DemuxInput>)
    ensures
        selection_after(Some(track), events) == Some(track),
    decreases events.len(),
{
    if events.len() > 0 {
        law_the_selected_track_never_changes(track, events.drop_first());
    }
}

/// The complete sequence of events `transmux::StreamingTsDemux` produces from `bytes`
/// followed by `finish`, each in the form track selection reads. Its documentation
/// ("Chunk-size invariance") makes this a function of the bytes alone: however they are
/// split across `feed` calls and whenever the queue is drained, the events, their order
/// and their contents are the same; only the moment an event becomes pollable depends on
/// the chunking.
pub uninterp spec fn ts_stream(bytes: Seq<u8>) -> Seq<DemuxInput>;

/// Every byte handed to a demuxer so far, in order.
pub uninterp spec fn ts_demux_fed(demux: StreamingTsDemux) -> Seq<u8>;

/// The events already taken off a demuxer's queue, in order.
pub uninterp spec fn ts_demux_taken(demux: StreamingTsDemux) -> Seq<DemuxInput>;

/// The events on a demuxer's queue, in the order `poll_event` hands them out.
pub uninterp spec fn ts_demux_queue(demux: StreamingTsDemux) -> Seq<DemuxInput>;

/// Whether `finish` was called on a demuxer.
pub uninterp spec fn ts_demux_finished(demux: StreamingTsDemux) -> bool;

/// What a demuxer has produced so far: its taken events, then its queue.
pub open spec fn ts_produced(demux: StreamingTsDemux) -> Seq<DemuxInput> {
    ts_demux_taken(demux) + ts_demux_queue(demux)
}

/// Events produced from `fed` that stay as they are whatever follows: a prefix of the
/// complete sequence of every continuation of the bytes.
pub open spec fn ts_consistent(produced: Seq<DemuxInput>, fed: Seq<u8>) -> bool {
    forall|rest: Seq<u8>| #[trigger] ts_stream(fed + rest).len() >= produced.len()
        && produced == ts_stream(fed + rest).subrange(0, produced.len() as int)
}

/// A fresh `transmux::StreamingTsDemux`: nothing fed, nothing produced.
#[verifier::external_body]
fn demux_new() -> (r: StreamingTsDemux)
    ensures
        ts_demux_fed(r) == Seq::<u8>::empty(),
        ts_demux_taken(r) == Seq::<DemuxInput>::empty(),
        ts_demux_queue(r) == Seq::<DemuxInput>::empty(),
        !ts_demux_finished(r),
{
    StreamingTsDemux::new()
}

/// `StreamingTsDemux::feed`: the chunk follows every byte fed before; the queue keeps
/// what it held and may grow by events that are final whatever bytes follow. Its
/// documentation asks for `finish` once, at the end of input, so no chunk follows it.
#[verifier::external_body]
fn demux_feed(demux: &mut StreamingTsDemux, chunk: &[u8])
    requires
        !ts_demux_finished(*old(demux)),
    ensures
        ts_demux_fed(*final(demux)) == ts_demux_fed(*old(demux)) + chunk@,
        ts_demux_taken(*final(demux)) == ts_demux_taken(*old(demux)),
        ts_demux_queue(*old(demux)).is_prefix_of(ts_demux_queue(*final(demux))),
        !ts_demux_finished(*final(demux)),
        ts_consistent(ts_produced(*final(demux)), ts_demux_fed(*final(demux))),
{
    demux.feed(chunk)
}

/// `StreamingTsDemux::finish`: no more input comes; trailing frames are completed, and
/// everything produced is then the complete sequence of the bytes fed.
#[verifier::external_body]
fn demux_finish(demux: &mut StreamingTsDemux)
    requires
        !ts_demux_finished(*old(demux)),
    ensures
        ts_demux_fed(*final(demux)) == ts_demux_fed(*old(demux)),
        ts_demux_taken(*final(demux)) == ts_demux_taken(*old(demux)),
        ts_demux_queue(*old(demux)).is_prefix_of(ts_demux_queue(*final(demux))),
        ts_demux_finished(*final(demux)),
        ts_produced(*final(demux)) == ts_stream(ts_demux_fed(*final(demux))),
{
    demux.finish()
}

/// `StreamingTsDemux::poll_event`, each event read for track selection: a new track's id
/// and codec (AAC, MPEG audio with `layer.number()`, or other), a sample's track id, a
/// discontinuity, or other. `None` exactly when the queue is empty; otherwise its front.
#[verifier::external_body]
fn demux_poll(demux: &mut StreamingTsDemux) -> (r: Option<DemuxInput>)
    ensures
        ts_demux_fed(*final(demux)) == ts_demux_fed(*old(demux)),
        ts_demux_finished(*final(demux)) == ts_demux_finished(*old(demux)),
        ts_demux_queue(*old(demux)).len() == 0 ==> r is None && ts_demux_queue(*final(demux))
            == ts_demux_queue(*old(demux)) && ts_demux_taken(*final(demux)) == ts_demux_taken(*old(demux)),
        ts_demux_queue(*old(demux)).len() > 0 ==> r == Some(ts_demux_queue(*old(demux))[0])
            && ts_demux_queue(*final(demux)) == ts_demux_queue(*old(demux)).drop_first()
            && ts_demux_taken(*final(demux)) == ts_demux_taken(*old(demux)).push(ts_demux_queue(*old(demux))[0]),
{
    demux.poll_event().map(|event| match event {
        DemuxEvent::TrackAdded(spec) => DemuxInput::TrackAdded {
            info: TrackInfo { track_id: spec.track_id.value(), codec: match &spec.config {
                transmux::CodecConfig::Aac { .. } => CodecKind::Aac,
                transmux::CodecConfig::MpegAudio { layer, .. } => CodecKind::MpegAudio { layer: layer.number() },
                _ => CodecKind::Other,
            } },
            spec,
        },
        DemuxEvent::Sample { track_id, sample, .. } => DemuxInput::Sample { track_id: track_id.value(), sample },
        DemuxEvent::Discontinuity { .. } => DemuxInput::Discontinuity,
        _ => DemuxInput::Other,
    })
}

/// Direct continuous MPEG-TS ingestion: network chunks in, shared events out. Chunk
/// boundaries are irrelevant; the first supported audio track wins.
pub struct TsIngest {
    demux: StreamingTsDemux,
    selection: TsSelection,
}

pub struct TsIngestView {
    /// The selected track, once there is one.
    pub selected: Option<u32>,
    /// Every byte handed to the demuxer so far, in order.
    pub fed: Seq<u8>,
    /// Whether the end of the body was signalled.
    pub finished: bool,
    /// Demuxer events already handled, in order.
    pub taken: Seq<DemuxInput>,
    /// Demuxer events waiting to be handled, in order.
    pub queue: Seq<DemuxInput>,
}

impl View for TsIngest {
    type V = TsIngestView;

    closed spec fn view(&self) -> TsIngestView {
        TsIngestView {
            selected: self.selection@,
            fed: ts_demux_fed(self.demux),
            finished: ts_demux_finished(self.demux),
            taken: ts_demux_taken(self.demux),
            queue: ts_demux_queue(self.demux),
        }
    }
}

impl TsIngestView {
    /// What the demuxer has produced so far: the handled events, then the waiting ones.
    pub open spec fn produced(self) -> Seq<DemuxInput> {
        self.taken + self.queue
    }
}

/// The selection after a run of demuxer events, taken from the back.
pub proof fn lemma_selection_after_push(selected: Option<u32>, events: Seq<DemuxInput>, event: DemuxInput)
    ensures
        selection_after(selected, events.push(event)) == select_step(selection_after(selected, events), event),
    decreases events.len(),
{
    if events.len() > 0 {
        assert(events.push(event)[0] == events[0]);
        assert(events.push(event).drop_first() =~= events.drop_first().push(event));
        lemma_selection_after_push(select_step(selected, events[0]), events.drop_first(), event);
    } else {
        assert(events.push(event)[0] == event);
        assert(events.push(event).drop_first() =~= Seq::<DemuxInput>::empty());
        reveal_with_fuel(selection_after, 2);
    }
}

impl TsIngest {
    pub fn new() -> (r: Self)
        ensures
            r@ == (TsIngestView {
                selected: None,
                fed: Seq::empty(),
                finished: false,
                taken: Seq::empty(),
                queue: Seq::empty(),
            }),
    {
        TsIngest { demux: demux_new(), selection: TsSelection::new() }
    }

    /// Hands `chunk` to the demuxer, after every byte handed to it before. The demuxer
    /// is told the end of input once, so no chunk follows `finish`.
    pub fn feed(&mut self, chunk: &[u8])
        requires
            !old(self)@.finished,
        ensures
            final(self)@.fed == old(self)@.fed + chunk@,
            final(self)@.selected == old(self)@.selected,
            final(self)@.taken == old(self)@.taken,
            old(self)@.queue.is_prefix_of(final(self)@.queue),
            !final(self)@.finished,
            ts_consistent(final(self)@.produced(), final(self)@.fed),
    {
        demux_feed(&mut self.demux, chunk);
    }

    /// Signals that the body ended, flushing any completable trailing frame: everything
    /// the demuxer produced is then the complete event sequence of the bytes fed.
    pub fn finish(&mut self)
        requires
            !old(self)@.finished,
        ensures
            final(self)@.fed == old(self)@.fed,
            final(self)@.selected == old(self)@.selected,
            final(self)@.taken == old(self)@.taken,
            old(self)@.queue.is_prefix_of(final(self)@.queue),
            final(self)@.finished,
            final(self)@.produced() == ts_stream(final(self)@.fed),
    {
        demux_finish(&mut self.demux);
    }

    /// Handles one demuxer event: `None` exactly when none is waiting; otherwise the shared
    /// event the front one becomes, if any, under the current selection.
    pub fn poll_step(&mut self) -> (r: Option<Option<SourceEvent>>)
        ensures
            old(self)@.queue.len() == 0 ==> r is None && final(self)@ == old(self)@,
            old(self)@.queue.len() > 0 ==> r == Some(step_output(old(self)@.selected, old(self)@.queue[0]))
                && final(self)@ == (TsIngestView {
                    selected: select_step(old(self)@.selected, old(self)@.queue[0]),
                    taken: old(self)@.taken.push(old(self)@.queue[0]),
                    queue: old(self)@.queue.drop_first(),
                    ..old(self)@
                }),
    {
        match demux_poll(&mut self.demux) {
            Some(input) => Some(self.selection.step(input)),
            None => None,
        }
    }

    /// Drains the demuxer up to the next shared event: the events handled on the way
    /// become nothing, and `None` means none is waiting any more.
    pub fn poll(&mut self) -> (r: Option<SourceEvent>)
        ensures
            final(self)@.fed == old(self)@.fed,
            final(self)@.finished == old(self)@.finished,
            final(self)@.produced() == old(self)@.produced(),
            old(self)@.taken.is_prefix_of(final(self)@.taken),
            final(self)@.selected == selection_after(
                old(self)@.selected,
                final(self)@.taken.subrange(old(self)@.taken.len() as int, final(self)@.taken.len() as int),
            ),
            r is None ==> final(self)@.queue.len() == 0,
            forall|j: int| old(self)@.taken.len() <= j < final(self)@.taken.len() - 1 ==> step_output(
                selection_after(old(self)@.selected, final(self)@.taken.subrange(old(self)@.taken.len() as int, j)),
                #[trigger] final(self)@.taken[j],
            ) is None,
            r is None ==> forall|j: int| old(self)@.taken.len() <= j < final(self)@.taken.len() ==> step_output(
                selection_after(old(self)@.selected, final(self)@.taken.subrange(old(self)@.taken.len() as int, j)),
                #[trigger] final(self)@.taken[j],
            ) is None,
            r is Some ==> final(self)@.taken.len() > old(self)@.taken.len() && r == step_output(
                selection_after(
                    old(self)@.selected,
                    final(self)@.taken.subrange(old(self)@.taken.len() as int, final(self)@.taken.len() - 1),
                ),
                final(self)@.taken.last(),
            ),
    {
        let ghost start = self@;
        let ghost base = start.taken.len() as int;
        loop
            invariant
                start == old(self)@,
                self@.fed == start.fed,
                self@.finished == start.finished,
                self@.produced() == start.produced(),
                start.taken.is_prefix_of(self@.taken),
                base == start.taken.len(),
                self@.selected == selection_after(start.selected, self@.taken.subrange(base, self@.taken.len() as int)),
                forall|j: int| base <= j < self@.taken.len() ==> step_output(
                    selection_after(start.selected, self@.taken.subrange(base, j)),
                    #[trigger] self@.taken[j],
                ) is None,
            decreases self@.queue.len(),
        {
            let ghost before = self@;
            let step = self.poll_step();
            match step {
                None => {
                    return None;
                },
                Some(out) => {
                    proof {
                        let n = before.taken.len() as int;
                        let x = before.queue[0];
                        assert(self@.taken.subrange(base, n + 1) =~= before.taken.subrange(base, n).push(x));
                        lemma_selection_after_push(start.selected, before.taken.subrange(base, n), x);
                        assert forall|j: int| base <= j < n implies #[trigger] self@.taken.subrange(base, j)
                            =~= before.taken.subrange(base, j) by {}
                        assert(self@.taken.subrange(base, n) =~= before.taken.subrange(base, n));
                        assert(self@.produced() =~= before.produced());
                    }
                    if out.is_some() {
                        return out;
                    }
                },
            }
        }
    }
}

/// Chunk boundaries do not change the events: two chunkings of the same bytes feed the
/// demuxer the same bytes, so once the input ends it has produced the same complete
/// sequence of events.
pub proof fn law_ts_events_ignore_chunk_boundaries(a: Seq<Seq<u8>>, b: Seq<Seq<u8>>)
    requires
        crate::source::joined(a) == crate::source::joined(b),
    ensures
        ts_stream(crate::source::joined(a)) == ts_stream(crate::source::joined(b)),
{
}

} // verus!
