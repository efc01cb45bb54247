//! One HLS media-playlist session, as a state machine around
//! `hls_runtime::client::HlsClient`, which owns no HTTP stack of its own.
//!
//! The caller asks for the next step: an event for the decoder, a request to perform, or
//! nothing for now. It performs each request (a playlist or resource fetch, or a wait)
//! and reports the outcome back before asking again, so a session has at most one
//! outstanding request and responses can never reorder playback.
//!
//! Every playlist body, the first and each reload, is refused when it carries
//! `#EXT-X-KEY`: the client has no encryption policy of its own, and a live origin can
//! add the tag to a later reload.
use vstd::prelude::*;
use std::collections::VecDeque;
use hls_runtime::client::{Action, HlsClient, ResourceId};
use crate::detect::{contains_tag_spec, tag_key, Unsupported};
use crate::network::{opt_view, redact_text_spec, NetworkError};
use crate::text::{has_prefix, push_str, push_string, string_from_chars};
use crate::pipeline::{events_view, translated, HlsIngest, HlsIngestView, IngestInput, PipelineError, SourceEvent};
use crate::source::{
    byte_range_problem, client_error, pipeline_error, reject_if_encrypted, schedule_action,
    scheduled, slice_byte_range, unsupported_message, ActionKind, SourceError,
};

verus! {

#[verifier::external_type_specification]
#[verifier::external_body]
pub struct ExHlsClient(HlsClient);

#[verifier::external_type_specification]
#[verifier::external_body]
pub struct ExAction(Action);

#[verifier::external_type_specification]
#[verifier::external_body]
pub struct ExResourceId(ResourceId);

/// One thing a session did to its client, in the order it did them.
pub enum HlsInput {
    /// Asked for the next request.
    Poll,
    /// Asked for the next output.
    Output,
    /// Handed over a playlist body.
    Playlist(Seq<u8>),
    /// Handed over a fetched resource.
    Resource(ResourceId, Seq<u8>),
    /// Reported a failed request: the playlist when `None`.
    Failed(Option<ResourceId>),
}

// The client reads no clock and no environment: what it answers is a function of the
// playlist URL it was made with and of everything done to it since. Its state is named
// by that history, and each answer by a name over it.

/// The playlist URL a client was made with.
pub uninterp spec fn hls_client_url(client: HlsClient) -> Seq<char>;

/// Everything done to a client since it was made, in order.
pub uninterp spec fn hls_client_inputs(client: HlsClient) -> Seq<HlsInput>;

/// The kind of request `HlsClient::poll` hands out after this history; `None` when it
/// has none.
pub uninterp spec fn hls_poll(url: Seq<char>, inputs: Seq<HlsInput>) -> Option<ActionKind>;

/// What `HlsClient::next_output` hands out after this history, in the form the ingest
/// reads.
pub uninterp spec fn hls_output(url: Seq<char>, inputs: Seq<HlsInput>) -> Option<IngestInput>;

/// Whether `HlsClient::on_playlist` accepts `body` after this history: `None` when it
/// does, the error's display text when it does not.
pub uninterp spec fn hls_playlist_outcome(url: Seq<char>, inputs: Seq<HlsInput>, body: Seq<u8>) -> Option<Seq<char>>;

/// Whether `HlsClient::on_resource` accepts `body` for `id` after this history: `None`
/// when it does, the error's display text when it does not.
pub uninterp spec fn hls_resource_outcome(url: Seq<char>, inputs: Seq<HlsInput>, id: ResourceId, body: Seq<u8>) -> Option<Seq<char>>;

/// `HlsClient::new` for the playlist at `url`, against which the client resolves every
/// segment URI; nothing has been done to it yet.
#[verifier::external_body]
fn client_new(url: &str) -> (r: HlsClient)
    ensures
        hls_client_url(r) == url@,
        hls_client_inputs(r) == Seq::<HlsInput>::empty(),
{
    HlsClient::new(url.to_string())
}

/// `HlsClient::poll`: the next request, with its kind as far as pacing goes (a playlist
/// fetch, a wait, or other).
#[verifier::external_body]
fn client_poll(client: &mut HlsClient) -> (r: Option<(ActionKind, Action)>)
    ensures
        hls_client_url(*final(client)) == hls_client_url(*old(client)),
        hls_client_inputs(*final(client)) == hls_client_inputs(*old(client)).push(HlsInput::Poll),
        match r {
            Some((k, _)) => hls_poll(hls_client_url(*old(client)), hls_client_inputs(*old(client))) == Some(k),
            None => hls_poll(hls_client_url(*old(client)), hls_client_inputs(*old(client))) is None,
        },
{
    client.poll().map(|action| {
        let kind = match &action {
            Action::FetchPlaylist { .. } => ActionKind::FetchPlaylist,
            Action::WaitMs(_) => ActionKind::Wait,
            _ => ActionKind::Other,
        };
        (kind, action)
    })
}

/// The `Debug` text of a request, or of its absence. The text is not stated.
#[verifier::external_body]
fn action_debug(action: &Option<Action>) -> (r: String) {
    format!("{action:?}")
}

/// `HlsClient::on_playlist`, with the error's display text on failure.
#[verifier::external_body]
fn client_on_playlist(client: &mut HlsClient, body: &[u8]) -> (r: Result<(), String>)
    ensures
        hls_client_url(*final(client)) == hls_client_url(*old(client)),
        hls_client_inputs(*final(client)) == hls_client_inputs(*old(client)).push(HlsInput::Playlist(body@)),
        match r {
            Ok(()) => hls_playlist_outcome(hls_client_url(*old(client)), hls_client_inputs(*old(client)), body@) is None,
            Err(e) => hls_playlist_outcome(hls_client_url(*old(client)), hls_client_inputs(*old(client)), body@) == Some(e@),
        },
{
    client.on_playlist(body).map_err(|error| error.to_string())
}

/// `HlsClient::on_resource`, with the error's display text on failure.
#[verifier::external_body]
fn client_on_resource(client: &mut HlsClient, id: ResourceId, body: &[u8]) -> (r: Result<(), String>)
    ensures
        hls_client_url(*final(client)) == hls_client_url(*old(client)),
        hls_client_inputs(*final(client)) == hls_client_inputs(*old(client)).push(HlsInput::Resource(id, body@)),
        match r {
            Ok(()) => hls_resource_outcome(hls_client_url(*old(client)), hls_client_inputs(*old(client)), id, body@) is None,
            Err(e) => hls_resource_outcome(hls_client_url(*old(client)), hls_client_inputs(*old(client)), id, body@) == Some(e@),
        },
{
    client.on_resource(id, body).map_err(|error| error.to_string())
}

/// `HlsClient::on_error`: the request for `id` (the playlist when `None`) failed. The
/// client never retries on its own; this clears its bookkeeping so that a later playlist
/// can ask again.
#[verifier::external_body]
fn client_on_error(client: &mut HlsClient, id: Option<ResourceId>)
    ensures
        hls_client_url(*final(client)) == hls_client_url(*old(client)),
        hls_client_inputs(*final(client)) == hls_client_inputs(*old(client)).push(HlsInput::Failed(id)),
{
    client.on_error(id)
}

/// `HlsClient::next_output`, in the form the ingest reads: the track id as a number, and
/// every output other than an initialization section, samples, a discontinuity or the
/// end as `Other`.
#[verifier::external_body]
fn client_next_output(client: &mut HlsClient) -> (r: Option<IngestInput>)
    ensures
        hls_client_url(*final(client)) == hls_client_url(*old(client)),
        hls_client_inputs(*final(client)) == hls_client_inputs(*old(client)).push(HlsInput::Output),
        r == hls_output(hls_client_url(*old(client)), hls_client_inputs(*old(client))),
{
    client.next_output().map(|output| match output {
        hls_runtime::client::Output::Init(bytes) => IngestInput::Init(bytes),
        hls_runtime::client::Output::Samples { track_id, samples } => IngestInput::Samples { track_id: track_id.value(), samples },
        hls_runtime::client::Output::Discontinuity => IngestInput::Discontinuity,
        hls_runtime::client::Output::EndOfStream => IngestInput::EndOfStream,
        _ => IngestInput::Other,
    })
}

/// What the caller does next.
pub enum HlsStep {
    /// Hand this event to the decoder.
    Event(SourceEvent),
    /// Perform this request and report its outcome.
    Perform(Action),
    /// The session moved on internally; ask again.
    Again,
    /// Nothing to do right now. For a live playlist this is transient: every playlist
    /// schedules its own reload.
    Idle,
}

/// A running session: the client, the ingest, events not yet handed out, and requests in
/// the order they are to be performed.
pub struct HlsSession {
    client: HlsClient,
    ingest: HlsIngest,
    pending: VecDeque<SourceEvent>,
    actions: VecDeque<(ActionKind, Action)>,
    /// Set right after a playlist was accepted, until every request it led to is queued.
    draining: bool,
}

pub struct HlsSessionView {
    /// The playlist URL the client was made with.
    pub url: Seq<char>,
    /// Everything done to the client so far.
    pub inputs: Seq<HlsInput>,
    pub ingest: HlsIngestView,
    pub pending: Seq<SourceEvent>,
    pub actions: Seq<(ActionKind, Action)>,
    pub draining: bool,
}

impl View for HlsSession {
    type V = HlsSessionView;

    closed spec fn view(&self) -> HlsSessionView {
        HlsSessionView {
            url: hls_client_url(self.client),
            inputs: hls_client_inputs(self.client),
            ingest: self.ingest@,
            pending: self.pending@,
            actions: self.actions@,
            draining: self.draining,
        }
    }
}

/// The message of an encrypted playlist.
pub open spec fn encrypted_message() -> Seq<char> {
    unsupported_message(Unsupported::EncryptedPlaylist)
}

/// How a refusal of a client whose seeded first request was not a playlist fetch begins.
pub open spec fn unexpected_first_prefix() -> Seq<char> {
    "expected the client's seeded first action to be a playlist fetch, got "@
}

/// The bytes of a fetched resource that a request asked for: the byte range when it
/// names one, the whole resource otherwise.
pub open spec fn requested_bytes(body: Seq<u8>, byte_range: Option<(u64, u64)>) -> Seq<u8> {
    match byte_range {
        Some((offset, length)) => body.subrange(offset as int, offset + length),
        None => body,
    }
}

/// Why a byte range cannot be cut from a fetched resource; `None` where it can, or
/// where the request names none.
pub open spec fn range_problem(body: Seq<u8>, byte_range: Option<(u64, u64)>) -> Option<Seq<char>> {
    match byte_range {
        Some((offset, length)) => byte_range_problem(body.len(), offset, length),
        None => None,
    }
}

/// The events of one translation, in order, as a queue.
fn queue_of(events: Vec<SourceEvent>) -> (r: VecDeque<SourceEvent>)
    ensures
        r@ == events@,
{
    let ghost all = events@;
    let mut rest = events;
    let mut queue: VecDeque<SourceEvent> = VecDeque::new();
    while rest.len() > 0
        invariant
            rest@ == all.subrange(0, rest@.len() as int),
            queue@ == all.subrange(rest@.len() as int, all.len() as int),
            rest@.len() <= all.len(),
        decreases rest@.len(),
    {
        let n = rest.len();
        match rest.pop() {
            Some(e) => {
                queue.push_front(e);
                assert(queue@ =~= all.subrange(n - 1, all.len() as int));
                assert(rest@ =~= all.subrange(0, n - 1));
            },
            None => {},
        }
    }
    assert(queue@ =~= all);
    queue
}

impl HlsSession {
    /// Starts a session for the media playlist at `playlist_url`, which must be the
    /// final, post-redirect URL. `initial_body` is the playlist already fetched; it
    /// answers the client's seeded first playlist fetch instead of a second fetch of the
    /// same live resource.
    pub fn from_initial_playlist(playlist_url: &str, initial_body: &[u8]) -> (r: Result<HlsSession, SourceError>)
        ensures
            contains_tag_spec(initial_body@, tag_key()) ==> (r matches Err(SourceError::Unsupported(m))
                && m@ == encrypted_message()),
            !contains_tag_spec(initial_body@, tag_key()) ==> match hls_poll(playlist_url@, Seq::empty()) {
                Some(ActionKind::FetchPlaylist) => match hls_playlist_outcome(
                    playlist_url@,
                    seq![HlsInput::Poll],
                    initial_body@,
                ) {
                    None => r matches Ok(s) && s@ == (HlsSessionView {
                        url: playlist_url@,
                        inputs: seq![HlsInput::Poll, HlsInput::Playlist(initial_body@)],
                        ingest: HlsIngestView { selected: None, inits: 0 },
                        pending: Seq::empty(),
                        actions: Seq::empty(),
                        draining: true,
                    }),
                    Some(t) => r matches Err(SourceError::Demux(m)) && m@ == redact_text_spec(t),
                },
                _ => r matches Err(SourceError::Demux(m)) && has_prefix(m@, unexpected_first_prefix()),
            },
    {
        reject_if_encrypted(initial_body)?;
        let mut client = client_new(playlist_url);
        let first = client_poll(&mut client);
        let (seeded, first_action) = match first {
            Some((kind, action)) => (kind == ActionKind::FetchPlaylist, Some(action)),
            None => (false, None),
        };
        if !seeded {
            let mut text: Vec<char> = Vec::new();
            push_str(&mut text, "expected the client's seeded first action to be a playlist fetch, got ");
            let shown = action_debug(&first_action);
            push_string(&mut text, &shown);
            proof {
                reveal_strlit("expected the client's seeded first action to be a playlist fetch, got ");
                assert(text@.subrange(0, unexpected_first_prefix().len() as int) =~= unexpected_first_prefix());
            }
            return Err(SourceError::Demux(string_from_chars(text.as_slice())));
        }
        assert(hls_client_inputs(client) =~= seq![HlsInput::Poll]);
        match client_on_playlist(&mut client, initial_body) {
            Ok(()) => {},
            Err(text) => {
                return Err(client_error(text.as_str()));
            },
        }
        let session = HlsSession {
            client,
            ingest: HlsIngest::new(),
            pending: VecDeque::new(),
            actions: VecDeque::new(),
            draining: true,
        };
        assert(session@.inputs =~= seq![HlsInput::Poll, HlsInput::Playlist(initial_body@)]);
        Ok(session)
    }

    /// Initialization sections parsed so far.
    pub fn inits(&self) -> (r: u32)
        ensures
            r == self@.ingest.inits,
    {
        self.ingest.inits()
    }

    /// The next step. First, the requests a freshly accepted playlist led to are queued,
    /// one per step, a wait placed ahead of the reload it arrived behind (see
    /// `scheduled`). Then events not yet handed out go first, in order; then the client's
    /// next output is translated, its first event handed out and the rest kept; then
    /// queued requests are handed out, in order.
    pub fn next_step(&mut self) -> (r: Result<HlsStep, SourceError>)
        requires
            old(self)@.ingest.inits < u32::MAX,
        ensures
            final(self)@.url == old(self)@.url,
            old(self)@.draining ==> (r matches Ok(HlsStep::Again)) && final(self)@.pending == old(self)@.pending
                && final(self)@.ingest == old(self)@.ingest
                && final(self)@.inputs == old(self)@.inputs.push(HlsInput::Poll)
                && match hls_poll(old(self)@.url, old(self)@.inputs) {
                    Some(k) => final(self)@.draining && exists|a: Action|
                        final(self)@.actions == scheduled(old(self)@.actions, k, a),
                    None => !final(self)@.draining && final(self)@.actions == old(self)@.actions,
                },
            !old(self)@.draining && old(self)@.pending.len() > 0 ==> r == Ok::<HlsStep, SourceError>(
                HlsStep::Event(old(self)@.pending[0]),
            ) && final(self)@ == (HlsSessionView { pending: old(self)@.pending.drop_first(), ..old(self)@ }),
            !old(self)@.draining && old(self)@.pending.len() == 0 ==> !final(self)@.draining
                && final(self)@.inputs == old(self)@.inputs.push(HlsInput::Output)
                && match hls_output(old(self)@.url, old(self)@.inputs) {
                    Some(input) => final(self)@.actions == old(self)@.actions && exists|t: Result<Seq<SourceEvent>, PipelineError>|
                        translated(old(self)@.ingest, input, final(self)@.ingest, t) && match t {
                            Err(e) => (r matches Err(SourceError::Demux(m)) && m@ == e.message_spec())
                                && final(self)@.pending.len() == 0,
                            Ok(events) => if events.len() == 0 {
                                (r matches Ok(HlsStep::Again)) && final(self)@.pending.len() == 0
                            } else {
                                r == Ok::<HlsStep, SourceError>(HlsStep::Event(events[0]))
                                    && final(self)@.pending == events.drop_first()
                            },
                        },
                    None => final(self)@.ingest == old(self)@.ingest && final(self)@.pending.len() == 0
                        && if old(self)@.actions.len() > 0 {
                        r == Ok::<HlsStep, SourceError>(HlsStep::Perform(old(self)@.actions[0].1))
                            && final(self)@.actions == old(self)@.actions.drop_first()
                    } else {
                        (r matches Ok(HlsStep::Idle)) && final(self)@.actions == old(self)@.actions
                    },
                },
    {
        if self.draining {
            match client_poll(&mut self.client) {
                Some((kind, action)) => {
                    let ghost a = action;
                    schedule_action(&mut self.actions, kind, action);
                    assert(self.actions@ == scheduled(old(self)@.actions, kind, a));
                },
                None => {
                    self.draining = false;
                },
            }
            return Ok(HlsStep::Again);
        }
        match self.pending.pop_front() {
            Some(event) => {
                assert(self.pending@ =~= old(self)@.pending.drop_first());
                return Ok(HlsStep::Event(event));
            },
            None => {},
        }
        match client_next_output(&mut self.client) {
            Some(input) => {
                let result = self.ingest.translate(input);
                let ghost t = events_view(result);
                let events = match result {
                    Ok(events) => events,
                    Err(error) => {
                        return Err(pipeline_error(&error));
                    },
                };
                let mut queue = queue_of(events);
                match queue.pop_front() {
                    Some(first) => {
                        assert(queue@ =~= t->Ok_0.drop_first());
                        self.pending = queue;
                        return Ok(HlsStep::Event(first));
                    },
                    None => {
                        return Ok(HlsStep::Again);
                    },
                }
            },
            None => {},
        }
        match self.actions.pop_front() {
            Some((_, action)) => {
                assert(self.actions@ =~= old(self)@.actions.drop_first());
                Ok(HlsStep::Perform(action))
            },
            None => Ok(HlsStep::Idle),
        }
    }

    /// A playlist fetch came back with `body`: refused when encrypted, otherwise handed
    /// to the client, and the requests it leads to are queued before anything else.
    pub fn playlist_arrived(&mut self, body: &[u8]) -> (r: Result<(), SourceError>)
        ensures
            contains_tag_spec(body@, tag_key()) ==> (r matches Err(SourceError::Unsupported(m))
                && m@ == encrypted_message()) && final(self)@ == old(self)@,
            !contains_tag_spec(body@, tag_key()) ==> final(self)@ == (HlsSessionView {
                inputs: old(self)@.inputs.push(HlsInput::Playlist(body@)),
                draining: final(self)@.draining,
                ..old(self)@
            }) && match hls_playlist_outcome(old(self)@.url, old(self)@.inputs, body@) {
                None => r is Ok && final(self)@.draining,
                Some(t) => (r matches Err(SourceError::Demux(m)) && m@ == redact_text_spec(t))
                    && final(self)@.draining == old(self)@.draining,
            },
    {
        reject_if_encrypted(body)?;
        match client_on_playlist(&mut self.client, body) {
            Ok(()) => {
                self.draining = true;
                Ok(())
            },
            Err(text) => Err(client_error(text.as_str())),
        }
    }

    /// A resource fetch came back with the whole resource: the byte range, when there is
    /// one, is cut out of it, and exactly the requested bytes are handed to the client.
    pub fn resource_arrived(&mut self, id: ResourceId, byte_range: Option<(u64, u64)>, body: &[u8]) -> (r: Result<(), SourceError>)
        ensures
            range_problem(body@, byte_range) matches Some(reason) ==> (r matches Err(SourceError::Demux(m))
                && m@ == reason) && final(self)@ == old(self)@,
            range_problem(body@, byte_range) is None ==> final(self)@ == (HlsSessionView {
                inputs: old(self)@.inputs.push(HlsInput::Resource(id, requested_bytes(body@, byte_range))),
                ..old(self)@
            }) && match hls_resource_outcome(old(self)@.url, old(self)@.inputs, id, requested_bytes(body@, byte_range)) {
                None => r is Ok,
                Some(t) => r matches Err(SourceError::Demux(m)) && m@ == redact_text_spec(t),
            },
    {
        let result = match byte_range {
            Some((offset, length)) => {
                let cut = slice_byte_range(body, offset, length)?;
                client_on_resource(&mut self.client, id, cut.as_slice())
            },
            None => client_on_resource(&mut self.client, id, body),
        };
        match result {
            Ok(()) => Ok(()),
            Err(text) => Err(client_error(text.as_str())),
        }
    }

    /// A request failed with `error`: cancellation stays cancellation and leaves the
    /// client as it is; otherwise the client is told (the playlist when `id` is `None`)
    /// and the error is reported as `SourceError::from_network` makes it.
    pub fn fetch_failed(&mut self, id: Option<ResourceId>, error: NetworkError) -> (r: SourceError)
        ensures
            error is Cancelled ==> r is Cancelled && final(self)@ == old(self)@,
            !(error is Cancelled) ==> final(self)@ == (HlsSessionView {
                inputs: old(self)@.inputs.push(HlsInput::Failed(id)),
                ..old(self)@
            }),
            match error {
                NetworkError::Cancelled => r is Cancelled,
                NetworkError::Status { status, detail } => r matches SourceError::Status {
                    status: s,
                    detail: d,
                } && s == status && opt_view(d) == match detail {
                    Some(x) => Some(redact_text_spec(x@)),
                    None => None,
                },
                other => r matches SourceError::Network(m) && m@ == redact_text_spec(other.message_spec()),
            },
    {
        match error {
            NetworkError::Cancelled => SourceError::Cancelled,
            other => {
                client_on_error(&mut self.client, id);
                SourceError::from_network(other)
            },
        }
    }
}

} // verus!
