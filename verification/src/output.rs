//! Output stage pieces that are independent of sample values: the negotiated device
//! format and the start/rebuffer hysteresis gate.
use vstd::prelude::*;

verus! {

/// The sample rate and channel count the output device actually negotiated.
#[derive(Debug, Clone, Copy, PartialEq, Eq, Structural)]
pub struct OutputFormat {
    pub sample_rate: u32,
    pub channels: u16,
}

/// Frames corresponding to `millis` milliseconds at `sample_rate`, rounded down.
pub open spec fn frames_for_millis_spec(sample_rate: u32, millis: u64) -> int {
    (sample_rate * millis) / 1000
}

impl OutputFormat {
    pub fn new(sample_rate: u32, channels: u16) -> (r: Self)
        ensures
            r.sample_rate == sample_rate,
            r.channels == channels,
    {
        OutputFormat { sample_rate, channels }
    }

    /// How many frames correspond to `millis` milliseconds at this format's rate.
    pub fn frames_for_millis(&self, millis: u64) -> (r: usize)
        requires
            self.sample_rate * millis <= u64::MAX,
            frames_for_millis_spec(self.sample_rate, millis) <= usize::MAX,
        ensures
            r == frames_for_millis_spec(self.sample_rate, millis),
    {
        let total = (self.sample_rate as u64) * millis;
        (total / 1000) as usize
    }
}

/// Whether the ring has enough audio queued to play, or needs to accumulate more first.
#[derive(Debug, Clone, Copy, PartialEq, Eq, Structural)]
pub enum BufferState {
    Buffering,
    Playing,
}

/// The thresholds and state of a [`BufferGate`].
pub struct BufferGateView {
    pub start_frames: usize,
    pub rebuffer_frames: usize,
    pub state: BufferState,
}

/// One occupancy report: `Buffering` becomes `Playing` at or above the start threshold;
/// `Playing` becomes `Buffering` at or below the rebuffer threshold; nothing else changes.
pub open spec fn gate_update_spec(v: BufferGateView, occupied: usize) -> BufferGateView {
    match v.state {
        BufferState::Buffering => if occupied >= v.start_frames {
            BufferGateView { state: BufferState::Playing, ..v }
        } else {
            v
        },
        BufferState::Playing => if occupied <= v.rebuffer_frames {
            BufferGateView { state: BufferState::Buffering, ..v }
        } else {
            v
        },
    }
}

/// Hysteresis gate between [`BufferState::Buffering`] and [`BufferState::Playing`].
pub struct BufferGate {
    start_frames: usize,
    rebuffer_frames: usize,
    state: BufferState,
}

impl View for BufferGate {
    type V = BufferGateView;

    closed spec fn view(&self) -> BufferGateView {
        BufferGateView { start_frames: self.start_frames, rebuffer_frames: self.rebuffer_frames, state: self.state }
    }
}

impl BufferGate {
    /// A gate that starts out buffering. The rebuffer threshold lies strictly below the
    /// start threshold, so that occupancy between the two changes nothing.
    pub fn new(start_frames: usize, rebuffer_frames: usize) -> (r: Self)
        requires
            rebuffer_frames < start_frames,
        ensures
            r@ == (BufferGateView { start_frames, rebuffer_frames, state: BufferState::Buffering }),
    {
        BufferGate { start_frames, rebuffer_frames, state: BufferState::Buffering }
    }

    pub fn state(&self) -> (r: BufferState)
        ensures
            r == self@.state,
    {
        self.state
    }

    /// Feed the current ring occupancy (in frames). Returns `true` if the state changed.
    pub fn update(&mut self, occupied_frames: usize) -> (r: bool)
        ensures
            final(self)@ == gate_update_spec(old(self)@, occupied_frames),
            r == (final(self)@.state != old(self)@.state),
    {
        let previous = self.state;
        match self.state {
            BufferState::Buffering => {
                if occupied_frames >= self.start_frames {
                    self.state = BufferState::Playing;
                }
            },
            BufferState::Playing => {
                if occupied_frames <= self.rebuffer_frames {
                    self.state = BufferState::Buffering;
                }
            },
        }
        previous != self.state
    }
}

/// State after a sequence of occupancy reports.
pub open spec fn gate_after(v: BufferGateView, occupancies: Seq<usize>) -> BufferGateView
    decreases occupancies.len(),
{
    if occupancies.len() == 0 {
        v
    } else {
        gate_update_spec(gate_after(v, occupancies.drop_last()), occupancies.last())
    }
}

/// Occupancy oscillating anywhere strictly between the two thresholds never changes the
/// state, however long it goes on: the gap is what stops buffering/playing flips.
pub proof fn law_occupancy_inside_the_band_never_flips(v: BufferGateView, occupancies: Seq<usize>)
    requires
        forall|i: int| 0 <= i < occupancies.len() ==> v.rebuffer_frames < #[trigger] occupancies[i] && occupancies[i] < v.start_frames,
    ensures
        gate_after(v, occupancies) == v,
    decreases occupancies.len(),
{
    if occupancies.len() > 0 {
        let prefix = occupancies.drop_last();
        assert forall|i: int| 0 <= i < prefix.len() implies v.rebuffer_frames < #[trigger] prefix[i] && prefix[i] < v.start_frames by {
            assert(prefix[i] == occupancies[i]);
        }
        law_occupancy_inside_the_band_never_flips(v, prefix);
        assert(occupancies.last() == occupancies[occupancies.len() - 1]);
    }
}

/// Leaving `Buffering` takes reaching the start threshold, and leaving `Playing` takes
/// falling to the rebuffer threshold; the thresholds never change.
pub proof fn law_gate_transitions_need_a_threshold(v: BufferGateView, occupied: usize)
    ensures
        gate_update_spec(v, occupied).start_frames == v.start_frames,
        gate_update_spec(v, occupied).rebuffer_frames == v.rebuffer_frames,
        v.state == BufferState::Buffering && gate_update_spec(v, occupied).state == BufferState::Playing
            ==> occupied >= v.start_frames,
        v.state == BufferState::Playing && gate_update_spec(v, occupied).state == BufferState::Buffering
            ==> occupied <= v.rebuffer_frames,
{
}

/// Each threshold is enough on its own: while `Playing`, an occupancy at or below the
/// rebuffer threshold turns the state to `Buffering`; while `Buffering`, an occupancy at
/// or above the start threshold turns it to `Playing`.
pub proof fn law_reaching_a_threshold_switches_the_gate(v: BufferGateView, occupied: usize)
    ensures
        v.state == BufferState::Playing && occupied <= v.rebuffer_frames ==> gate_update_spec(v, occupied).state
            == BufferState::Buffering,
        v.state == BufferState::Buffering && occupied >= v.start_frames ==> gate_update_spec(v, occupied).state
            == BufferState::Playing,
{
}

} // verus!
