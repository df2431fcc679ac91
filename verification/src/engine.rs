//! The engine: the channels of one instance and where it stands in its
//! life.

use vstd::prelude::*;
use crate::assembler::{frames_of, full_frames};
use crate::frame_buffer::silence;
use crate::gate::{gated, learned, Bin, GateParameters};
use crate::geometry::{decomposes, frame_count, GeometryError, BINS, LENGTH};
use crate::stream::{analysis_frames, blank_profile, history_after_block, ChannelState};

verus! {

/// Where an engine stands in its life.
#[derive(Clone, Copy, Debug, PartialEq, Eq, Structural)]
pub enum Phase {
    /// Built, with silent history; not yet activated.
    Constructed,
    /// Ready to process.
    Active,
    /// Has admitted at least one block since it was activated.
    Processing,
    /// Deactivated; the history is kept.
    Inactive,
}

/// The channels of one engine instance. No channel shares state with
/// another.
pub struct Engine {
    channels: Vec<ChannelState>,
    phase: Phase,
}

impl Engine {
    /// Every channel is well-formed.
    pub closed spec fn wf(&self) -> bool {
        forall|i: int| 0 <= i < self.channels@.len() ==> (#[trigger] self.channels@[i]).wf()
    }

    /// The number of channels.
    pub closed spec fn channel_count(&self) -> nat {
        self.channels@.len()
    }

    /// The state of channel `i`.
    pub closed spec fn channel(&self, i: int) -> ChannelState {
        self.channels@[i]
    }

    /// Where the engine stands in its life.
    pub closed spec fn phase(&self) -> Phase {
        self.phase
    }

    /// No channel but channel `i` differs between `self` and `before`.
    pub open spec fn others_kept(&self, before: &Engine, i: int) -> bool {
        &&& self.channel_count() == before.channel_count()
        &&& forall|j: int|
            0 <= j < self.channel_count() && j != i ==> self.channel(j) == before.channel(j)
    }

    /// No channel differs between `self` and `before`.
    pub open spec fn channels_kept(&self, before: &Engine) -> bool {
        &&& self.channel_count() == before.channel_count()
        &&& forall|j: int| 0 <= j < self.channel_count() ==> self.channel(j) == before.channel(j)
    }

    /// The channels of a well-formed engine are well-formed.
    pub proof fn lemma_wf_channel(&self, i: int)
        requires
            self.wf(),
            0 <= i < self.channel_count(),
        ensures
            self.channel(i).wf(),
    {
    }

    /// An engine of `channels` channels, each with silent history.
    pub fn new(channels: usize) -> (r: Engine)
        ensures
            r.wf(),
            r.phase() == Phase::Constructed,
            r.channel_count() == channels,
            forall|i: int|
                0 <= i < channels ==> {
                    &&& (#[trigger] r.channel(i)).history() == silence()
                    &&& r.channel(i).profile() == blank_profile()
                },
    {
        let mut all: Vec<ChannelState> = Vec::new();
        let mut i: usize = 0;
        while i < channels
            invariant
                i <= channels,
                all@.len() == i,
                forall|k: int|
                    0 <= k < i ==> {
                        &&& (#[trigger] all@[k]).wf()
                        &&& all@[k].history() == silence()
                        &&& all@[k].profile() == blank_profile()
                    },
            decreases channels - i,
        {
            all.push(ChannelState::new());
            i += 1;
        }
        Engine { channels: all, phase: Phase::Constructed }
    }

    /// Makes the engine ready to process. The channels keep their state.
    pub fn activate(&mut self)
        requires
            old(self).wf(),
        ensures
            final(self).wf(),
            final(self).phase() == Phase::Active,
            final(self).channels_kept(old(self)),
    {
        self.phase = Phase::Active;
    }

    /// Ends processing. The channels keep their state.
    pub fn deactivate(&mut self)
        requires
            old(self).wf(),
        ensures
            final(self).wf(),
            final(self).phase() == Phase::Inactive,
            final(self).channels_kept(old(self)),
    {
        self.phase = Phase::Inactive;
    }

    /// The phase of the engine.
    pub fn current_phase(&self) -> (r: Phase)
        ensures
            r == self.phase(),
    {
        self.phase
    }

    /// The number of channels.
    pub fn channels(&self) -> (r: usize)
        ensures
            r == self.channel_count(),
    {
        self.channels.len()
    }

    /// The history of one channel, oldest sample first.
    pub fn history_samples(&self, channel: usize) -> (r: Vec<u32>)
        requires
            self.wf(),
            channel < self.channel_count(),
        ensures
            r@ == self.channel(channel as int).history(),
            r@.len() == LENGTH,
    {
        self.channels[channel].history_samples()
    }

    /// The noise profile of one channel.
    pub fn profile_values(&self, channel: usize) -> (r: &Vec<u32>)
        requires
            self.wf(),
            channel < self.channel_count(),
        ensures
            r@ == self.channel(channel as int).profile(),
            r@.len() == BINS,
    {
        self.channels[channel].profile_values()
    }

    /// Admits a block on one channel and returns its analysis frames. A
    /// block that is accepted leaves the engine processing; a ragged block
    /// leaves the engine as it was.
    pub fn admit_block(&mut self, channel: usize, block: &[u32]) -> (r: Result<
        Vec<Vec<u32>>,
        GeometryError,
    >)
        requires
            old(self).wf(),
            channel < old(self).channel_count(),
        ensures
            final(self).wf(),
            final(self).others_kept(old(self), channel as int),
            final(self).channel(channel as int).profile() == old(self).channel(
                channel as int,
            ).profile(),
            match r {
                Ok(frames) => {
                    &&& decomposes(block@.len() as int)
                    &&& final(self).phase() == Phase::Processing
                    &&& frames@.len() == frame_count(block@.len() as int)
                    &&& full_frames(frames_of(frames@))
                    &&& frames_of(frames@) == analysis_frames(
                        old(self).channel(channel as int).history(),
                        block@,
                    )
                    &&& final(self).channel(channel as int).history() == history_after_block(
                        old(self).channel(channel as int).history(),
                        block@,
                    )
                },
                Err(e) => {
                    &&& e == GeometryError::Ragged
                    &&& !decomposes(block@.len() as int)
                    &&& final(self).phase() == old(self).phase()
                    &&& final(self).channel(channel as int).history() == old(self).channel(
                        channel as int,
                    ).history()
                },
            },
    {
        let r = self.channels[channel].admit_block(block);
        if r.is_ok() {
            self.phase = Phase::Processing;
        }
        r
    }

    /// Gates the half-spectrum of one analysis frame of one channel and
    /// brings that channel's noise profile up to date.
    pub fn gate(
        &mut self,
        channel: usize,
        spectrum: &mut Vec<Bin>,
        magnitudes: &[u32],
        params: &GateParameters,
        rescaled: &[u32],
    )
        requires
            old(self).wf(),
            channel < old(self).channel_count(),
            old(spectrum)@.len() == BINS,
            magnitudes@.len() == BINS,
            params.learn ==> rescaled@.len() == BINS,
        ensures
            final(self).wf(),
            final(self).phase() == old(self).phase(),
            final(self).others_kept(old(self), channel as int),
            final(self).channel(channel as int).history() == old(self).channel(
                channel as int,
            ).history(),
            final(self).channel(channel as int).profile() == learned(
                old(self).channel(channel as int).profile(),
                rescaled@,
                params.learn,
            ),
            final(spectrum)@ == gated(old(spectrum)@, magnitudes@, params.noise_floor),
    {
        self.channels[channel].gate(spectrum, magnitudes, params, rescaled);
    }
}

} // verus!
