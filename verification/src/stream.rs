//! The stream processor: per-channel state, and the analysis steps that a
//! block takes.

use vstd::prelude::*;
use vstd::slice::slice_subrange;
use crate::assembler::{assembled, frames_of, full_frames};
use crate::frame_buffer::{shifted, silence, FrameBuffer};
use crate::gate::{apply, gated, learned, Bin, GateParameters};
use crate::geometry::{
    decomposes, frame_count, lemma_windows_tile, step_of, window_end, window_start, BlockPlan,
    GeometryError, BINS, LENGTH,
};

verus! {

/// The samples of the block that analysis step `n` admits.
pub open spec fn window(block: Seq<u32>, n: int) -> Seq<u32> {
    block.subrange(window_start(block.len() as int, n), window_end(block.len() as int, n))
}

/// The history of a channel after the first `steps` analysis steps of a
/// block.
pub open spec fn history_after(history: Seq<u32>, block: Seq<u32>, steps: nat) -> Seq<u32>
    decreases steps,
{
    if steps == 0 {
        history
    } else {
        shifted(history_after(history, block, (steps - 1) as nat), window(block, steps - 1))
    }
}

/// The history of a channel after a whole block.
pub open spec fn history_after_block(history: Seq<u32>, block: Seq<u32>) -> Seq<u32> {
    history_after(history, block, frame_count(block.len() as int) as nat)
}

/// The analysis frames of a block, in order: each is the history as its
/// step leaves it.
pub open spec fn analysis_frames(history: Seq<u32>, block: Seq<u32>) -> Seq<Seq<u32>> {
    Seq::new(
        frame_count(block.len() as int) as nat,
        |n: int| history_after(history, block, (n + 1) as nat),
    )
}

/// The output of a block, for a channel with the given history, where
/// `transform` is what analysis, gate and synthesis together make of a frame.
pub open spec fn block_output(
    history: Seq<u32>,
    block: Seq<u32>,
    transform: spec_fn(Seq<u32>) -> Seq<u32>,
) -> Seq<u32> {
    assembled(analysis_frames(history, block).map_values(transform), step_of(block.len() as int))
}

/// The samples of several blocks, one block after the other.
pub open spec fn concatenated(blocks: Seq<Seq<u32>>) -> Seq<u32>
    decreases blocks.len(),
{
    if blocks.len() == 0 {
        Seq::empty()
    } else {
        concatenated(blocks.drop_last()) + blocks.last()
    }
}

/// The history of a channel after several blocks, fed one after the other.
pub open spec fn history_after_blocks(history: Seq<u32>, blocks: Seq<Seq<u32>>) -> Seq<u32>
    decreases blocks.len(),
{
    if blocks.len() == 0 {
        history
    } else {
        history_after_block(history_after_blocks(history, blocks.drop_last()), blocks.last())
    }
}

/// The output of several blocks, fed one after the other to a channel with
/// the given history.
pub open spec fn stream_output(
    history: Seq<u32>,
    blocks: Seq<Seq<u32>>,
    transform: spec_fn(Seq<u32>) -> Seq<u32>,
) -> Seq<u32>
    decreases blocks.len(),
{
    if blocks.len() == 0 {
        Seq::empty()
    } else {
        stream_output(history, blocks.drop_last(), transform) + block_output(
            history_after_blocks(history, blocks.drop_last()),
            blocks.last(),
            transform,
        )
    }
}

/// A noise profile as a new channel holds it.
pub open spec fn blank_profile() -> Seq<u32> {
    Seq::new(BINS as nat, |i: int| 0u32)
}

/// What one channel carries from block to block: its history and its noise
/// profile.
pub struct ChannelState {
    buffer: FrameBuffer,
    profile: Vec<u32>,
}

impl ChannelState {
    /// The history is a full frame and the profile has one entry per bin.
    pub closed spec fn wf(&self) -> bool {
        &&& self.buffer.wf()
        &&& self.profile@.len() == BINS
    }

    /// The last `LENGTH` samples admitted, oldest first.
    pub closed spec fn history(&self) -> Seq<u32> {
        self.buffer@
    }

    /// The noise profile, one entry per bin.
    pub closed spec fn profile(&self) -> Seq<u32> {
        self.profile@
    }

    /// A well-formed channel holds `LENGTH` samples of history and `BINS`
    /// profile entries.
    pub proof fn lemma_wf_len(&self)
        requires
            self.wf(),
        ensures
            self.history().len() == LENGTH,
            self.profile().len() == BINS,
    {
        self.buffer.lemma_wf_len();
    }

    /// A channel that has heard nothing yet.
    pub fn new() -> (r: ChannelState)
        ensures
            r.wf(),
            r.history() == silence(),
            r.profile() == blank_profile(),
    {
        let r = ChannelState { buffer: FrameBuffer::new(), profile: vec![0u32; BINS] };
        assert(r.profile@ =~= blank_profile());
        r
    }

    /// The history, oldest sample first.
    pub fn history_samples(&self) -> (r: Vec<u32>)
        requires
            self.wf(),
        ensures
            r@ == self.history(),
            r@.len() == LENGTH,
    {
        self.buffer.frame()
    }

    /// The noise profile.
    pub fn profile_values(&self) -> (r: &Vec<u32>)
        requires
            self.wf(),
        ensures
            r@ == self.profile(),
            r@.len() == BINS,
    {
        &self.profile
    }

    /// Admits a block, one analysis step after the other, and returns the
    /// analysis frame of each step. A ragged block is refused and leaves the
    /// channel as it was.
    pub fn admit_block(&mut self, block: &[u32]) -> (r: Result<Vec<Vec<u32>>, GeometryError>)
        requires
            old(self).wf(),
        ensures
            final(self).wf(),
            final(self).profile() == old(self).profile(),
            match r {
                Ok(frames) => {
                    &&& decomposes(block@.len() as int)
                    &&& frames@.len() == frame_count(block@.len() as int)
                    &&& full_frames(frames_of(frames@))
                    &&& frames_of(frames@) == analysis_frames(old(self).history(), block@)
                    &&& final(self).history() == history_after_block(old(self).history(), block@)
                },
                Err(e) => {
                    &&& e == GeometryError::Ragged
                    &&& !decomposes(block@.len() as int)
                    &&& final(self).history() == old(self).history()
                },
            },
    {
        let plan = match BlockPlan::new(block.len()) {
            Ok(plan) => plan,
            Err(e) => {
                return Err(e);
            },
        };
        let ghost start_history = self.buffer@;
        let mut frames: Vec<Vec<u32>> = Vec::with_capacity(plan.frames);
        let mut n: usize = 0;
        while n < plan.frames
            invariant
                n <= plan.frames,
                plan.wf(),
                plan.block_size == block@.len(),
                self.buffer.wf(),
                self.profile == old(self).profile,
                self.buffer@ == history_after(start_history, block@, n as nat),
                frames@.len() == n,
                forall|j: int| 0 <= j < n ==> (#[trigger] frames@[j])@.len() == LENGTH,
                forall|j: int|
                    0 <= j < n ==> (#[trigger] frames@[j])@ == history_after(
                        start_history,
                        block@,
                        (j + 1) as nat,
                    ),
            decreases plan.frames - n,
        {
            let (start, end) = plan.window(n);
            proof {
                lemma_windows_tile(block@.len() as int, n as int);
            }
            self.buffer.push(slice_subrange(block, start, end));
            frames.push(self.buffer.frame());
            n += 1;
        }
        assert(frames_of(frames@) =~= analysis_frames(start_history, block@));
        Ok(frames)
    }

    /// Gates the half-spectrum of one analysis frame of this channel and
    /// brings the channel's noise profile up to date.
    pub fn gate(
        &mut self,
        spectrum: &mut Vec<Bin>,
        magnitudes: &[u32],
        params: &GateParameters,
        rescaled: &[u32],
    )
        requires
            old(self).wf(),
            old(spectrum)@.len() == BINS,
            magnitudes@.len() == BINS,
            params.learn ==> rescaled@.len() == BINS,
        ensures
            final(self).wf(),
            final(self).history() == old(self).history(),
            final(self).profile() == learned(old(self).profile(), rescaled@, params.learn),
            final(spectrum)@ == gated(old(spectrum)@, magnitudes@, params.noise_floor),
    {
        apply(spectrum, magnitudes, params, &mut self.profile, rescaled);
    }
}

} // verus!
