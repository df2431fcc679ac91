//! Frame geometry: how a block of samples decomposes into analysis steps.

use vstd::prelude::*;

verus! {

/// Number of samples in one analysis frame.
pub const LENGTH: usize = 1024;

/// Number of bins in the half-spectrum of a frame.
pub const BINS: usize = LENGTH / 2 + 1;

/// Why a block, or the frames synthesized for it, cannot be processed.
#[derive(Clone, Copy, Debug, PartialEq, Eq, Structural)]
pub enum GeometryError {
    /// The block is longer than a frame and is not a whole number of frames.
    Ragged,
    /// The number of frames is not the number of analysis steps of the block.
    FrameCount,
    /// A frame does not hold exactly `LENGTH` samples.
    FrameLength,
}

/// A block decomposes into whole analysis steps when it fits into one frame
/// or is a whole number of frames.
pub open spec fn decomposes(block_size: int) -> bool {
    block_size <= LENGTH || block_size % (LENGTH as int) == 0
}

/// The number of new samples that one analysis step admits, which is also
/// the number of output samples that it yields.
pub open spec fn step_of(block_size: int) -> int {
    if block_size < LENGTH {
        block_size
    } else {
        LENGTH as int
    }
}

/// The number of analysis steps that a block takes.
pub open spec fn frame_count(block_size: int) -> int {
    if block_size > LENGTH {
        block_size / (LENGTH as int)
    } else {
        1
    }
}

/// Where in the block the samples of analysis step `n` begin.
pub open spec fn window_start(block_size: int, n: int) -> int {
    n * step_of(block_size)
}

/// One past where in the block the samples of analysis step `n` end.
pub open spec fn window_end(block_size: int, n: int) -> int {
    window_start(block_size, n) + step_of(block_size)
}

/// The decomposition of one block: its size, the step and the number of
/// analysis steps.
#[derive(Clone, Copy, Debug, PartialEq, Eq, Structural)]
pub struct BlockPlan {
    pub block_size: usize,
    pub step: usize,
    pub frames: usize,
}

impl BlockPlan {
    /// The plan is the decomposition of a block that has one.
    pub open spec fn wf(&self) -> bool {
        &&& decomposes(self.block_size as int)
        &&& self.step == step_of(self.block_size as int)
        &&& self.frames == frame_count(self.block_size as int)
    }

    /// Decomposes a block of `block_size` samples, or refuses it as ragged.
    pub fn new(block_size: usize) -> (r: Result<BlockPlan, GeometryError>)
        ensures
            decomposes(block_size as int) ==> r == Ok::<BlockPlan, GeometryError>(
                (BlockPlan {
                    block_size,
                    step: step_of(block_size as int) as usize,
                    frames: frame_count(block_size as int) as usize,
                }),
            ),
            !decomposes(block_size as int) ==> r == Err::<BlockPlan, GeometryError>(
                GeometryError::Ragged,
            ),
            r is Ok ==> r.unwrap().wf(),
    {
        if block_size <= LENGTH {
            Ok(BlockPlan { block_size, step: block_size, frames: 1 })
        } else if block_size % LENGTH == 0 {
            Ok(BlockPlan { block_size, step: LENGTH, frames: block_size / LENGTH })
        } else {
            Err(GeometryError::Ragged)
        }
    }

    /// The range of the block that analysis step `n` admits and that its
    /// output fills: from the first index to one past the last.
    pub fn window(&self, n: usize) -> (r: (usize, usize))
        requires
            self.wf(),
            n < self.frames,
        ensures
            r.0 == window_start(self.block_size as int, n as int),
            r.1 == window_end(self.block_size as int, n as int),
            r.0 <= r.1 <= self.block_size,
    {
        proof {
            lemma_windows_tile(self.block_size as int, n as int);
        }
        let start: usize = n * self.step;
        (start, start + self.step)
    }
}

/// The analysis steps of a block that decomposes admit, between them, every
/// sample of the block once.
pub proof fn lemma_steps_cover(block_size: int)
    requires
        0 <= block_size,
        decomposes(block_size),
    ensures
        frame_count(block_size) * step_of(block_size) == block_size,
        frame_count(block_size) >= 1,
        0 <= step_of(block_size) <= LENGTH,
{
    let count = frame_count(block_size);
    let step = step_of(block_size);
    if block_size > LENGTH {
        assert(count * 1024 == block_size);
        assert(count * step == block_size) by (nonlinear_arith)
            requires
                step == 1024,
                count * 1024 == block_size,
        ;
    } else {
        assert(count * step == step) by (nonlinear_arith)
            requires
                count == 1,
        ;
    }
}

/// The windows of a block that decomposes lie inside the block, one after
/// the other, and the last one ends where the block ends.
pub proof fn lemma_windows_tile(block_size: int, n: int)
    requires
        0 <= block_size,
        decomposes(block_size),
        0 <= n < frame_count(block_size),
    ensures
        0 <= window_start(block_size, n),
        window_end(block_size, n) <= block_size,
        window_end(block_size, n) == window_start(block_size, n + 1),
        window_start(block_size, 0) == 0,
        window_start(block_size, frame_count(block_size)) == block_size,
        block_size <= LENGTH ==> n == 0 && window_end(block_size, n) == block_size,
        block_size > LENGTH ==> window_start(block_size, n) == n * LENGTH,
{
    if block_size > LENGTH {
        assert(step_of(block_size) == LENGTH);
        assert(block_size == LENGTH * (block_size / (LENGTH as int)));
    } else {
        assert(frame_count(block_size) == 1);
        assert(n == 0);
        assert(1 * step_of(block_size) == step_of(block_size));
        assert(0 * step_of(block_size) == 0);
    }
}

} // verus!
