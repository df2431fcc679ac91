//! Overlap assembly: the output of a block is made of the tails of the
//! frames synthesized for it.

use vstd::prelude::*;
use vstd::slice::slice_subrange;
use crate::geometry::{
    decomposes, frame_count, lemma_steps_cover, step_of, BlockPlan, GeometryError, LENGTH,
};

verus! {

/// The last `step` samples of a frame: those that the analysis step has
/// newly admitted.
pub open spec fn tail(frame: Seq<u32>, step: int) -> Seq<u32> {
    frame.subrange(frame.len() - step, frame.len() as int)
}

/// The tails of the frames, one after the other.
pub open spec fn assembled(frames: Seq<Seq<u32>>, step: int) -> Seq<u32>
    decreases frames.len(),
{
    if frames.len() == 0 {
        Seq::empty()
    } else {
        assembled(frames.drop_last(), step) + tail(frames.last(), step)
    }
}

/// The frames that a vector of vectors holds.
pub open spec fn frames_of(frames: Seq<Vec<u32>>) -> Seq<Seq<u32>> {
    Seq::new(frames.len(), |i: int| frames[i]@)
}

/// Every frame holds exactly `LENGTH` samples.
pub open spec fn full_frames(frames: Seq<Seq<u32>>) -> bool {
    forall|i: int| 0 <= i < frames.len() ==> (#[trigger] frames[i]).len() == LENGTH
}

/// Assembling full frames yields `step` samples for each of them.
pub proof fn lemma_assembled_len(frames: Seq<Seq<u32>>, step: int)
    requires
        full_frames(frames),
        0 <= step <= LENGTH,
    ensures
        assembled(frames, step).len() == frames.len() * step,
    decreases frames.len(),
{
    if frames.len() > 0 {
        lemma_assembled_len(frames.drop_last(), step);
        assert(frames.last().len() == LENGTH);
        assert((frames.len() - 1) * step + step == frames.len() * step) by (nonlinear_arith);
    }
}

/// Assembling distributes over concatenation.
pub proof fn lemma_assembled_concat(a: Seq<Seq<u32>>, b: Seq<Seq<u32>>, step: int)
    ensures
        assembled(a + b, step) == assembled(a, step) + assembled(b, step),
    decreases b.len(),
{
    if b.len() == 0 {
        assert(a + b =~= a);
        assert(assembled(a, step) + assembled(b, step) =~= assembled(a, step));
    } else {
        lemma_assembled_concat(a, b.drop_last(), step);
        assert((a + b).drop_last() =~= a + b.drop_last());
        assert((a + b).last() == b.last());
        assert(assembled(a + b, step) =~= assembled(a, step) + assembled(b, step));
    }
}

/// Takes the last `step` samples of a synthesized frame.
pub fn extract(frame: &[u32], step: usize) -> (r: Vec<u32>)
    requires
        frame@.len() == LENGTH,
        step <= LENGTH,
    ensures
        r@ == tail(frame@, step as int),
        r@.len() == step,
{
    let mut r: Vec<u32> = Vec::with_capacity(step);
    r.extend_from_slice(slice_subrange(frame, LENGTH - step, LENGTH));
    assert(r@ =~= tail(frame@, step as int));
    r
}

/// Assembles the output of a block of `block_size` samples from the frames
/// synthesized for its analysis steps, in order.
///
/// Refuses, in this order, a block that does not decompose, a number of
/// frames other than the number of analysis steps, and a frame that is not
/// `LENGTH` samples long.
pub fn assemble(frames: &Vec<Vec<u32>>, block_size: usize) -> (r: Result<Vec<u32>, GeometryError>)
    ensures
        match r {
            Ok(out) => {
                &&& decomposes(block_size as int)
                &&& frames@.len() == frame_count(block_size as int)
                &&& full_frames(frames_of(frames@))
                &&& out@ == assembled(frames_of(frames@), step_of(block_size as int))
                &&& out@.len() == block_size
            },
            Err(GeometryError::Ragged) => !decomposes(block_size as int),
            Err(GeometryError::FrameCount) => {
                &&& decomposes(block_size as int)
                &&& frames@.len() != frame_count(block_size as int)
            },
            Err(GeometryError::FrameLength) => {
                &&& decomposes(block_size as int)
                &&& frames@.len() == frame_count(block_size as int)
                &&& !full_frames(frames_of(frames@))
            },
        },
{
    let plan = match BlockPlan::new(block_size) {
        Ok(plan) => plan,
        Err(e) => {
            return Err(e);
        },
    };
    if frames.len() != plan.frames {
        return Err(GeometryError::FrameCount);
    }
    let ghost all = frames_of(frames@);
    let step: usize = plan.step;
    let mut out: Vec<u32> = Vec::new();
    let mut n: usize = 0;
    while n < frames.len()
        invariant
            n <= frames@.len(),
            all == frames_of(frames@),
            decomposes(block_size as int),
            frames@.len() == frame_count(block_size as int),
            step == step_of(block_size as int),
            full_frames(all.take(n as int)),
            out@ == assembled(all.take(n as int), step as int),
        decreases frames@.len() - n,
    {
        let frame = &frames[n];
        if frame.len() != LENGTH {
            assert(all[n as int].len() != LENGTH);
            return Err(GeometryError::FrameLength);
        }
        out.extend_from_slice(slice_subrange(frame.as_slice(), LENGTH - step, LENGTH));
        proof {
            let next = all.take(n + 1);
            assert(next.drop_last() =~= all.take(n as int));
            assert(next.last() == frames@[n as int]@);
            assert(frame@.subrange(LENGTH - step, LENGTH as int) =~= tail(frame@, step as int));
        }
        n += 1;
    }
    proof {
        assert(all.take(n as int) =~= all);
        lemma_assembled_len(all, step as int);
        lemma_steps_cover(block_size as int);
    }
    Ok(out)
}

} // verus!
