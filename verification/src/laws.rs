//! What holds of the stream processor as a whole.
//!
//! The laws speak of `block_output`, in which the work done on one frame
//! between admission and assembly appears as a function `transform` from
//! frames to frames. A gate that lets every bin pass, around a transform
//! pair that inverts exactly, is a `transform` that hands each frame back.

use vstd::prelude::*;
use crate::assembler::{assembled, lemma_assembled_concat, tail};
use crate::frame_buffer::{shifted, silence};
use crate::geometry::{
    decomposes, frame_count, lemma_steps_cover, lemma_windows_tile, step_of, window_start, LENGTH,
};
use crate::stream::{
    analysis_frames, block_output, concatenated, history_after, history_after_block,
    history_after_blocks, stream_output, window, ChannelState,
};

verus! {

/// Admitting samples keeps the length of the history.
pub proof fn lemma_shifted_len(history: Seq<u32>, fresh: Seq<u32>)
    requires
        fresh.len() <= history.len(),
    ensures
        shifted(history, fresh).len() == history.len(),
{
}

/// The tail of a frame is what its analysis step has admitted.
pub proof fn lemma_tail_of_shifted(history: Seq<u32>, fresh: Seq<u32>)
    requires
        fresh.len() <= history.len(),
    ensures
        tail(shifted(history, fresh), fresh.len() as int) == fresh,
{
    assert(tail(shifted(history, fresh), fresh.len() as int) =~= fresh);
}

/// After any number of analysis steps the history is the last `LENGTH`
/// samples of all that the channel has been fed: the history it began with,
/// followed by the part of the block admitted so far.
pub proof fn lemma_history_is_recent_input(history: Seq<u32>, block: Seq<u32>, steps: nat)
    requires
        history.len() == LENGTH,
        decomposes(block.len() as int),
        steps <= frame_count(block.len() as int),
    ensures
        0 <= window_start(block.len() as int, steps as int) <= block.len(),
        history_after(history, block, steps) == (history + block).subrange(
            window_start(block.len() as int, steps as int),
            window_start(block.len() as int, steps as int) + LENGTH,
        ),
    decreases steps,
{
    let size = block.len() as int;
    let fed = history + block;
    if steps == 0 {
        assert(0 * step_of(size) == 0);
        assert(fed.subrange(0, LENGTH as int) =~= history);
    } else {
        let n = steps - 1;
        lemma_history_is_recent_input(history, block, n as nat);
        lemma_windows_tile(size, n);
        let at = window_start(size, n);
        let step = step_of(size);
        let earlier = history_after(history, block, n as nat);
        assert(window(block, n).len() == step);
        assert(history_after(history, block, steps) =~= fed.subrange(at + step, at + step + LENGTH))
            by {
            assert forall|i: int| 0 <= i < LENGTH implies shifted(earlier, window(block, n))[i]
                == fed[at + step + i] by {
                if i < LENGTH - step {
                    assert(earlier[i + step] == fed[at + step + i]);
                } else {
                    assert(window(block, n)[i - (LENGTH - step)] == block[at + i - (LENGTH
                        - step)]);
                }
            }
        }
    }
}

/// Every analysis frame, and the history after a block, holds `LENGTH`
/// samples.
pub proof fn lemma_frames_are_full(history: Seq<u32>, block: Seq<u32>)
    requires
        history.len() == LENGTH,
        decomposes(block.len() as int),
    ensures
        history_after_block(history, block).len() == LENGTH,
        forall|n: int|
            0 <= n < analysis_frames(history, block).len() ==> (#[trigger] analysis_frames(
                history,
                block,
            )[n]).len() == LENGTH,
{
    let size = block.len() as int;
    lemma_steps_cover(size);
    lemma_history_is_recent_input(history, block, frame_count(size) as nat);
    assert forall|n: int| 0 <= n < analysis_frames(history, block).len() implies (
    #[trigger] analysis_frames(history, block)[n]).len() == LENGTH by {
        lemma_history_is_recent_input(history, block, (n + 1) as nat);
    }
}

/// Continuity of the history: after a block it is the last `LENGTH` samples
/// of the old history followed by the block. So a channel that is fed one
/// block after another remembers what it would remember had it been fed
/// their concatenation, however the samples were cut into blocks.
pub proof fn lemma_history_continuity(history: Seq<u32>, first: Seq<u32>, second: Seq<u32>)
    requires
        history.len() == LENGTH,
        decomposes(first.len() as int),
        decomposes(second.len() as int),
    ensures
        history_after_block(history, first) == (history + first).subrange(
            first.len() as int,
            first.len() + LENGTH,
        ),
        history_after_block(history_after_block(history, first), second) == (history + first
            + second).subrange(
            (first.len() + second.len()) as int,
            first.len() + second.len() + LENGTH,
        ),
        decomposes((first + second).len() as int) ==> history_after_block(
            history_after_block(history, first),
            second,
        ) == history_after_block(history, first + second),
{
    let one = first.len() as int;
    let two = second.len() as int;
    lemma_steps_cover(one);
    lemma_steps_cover(two);
    lemma_history_is_recent_input(history, first, frame_count(one) as nat);
    let between = history_after_block(history, first);
    lemma_history_is_recent_input(between, second, frame_count(two) as nat);
    assert((between + second).subrange(two, two + LENGTH) =~= (history + first + second).subrange(
        one + two,
        one + two + LENGTH,
    ));
    if decomposes((first + second).len() as int) {
        lemma_steps_cover(one + two);
        lemma_history_is_recent_input(history, first + second, frame_count(one + two) as nat);
        assert(history + (first + second) =~= history + first + second);
    }
}

/// The outputs of the first `steps` analysis steps, under a transform that
/// hands each frame back, are the part of the block admitted so far.
proof fn lemma_faithful_prefix(
    history: Seq<u32>,
    block: Seq<u32>,
    transform: spec_fn(Seq<u32>) -> Seq<u32>,
    steps: nat,
)
    requires
        history.len() == LENGTH,
        decomposes(block.len() as int),
        steps <= frame_count(block.len() as int),
        forall|n: int|
            0 <= n < frame_count(block.len() as int) ==> transform(
                #[trigger] analysis_frames(history, block)[n],
            ) == analysis_frames(history, block)[n],
    ensures
        0 <= window_start(block.len() as int, steps as int) <= block.len(),
        assembled(
            analysis_frames(history, block).map_values(transform).take(steps as int),
            step_of(block.len() as int),
        ) == block.subrange(0, window_start(block.len() as int, steps as int)),
    decreases steps,
{
    let size = block.len() as int;
    let step = step_of(size);
    let frames = analysis_frames(history, block).map_values(transform);
    lemma_history_is_recent_input(history, block, steps);
    if steps == 0 {
        assert(0 * step == 0);
        assert(frames.take(0) =~= Seq::<Seq<u32>>::empty());
        assert(block.subrange(0, 0) =~= Seq::<u32>::empty());
    } else {
        let n = steps - 1;
        lemma_faithful_prefix(history, block, transform, n as nat);
        lemma_windows_tile(size, n);
        lemma_history_is_recent_input(history, block, n as nat);
        let earlier = history_after(history, block, n as nat);
        assert(frames.take(steps as int).drop_last() =~= frames.take(n));
        assert(frames.take(steps as int).last() == analysis_frames(history, block)[n]);
        assert(analysis_frames(history, block)[n] == shifted(earlier, window(block, n)));
        lemma_tail_of_shifted(earlier, window(block, n));
        assert(block.subrange(0, window_start(size, n)) + window(block, n) =~= block.subrange(
            0,
            window_start(size, steps as int),
        ));
    }
}

/// Where analysis, gate and synthesis hand each frame back as it came, the
/// output of a block is the block itself, whatever the history and whatever
/// the size of the block, so long as it decomposes.
pub proof fn lemma_faithful_transform_reproduces_block(
    history: Seq<u32>,
    block: Seq<u32>,
    transform: spec_fn(Seq<u32>) -> Seq<u32>,
)
    requires
        history.len() == LENGTH,
        decomposes(block.len() as int),
        forall|n: int|
            0 <= n < frame_count(block.len() as int) ==> transform(
                #[trigger] analysis_frames(history, block)[n],
            ) == analysis_frames(history, block)[n],
    ensures
        block_output(history, block, transform) == block,
{
    let size = block.len() as int;
    let count = frame_count(size);
    let frames = analysis_frames(history, block).map_values(transform);
    lemma_steps_cover(size);
    lemma_faithful_prefix(history, block, transform, count as nat);
    lemma_windows_tile(size, count - 1);
    assert(frames.take(count) =~= frames);
    assert(block.subrange(0, size) =~= block);
}

/// Block-size invariance under a transform that hands each frame back: a
/// run of samples gives the same output whether it is fed as one block or
/// cut in two, wherever the cut, so long as each part and the whole
/// decompose.
pub proof fn lemma_faithful_transform_ignores_cuts(
    history: Seq<u32>,
    first: Seq<u32>,
    second: Seq<u32>,
    transform: spec_fn(Seq<u32>) -> Seq<u32>,
)
    requires
        history.len() == LENGTH,
        decomposes(first.len() as int),
        decomposes(second.len() as int),
        decomposes((first + second).len() as int),
        forall|frame: Seq<u32>| #[trigger] transform(frame) == frame,
    ensures
        block_output(history, first, transform) + block_output(
            history_after_block(history, first),
            second,
            transform,
        ) == block_output(history, first + second, transform),
{
    lemma_frames_are_full(history, first);
    lemma_faithful_transform_reproduces_block(history, first, transform);
    lemma_faithful_transform_reproduces_block(
        history_after_block(history, first),
        second,
        transform,
    );
    lemma_faithful_transform_reproduces_block(history, first + second, transform);
}

/// Blocks of whole frames: feeding two of them as one block yields the same
/// analysis frames, the same output and the same history as feeding one
/// after the other, whatever is done to the frames in between.
pub proof fn lemma_whole_frames_split(
    history: Seq<u32>,
    first: Seq<u32>,
    second: Seq<u32>,
    transform: spec_fn(Seq<u32>) -> Seq<u32>,
)
    requires
        history.len() == LENGTH,
        first.len() >= LENGTH,
        first.len() % (LENGTH as nat) == 0,
        second.len() >= LENGTH,
        second.len() % (LENGTH as nat) == 0,
    ensures
        analysis_frames(history, first + second) == analysis_frames(history, first)
            + analysis_frames(history_after_block(history, first), second),
        block_output(history, first + second, transform) == block_output(
            history,
            first,
            transform,
        ) + block_output(history_after_block(history, first), second, transform),
        history_after_block(history, first + second) == history_after_block(
            history_after_block(history, first),
            second,
        ),
{
    let one = first.len() as int;
    let two = second.len() as int;
    let whole = first + second;
    let between = history_after_block(history, first);
    let count_one = frame_count(one);
    let count_two = frame_count(two);
    assert(one == 1024 * (one / 1024));
    assert(two == 1024 * (two / 1024));
    assert(count_one * 1024 == one);
    assert(count_two * 1024 == two);
    assert((one + two) % 1024 == 0);
    assert(frame_count(one + two) == count_one + count_two);
    lemma_history_continuity(history, first, second);
    let left = analysis_frames(history, whole);
    let right = analysis_frames(history, first) + analysis_frames(between, second);
    assert(left.len() == right.len());
    assert forall|n: int| 0 <= n < left.len() implies left[n] == right[n] by {
        lemma_history_is_recent_input(history, whole, (n + 1) as nat);
        assert(window_start(one + two, n + 1) == (n + 1) * 1024);
        if n < count_one {
            lemma_history_is_recent_input(history, first, (n + 1) as nat);
            assert(window_start(one, n + 1) == (n + 1) * 1024);
            assert((history + whole).subrange((n + 1) * 1024, (n + 1) * 1024 + LENGTH) =~= (history
                + first).subrange((n + 1) * 1024, (n + 1) * 1024 + LENGTH));
        } else {
            let m = n - count_one;
            lemma_history_is_recent_input(between, second, (m + 1) as nat);
            assert(window_start(two, m + 1) == (m + 1) * 1024);
            assert((history + whole).subrange((n + 1) * 1024, (n + 1) * 1024 + LENGTH) =~= (between
                + second).subrange((m + 1) * 1024, (m + 1) * 1024 + LENGTH));
        }
    }
    assert(left =~= right);
    assert(left.map_values(transform) =~= analysis_frames(history, first).map_values(transform)
        + analysis_frames(between, second).map_values(transform));
    lemma_assembled_concat(
        analysis_frames(history, first).map_values(transform),
        analysis_frames(between, second).map_values(transform),
        LENGTH as int,
    );
}

/// Every block of the stream decomposes.
pub open spec fn all_decompose(blocks: Seq<Seq<u32>>) -> bool {
    forall|i: int| 0 <= i < blocks.len() ==> decomposes((#[trigger] blocks[i]).len() as int)
}

/// Every block of the stream is a whole number of frames, and at least one.
pub open spec fn all_whole_frames(blocks: Seq<Seq<u32>>) -> bool {
    forall|i: int|
        0 <= i < blocks.len() ==> {
            &&& (#[trigger] blocks[i]).len() >= LENGTH
            &&& blocks[i].len() % (LENGTH as nat) == 0
        }
}

/// Continuity across any number of blocks: however a stream is cut into
/// blocks that decompose, the channel ends up remembering the last `LENGTH`
/// samples of its old history followed by the stream.
pub proof fn lemma_stream_history(history: Seq<u32>, blocks: Seq<Seq<u32>>)
    requires
        history.len() == LENGTH,
        all_decompose(blocks),
    ensures
        history_after_blocks(history, blocks) == (history + concatenated(blocks)).subrange(
            concatenated(blocks).len() as int,
            concatenated(blocks).len() + LENGTH,
        ),
        history_after_blocks(history, blocks).len() == LENGTH,
    decreases blocks.len(),
{
    if blocks.len() == 0 {
        assert((history + concatenated(blocks)).subrange(0, LENGTH as int) =~= history);
    } else {
        let earlier = blocks.drop_last();
        let last = blocks.last();
        lemma_stream_history(history, earlier);
        let between = history_after_blocks(history, earlier);
        let fed = concatenated(earlier);
        assert(decomposes(last.len() as int));
        lemma_steps_cover(last.len() as int);
        lemma_history_is_recent_input(between, last, frame_count(last.len() as int) as nat);
        assert((between + last).subrange(last.len() as int, last.len() + LENGTH) =~= (history
            + concatenated(blocks)).subrange(
            concatenated(blocks).len() as int,
            concatenated(blocks).len() + LENGTH,
        ));
    }
}

/// Block-size invariance under a transform that hands each frame back:
/// however a stream is cut into blocks that decompose, the output is the
/// stream itself; so sixteen blocks of a quarter frame give what one block
/// of four frames gives.
pub proof fn lemma_faithful_stream(
    history: Seq<u32>,
    blocks: Seq<Seq<u32>>,
    transform: spec_fn(Seq<u32>) -> Seq<u32>,
)
    requires
        history.len() == LENGTH,
        all_decompose(blocks),
        forall|frame: Seq<u32>| #[trigger] transform(frame) == frame,
    ensures
        stream_output(history, blocks, transform) == concatenated(blocks),
        decomposes(concatenated(blocks).len() as int) ==> stream_output(history, blocks, transform)
            == block_output(history, concatenated(blocks), transform),
    decreases blocks.len(),
{
    if blocks.len() > 0 {
        let earlier = blocks.drop_last();
        lemma_faithful_stream(history, earlier, transform);
        lemma_stream_history(history, earlier);
        assert(decomposes(blocks.last().len() as int));
        lemma_faithful_transform_reproduces_block(
            history_after_blocks(history, earlier),
            blocks.last(),
            transform,
        );
    }
    if decomposes(concatenated(blocks).len() as int) {
        lemma_faithful_transform_reproduces_block(history, concatenated(blocks), transform);
    }
}

/// Block-size invariance for blocks of whole frames, whatever is done to the
/// frames: feeding such blocks one after the other yields the output and the
/// history of feeding them as one block; so four blocks of one frame give
/// what one block of four frames gives.
pub proof fn lemma_whole_frames_stream(
    history: Seq<u32>,
    blocks: Seq<Seq<u32>>,
    transform: spec_fn(Seq<u32>) -> Seq<u32>,
)
    requires
        history.len() == LENGTH,
        blocks.len() >= 1,
        all_whole_frames(blocks),
    ensures
        concatenated(blocks).len() >= LENGTH,
        concatenated(blocks).len() % (LENGTH as nat) == 0,
        stream_output(history, blocks, transform) == block_output(
            history,
            concatenated(blocks),
            transform,
        ),
        history_after_blocks(history, blocks) == history_after_block(
            history,
            concatenated(blocks),
        ),
    decreases blocks.len(),
{
    let earlier = blocks.drop_last();
    let last = blocks.last();
    assert(last.len() >= LENGTH && last.len() % (LENGTH as nat) == 0);
    if blocks.len() == 1 {
        assert(concatenated(earlier) =~= Seq::<u32>::empty());
        assert(concatenated(blocks) =~= last);
        assert(stream_output(history, earlier, transform) =~= Seq::<u32>::empty());
        assert(stream_output(history, blocks, transform) =~= block_output(
            history,
            last,
            transform,
        ));
    } else {
        assert(all_whole_frames(earlier));
        lemma_whole_frames_stream(history, earlier, transform);
        lemma_whole_frames_split(history, concatenated(earlier), last, transform);
    }
}

/// Two channels that have heard nothing yet treat a block alike: the same
/// analysis frames, the same output and the same history afterwards.
pub proof fn lemma_fresh_channels_agree(
    one: ChannelState,
    other: ChannelState,
    block: Seq<u32>,
    transform: spec_fn(Seq<u32>) -> Seq<u32>,
)
    requires
        one.history() == silence(),
        other.history() == silence(),
    ensures
        analysis_frames(one.history(), block) == analysis_frames(other.history(), block),
        block_output(one.history(), block, transform) == block_output(
            other.history(),
            block,
            transform,
        ),
        history_after_block(one.history(), block) == history_after_block(other.history(), block),
{
}

} // verus!
