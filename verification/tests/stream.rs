use goldilocks::assembler::assemble;
use goldilocks::engine::{Engine, Phase};
use goldilocks::gate::{Bin, GateParameters};
use goldilocks::geometry::{GeometryError, BINS, LENGTH};
use goldilocks::stream::ChannelState;

fn ramp(from: u32, count: usize) -> Vec<u32> {
    (0..count).map(|i| from + i as u32).collect()
}

#[test]
fn a_new_channel_has_heard_nothing() {
    let channel = ChannelState::new();
    assert_eq!(channel.history_samples(), vec![0u32; LENGTH]);
    assert_eq!(channel.profile_values(), &vec![0u32; BINS]);
}

#[test]
fn a_short_block_yields_one_frame_ending_in_the_block() {
    let mut channel = ChannelState::new();
    let frames = channel.admit_block(&ramp(1, 256)).unwrap();
    assert_eq!(frames.len(), 1);
    let mut expected = vec![0u32; LENGTH - 256];
    expected.extend(ramp(1, 256));
    assert_eq!(frames[0], expected);
    assert_eq!(channel.history_samples(), expected);
}

#[test]
fn a_long_block_yields_its_frames_in_order() {
    let mut channel = ChannelState::new();
    let block = ramp(1, 4096);
    let frames = channel.admit_block(&block).unwrap();
    assert_eq!(frames.len(), 4);
    for n in 0..4 {
        assert_eq!(frames[n], block[n * LENGTH..(n + 1) * LENGTH].to_vec());
    }
    assert_eq!(channel.history_samples(), block[3 * LENGTH..].to_vec());
}

#[test]
fn an_empty_block_yields_the_history_as_its_one_frame() {
    let mut channel = ChannelState::new();
    channel.admit_block(&ramp(1, 100)).unwrap();
    let before = channel.history_samples();
    let frames = channel.admit_block(&[]).unwrap();
    assert_eq!(frames, vec![before.clone()]);
    assert_eq!(channel.history_samples(), before);
}

#[test]
fn a_ragged_block_is_refused_and_leaves_the_channel_alone() {
    let mut channel = ChannelState::new();
    channel.admit_block(&ramp(1, 100)).unwrap();
    let before = channel.history_samples();
    assert_eq!(channel.admit_block(&ramp(1, 1500)), Err(GeometryError::Ragged));
    assert_eq!(channel.history_samples(), before);
}

#[test]
fn frames_handed_back_unchanged_reproduce_the_block() {
    let mut channel = ChannelState::new();
    let mut next = 1u32;
    for size in [1usize, 7, 256, 512, 1000, 1023, 1024, 2048, 4096, 0, 300] {
        let block = ramp(next, size);
        next += size as u32;
        let frames = channel.admit_block(&block).unwrap();
        assert_eq!(assemble(&frames, size).unwrap(), block, "size {}", size);
    }
}

#[test]
fn one_long_block_and_its_frames_one_by_one_give_the_same_frames() {
    let block = ramp(1, 4096);
    let mut whole = ChannelState::new();
    let at_once = whole.admit_block(&block).unwrap();
    let mut parts = ChannelState::new();
    let mut one_by_one: Vec<Vec<u32>> = Vec::new();
    for n in 0..4 {
        one_by_one.extend(parts.admit_block(&block[n * LENGTH..(n + 1) * LENGTH]).unwrap());
    }
    assert_eq!(at_once, one_by_one);
    assert_eq!(whole.history_samples(), parts.history_samples());
}

#[test]
fn the_history_does_not_depend_on_how_the_stream_was_cut() {
    let stream = ramp(1, 4096);
    let mut small = ChannelState::new();
    for n in 0..16 {
        small.admit_block(&stream[n * 256..(n + 1) * 256]).unwrap();
    }
    let mut big = ChannelState::new();
    big.admit_block(&stream).unwrap();
    let mut mixed = ChannelState::new();
    mixed.admit_block(&stream[..100]).unwrap();
    mixed.admit_block(&stream[100..1124]).unwrap();
    mixed.admit_block(&stream[1124..3172]).unwrap();
    mixed.admit_block(&stream[3172..]).unwrap();
    assert_eq!(small.history_samples(), big.history_samples());
    assert_eq!(mixed.history_samples(), big.history_samples());
    assert_eq!(big.history_samples(), stream[4096 - LENGTH..].to_vec());
}

#[test]
fn each_small_frame_is_the_latest_window_of_the_stream() {
    let stream = ramp(1, 4096);
    let mut fed = vec![0u32; LENGTH];
    let mut channel = ChannelState::new();
    for n in 0..16 {
        let block = &stream[n * 256..(n + 1) * 256];
        let frames = channel.admit_block(block).unwrap();
        fed.extend_from_slice(block);
        assert_eq!(frames, vec![fed[fed.len() - LENGTH..].to_vec()]);
    }
}

#[test]
fn two_new_channels_treat_a_block_alike() {
    let block = ramp(1, 2048);
    let mut one = ChannelState::new();
    let mut other = ChannelState::new();
    assert_eq!(one.admit_block(&block), other.admit_block(&block));
    assert_eq!(one.history_samples(), other.history_samples());
}

#[test]
fn gating_on_a_channel_keeps_its_history_and_updates_its_profile() {
    let mut channel = ChannelState::new();
    channel.admit_block(&ramp(1, 512)).unwrap();
    let history = channel.history_samples();
    let mut spectrum = vec![Bin { re: 5, im: 6 }; BINS];
    let magnitudes = vec![1.0f32.to_bits(); BINS];
    let rescaled: Vec<u32> = (0..BINS).map(|i| i as u32).collect();
    let learn = GateParameters { learn: true, learn_time: 0, noise_floor: 2.0f32.to_bits() };
    channel.gate(&mut spectrum, &magnitudes, &learn, &rescaled);
    assert_eq!(spectrum, vec![Bin { re: 0, im: 0 }; BINS]);
    assert_eq!(channel.profile_values(), &rescaled);
    assert_eq!(channel.history_samples(), history);
    let idle = GateParameters { learn: false, learn_time: 0, noise_floor: 0 };
    let mut spectrum = vec![Bin { re: 5, im: 6 }; BINS];
    channel.gate(&mut spectrum, &magnitudes, &idle, &[]);
    assert_eq!(spectrum, vec![Bin { re: 5, im: 6 }; BINS]);
    assert_eq!(channel.profile_values(), &rescaled);
}

#[test]
fn an_engine_passes_through_its_phases() {
    let mut engine = Engine::new(2);
    assert_eq!(engine.channels(), 2);
    assert_eq!(engine.current_phase(), Phase::Constructed);
    engine.activate();
    assert_eq!(engine.current_phase(), Phase::Active);
    engine.admit_block(0, &ramp(1, 256)).unwrap();
    assert_eq!(engine.current_phase(), Phase::Processing);
    engine.admit_block(1, &ramp(1, 256)).unwrap();
    assert_eq!(engine.current_phase(), Phase::Processing);
    let history = engine.history_samples(0);
    engine.deactivate();
    assert_eq!(engine.current_phase(), Phase::Inactive);
    assert_eq!(engine.history_samples(0), history);
}

#[test]
fn a_ragged_block_leaves_the_engine_as_it_was() {
    let mut engine = Engine::new(2);
    engine.activate();
    assert_eq!(engine.admit_block(0, &ramp(1, 1025)), Err(GeometryError::Ragged));
    assert_eq!(engine.current_phase(), Phase::Active);
    assert_eq!(engine.history_samples(0), vec![0u32; LENGTH]);
}

#[test]
fn the_channels_of_an_engine_are_independent() {
    let mut engine = Engine::new(2);
    engine.activate();
    engine.admit_block(0, &ramp(1, 300)).unwrap();
    assert_eq!(engine.history_samples(1), vec![0u32; LENGTH]);
    let mut spectrum = vec![Bin { re: 1, im: 1 }; BINS];
    let rescaled = vec![77u32; BINS];
    let learn = GateParameters { learn: true, learn_time: 0, noise_floor: 0 };
    engine.gate(1, &mut spectrum, &vec![0u32; BINS], &learn, &rescaled);
    assert_eq!(engine.profile_values(1), &rescaled);
    assert_eq!(engine.profile_values(0), &vec![0u32; BINS]);
    let mut expected = vec![0u32; LENGTH - 300];
    expected.extend(ramp(1, 300));
    assert_eq!(engine.history_samples(0), expected);
}

#[test]
fn an_engine_without_channels_is_an_engine() {
    let engine = Engine::new(0);
    assert_eq!(engine.channels(), 0);
    assert_eq!(engine.current_phase(), Phase::Constructed);
}
