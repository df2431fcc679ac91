//! The spectral gate: bins whose magnitude lies below the noise floor are
//! silenced, the others pass as they are.

use vstd::prelude::*;
use crate::binary32::{less_than, lt, ZERO};
use crate::controls::Controls;
use crate::geometry::BINS;

verus! {

/// One bin of a half-spectrum: real and imaginary part as bit patterns.
#[derive(Clone, Copy, Debug, PartialEq, Eq, Structural)]
pub struct Bin {
    pub re: u32,
    pub im: u32,
}

/// How the noise gate is set for one block.
#[derive(Clone, Copy, Debug, PartialEq, Eq, Structural)]
pub struct GateParameters {
    /// Whether the noise profile takes up what this block shows.
    pub learn: bool,
    /// The learn window, in samples.
    pub learn_time: u32,
    /// The linear amplitude below which a bin is silenced.
    pub noise_floor: u32,
}

impl GateParameters {
    /// The parameters of a block: learning is on where the learn toggle of
    /// the controls is; `learn_time` and `noise_floor` are what the learn
    /// window and the noise floor of the controls come to in samples and in
    /// linear amplitude.
    pub fn derive(controls: &Controls, learn_time: u32, noise_floor: u32) -> (r: GateParameters)
        ensures
            r == (GateParameters { learn: controls.learns(), learn_time, noise_floor }),
    {
        GateParameters { learn: controls.learn_enabled(), learn_time, noise_floor }
    }
}

/// The bin that holds nothing.
pub open spec fn silent() -> Bin {
    Bin { re: ZERO, im: ZERO }
}

/// Whether a bin of this magnitude is silenced.
pub open spec fn suppressed(magnitude: u32, noise_floor: u32) -> bool {
    less_than(magnitude, noise_floor)
}

/// One bin after gating.
pub open spec fn gated_bin(bin: Bin, magnitude: u32, noise_floor: u32) -> Bin {
    if suppressed(magnitude, noise_floor) {
        silent()
    } else {
        bin
    }
}

/// A spectrum after gating, where its bins have the given magnitudes.
pub open spec fn gated(spectrum: Seq<Bin>, magnitudes: Seq<u32>, noise_floor: u32) -> Seq<Bin> {
    Seq::new(spectrum.len(), |i: int| gated_bin(spectrum[i], magnitudes[i], noise_floor))
}

/// The noise profile after a frame: where learning is on, the profile as
/// the frame has rescaled it; else the profile as it was.
pub open spec fn learned(profile: Seq<u32>, rescaled: Seq<u32>, learn: bool) -> Seq<u32> {
    if learn {
        rescaled
    } else {
        profile
    }
}

/// Gates one bin.
pub fn gate_bin(bin: Bin, magnitude: u32, noise_floor: u32) -> (r: Bin)
    ensures
        r == gated_bin(bin, magnitude, noise_floor),
{
    if lt(magnitude, noise_floor) {
        Bin { re: ZERO, im: ZERO }
    } else {
        bin
    }
}

/// Gates a half-spectrum in place and brings the noise profile up to date.
///
/// `magnitudes` holds the magnitude of each bin of `spectrum`. `rescaled`
/// holds, for each bin, the profile value scaled by that magnitude over the
/// learn window; it is read only where `params.learn` is set.
pub fn apply(
    spectrum: &mut Vec<Bin>,
    magnitudes: &[u32],
    params: &GateParameters,
    profile: &mut Vec<u32>,
    rescaled: &[u32],
)
    requires
        old(spectrum)@.len() == BINS,
        magnitudes@.len() == BINS,
        old(profile)@.len() == BINS,
        params.learn ==> rescaled@.len() == BINS,
    ensures
        final(spectrum)@ == gated(old(spectrum)@, magnitudes@, params.noise_floor),
        final(profile)@ == learned(old(profile)@, rescaled@, params.learn),
{
    let ghost before = spectrum@;
    let ghost profile_before = profile@;
    let mut i: usize = 0;
    while i < BINS
        invariant
            i <= BINS,
            spectrum@.len() == BINS,
            before.len() == BINS,
            magnitudes@.len() == BINS,
            profile@.len() == BINS,
            profile_before.len() == BINS,
            params.learn ==> rescaled@.len() == BINS,
            forall|k: int|
                0 <= k < i ==> spectrum@[k] == gated_bin(
                    before[k],
                    magnitudes@[k],
                    params.noise_floor,
                ),
            forall|k: int| i <= k < BINS ==> spectrum@[k] == before[k],
            forall|k: int|
                0 <= k < i ==> profile@[k] == learned(profile_before, rescaled@, params.learn)[k],
            forall|k: int| i <= k < BINS ==> profile@[k] == profile_before[k],
        decreases BINS - i,
    {
        if params.learn {
            profile.set(i, rescaled[i]);
        }
        let bin = gate_bin(spectrum[i], magnitudes[i], params.noise_floor);
        spectrum.set(i, bin);
        i += 1;
    }
    assert(spectrum@ =~= gated(before, magnitudes@, params.noise_floor));
    assert(profile@ =~= learned(profile_before, rescaled@, params.learn));
}

/// A floor that no magnitude reaches silences the whole spectrum.
pub proof fn lemma_closed_gate_silences(
    spectrum: Seq<Bin>,
    magnitudes: Seq<u32>,
    noise_floor: u32,
)
    requires
        magnitudes.len() == spectrum.len(),
        forall|i: int| 0 <= i < magnitudes.len() ==> less_than(magnitudes[i], noise_floor),
    ensures
        gated(spectrum, magnitudes, noise_floor) == Seq::new(spectrum.len(), |i: int| silent()),
{
    assert(gated(spectrum, magnitudes, noise_floor) =~= Seq::new(
        spectrum.len(),
        |i: int| silent(),
    ));
}

/// A floor that no magnitude lies below lets the whole spectrum pass. A
/// floor of zero is one for magnitudes, none of which is below zero.
pub proof fn lemma_open_gate_passes(spectrum: Seq<Bin>, magnitudes: Seq<u32>, noise_floor: u32)
    requires
        magnitudes.len() == spectrum.len(),
        forall|i: int| 0 <= i < magnitudes.len() ==> !less_than(magnitudes[i], noise_floor),
    ensures
        gated(spectrum, magnitudes, noise_floor) == spectrum,
{
    assert(gated(spectrum, magnitudes, noise_floor) =~= spectrum);
}

} // verus!
