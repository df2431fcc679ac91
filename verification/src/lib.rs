//! A streaming spectral noise gate: the frame engine around a real-input
//! Fourier transform.
//!
//! Audio arrives in blocks of any admissible size. Each channel keeps the
//! last [`geometry::LENGTH`] samples it has seen; every analysis step shifts
//! new samples into that history, hands the resulting frame out for
//! transformation, gates the spectrum bin by bin against a noise floor and
//! takes the tail of the synthesized frame as output.
//!
//! Samples, magnitudes and control values are carried as IEEE 754 binary32
//! bit patterns (`u32`), so that every decision the engine takes is a
//! statement about integers. The transform itself and the arithmetic on
//! sample values are left to the caller.
//!
//! For each block and channel a caller
//!
//! 1. admits the block with [`engine::Engine::admit_block`], which returns
//!    the analysis frames in order;
//! 2. transforms each frame to its half-spectrum, scales every bin by one
//!    over `LENGTH` and takes the magnitudes;
//! 3. gates the spectrum with [`engine::Engine::gate`];
//! 4. transforms the gated spectrum back to a frame;
//! 5. assembles the output of the block from the synthesized frames with
//!    [`assembler::assemble`].
//!
//! A block longer than a frame must be a whole number of frames; any other
//! such block is refused as ragged. An empty block takes one analysis step
//! that admits nothing and yields nothing.

pub mod assembler;
pub mod binary32;
pub mod controls;
pub mod descriptor;
pub mod engine;
pub mod frame_buffer;
pub mod gate;
pub mod geometry;
pub mod laws;
pub mod stream;
