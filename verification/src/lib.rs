//! Decision logic of a live audio spectrum and waterfall display.
//!
//! Samples and magnitudes travel through this crate as the bit patterns of
//! IEEE-754 single-precision numbers (`u32`): the crate orders, cuts and packs
//! them, and never computes with them.

pub mod audio;
pub mod compute;
pub mod handoff;
