//! Fixed-point audio band analysis for real-time spectrum displays.
//!
//! A magnitude spectrum is reduced to a small set of bands on one of six
//! frequency scales, post-processed (gain, amplitude mapping, smoothing) and
//! framed into a compact datagram. Amplitudes are unsigned integers counted in
//! millionths of full scale (see [`UNIT`]); frequencies are counted in
//! millihertz.

use vstd::prelude::*;

pub mod audio_processor;
pub mod config;
pub mod frequency_analyzer;
pub mod network;
pub mod session;

verus! {

/// Full scale (the amplitude 1.0) in the fixed-point unit used throughout.
pub const UNIT: u32 = 1_000_000;

/// Distance between two integers.
pub open spec fn distance(a: int, b: int) -> int {
    if a <= b {
        b - a
    } else {
        a - b
    }
}

} // verus!
