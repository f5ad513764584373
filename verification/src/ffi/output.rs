//! Mirror of the value parts of `retrovert/output.h`.

use vstd::prelude::*;

verus! {

/// What an output plugin is asked to write in one pull.
#[derive(Debug, Clone, Copy, PartialEq, Eq, Structural)]
pub struct RVWriteInfo {
    pub sample_rate: u32,
    pub sample_count: u16,
    pub channel_count: u8,
    pub output_format: u8,
}

} // verus!
