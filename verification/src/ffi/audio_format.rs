//! Mirror of `retrovert/audio_format.h`.

use vstd::prelude::*;

verus! {

/// Sample format of an audio stream.
#[derive(Debug, Clone, Copy, PartialEq, Eq, Hash, Structural)]
pub enum RVAudioStreamFormat {
    U8,
    S16,
    S24,
    S32,
    F32,
}

impl RVAudioStreamFormat {
    /// The discriminant the C enum gives this format.
    pub open spec fn raw(self) -> u32 {
        match self {
            RVAudioStreamFormat::U8 => 1,
            RVAudioStreamFormat::S16 => 2,
            RVAudioStreamFormat::S24 => 3,
            RVAudioStreamFormat::S32 => 4,
            RVAudioStreamFormat::F32 => 5,
        }
    }

    /// Returns `None` for a discriminant this ABI version does not define.
    pub fn from_raw(raw: u32) -> (r: Option<Self>)
        ensures
            match r {
                Some(format) => format.raw() == raw,
                None => !(1 <= raw <= 5),
            },
    {
        match raw {
            1 => Some(RVAudioStreamFormat::U8),
            2 => Some(RVAudioStreamFormat::S16),
            3 => Some(RVAudioStreamFormat::S24),
            4 => Some(RVAudioStreamFormat::S32),
            5 => Some(RVAudioStreamFormat::F32),
            _ => None,
        }
    }

    /// The discriminant the C enum gives this format.
    pub fn to_raw(self) -> (r: u32)
        ensures
            r == self.raw(),
    {
        match self {
            RVAudioStreamFormat::U8 => 1,
            RVAudioStreamFormat::S16 => 2,
            RVAudioStreamFormat::S24 => 3,
            RVAudioStreamFormat::S32 => 4,
            RVAudioStreamFormat::F32 => 5,
        }
    }
}

/// Sample format, channel count and sample rate of a block of audio.
#[derive(Debug, Clone, Copy, PartialEq, Eq, Structural)]
pub struct RVAudioFormat {
    pub audio_format: u32,
    pub channel_count: u32,
    pub sample_rate: u32,
}

} // verus!
