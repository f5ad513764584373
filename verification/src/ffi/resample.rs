//! Mirror of the value parts of `retrovert/resample.h`.

use vstd::prelude::*;

use crate::ffi::audio_format::RVAudioFormat;

verus! {

/// Whether a settings change applies live or needs the converter reconfigured.
#[derive(Debug, Clone, Copy, PartialEq, Eq, Hash, Structural)]
pub enum RVResampleSettingsUpdate {
    Default,
    RequireRestart,
}

impl RVResampleSettingsUpdate {
    pub open spec fn raw(self) -> u32 {
        match self {
            RVResampleSettingsUpdate::Default => 0,
            RVResampleSettingsUpdate::RequireRestart => 1,
        }
    }

    /// Returns `None` for a discriminant this ABI version does not define.
    pub fn from_raw(raw: u32) -> (r: Option<Self>)
        ensures
            match r {
                Some(v) => v.raw() == raw,
                None => raw > 1,
            },
    {
        match raw {
            0 => Some(RVResampleSettingsUpdate::Default),
            1 => Some(RVResampleSettingsUpdate::RequireRestart),
            _ => None,
        }
    }

    pub fn to_raw(self) -> (r: u32)
        ensures
            r == self.raw(),
    {
        match self {
            RVResampleSettingsUpdate::Default => 0,
            RVResampleSettingsUpdate::RequireRestart => 1,
        }
    }
}

/// The conversion a resample plugin is configured for.
#[derive(Debug, Clone, Copy)]
pub struct RVConvertConfig {
    pub input: RVAudioFormat,
    pub output: RVAudioFormat,
}

} // verus!
