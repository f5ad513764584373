//! Mirror of `retrovert/playback.h`: the value types and enums a playback plugin exchanges
//! with the host.

use vstd::prelude::*;

use crate::ffi::audio_format::RVAudioFormat;

verus! {

/// The ABI version this crate mirrors; the only header that spells it is `playback.h`.
pub const RV_PLAYBACK_PLUGIN_API_VERSION: u64 = 2;

/// Result of probing a candidate file to decide whether a plugin can play it.
#[derive(Debug, Clone, Copy, PartialEq, Eq, Hash, Structural)]
pub enum RVProbeResult {
    Supported,
    Unsupported,
    Unsure,
}

impl RVProbeResult {
    pub open spec fn raw(self) -> u32 {
        match self {
            RVProbeResult::Supported => 0,
            RVProbeResult::Unsupported => 1,
            RVProbeResult::Unsure => 2,
        }
    }

    /// Returns `None` for a discriminant this ABI version does not define.
    pub fn from_raw(raw: u32) -> (r: Option<Self>)
        ensures
            match r {
                Some(v) => v.raw() == raw,
                None => raw > 2,
            },
    {
        match raw {
            0 => Some(RVProbeResult::Supported),
            1 => Some(RVProbeResult::Unsupported),
            2 => Some(RVProbeResult::Unsure),
            _ => None,
        }
    }

    pub fn to_raw(self) -> (r: u32)
        ensures
            r == self.raw(),
    {
        match self {
            RVProbeResult::Supported => 0,
            RVProbeResult::Unsupported => 1,
            RVProbeResult::Unsure => 2,
        }
    }
}

/// Status of a single `read_data` call.
#[derive(Debug, Clone, Copy, PartialEq, Eq, Hash, Structural)]
pub enum RVReadStatus {
    DecodingRequest,
    Success,
    Finished,
    Error,
}

impl RVReadStatus {
    pub open spec fn raw(self) -> u32 {
        match self {
            RVReadStatus::DecodingRequest => 0,
            RVReadStatus::Success => 1,
            RVReadStatus::Finished => 2,
            RVReadStatus::Error => 3,
        }
    }

    /// Returns `None` for a discriminant this ABI version does not define.
    pub fn from_raw(raw: u32) -> (r: Option<Self>)
        ensures
            match r {
                Some(v) => v.raw() == raw,
                None => raw > 3,
            },
    {
        match raw {
            0 => Some(RVReadStatus::DecodingRequest),
            1 => Some(RVReadStatus::Success),
            2 => Some(RVReadStatus::Finished),
            3 => Some(RVReadStatus::Error),
            _ => None,
        }
    }

    pub fn to_raw(self) -> (r: u32)
        ensures
            r == self.raw(),
    {
        match self {
            RVReadStatus::DecodingRequest => 0,
            RVReadStatus::Success => 1,
            RVReadStatus::Finished => 2,
            RVReadStatus::Error => 3,
        }
    }
}

/// Whether a settings change applies live or needs the song reopened.
#[derive(Debug, Clone, Copy, PartialEq, Eq, Hash, Structural)]
pub enum RVSettingsUpdate {
    Default,
    RequireRestart,
}

impl RVSettingsUpdate {
    pub open spec fn raw(self) -> u32 {
        match self {
            RVSettingsUpdate::Default => 0,
            RVSettingsUpdate::RequireRestart => 1,
        }
    }

    /// Returns `None` for a discriminant this ABI version does not define.
    pub fn from_raw(raw: u32) -> (r: Option<Self>)
        ensures
            match r {
                Some(v) => v.raw() == raw,
                None => raw > 1,
            },
    {
        match raw {
            0 => Some(RVSettingsUpdate::Default),
            1 => Some(RVSettingsUpdate::RequireRestart),
            _ => None,
        }
    }

    pub fn to_raw(self) -> (r: u32)
        ensures
            r == self.raw(),
    {
        match self {
            RVSettingsUpdate::Default => 0,
            RVSettingsUpdate::RequireRestart => 1,
        }
    }
}

/// How pattern channels advance through rows.
#[derive(Debug, Clone, Copy, PartialEq, Eq, Hash, Structural)]
pub enum RVScrollMode {
    Synchronized,
    PerChannel,
}

impl RVScrollMode {
    pub open spec fn raw(self) -> u32 {
        match self {
            RVScrollMode::Synchronized => 0,
            RVScrollMode::PerChannel => 1,
        }
    }

    /// Returns `None` for a discriminant this ABI version does not define.
    pub fn from_raw(raw: u32) -> (r: Option<Self>)
        ensures
            match r {
                Some(v) => v.raw() == raw,
                None => raw > 1,
            },
    {
        match raw {
            0 => Some(RVScrollMode::Synchronized),
            1 => Some(RVScrollMode::PerChannel),
            _ => None,
        }
    }

    pub fn to_raw(self) -> (r: u32)
        ensures
            r == self.raw(),
    {
        match self {
            RVScrollMode::Synchronized => 0,
            RVScrollMode::PerChannel => 1,
        }
    }
}

/// What a tracker pattern column holds.
#[derive(Debug, Clone, Copy, PartialEq, Eq, Hash, Structural)]
pub enum RVColumnKind {
    Note,
    Instrument,
    Volume,
    Effect,
    Param,
    Custom,
}

impl RVColumnKind {
    pub open spec fn raw(self) -> u32 {
        match self {
            RVColumnKind::Note => 0,
            RVColumnKind::Instrument => 1,
            RVColumnKind::Volume => 2,
            RVColumnKind::Effect => 3,
            RVColumnKind::Param => 4,
            RVColumnKind::Custom => 5,
        }
    }

    /// Returns `None` for a discriminant this ABI version does not define.
    pub fn from_raw(raw: u32) -> (r: Option<Self>)
        ensures
            match r {
                Some(v) => v.raw() == raw,
                None => raw > 5,
            },
    {
        match raw {
            0 => Some(RVColumnKind::Note),
            1 => Some(RVColumnKind::Instrument),
            2 => Some(RVColumnKind::Volume),
            3 => Some(RVColumnKind::Effect),
            4 => Some(RVColumnKind::Param),
            5 => Some(RVColumnKind::Custom),
            _ => None,
        }
    }

    pub fn to_raw(self) -> (r: u32)
        ensures
            r == self.raw(),
    {
        match self {
            RVColumnKind::Note => 0,
            RVColumnKind::Instrument => 1,
            RVColumnKind::Volume => 2,
            RVColumnKind::Effect => 3,
            RVColumnKind::Param => 4,
            RVColumnKind::Custom => 5,
        }
    }
}

/// Bits of [`RVVizInfo::caps`]. A bitset rather than a discriminant, so the header's
/// `RVVizCaps` enumerators mirror as constants.
pub struct RVVizCaps;

impl RVVizCaps {
    pub const PATTERN_CELLS: u32 = 1;
    pub const SCOPE: u32 = 2;
    pub const VU: u32 = 4;
    pub const WHOLE_SONG_KNOWN: u32 = 8;
    pub const SEEKABLE_PREVIEW: u32 = 16;
    pub const FUTURE_KNOWN: u32 = 32;
}

/// Format and outcome of a block of decoded audio.
#[derive(Debug, Clone, Copy, PartialEq, Eq, Structural)]
pub struct RVReadInfo {
    pub format: RVAudioFormat,
    pub frame_count: u32,
    pub status: u32,
}

/// One-time description of a plugin's visualization surface. The counts here size the
/// buffers the host passes to the column, channel and cell queries.
#[derive(Debug, Clone, Copy, PartialEq, Eq, Structural)]
pub struct RVVizInfo {
    pub caps: u32,
    pub scroll_mode: u32,
    pub pattern_channel_count: u32,
    pub scope_channel_count: u32,
    pub column_count: u32,
}

/// Description of one tracker pattern column.
#[derive(Debug, Clone, Copy)]
pub struct RVColumnDesc {
    pub label: [u8; 16],
    pub char_width: u8,
    pub kind: u32,
}

/// Description of one pattern or scope channel.
#[derive(Debug, Clone, Copy)]
pub struct RVChannelDesc {
    pub name: [u8; 24],
    pub scope_width: u8,
}

/// Live musical position of the playhead.
#[derive(Debug, Clone, Copy, PartialEq, Eq, Structural)]
pub struct RVTrackerPosition {
    pub order: u32,
    pub pattern: u32,
    pub row: u32,
    pub window_lo: u32,
    pub window_hi: u32,
}

/// One tracker pattern cell: the plugin's raw value plus its own rendered text.
#[derive(Debug, Clone, Copy)]
pub struct RVPatternCell {
    pub raw: u32,
    pub text: [u8; 16],
}

} // verus!
