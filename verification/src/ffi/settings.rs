//! Mirror of the value parts of `retrovert/settings.h`.

use vstd::prelude::*;

verus! {

/// Values for the `widget_type` field shared by every settings descriptor.
pub const RVS_FLOAT_TYPE: u64 = 0x1000;
pub const RVS_INTEGER_TYPE: u64 = 0x1001;
pub const RVS_BOOL_TYPE: u64 = 0x1002;
pub const RVS_INTEGER_RANGE_TYPE: u64 = 0x1003;
pub const RVS_STRING_RANGE_TYPE: u64 = 0x1004;

/// Maximum number of settings accepted in one registration.
pub const RV_SETTINGS_COUNT_LIMIT: u64 = 1024;
/// Maximum number of choices accepted by one fixed-range setting.
pub const RVS_CHOICE_COUNT_LIMIT: u64 = 1024;

pub const RV_SETTINGS_API_VERSION: i32 = 1;

/// Outcome of a settings registration or lookup.
#[derive(Debug, Clone, Copy, PartialEq, Eq, Hash, Structural)]
pub enum RVSettingsResult {
    Success,
    NotFound,
    UnknownId,
    DuplicatedId,
    WrongType,
    InvalidCount,
}

impl RVSettingsResult {
    pub open spec fn raw(self) -> u32 {
        match self {
            RVSettingsResult::Success => 0,
            RVSettingsResult::NotFound => 1,
            RVSettingsResult::UnknownId => 2,
            RVSettingsResult::DuplicatedId => 3,
            RVSettingsResult::WrongType => 4,
            RVSettingsResult::InvalidCount => 5,
        }
    }

    /// Returns `None` for a discriminant this ABI version does not define.
    pub fn from_raw(raw: u32) -> (r: Option<Self>)
        ensures
            match r {
                Some(v) => v.raw() == raw,
                None => raw > 5,
            },
    {
        match raw {
            0 => Some(RVSettingsResult::Success),
            1 => Some(RVSettingsResult::NotFound),
            2 => Some(RVSettingsResult::UnknownId),
            3 => Some(RVSettingsResult::DuplicatedId),
            4 => Some(RVSettingsResult::WrongType),
            5 => Some(RVSettingsResult::InvalidCount),
            _ => None,
        }
    }

    pub fn to_raw(self) -> (r: u32)
        ensures
            r == self.raw(),
    {
        match self {
            RVSettingsResult::Success => 0,
            RVSettingsResult::NotFound => 1,
            RVSettingsResult::UnknownId => 2,
            RVSettingsResult::DuplicatedId => 3,
            RVSettingsResult::WrongType => 4,
            RVSettingsResult::InvalidCount => 5,
        }
    }
}

/// Answer to an integer lookup.
#[derive(Debug, Clone, Copy, PartialEq, Eq, Structural)]
pub struct RVSIntResult {
    pub result: u32,
    pub value: i32,
}

/// Answer to a Boolean lookup.
#[derive(Debug, Clone, Copy, PartialEq, Eq, Structural)]
pub struct RVSBoolResult {
    pub result: u32,
    pub value: bool,
}

} // verus!
