//! Mirror of the value parts of `retrovert/log.h`.

use vstd::prelude::*;

verus! {

pub const RV_LOG_API_VERSION: i32 = 1;

/// Severity a log record is written at.
#[derive(Debug, Clone, Copy, PartialEq, Eq, Hash, Structural)]
pub enum RVLogLevel {
    Trace,
    Debug,
    Info,
    Warn,
    Error,
    Fatal,
}

impl RVLogLevel {
    pub open spec fn raw(self) -> u32 {
        match self {
            RVLogLevel::Trace => 0,
            RVLogLevel::Debug => 1,
            RVLogLevel::Info => 2,
            RVLogLevel::Warn => 3,
            RVLogLevel::Error => 4,
            RVLogLevel::Fatal => 5,
        }
    }

    /// Returns `None` for a discriminant this ABI version does not define.
    pub fn from_raw(raw: u32) -> (r: Option<Self>)
        ensures
            match r {
                Some(v) => v.raw() == raw,
                None => raw > 5,
            },
    {
        match raw {
            0 => Some(RVLogLevel::Trace),
            1 => Some(RVLogLevel::Debug),
            2 => Some(RVLogLevel::Info),
            3 => Some(RVLogLevel::Warn),
            4 => Some(RVLogLevel::Error),
            5 => Some(RVLogLevel::Fatal),
            _ => None,
        }
    }

    pub fn to_raw(self) -> (r: u32)
        ensures
            r == self.raw(),
    {
        match self {
            RVLogLevel::Trace => 0,
            RVLogLevel::Debug => 1,
            RVLogLevel::Info => 2,
            RVLogLevel::Warn => 3,
            RVLogLevel::Error => 4,
            RVLogLevel::Fatal => 5,
        }
    }
}

} // verus!
