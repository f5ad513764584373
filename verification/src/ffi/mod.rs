//! Plain mirrors of the ABI's enums and value structs.
//!
//! Enum-typed ABI fields are carried as the raw `u32` the C enum lowers to; `from_raw`
//! is the checked conversion applied where a value is consumed.

pub mod audio_format;
pub mod io;
pub mod log;
pub mod metadata;
pub mod output;
pub mod playback;
pub mod resample;
pub mod settings;
