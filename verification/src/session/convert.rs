//! Sample-width arithmetic and the channel adaptations the session supports.

use vstd::prelude::*;

use crate::ffi::audio_format::RVAudioStreamFormat;

verus! {

/// Bytes one sample of `format` occupies in the plugin's buffer.
pub open spec fn spec_sample_width(format: RVAudioStreamFormat) -> usize {
    match format {
        RVAudioStreamFormat::U8 => 1,
        RVAudioStreamFormat::S16 => 2,
        RVAudioStreamFormat::S24 => 3,
        RVAudioStreamFormat::S32 => 4,
        RVAudioStreamFormat::F32 => 4,
    }
}

/// Bytes one sample of `format` occupies in the plugin's buffer.
pub fn sample_width(format: RVAudioStreamFormat) -> (width: usize)
    ensures
        width == spec_sample_width(format),
        1 <= width <= 4,
{
    match format {
        RVAudioStreamFormat::U8 => 1,
        RVAudioStreamFormat::S16 => 2,
        RVAudioStreamFormat::S24 => 3,
        RVAudioStreamFormat::S32 | RVAudioStreamFormat::F32 => 4,
    }
}

/// The signed value a 24-bit two's-complement sample stands for, given its three bytes
/// from least to most significant.
pub open spec fn s24_value(low: u8, mid: u8, high: u8) -> int {
    let magnitude = low as int + 256 * mid as int + 65536 * high as int;
    if high < 0x80 {
        magnitude
    } else {
        magnitude - 0x100_0000
    }
}

/// Decodes a little-endian signed 24-bit sample, sign-extended to 32 bits.
pub fn s24_from_le_bytes(bytes: [u8; 3]) -> (value: i32)
    ensures
        value as int == s24_value(bytes[0], bytes[1], bytes[2]),
        -0x80_0000 <= value < 0x80_0000,
{
    let magnitude: i32 = bytes[0] as i32 + 256 * bytes[1] as i32 + 65536 * bytes[2] as i32;
    if bytes[2] < 0x80 {
        magnitude
    } else {
        magnitude - 0x100_0000
    }
}

/// Decodes a big-endian signed 24-bit sample, sign-extended to 32 bits.
pub fn s24_from_be_bytes(bytes: [u8; 3]) -> (value: i32)
    ensures
        value as int == s24_value(bytes[2], bytes[1], bytes[0]),
        -0x80_0000 <= value < 0x80_0000,
{
    let magnitude: i32 = bytes[2] as i32 + 256 * bytes[1] as i32 + 65536 * bytes[0] as i32;
    if bytes[0] < 0x80 {
        magnitude
    } else {
        magnitude - 0x100_0000
    }
}

/// Whether the built-in adaptation covers this pair: an unchanged count, mono fanning
/// out to any width, or stereo folding down to mono. Anything else would need a channel
/// matrix, which the session deliberately lacks.
pub open spec fn spec_adaptation_supported(from: u32, to: u32) -> bool {
    from == to || from == 1 || (from == 2 && to == 1)
}

/// Whether the built-in adaptation covers this pair: mono fans out, stereo folds down.
pub fn adaptation_supported(from: u32, to: u32) -> (supported: bool)
    ensures
        supported == spec_adaptation_supported(from, to),
{
    from == to || from == 1 || (from == 2 && to == 1)
}

} // verus!
