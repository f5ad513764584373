use retrovert_host::ffi::audio_format::RVAudioStreamFormat;
use retrovert_host::ffi::playback::RVReadStatus;

/// `from_raw` rejects a discriminant the ABI does not define.
#[test]
fn unknown_discriminants_are_rejected() {
    assert_eq!(RVReadStatus::from_raw(1), Some(RVReadStatus::Success));
    assert_eq!(RVReadStatus::from_raw(4), None);
    assert_eq!(RVAudioStreamFormat::from_raw(0), None);
}
