use retrovert_host::ffi::audio_format::RVAudioStreamFormat;
use retrovert_host::ffi::playback::{RVReadStatus, RVSettingsUpdate};
use retrovert_host::session::{
    advertised_bytes, check_frame_budget, check_open, check_read_budget, checked_len, chunk_frames,
    grow, plan_buffers, read_hint, select_pipeline, settings_update_outcome, BufferPlan,
    FormatLock, Pipeline, PlaybackState, SessionError, StreamFormat, MAX_PREPARED_FRAMES,
    MAX_TARGET_CHANNELS,
};
use retrovert_host::ffi::audio_format::RVAudioFormat;
use retrovert_host::ffi::playback::RVReadInfo;

fn stereo(rate: u32) -> StreamFormat {
    StreamFormat { sample_rate: rate, channels: 2 }
}

fn reply(frames: u32, channels: u32, rate: u32, status: RVReadStatus) -> RVReadInfo {
    RVReadInfo {
        format: RVAudioFormat {
            audio_format: RVAudioStreamFormat::F32.to_raw(),
            channel_count: channels,
            sample_rate: rate,
        },
        frame_count: frames,
        status: status.to_raw(),
    }
}

#[test]
fn buffers_are_sized_for_the_widest_reply() {
    assert_eq!(
        plan_buffers(4, None),
        Ok(BufferPlan { raw_samples: 8, decoded_samples: 0, scratch_samples: 0, output_samples: 8 })
    );
    assert_eq!(
        plan_buffers(4, Some(stereo(48_000))),
        Ok(BufferPlan {
            raw_samples: 388,
            decoded_samples: 388,
            scratch_samples: 776,
            output_samples: 586,
        })
    );
}

#[test]
fn lengths_that_do_not_fit_fail_as_allocations() {
    assert_eq!(checked_len(3, 4, 5, "raw"), Ok(17));
    assert_eq!(checked_len(usize::MAX, 2, 0, "raw"), Err(SessionError::Allocation("raw")));
    assert_eq!(checked_len(usize::MAX, 1, 1, "output"), Err(SessionError::Allocation("output")));
}

#[test]
fn growing_keeps_what_is_there_and_never_shrinks() {
    let mut buffer = vec![7_u32, 8];
    assert_eq!(grow(&mut buffer, 4, 0, "raw"), Ok(()));
    assert_eq!(buffer, [7, 8, 0, 0]);
    assert_eq!(grow(&mut buffer, 1, 0, "raw"), Ok(()));
    assert_eq!(buffer.len(), 4);
}

#[test]
fn frame_budgets_are_held_to_their_limits() {
    assert_eq!(check_frame_budget(MAX_PREPARED_FRAMES), Ok(()));
    assert_eq!(
        check_frame_budget(MAX_PREPARED_FRAMES + 1),
        Err(SessionError::InvalidFrameBudget {
            requested: MAX_PREPARED_FRAMES + 1,
            maximum: MAX_PREPARED_FRAMES
        })
    );
    assert_eq!(check_read_budget(4, 4), Ok(()));
    assert_eq!(
        check_read_budget(5, 4),
        Err(SessionError::FrameBudgetExceeded { requested: 5, prepared: 4 })
    );
    assert_eq!(advertised_bytes(4), 32);
}

#[test]
fn an_open_is_checked_before_anything_is_created() {
    assert_eq!(check_open(None, true, true, true, "song.mod"), Ok(()));
    let bad = StreamFormat { sample_rate: 48_000, channels: MAX_TARGET_CHANNELS + 1 };
    assert_eq!(check_open(Some(bad), true, true, true, "song.mod"), Err(SessionError::InvalidTarget(bad)));
    let silent = StreamFormat { sample_rate: 0, channels: 2 };
    assert_eq!(check_open(Some(silent), true, true, true, "song.mod"), Err(SessionError::InvalidTarget(silent)));
    assert_eq!(check_open(None, false, true, true, "song.mod"), Err(SessionError::MissingCallback("create")));
    assert_eq!(check_open(None, true, false, true, "song.mod"), Err(SessionError::MissingCallback("open")));
    assert_eq!(check_open(None, true, true, false, "song.mod"), Err(SessionError::MissingCallback("read_data")));
    assert_eq!(check_open(None, true, true, true, "song\0.mod"), Err(SessionError::InvalidUrl));
}

#[test]
fn only_an_explicit_restart_request_asks_for_one() {
    assert_eq!(settings_update_outcome(None), RVSettingsUpdate::Default);
    assert_eq!(settings_update_outcome(Some(0)), RVSettingsUpdate::Default);
    assert_eq!(settings_update_outcome(Some(1)), RVSettingsUpdate::RequireRestart);
    assert_eq!(settings_update_outcome(Some(9)), RVSettingsUpdate::Default);
}

#[test]
fn the_hint_is_the_target_or_the_default() {
    assert_eq!(read_hint(None), stereo(48_000));
    let mono = StreamFormat { sample_rate: 22_050, channels: 1 };
    assert_eq!(read_hint(Some(mono)), mono);
    assert_eq!(chunk_frames(8, 2), 4);
    assert_eq!(chunk_frames(8, 0), 0);
}

#[test]
fn the_pipeline_follows_the_locked_format_and_the_target() {
    let lock = FormatLock { sample_format: RVAudioStreamFormat::S16, sample_rate: 44_100, channels: 1 };
    assert_eq!(
        select_pipeline(lock, None),
        Ok(Pipeline { convert: true, adapt: false, resample: false })
    );
    assert_eq!(
        select_pipeline(lock, Some(stereo(48_000))),
        Ok(Pipeline { convert: true, adapt: true, resample: true })
    );
}

#[test]
fn surplus_frames_ride_to_the_next_read_and_the_end_waits_for_them() {
    let mut state = PlaybackState::new(None);
    assert_eq!(state.begin_read(), (0, 0));
    assert!(state.wants_more(0, 2));
    assert_eq!(state.accept_reply(reply(3, 1, 48_000, RVReadStatus::Finished), 4), Ok(3));
    assert!(state.is_finished());
    assert!(!state.wants_more(3, 4));
    // Three frames against a budget of two: one waits at frame two.
    assert_eq!(state.end_read(3, 2), (2, false));
    assert_eq!(state.begin_read(), (1, 2));
    assert_eq!(state.end_read(1, 2), (1, true));
    assert_eq!(state.format(), StreamFormat { sample_rate: 48_000, channels: 1 });
    assert_eq!(state.out_channels(), 1);
}

#[test]
fn a_refused_reply_leaves_the_session_as_it_was() {
    let mut state = PlaybackState::new(None);
    assert_eq!(state.out_channels(), 2);
    assert!(state.accept_reply(reply(1, 3, 48_000, RVReadStatus::Success), 4).is_err());
    assert_eq!(state.native_format(), None);
    assert_eq!(state.pipeline(), None);
    assert!(!state.is_finished());
}

#[test]
fn an_accepted_reply_fits_the_prepared_buffers() {
    let plan = plan_buffers(4, None).expect("plan");
    let mut state = PlaybackState::new(None);
    let frames = state
        .accept_reply(reply(4, 2, 48_000, RVReadStatus::Success), 4)
        .expect("accepted");
    // Four stereo f32 frames: eight four-byte samples, in the raw and the output buffer.
    assert!(frames * 2 <= plan.raw_samples);
    assert!(frames * 2 * 4 <= 4 * plan.raw_samples);
    assert!(frames * 2 <= plan.output_samples);
    assert_eq!(advertised_bytes(4), 4 * plan.raw_samples);
}
