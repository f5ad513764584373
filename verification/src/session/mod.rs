//! The decode session's rules: what a plugin's `read_data` answer may be, which
//! conversions the first chunk commits the session to, and what storage a frame budget
//! needs.
//!
//! The decode loop alternates plugin calls with these decisions: [`PlaybackState`] holds
//! what the session has learned and answers, for each `read_data` reply, whether the
//! session may go on.

pub mod convert;

use vstd::prelude::*;
use vstd::string::StringSliceAdditionalSpecFns;

use crate::ffi::audio_format::RVAudioStreamFormat;
use crate::ffi::playback::{RVReadInfo, RVReadStatus, RVSettingsUpdate};
use crate::text::{contains_nul, holds_nul};
use crate::session::convert::{
    adaptation_supported, sample_width, spec_adaptation_supported, spec_sample_width,
};

verus! {

/// The most channels a target format can ask for, bounded by the resampler's state.
pub const MAX_TARGET_CHANNELS: u32 = 8;

/// The most channels a plugin may report. Both C hosts accept mono and stereo only.
pub const MAX_NATIVE_CHANNELS: u32 = 2;

/// Largest source-to-target rate ratio, covering 384 kHz decoded into an 8 kHz target.
pub const MAX_SAMPLE_RATE_RATIO: u32 = 48;

/// Widest sample the ABI defines, in bytes.
pub const MAX_SAMPLE_WIDTH: usize = 4;

/// Keeps the advertised buffer capacity inside the `u32` the ABI carries it in:
/// `u32::MAX / (MAX_NATIVE_CHANNELS * MAX_SAMPLE_WIDTH)`.
pub const MAX_REQUEST_FRAMES: usize = 536_870_911;

/// Largest frame budget accepted by `Player::prepare`.
pub const MAX_PREPARED_FRAMES: u32 = 536_870_911;

/// Sample rate and channel count of a block of f32 audio.
#[derive(Debug, Clone, Copy, PartialEq, Eq, Structural)]
pub struct StreamFormat {
    pub sample_rate: u32,
    pub channels: u32,
}

/// What both C hosts ask for when they have no target format of their own.
pub open spec fn default_hint() -> StreamFormat {
    StreamFormat { sample_rate: 48_000, channels: 2 }
}

/// The format hint sent with every read: the target when there is one, else the
/// default both C hosts ask for.
pub fn read_hint(target: Option<StreamFormat>) -> (hint: StreamFormat)
    ensures
        hint == match target {
            Some(t) => t,
            None => default_hint(),
        },
{
    match target {
        Some(t) => t,
        None => StreamFormat { sample_rate: 48_000, channels: 2 },
    }
}

/// The format a plugin committed to with its first chunk and must keep.
#[derive(Debug, Clone, Copy, PartialEq, Eq, Structural)]
pub struct FormatLock {
    pub sample_format: RVAudioStreamFormat,
    pub sample_rate: u32,
    pub channels: u32,
}

/// A plugin broke the contract `read_data` is written against.
#[derive(Debug, Clone, Copy, PartialEq, Eq)]
pub enum AbiViolation {
    UnknownStatus(u32),
    RequestStatus,
    UnknownSampleFormat(u32),
    FrameCount { returned: u32, requested: u32 },
    ChannelCount(u32),
    ZeroSampleRate,
    SampleRateRatio { native: u32, target: u32, max_ratio: u32 },
    FormatChanged { expected: FormatLock, found: FormatLock },
    BufferOverrun { needed: usize, available: usize },
}

/// Why a session could not start or could not continue.
#[derive(Debug, Clone, Copy, PartialEq, Eq)]
pub enum SessionError {
    NotPlayback,
    MissingCallback(&'static str),
    InvalidUrl,
    CreateFailed,
    OpenFailed(i32),
    MetadataFailed(i32),
    InvalidTarget(StreamFormat),
    ChannelAdaptation { from: u32, to: u32 },
    Decode,
    Allocation(&'static str),
    InvalidFrameBudget { requested: u32, maximum: u32 },
    FrameBudgetExceeded { requested: u32, prepared: u32 },
    Abi(AbiViolation),
}

/// Bytes the plugin is told it may write for `frames` frames: the widest it may answer
/// with, stereo at four bytes a sample.
pub open spec fn spec_advertised_bytes(frames: int) -> int {
    frames * 8
}

/// Bytes the plugin is told it may write for `frames` frames. Both the promise and the
/// check that holds the plugin to it read it from here.
pub fn advertised_bytes(frames: usize) -> (bytes: usize)
    requires
        frames <= MAX_REQUEST_FRAMES,
    ensures
        bytes == spec_advertised_bytes(frames as int),
        bytes <= u32::MAX,
{
    frames * 8
}

/// The bytes a `read_data` reply claims to have written, saturating at `usize::MAX`.
pub open spec fn claimed_bytes(info: RVReadInfo, format: RVAudioStreamFormat) -> int {
    let exact = info.frame_count as int * info.format.channel_count as int
        * spec_sample_width(format) as int;
    if exact > usize::MAX as int {
        usize::MAX as int
    } else {
        exact
    }
}

/// The format a reply announces, once its sample format is known.
pub open spec fn announced_format(info: RVReadInfo, format: RVAudioStreamFormat) -> FormatLock {
    FormatLock {
        sample_format: format,
        sample_rate: info.format.sample_rate,
        channels: info.format.channel_count,
    }
}

/// What the session makes of one `read_data` reply to a request for `requested` frames:
/// the frames it carries, the format it announces and whether it ends the song, or why
/// the reply is refused. The checks run in a fixed order, so a reply wrong in several
/// ways is refused for the first.
pub open spec fn read_verdict(
    info: RVReadInfo,
    requested: usize,
    lock: Option<FormatLock>,
) -> Result<(usize, FormatLock, bool), SessionError> {
    if info.status > 3 {
        Err(SessionError::Abi(AbiViolation::UnknownStatus(info.status)))
    } else if info.status == RVReadStatus::Error.raw() {
        Err(SessionError::Decode)
    } else if info.status == RVReadStatus::DecodingRequest.raw() {
        Err(SessionError::Abi(AbiViolation::RequestStatus))
    } else if !(1 <= info.format.audio_format <= 5) {
        Err(SessionError::Abi(AbiViolation::UnknownSampleFormat(info.format.audio_format)))
    } else {
        let format = choose|f: RVAudioStreamFormat| f.raw() == info.format.audio_format;
        let needed = claimed_bytes(info, format);
        let available = spec_advertised_bytes(requested as int);
        let found = announced_format(info, format);
        if needed > available {
            Err(
                SessionError::Abi(
                    AbiViolation::BufferOverrun {
                        needed: needed as usize,
                        available: available as usize,
                    },
                ),
            )
        } else if info.frame_count > requested {
            Err(
                SessionError::Abi(
                    AbiViolation::FrameCount {
                        returned: info.frame_count,
                        requested: requested as u32,
                    },
                ),
            )
        } else if !(1 <= info.format.channel_count <= MAX_NATIVE_CHANNELS) {
            Err(SessionError::Abi(AbiViolation::ChannelCount(info.format.channel_count)))
        } else if info.format.sample_rate == 0 {
            Err(SessionError::Abi(AbiViolation::ZeroSampleRate))
        } else if lock is Some && lock->0 != found {
            Err(SessionError::Abi(AbiViolation::FormatChanged { expected: lock->0, found }))
        } else {
            Ok((info.frame_count as usize, found, info.status == RVReadStatus::Finished.raw()))
        }
    }
}

proof fn lemma_raw_format_unique(f: RVAudioStreamFormat, g: RVAudioStreamFormat)
    requires
        f.raw() == g.raw(),
    ensures
        f == g,
{
}

/// The one checked boundary for what `read_data` returns.
pub fn validate_read(
    info: RVReadInfo,
    requested: usize,
    lock: Option<FormatLock>,
) -> (verdict: Result<(usize, FormatLock, bool), SessionError>)
    requires
        requested <= MAX_REQUEST_FRAMES,
    ensures
        verdict == read_verdict(info, requested, lock),
{
    let finished = match RVReadStatus::from_raw(info.status) {
        Some(RVReadStatus::Success) => false,
        Some(RVReadStatus::Finished) => true,
        Some(RVReadStatus::Error) => return Err(SessionError::Decode),
        Some(RVReadStatus::DecodingRequest) => {
            return Err(SessionError::Abi(AbiViolation::RequestStatus))
        },
        None => return Err(SessionError::Abi(AbiViolation::UnknownStatus(info.status))),
    };
    let sample_format = match RVAudioStreamFormat::from_raw(info.format.audio_format) {
        Some(format) => format,
        None => {
            return Err(
                SessionError::Abi(AbiViolation::UnknownSampleFormat(info.format.audio_format)),
            )
        },
    };
    proof {
        let chosen = choose|f: RVAudioStreamFormat| f.raw() == info.format.audio_format;
        lemma_raw_format_unique(chosen, sample_format);
    }

    // Judged first, and against the bytes the plugin was actually handed: whether the
    // frame count fits the request is a narrower question than whether the audio it
    // claims fits the buffer.
    let width = sample_width(sample_format);
    let frames = info.frame_count as usize;
    let channels = info.format.channel_count as usize;
    let needed: usize = match frames.checked_mul(channels) {
        Some(samples) => match samples.checked_mul(width) {
            Some(bytes) => bytes,
            None => usize::MAX,
        },
        None => {
            proof {
                assert(frames as int * channels as int * width as int >= frames as int
                    * channels as int) by (nonlinear_arith)
                    requires
                        width >= 1,
                ;
            }
            usize::MAX
        },
    };
    let available = advertised_bytes(requested);
    if needed > available {
        return Err(SessionError::Abi(AbiViolation::BufferOverrun { needed, available }));
    }
    if info.frame_count as usize > requested {
        return Err(
            SessionError::Abi(
                AbiViolation::FrameCount {
                    returned: info.frame_count,
                    requested: requested as u32,
                },
            ),
        );
    }
    if !(1 <= info.format.channel_count && info.format.channel_count <= MAX_NATIVE_CHANNELS) {
        return Err(SessionError::Abi(AbiViolation::ChannelCount(info.format.channel_count)));
    }
    if info.format.sample_rate == 0 {
        return Err(SessionError::Abi(AbiViolation::ZeroSampleRate));
    }
    let format = FormatLock {
        sample_format,
        sample_rate: info.format.sample_rate,
        channels: info.format.channel_count,
    };
    if let Some(expected) = lock {
        if format != expected {
            return Err(
                SessionError::Abi(AbiViolation::FormatChanged { expected, found: format }),
            );
        }
    }
    Ok((info.frame_count as usize, format, finished))
}


/// Which conversions every chunk of a locked session goes through.
#[derive(Debug, Clone, Copy, PartialEq, Eq, Structural)]
pub struct Pipeline {
    /// The native samples are not f32 and need normalizing.
    pub convert: bool,
    /// The channel count differs from the target's.
    pub adapt: bool,
    /// The sample rate differs from the target's.
    pub resample: bool,
}

/// What locking `format` commits a session with `target` to, or why the pair cannot be
/// played: a rate ratio beyond [`MAX_SAMPLE_RATE_RATIO`] either way, or a channel pair
/// without a built-in adaptation.
pub open spec fn pipeline_verdict(
    format: FormatLock,
    target: Option<StreamFormat>,
) -> Result<Pipeline, SessionError> {
    let convert = format.sample_format != RVAudioStreamFormat::F32;
    match target {
        None => Ok(Pipeline { convert, adapt: false, resample: false }),
        Some(t) => {
            let native = format.sample_rate as int;
            let wanted = t.sample_rate as int;
            let ratio = MAX_SAMPLE_RATE_RATIO as int;
            if native > wanted * ratio || wanted > native * ratio {
                Err(
                    SessionError::Abi(
                        AbiViolation::SampleRateRatio {
                            native: format.sample_rate,
                            target: t.sample_rate,
                            max_ratio: MAX_SAMPLE_RATE_RATIO,
                        },
                    ),
                )
            } else if !spec_adaptation_supported(format.channels, t.channels) {
                Err(SessionError::ChannelAdaptation { from: format.channels, to: t.channels })
            } else {
                Ok(
                    Pipeline {
                        convert,
                        adapt: format.channels != t.channels,
                        resample: format.sample_rate != t.sample_rate,
                    },
                )
            }
        },
    }
}

/// A selected pipeline resamples exactly when a target is set and the plugin's rate
/// differs from it, whichever is higher; it adapts exactly when a target is set and the
/// channel counts differ; it converts exactly when the plugin's samples are not f32.
/// Without a target nothing but that conversion happens.
pub proof fn lemma_pipeline_follows_the_formats(format: FormatLock, target: Option<StreamFormat>)
    ensures
        pipeline_verdict(format, target) matches Ok(p) ==> {
            &&& p.resample == (target matches Some(t) && format.sample_rate != t.sample_rate)
            &&& p.adapt == (target matches Some(t) && format.channels != t.channels)
            &&& p.convert == (format.sample_format != RVAudioStreamFormat::F32)
        },
        target is None ==> pipeline_verdict(format, target) is Ok,
{
}

/// A target the plugin already plays needs no adaptation and no resampling; rates
/// within the ratio limit both ways with an adaptable channel pair are always accepted,
/// and a rate past that limit either way is refused as an ABI violation.
pub proof fn lemma_pipeline_acceptance(format: FormatLock, t: StreamFormat)
    ensures
        (format.sample_rate == t.sample_rate && format.channels == t.channels) ==> pipeline_verdict(
            format,
            Some(t),
        ) == Ok::<Pipeline, SessionError>(
            Pipeline {
                convert: format.sample_format != RVAudioStreamFormat::F32,
                adapt: false,
                resample: false,
            },
        ),
        (format.sample_rate <= t.sample_rate * MAX_SAMPLE_RATE_RATIO && t.sample_rate
            <= format.sample_rate * MAX_SAMPLE_RATE_RATIO && (format.channels == t.channels
            || format.channels == 1 || (format.channels == 2 && t.channels == 1)))
            ==> pipeline_verdict(format, Some(t)) is Ok,
        (format.sample_rate > t.sample_rate * MAX_SAMPLE_RATE_RATIO || t.sample_rate
            > format.sample_rate * MAX_SAMPLE_RATE_RATIO) ==> pipeline_verdict(format, Some(t))
            matches Err(SessionError::Abi(AbiViolation::SampleRateRatio { .. })),
{
}

/// Chooses the conversions the first chunk's format commits the session to.
pub fn select_pipeline(format: FormatLock, target: Option<StreamFormat>) -> (verdict: Result<
    Pipeline,
    SessionError,
>)
    ensures
        verdict == pipeline_verdict(format, target),
{
    let convert = format.sample_format != RVAudioStreamFormat::F32;
    match target {
        None => Ok(Pipeline { convert, adapt: false, resample: false }),
        Some(target) => {
            let native_rate = format.sample_rate as u64;
            let target_rate = target.sample_rate as u64;
            let ratio = MAX_SAMPLE_RATE_RATIO as u64;
            if native_rate > target_rate * ratio || target_rate > native_rate * ratio {
                return Err(
                    SessionError::Abi(
                        AbiViolation::SampleRateRatio {
                            native: format.sample_rate,
                            target: target.sample_rate,
                            max_ratio: MAX_SAMPLE_RATE_RATIO,
                        },
                    ),
                );
            }
            if !adaptation_supported(format.channels, target.channels) {
                return Err(
                    SessionError::ChannelAdaptation { from: format.channels, to: target.channels },
                );
            }
            Ok(
                Pipeline {
                    convert,
                    adapt: format.channels != target.channels,
                    resample: format.sample_rate != target.sample_rate,
                },
            )
        },
    }
}

/// What an open session has learned from its plugin, and the frames a read produced past
/// its budget, waiting at `carry_at` in the output buffer for the next read.
pub struct PlaybackState {
    target: Option<StreamFormat>,
    lock: Option<FormatLock>,
    pipeline: Option<Pipeline>,
    finished: bool,
    carry: usize,
    carry_at: usize,
}

/// The format delivered samples come in: the target when there is one, else the locked
/// native format, zeroed until the first chunk locks it.
pub open spec fn delivered_format(
    target: Option<StreamFormat>,
    lock: Option<FormatLock>,
) -> StreamFormat {
    match target {
        Some(t) => t,
        None => match lock {
            Some(l) => StreamFormat { sample_rate: l.sample_rate, channels: l.channels },
            None => StreamFormat { sample_rate: 0, channels: 0 },
        },
    }
}

impl PlaybackState {
    /// The target format chunks are delivered in, if the session was opened with one.
    pub closed spec fn spec_target(&self) -> Option<StreamFormat> {
        self.target
    }

    /// The format the first chunk locked.
    pub closed spec fn spec_lock(&self) -> Option<FormatLock> {
        self.lock
    }

    /// The conversions the lock committed the session to.
    pub closed spec fn spec_pipeline(&self) -> Option<Pipeline> {
        self.pipeline
    }

    /// Whether the plugin has reported the end of the song.
    pub closed spec fn spec_finished(&self) -> bool {
        self.finished
    }

    /// Frames produced past the last read's budget.
    pub closed spec fn spec_carry(&self) -> usize {
        self.carry
    }

    /// Where in the output buffer, in frames, the carried frames start.
    pub closed spec fn spec_carry_at(&self) -> usize {
        self.carry_at
    }

    /// A pipeline exists exactly when a format is locked, and is the one the lock chose.
    pub closed spec fn well_formed(&self) -> bool {
        &&& self.pipeline is Some <==> self.lock is Some
        &&& self.lock is Some ==> pipeline_verdict(self.lock->0, self.target) == Ok::<
            Pipeline,
            SessionError,
        >(self.pipeline->0)
    }

    /// A session that has read nothing yet.
    pub fn new(target: Option<StreamFormat>) -> (state: Self)
        ensures
            state.well_formed(),
            state.spec_target() == target,
            state.spec_lock() is None,
            state.spec_pipeline() is None,
            !state.spec_finished(),
            state.spec_carry() == 0,
            state.spec_carry_at() == 0,
    {
        PlaybackState { target, lock: None, pipeline: None, finished: false, carry: 0, carry_at: 0 }
    }

    pub fn target(&self) -> (t: Option<StreamFormat>)
        ensures
            t == self.spec_target(),
    {
        self.target
    }

    /// What the plugin locked to, once it has produced a chunk.
    pub fn native_format(&self) -> (lock: Option<FormatLock>)
        ensures
            lock == self.spec_lock(),
    {
        self.lock
    }

    pub fn pipeline(&self) -> (pipeline: Option<Pipeline>)
        ensures
            pipeline == self.spec_pipeline(),
    {
        self.pipeline
    }

    pub fn is_finished(&self) -> (finished: bool)
        ensures
            finished == self.spec_finished(),
    {
        self.finished
    }

    /// Rate and channel count of delivered samples. Zeroed until the first chunk when no
    /// target was set: the plugin has not said what it plays yet.
    pub fn format(&self) -> (format: StreamFormat)
        ensures
            format == delivered_format(self.spec_target(), self.spec_lock()),
    {
        match self.target {
            Some(target) => target,
            None => match self.lock {
                Some(lock) => StreamFormat { sample_rate: lock.sample_rate, channels: lock.channels },
                None => StreamFormat { sample_rate: 0, channels: 0 },
            },
        }
    }

    /// Channels the delivered samples carry; the widest a plugin may report until the
    /// first chunk says otherwise.
    pub fn out_channels(&self) -> (channels: usize)
        ensures
            channels == (if delivered_format(self.spec_target(), self.spec_lock()).channels == 0 {
                MAX_NATIVE_CHANNELS as usize
            } else {
                delivered_format(self.spec_target(), self.spec_lock()).channels as usize
            }),
            channels >= 1,
    {
        let format = self.format();
        if format.channels == 0 {
            MAX_NATIVE_CHANNELS as usize
        } else {
            format.channels as usize
        }
    }

    /// Starts a read: hands back the frames the last read carried, with where they wait
    /// in the output buffer, and clears the carry. The caller moves those frames to the
    /// front of the buffer and counts them as already produced.
    pub fn begin_read(&mut self) -> (carried: (usize, usize))
        ensures
            carried == (old(self).spec_carry(), old(self).spec_carry_at()),
            final(self).spec_carry() == 0,
            final(self).spec_carry_at() == old(self).spec_carry_at(),
            final(self).spec_target() == old(self).spec_target(),
            final(self).spec_lock() == old(self).spec_lock(),
            final(self).spec_pipeline() == old(self).spec_pipeline(),
            final(self).spec_finished() == old(self).spec_finished(),
            old(self).well_formed() ==> final(self).well_formed(),
    {
        let carried = (self.carry, self.carry_at);
        self.carry = 0;
        carried
    }

    /// Whether the read loop asks the plugin for more: the budget is not yet met and the
    /// song has not ended.
    pub fn wants_more(&self, produced: usize, budget: usize) -> (more: bool)
        ensures
            more == (produced < budget && !self.spec_finished()),
    {
        produced < budget && !self.finished
    }

    /// Takes one `read_data` reply to a request for `requested` frames. On success the
    /// first reply locks its format and selects the pipeline, and a finishing reply ends
    /// the song; the frames it carries come back. A refused reply leaves the state as it
    /// was.
    pub fn accept_reply(&mut self, info: RVReadInfo, requested: usize) -> (returned: Result<
        usize,
        SessionError,
    >)
        requires
            old(self).well_formed(),
            requested <= MAX_REQUEST_FRAMES,
        ensures
            final(self).well_formed(),
            final(self).spec_target() == old(self).spec_target(),
            final(self).spec_carry() == old(self).spec_carry(),
            final(self).spec_carry_at() == old(self).spec_carry_at(),
            match read_verdict(info, requested, old(self).spec_lock()) {
                Err(e) => returned == Err::<usize, SessionError>(e) && *final(self) == *old(self),
                Ok((frames, found, finishes)) => match old(self).spec_lock() {
                    Some(_) => {
                        &&& returned == Ok::<usize, SessionError>(frames)
                        &&& final(self).spec_lock() == old(self).spec_lock()
                        &&& final(self).spec_pipeline() == old(self).spec_pipeline()
                        &&& final(self).spec_finished() == (old(self).spec_finished()
                            || finishes)
                    },
                    None => match pipeline_verdict(found, old(self).spec_target()) {
                        Err(e) => returned == Err::<usize, SessionError>(e) && *final(self)
                            == *old(self),
                        Ok(pipeline) => {
                            &&& returned == Ok::<usize, SessionError>(frames)
                            &&& final(self).spec_lock() == Some(found)
                            &&& final(self).spec_pipeline() == Some(pipeline)
                            &&& final(self).spec_finished() == (old(self).spec_finished()
                                || finishes)
                        },
                    },
                },
            },
    {
        let (returned, format, finished) = match validate_read(info, requested, self.lock) {
            Ok(accepted) => accepted,
            Err(error) => return Err(error),
        };
        if self.lock.is_none() {
            let pipeline = match select_pipeline(format, self.target) {
                Ok(pipeline) => pipeline,
                Err(error) => return Err(error),
            };
            self.pipeline = Some(pipeline);
            self.lock = Some(format);
        }
        self.finished = self.finished || finished;
        Ok(returned)
    }

    /// Ends a read that produced `produced` frames against `budget`: frames past the
    /// budget ride to the next read instead of being dropped. Returns the frames the chunk
    /// delivers and whether it is the song's last.
    pub fn end_read(&mut self, produced: usize, budget: usize) -> (chunk: (usize, bool))
        requires
            old(self).spec_carry() == 0,
        ensures
            chunk.0 == if produced > budget {
                budget
            } else {
                produced
            },
            final(self).spec_carry() == if produced > budget {
                (produced - budget) as usize
            } else {
                0
            },
            produced > budget ==> final(self).spec_carry_at() == budget,
            produced <= budget ==> final(self).spec_carry_at() == old(self).spec_carry_at(),
            chunk.1 == (old(self).spec_finished() && final(self).spec_carry() == 0),
            final(self).spec_target() == old(self).spec_target(),
            final(self).spec_lock() == old(self).spec_lock(),
            final(self).spec_pipeline() == old(self).spec_pipeline(),
            final(self).spec_finished() == old(self).spec_finished(),
            old(self).well_formed() ==> final(self).well_formed(),
    {
        let mut delivered = produced;
        if produced > budget {
            self.carry = produced - budget;
            self.carry_at = budget;
            delivered = budget;
        }
        (delivered, self.finished && self.carry == 0)
    }
}


/// `count * multiplier + extra`, or `None` where it would not fit a `usize`.
pub open spec fn spec_checked_len(count: int, multiplier: int, extra: int) -> Option<usize> {
    if count * multiplier > usize::MAX as int || count * multiplier + extra > usize::MAX as int {
        None
    } else {
        Some((count * multiplier + extra) as usize)
    }
}

/// `count * multiplier + extra`, failing as an allocation of the `name` buffer where the
/// length does not fit a `usize`.
pub fn checked_len(count: usize, multiplier: usize, extra: usize, name: &'static str) -> (len: Result<
    usize,
    SessionError,
>)
    ensures
        len == match spec_checked_len(count as int, multiplier as int, extra as int) {
            Some(n) => Ok::<usize, SessionError>(n),
            None => Err(SessionError::Allocation(name)),
        },
{
    match count.checked_mul(multiplier) {
        Some(product) => match product.checked_add(extra) {
            Some(total) => Ok(total),
            None => Err(SessionError::Allocation(name)),
        },
        None => Err(SessionError::Allocation(name)),
    }
}

/// `Vec::try_reserve_exact`: asks for room for `additional` more elements; the contents
/// stay as they are whether or not the allocator grants it. Asking for no more room
/// always succeeds, as the capacity already suffices; otherwise whether it does depends
/// on the machine and is not stated.
#[verifier::external_body]
pub(crate) fn try_reserve_exact<T>(buffer: &mut Vec<T>, additional: usize) -> (reserved: bool)
    ensures
        final(buffer)@ == old(buffer)@,
        additional == 0 ==> reserved,
{
    buffer.try_reserve_exact(additional).is_ok()
}

/// Lengthens `buffer` to `len` elements of `zero`, never shortening it; fails as an
/// allocation of the `name` buffer where the room cannot be reserved, leaving it as it was.
pub fn grow<T: Copy>(buffer: &mut Vec<T>, len: usize, zero: T, name: &'static str) -> (grown: Result<
    (),
    SessionError,
>)
    ensures
        old(buffer)@.len() >= len ==> grown is Ok && final(buffer)@ == old(buffer)@,
        old(buffer)@.len() < len ==> match grown {
            Ok(()) => {
                &&& final(buffer)@.len() == len
                &&& final(buffer)@.subrange(0, old(buffer)@.len() as int) == old(buffer)@
                &&& forall|i: int| old(buffer)@.len() <= i < len ==> final(buffer)@[i] == zero
            },
            Err(e) => e == SessionError::Allocation(name) && final(buffer)@ == old(buffer)@,
        },
{
    if buffer.len() < len {
        if !try_reserve_exact(buffer, len - buffer.len()) {
            return Err(SessionError::Allocation(name));
        }
        let ghost before = buffer@;
        let mut filled: usize = buffer.len();
        while filled < len
            invariant
                before.len() <= filled <= len,
                buffer@.len() == filled,
                buffer@.subrange(0, before.len() as int) == before,
                forall|i: int| before.len() <= i < filled ==> buffer@[i] == zero,
            decreases len - filled,
        {
            buffer.push(zero);
            proof {
                assert(buffer@.subrange(0, before.len() as int) =~= before);
            }
            filled = filled + 1;
        }
    }
    Ok(())
}

/// Storage reserved once at the preparation seam, in samples.
#[derive(Debug, Clone, Copy, PartialEq, Eq, Structural)]
pub struct BufferPlan {
    /// What the plugin writes into, in four-byte slots.
    pub raw_samples: usize,
    /// The normalized work area at the front of the scratch buffer.
    pub decoded_samples: usize,
    /// Normalized plus channel-adapted work areas.
    pub scratch_samples: usize,
    /// What delivered chunks are cut from.
    pub output_samples: usize,
}

/// The source frames one read may ask for under a budget of `max_frames`: with a target
/// the resampler may ask for the whole rate ratio plus its two frames of slack, capped at
/// what the ABI can advertise.
pub open spec fn planned_source_frames(max_frames: usize, target: Option<StreamFormat>) -> Option<
    usize,
> {
    if target is Some {
        match spec_checked_len(max_frames as int, MAX_SAMPLE_RATE_RATIO as int, 2) {
            Some(n) => Some(if n > MAX_REQUEST_FRAMES {
                MAX_REQUEST_FRAMES
            } else {
                n
            }),
            None => None,
        }
    } else {
        Some(max_frames)
    }
}

/// The storage a budget of `max_frames` needs, or the buffer whose length would not fit a
/// `usize`.
///
/// Native delivery converts straight into the output. A target may need normalization
/// and adaptation before resampling, but the ABI reveals that only on the first read, so
/// its scratch storage is reserved for both. The first pull can expand by the whole rate
/// ratio, and later pulls carry two source frames of slack that can each expand by it too.
pub open spec fn buffer_plan_verdict(max_frames: usize, target: Option<StreamFormat>) -> Result<
    BufferPlan,
    SessionError,
> {
    let ratio = MAX_SAMPLE_RATE_RATIO as int;
    match planned_source_frames(max_frames, target) {
        None => Err(SessionError::Allocation("raw")),
        Some(source) => match spec_checked_len(source as int, MAX_NATIVE_CHANNELS as int, 0) {
            None => Err(SessionError::Allocation("raw")),
            Some(raw) => {
                let decoded: usize = if target is Some {
                    raw
                } else {
                    0
                };
                let adapted = match target {
                    Some(t) => spec_checked_len(source as int, t.channels as int, 0),
                    None => Some(0usize),
                };
                match adapted {
                    None => Err(SessionError::Allocation("adapted")),
                    Some(adapted) => if decoded + adapted > usize::MAX {
                        Err(SessionError::Allocation("scratch"))
                    } else {
                        let output_frames = if target is Some {
                            spec_checked_len(max_frames as int, ratio + 1, ratio * 2 + 1)
                        } else {
                            Some(max_frames)
                        };
                        let out_channels: int = match target {
                            Some(t) => t.channels as int,
                            None => MAX_NATIVE_CHANNELS as int,
                        };
                        match output_frames {
                            None => Err(SessionError::Allocation("output")),
                            Some(frames) => match spec_checked_len(frames as int, out_channels, 0) {
                                None => Err(SessionError::Allocation("output")),
                                Some(output) => Ok(
                                    BufferPlan {
                                        raw_samples: raw,
                                        decoded_samples: decoded,
                                        scratch_samples: (decoded + adapted) as usize,
                                        output_samples: output,
                                    },
                                ),
                            },
                        }
                    },
                }
            },
        },
    }
}

/// Sizes every host buffer reads up to `max_frames` frames need.
pub fn plan_buffers(max_frames: usize, target: Option<StreamFormat>) -> (plan: Result<
    BufferPlan,
    SessionError,
>)
    ensures
        plan == buffer_plan_verdict(max_frames, target),
{
    let native = MAX_NATIVE_CHANNELS as usize;
    let ratio = MAX_SAMPLE_RATE_RATIO as usize;
    let source_frames = if target.is_some() {
        let scaled = checked_len(max_frames, ratio, 2, "raw")?;
        if scaled > MAX_REQUEST_FRAMES {
            MAX_REQUEST_FRAMES
        } else {
            scaled
        }
    } else {
        max_frames
    };
    let raw_samples = checked_len(source_frames, native, 0, "raw")?;
    let decoded_samples = if target.is_some() {
        raw_samples
    } else {
        0
    };
    let adapted_samples = match target {
        Some(target) => checked_len(source_frames, target.channels as usize, 0, "adapted")?,
        None => 0,
    };
    let scratch_samples = match decoded_samples.checked_add(adapted_samples) {
        Some(total) => total,
        None => return Err(SessionError::Allocation("scratch")),
    };
    let output_frames = if target.is_some() {
        checked_len(max_frames, ratio + 1, ratio * 2 + 1, "output")?
    } else {
        max_frames
    };
    let out_channels = match target {
        Some(target) => target.channels as usize,
        None => native,
    };
    let output_samples = checked_len(output_frames, out_channels, 0, "output")?;
    Ok(BufferPlan { raw_samples, decoded_samples, scratch_samples, output_samples })
}

/// A reply the session accepts fits the raw buffer prepared for it: whatever a read asks
/// for within the prepared source budget, the bytes the reply claims, and the samples it
/// carries, fit the raw storage the plan reserved.
pub proof fn lemma_accepted_reply_fits_raw_buffer(
    max_frames: usize,
    target: Option<StreamFormat>,
    request: usize,
    info: RVReadInfo,
    lock: Option<FormatLock>,
)
    requires
        buffer_plan_verdict(max_frames, target) is Ok,
        planned_source_frames(max_frames, target) matches Some(source) && request <= source,
        read_verdict(info, request, lock) is Ok,
    ensures
        ({
            let plan = buffer_plan_verdict(max_frames, target)->Ok_0;
            let (frames, found, _) = read_verdict(info, request, lock)->Ok_0;
            &&& frames * found.channels * spec_sample_width(found.sample_format) <= 4 * plan.raw_samples
            &&& frames * found.channels <= plan.raw_samples
        }),
{
    let plan = buffer_plan_verdict(max_frames, target)->Ok_0;
    let source = planned_source_frames(max_frames, target)->0;
    let (frames, found, _) = read_verdict(info, request, lock)->Ok_0;
    let format = choose|f: RVAudioStreamFormat| f.raw() == info.format.audio_format;
    assert(found.sample_format == format);
    let width = spec_sample_width(format) as int;
    let c = found.channels as int;
    let f = frames as int;
    assert(plan.raw_samples == source * 2);
    assert(1 <= width <= 4);
    assert(f * c * width <= request * 8 && f * c <= request * 2) by (nonlinear_arith)
        requires
            0 <= f <= request,
            1 <= c <= 2,
            1 <= width <= 4,
    ;
}

/// Without a target, a read's frames go straight to the output: a read that stays within
/// the prepared budget, asking for no more than it still lacks, fits the output buffer.
pub proof fn lemma_native_read_fits_output(
    max_frames: usize,
    produced: usize,
    request: usize,
    info: RVReadInfo,
    lock: Option<FormatLock>,
)
    requires
        buffer_plan_verdict(max_frames, None) is Ok,
        produced + request <= max_frames,
        read_verdict(info, request, lock) is Ok,
    ensures
        ({
            let plan = buffer_plan_verdict(max_frames, None)->Ok_0;
            let (frames, found, _) = read_verdict(info, request, lock)->Ok_0;
            (produced + frames) * MAX_NATIVE_CHANNELS <= plan.output_samples
                && found.channels <= MAX_NATIVE_CHANNELS
        }),
{
    let plan = buffer_plan_verdict(max_frames, None)->Ok_0;
    let (frames, found, _) = read_verdict(info, request, lock)->Ok_0;
    assert(plan.output_samples == max_frames * 2);
    assert(frames <= request);
}

/// Refuses a preparation budget the ABI cannot advertise.
pub fn check_frame_budget(max_frames: u32) -> (verdict: Result<(), SessionError>)
    ensures
        verdict == if max_frames > MAX_PREPARED_FRAMES {
            Err(
                SessionError::InvalidFrameBudget {
                    requested: max_frames,
                    maximum: MAX_PREPARED_FRAMES,
                },
            )
        } else {
            Ok(())
        },
{
    if max_frames > MAX_PREPARED_FRAMES {
        return Err(
            SessionError::InvalidFrameBudget { requested: max_frames, maximum: MAX_PREPARED_FRAMES },
        );
    }
    Ok(())
}

/// Refuses a read above the prepared budget before the plugin is called.
pub fn check_read_budget(frames: u32, prepared: u32) -> (verdict: Result<(), SessionError>)
    ensures
        verdict == if frames > prepared {
            Err(SessionError::FrameBudgetExceeded { requested: frames, prepared })
        } else {
            Ok(())
        },
{
    if frames > prepared {
        return Err(SessionError::FrameBudgetExceeded { requested: frames, prepared });
    }
    Ok(())
}

/// Whether a target format can be played at all.
pub open spec fn playable_target(target: StreamFormat) -> bool {
    target.sample_rate != 0 && target.channels != 0 && target.channels <= MAX_TARGET_CHANNELS
}

/// Why opening a song would fail before any plugin instance is created, checked in the
/// order the session checks it: an unplayable target, each missing lifecycle callback,
/// then a url that cannot be a C string.
pub open spec fn open_verdict(
    target: Option<StreamFormat>,
    has_create: bool,
    has_open: bool,
    has_read_data: bool,
    url: Seq<u8>,
) -> Result<(), SessionError> {
    if target is Some && !playable_target(target->0) {
        Err(SessionError::InvalidTarget(target->0))
    } else if !has_create {
        Err(SessionError::MissingCallback("create"))
    } else if !has_open {
        Err(SessionError::MissingCallback("open"))
    } else if !has_read_data {
        Err(SessionError::MissingCallback("read_data"))
    } else if holds_nul(url) {
        Err(SessionError::InvalidUrl)
    } else {
        Ok(())
    }
}

/// Checks what opening a song needs before the plugin is asked to create an instance, so
/// a refused open leaves nothing to destroy.
pub fn check_open(
    target: Option<StreamFormat>,
    has_create: bool,
    has_open: bool,
    has_read_data: bool,
    url: &str,
) -> (verdict: Result<(), SessionError>)
    ensures
        verdict == open_verdict(target, has_create, has_open, has_read_data, url.spec_bytes()),
{
    if let Some(target) = target {
        if target.sample_rate == 0 || target.channels == 0 || target.channels > MAX_TARGET_CHANNELS {
            return Err(SessionError::InvalidTarget(target));
        }
    }
    if !has_create {
        return Err(SessionError::MissingCallback("create"));
    }
    if !has_open {
        return Err(SessionError::MissingCallback("open"));
    }
    if !has_read_data {
        return Err(SessionError::MissingCallback("read_data"));
    }
    if contains_nul(url.as_bytes()) {
        return Err(SessionError::InvalidUrl);
    }
    Ok(())
}

/// What a `settings_updated` answer means: anything but `RequireRestart`, including a
/// plugin without the callback (`None`), means the change took effect live.
pub fn settings_update_outcome(answer: Option<u32>) -> (update: RVSettingsUpdate)
    ensures
        update == if answer == Some(1u32) {
            RVSettingsUpdate::RequireRestart
        } else {
            RVSettingsUpdate::Default
        },
{
    match answer {
        Some(raw) => match RVSettingsUpdate::from_raw(raw) {
            Some(RVSettingsUpdate::RequireRestart) => RVSettingsUpdate::RequireRestart,
            _ => RVSettingsUpdate::Default,
        },
        None => RVSettingsUpdate::Default,
    }
}

/// Whole frames in `samples` interleaved samples of `channels` channels; none when the
/// format has no channels yet.
pub fn chunk_frames(samples: usize, channels: u32) -> (frames: usize)
    ensures
        frames == if channels == 0 {
            0
        } else {
            samples / channels as usize
        },
{
    if channels == 0 {
        0
    } else {
        samples / channels as usize
    }
}

} // verus!
