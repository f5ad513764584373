//! The metadata record: what a plugin reports about the song it opened.
//!
//! Plugins push tags, subsongs and names incrementally and never say when they are done,
//! so the host accumulates them into a record it owns and the consumer takes that record
//! once the call which produced it has returned.
//!
//! Everything a plugin pushes is hostile input: arbitrary bytes, unbounded counts. The flags
//! on the record describe what the plugin sent, not what survived, so a string is booked as
//! cut or invalid even when the push it belonged to was then dropped. Numbers arrive as
//! IEEE-754 bit patterns.

use vstd::prelude::*;

use crate::text::{check_utf8, lossy_text, utf8_error_len, utf8_lossy, valid_prefix_len};
use vstd::string::StringSliceAdditionalSpecFns;
use vstd::utf8::*;

verus! {

/// Longest tag key kept, in bytes.
pub const TAG_KEY_LIMIT: usize = 64;
/// Longest tag value kept, in bytes.
pub const TAG_VALUE_LIMIT: usize = 4096;
/// Most tags kept on one record.
pub const TAG_COUNT_LIMIT: usize = 32;
/// Most subsongs kept on one record.
pub const SUBSONG_COUNT_LIMIT: usize = 1024;
/// Longest subsong, sample or instrument name kept, in bytes.
pub const NAME_LIMIT: usize = 128;
/// Most sample names, and separately most instrument names, kept on one record.
pub const NAME_COUNT_LIMIT: usize = 256;
/// Longest url kept, in bytes.
pub const URL_LIMIT: usize = 65536;

/// A string a plugin pushed. `raw` holds the original bytes when they were not UTF-8, so a
/// consumer can still recover what the plugin meant.
#[derive(Debug, Clone, PartialEq, Eq)]
pub struct MetadataText {
    pub text: String,
    pub raw: Option<Vec<u8>>,
}

impl Default for MetadataText {
    fn default() -> (empty: Self)
        ensures
            empty.text@ == Seq::<char>::empty(),
            empty.raw is None,
    {
        MetadataText { text: String::new(), raw: None }
    }
}

/// What a tag carries: plugins push text and numbers through separate ABI calls. A
/// number is the bit pattern of an IEEE-754 double.
#[derive(Debug, Clone, PartialEq)]
pub enum MetadataValue {
    Text(MetadataText),
    Number(u64),
}

#[derive(Debug, Clone, PartialEq)]
pub struct MetadataTag {
    pub key: String,
    /// The key's original bytes, when they were not UTF-8.
    pub raw_key: Option<Vec<u8>>,
    pub value: MetadataValue,
}

#[derive(Debug, Clone, PartialEq)]
pub struct MetadataSubsong {
    pub index: u32,
    pub name: MetadataText,
    /// The bit pattern of an IEEE-754 single; `None` when the plugin reported no usable
    /// length.
    pub length_seconds: Option<u32>,
}

/// Whether the subsong list is the plugin's or the single one assumed for a plugin that
/// reported none.
#[derive(Debug, Clone, Copy, PartialEq, Eq, Structural)]
pub enum SubsongCount {
    Reported,
    Assumed,
}

impl Default for SubsongCount {
    fn default() -> (count: Self)
        ensures
            count == SubsongCount::Reported,
    {
        SubsongCount::Reported
    }
}

/// What the caps cut: one flag per kind of string, one per collection.
#[derive(Debug, Clone, Copy, PartialEq, Eq, Structural)]
pub struct MetadataTruncation {
    pub url: bool,
    pub tag_key: bool,
    pub tag_value: bool,
    /// A subsong, sample or instrument name was cut to [`NAME_LIMIT`].
    pub name: bool,
    pub tags: bool,
    pub subsongs: bool,
    pub samples: bool,
    pub instruments: bool,
}

/// Nothing was cut.
pub open spec fn nothing_cut() -> MetadataTruncation {
    MetadataTruncation {
        url: false,
        tag_key: false,
        tag_value: false,
        name: false,
        tags: false,
        subsongs: false,
        samples: false,
        instruments: false,
    }
}

impl Default for MetadataTruncation {
    fn default() -> (cut: Self)
        ensures
            cut == nothing_cut(),
    {
        MetadataTruncation {
            url: false,
            tag_key: false,
            tag_value: false,
            name: false,
            tags: false,
            subsongs: false,
            samples: false,
            instruments: false,
        }
    }
}

/// The store's identity for one record, minted by the store and never by a plugin.
#[derive(Debug, Clone, Copy, PartialEq, Eq, PartialOrd, Ord, Hash, Structural)]
pub struct RecordId(pub u64);

impl Default for RecordId {
    fn default() -> (id: Self)
        ensures
            id.0 == 0,
    {
        RecordId(0)
    }
}

/// Whether the bit pattern of an IEEE-754 double is a finite number.
pub open spec fn f64_bits_finite(bits: u64) -> bool {
    (bits >> 52u64) & 0x7ffu64 != 0x7ffu64
}

/// Whether the bit pattern of an IEEE-754 single is a finite number.
pub open spec fn f32_bits_finite(bits: u32) -> bool {
    (bits >> 23u32) & 0xffu32 != 0xffu32
}

/// Whether the bit pattern of an IEEE-754 single is a finite number above zero.
pub open spec fn f32_bits_positive(bits: u32) -> bool {
    f32_bits_finite(bits) && bits >> 31u32 == 0 && bits != 0
}

/// Whether a double, given by its bits, is finite.
pub fn double_is_finite(bits: u64) -> (finite: bool)
    ensures
        finite == f64_bits_finite(bits),
{
    (bits >> 52u64) & 0x7ffu64 != 0x7ffu64
}

/// Whether a single, given by its bits, is finite.
pub fn single_is_finite(bits: u32) -> (finite: bool)
    ensures
        finite == f32_bits_finite(bits),
{
    (bits >> 23u32) & 0xffu32 != 0xffu32
}

/// A plugin string read for the record: its text, whether its cap cut it, and whether it
/// was not UTF-8.
#[derive(Debug, Clone, PartialEq, Eq)]
pub struct Decoded {
    pub text: MetadataText,
    pub truncated: bool,
    pub invalid: bool,
}

/// The bytes `decode_text` decodes from `window`: at most `limit` of them, and where the
/// cap lands inside a character that could still have completed, only the bytes before
/// that character.
pub open spec fn kept_bytes(window: Seq<u8>, limit: usize) -> Seq<u8> {
    let capped = if window.len() > limit {
        window.subrange(0, limit as int)
    } else {
        window
    };
    if window.len() > limit && !valid_utf8(capped) && utf8_error_len(capped) is None {
        capped.subrange(0, valid_prefix_len(capped))
    } else {
        capped
    }
}

/// What `decode_text` makes of `window`: the kept bytes as text, replaced and carried raw
/// beside it when they are not UTF-8.
pub open spec fn decoded_as(window: Seq<u8>, limit: usize, decoded: Decoded) -> bool {
    let bytes = kept_bytes(window, limit);
    &&& decoded.truncated == (window.len() > limit)
    &&& decoded.invalid == !valid_utf8(bytes)
    &&& if valid_utf8(bytes) {
        decoded.text.text@ == decode_utf8(bytes) && decoded.text.raw is None
    } else {
        &&& decoded.text.text@ == utf8_lossy(bytes)
        &&& decoded.text.raw matches Some(raw) && raw@ == bytes
    }
}

/// Decodes a plugin string for the record. `window` holds the string's bytes before its
/// terminator, read through at most `limit + 1` of them, so that a string which exactly
/// fills its cap is not reported as cut. A cap landing inside a character drops the
/// partial one: that is the cut being reported, not a string worth calling invalid.
pub fn decode_text(window: &[u8], limit: usize) -> (decoded: Decoded)
    ensures
        decoded_as(window@, limit, decoded),
{
    let truncated = window.len() > limit;
    let mut bytes: &[u8] = if truncated {
        slice_prefix(window, limit)
    } else {
        window
    };
    if truncated {
        if let Err((valid_up_to, error_len)) = check_utf8(bytes) {
            if error_len.is_none() {
                bytes = slice_prefix(bytes, valid_up_to);
            }
        }
    }
    proof {
        assert(bytes@ == kept_bytes(window@, limit));
    }
    match check_utf8(bytes) {
        Ok(text) => {
            proof {
                decode_utf8_encode_utf8(bytes@);
                encode_utf8_decode_utf8(text@);
            }
            Decoded { text: MetadataText { text: text.to_owned(), raw: None }, truncated, invalid: false }
        },
        Err(_) => Decoded {
            text: MetadataText { text: lossy_text(bytes), raw: Some(vstd::slice::slice_to_vec(bytes)) },
            truncated,
            invalid: true,
        },
    }
}

/// `&bytes[..count]`.
fn slice_prefix(bytes: &[u8], count: usize) -> (prefix: &[u8])
    requires
        count <= bytes@.len(),
    ensures
        prefix@ == bytes@.subrange(0, count as int),
{
    vstd::slice::slice_subrange(bytes, 0, count)
}

/// Which cap a string pushed to the record answers to.
#[derive(Debug, Clone, Copy, PartialEq, Eq, Structural)]
pub enum TextKind {
    Url,
    TagKey,
    TagValue,
    Name,
}

/// Which list of names a push lands in.
#[derive(Debug, Clone, Copy, PartialEq, Eq, Structural)]
pub enum NameKind {
    Sample,
    Instrument,
}

/// `cut` with the flag for strings of `kind` raised.
pub open spec fn cut_text(cut: MetadataTruncation, kind: TextKind) -> MetadataTruncation {
    match kind {
        TextKind::Url => MetadataTruncation { url: true, ..cut },
        TextKind::TagKey => MetadataTruncation { tag_key: true, ..cut },
        TextKind::TagValue => MetadataTruncation { tag_value: true, ..cut },
        TextKind::Name => MetadataTruncation { name: true, ..cut },
    }
}

/// The record's flags after a string of `kind` was read.
pub open spec fn booked(record: TrackMetadata, decoded: Decoded, kind: TextKind) -> TrackMetadata {
    TrackMetadata {
        invalid_utf8: record.invalid_utf8 || decoded.invalid,
        truncation: if decoded.truncated {
            cut_text(record.truncation, kind)
        } else {
            record.truncation
        },
        ..record
    }
}

/// Everything the plugins reported about one song.
#[derive(Debug, Clone, PartialEq)]
pub struct TrackMetadata {
    pub id: RecordId,
    /// The url the plugin named, empty until it calls `create_url`.
    pub url: MetadataText,
    pub tags: Vec<MetadataTag>,
    pub subsongs: Vec<MetadataSubsong>,
    pub samples: Vec<MetadataText>,
    pub instruments: Vec<MetadataText>,
    pub subsong_count: SubsongCount,
    /// A string arrived that was not UTF-8; the replacement text carries `raw` beside it.
    pub invalid_utf8: bool,
    /// A tag arrived with no key, and was dropped: nothing could look it up.
    pub empty_tag_key: bool,
    /// A number arrived as NaN or an infinity (a tag value, or a subsong length) and was
    /// not used.
    pub non_finite_number: bool,
    /// A push named a record this store never minted. It landed here anyway (there is only
    /// ever one) but the plugin is not using the id `create_url` gave it.
    pub foreign_record_id: bool,
    pub truncation: MetadataTruncation,
}

/// A record that holds nothing yet, under `id`.
pub open spec fn is_empty_record(record: TrackMetadata, id: RecordId) -> bool {
    &&& record.id == id
    &&& record.url.text@ == Seq::<char>::empty()
    &&& record.url.raw is None
    &&& record.tags@.len() == 0
    &&& record.subsongs@.len() == 0
    &&& record.samples@.len() == 0
    &&& record.instruments@.len() == 0
    &&& record.subsong_count == SubsongCount::Reported
    &&& !record.invalid_utf8
    &&& !record.empty_tag_key
    &&& !record.non_finite_number
    &&& !record.foreign_record_id
    &&& record.truncation == nothing_cut()
}

/// A record's lists stay within their caps.
pub open spec fn within_caps(record: TrackMetadata) -> bool {
    &&& record.tags@.len() <= TAG_COUNT_LIMIT
    &&& record.subsongs@.len() <= SUBSONG_COUNT_LIMIT
    &&& record.samples@.len() <= NAME_COUNT_LIMIT
    &&& record.instruments@.len() <= NAME_COUNT_LIMIT
}

impl TrackMetadata {
    /// A record that holds nothing yet.
    pub fn new(id: RecordId) -> (record: Self)
        ensures
            within_caps(record),
            is_empty_record(record, id),
    {
        TrackMetadata {
            id,
            url: MetadataText::default(),
            tags: Vec::new(),
            subsongs: Vec::new(),
            samples: Vec::new(),
            instruments: Vec::new(),
            subsong_count: SubsongCount::default(),
            invalid_utf8: false,
            empty_tag_key: false,
            non_finite_number: false,
            foreign_record_id: false,
            truncation: MetadataTruncation::default(),
        }
    }

    /// Books a push under record id `id`: one this store did not mint is flagged.
    pub fn note_id(&mut self, id: u64)
        ensures
            *final(self) == (TrackMetadata {
                foreign_record_id: old(self).foreign_record_id || id != old(self).id.0,
                ..*old(self)
            }),
    {
        if id != self.id.0 {
            self.foreign_record_id = true;
        }
    }

    /// Books what reading a string of `kind` found (invalid UTF-8, a cut) and hands its
    /// text on.
    pub fn accept(&mut self, decoded: Decoded, kind: TextKind) -> (text: MetadataText)
        ensures
            *final(self) == booked(*old(self), decoded, kind),
            text == decoded.text,
    {
        if decoded.invalid {
            self.invalid_utf8 = true;
        }
        if decoded.truncated {
            match kind {
                TextKind::Url => self.truncation.url = true,
                TextKind::TagKey => self.truncation.tag_key = true,
                TextKind::TagValue => self.truncation.tag_value = true,
                TextKind::Name => self.truncation.name = true,
            }
        }
        decoded.text
    }

    /// The plugin names the song's url and gets the record's id. The first url named is
    /// the record's; later ones are booked but do not replace it.
    pub fn create_url(&mut self, url: Decoded) -> (id: u64)
        ensures
            id == old(self).id.0,
            *final(self) == (if old(self).url.text@.len() == 0 {
                TrackMetadata { url: url.text, ..booked(*old(self), url, TextKind::Url) }
            } else {
                booked(*old(self), url, TextKind::Url)
            }),
    {
        let text = self.accept(url, TextKind::Url);
        if self.url.text.as_str().is_empty() {
            self.url = text;
        }
        self.id.0
    }

    /// Adds a tag. A tag with no key cannot be looked up and a number that is not finite
    /// cannot be used; both are reported before either drops the tag, so a push that is
    /// wrong twice says so twice. A tag past the cap is dropped and the cut flagged.
    pub fn push_tag(&mut self, key: MetadataText, value: MetadataValue)
        ensures
            within_caps(*old(self)) ==> within_caps(*final(self)),
            ({
                let keyless = key.text@.len() == 0;
                let unusable = (value matches MetadataValue::Number(bits) && !f64_bits_finite(bits));
                let flagged = TrackMetadata {
                    empty_tag_key: old(self).empty_tag_key || keyless,
                    non_finite_number: old(self).non_finite_number || unusable,
                    ..*old(self)
                };
                *final(self) == if keyless || unusable {
                    flagged
                } else if old(self).tags@.len() >= TAG_COUNT_LIMIT {
                    TrackMetadata {
                        truncation: MetadataTruncation { tags: true, ..old(self).truncation },
                        ..flagged
                    }
                } else {
                    TrackMetadata {
                        tags: final(self).tags,
                        ..flagged
                    }
                }
            }),
            key.text@.len() > 0 && !(value matches MetadataValue::Number(bits) && !f64_bits_finite(bits))
                && old(self).tags@.len() < TAG_COUNT_LIMIT ==> final(self).tags@ == old(self).tags@.push(
                MetadataTag { key: key.text, raw_key: key.raw, value },
            ),
    {
        let keyless = key.text.as_str().is_empty();
        let unusable = match &value {
            MetadataValue::Number(bits) => !double_is_finite(*bits),
            MetadataValue::Text(_) => false,
        };
        if keyless {
            self.empty_tag_key = true;
        }
        if unusable {
            self.non_finite_number = true;
        }
        if keyless || unusable {
            return;
        }
        if self.tags.len() >= TAG_COUNT_LIMIT {
            self.truncation.tags = true;
            return;
        }
        self.tags.push(MetadataTag { key: key.text, raw_key: key.raw, value });
    }

    /// A text tag pushed under record id `id`.
    pub fn set_tag(&mut self, id: u64, key: Decoded, value: Decoded)
        ensures
            within_caps(*old(self)) ==> within_caps(*final(self)),
            ({
                let noted = TrackMetadata {
                    foreign_record_id: old(self).foreign_record_id || id != old(self).id.0,
                    ..*old(self)
                };
                let booked_both = booked(booked(noted, key, TextKind::TagKey), value, TextKind::TagValue);
                pushed_tag(booked_both, key.text, MetadataValue::Text(value.text), *final(self))
            }),
    {
        self.note_id(id);
        let key = self.accept(key, TextKind::TagKey);
        let value = self.accept(value, TextKind::TagValue);
        self.push_tag(key, MetadataValue::Text(value));
    }

    /// A numeric tag, given by its bits, pushed under record id `id`.
    pub fn set_tag_number(&mut self, id: u64, key: Decoded, bits: u64)
        ensures
            within_caps(*old(self)) ==> within_caps(*final(self)),
            ({
                let noted = TrackMetadata {
                    foreign_record_id: old(self).foreign_record_id || id != old(self).id.0,
                    ..*old(self)
                };
                pushed_tag(booked(noted, key, TextKind::TagKey), key.text, MetadataValue::Number(bits), *final(self))
            }),
    {
        self.note_id(id);
        let key = self.accept(key, TextKind::TagKey);
        self.push_tag(key, MetadataValue::Number(bits));
    }

    /// A subsong pushed under record id `parent_id`, its length given by the bits of a
    /// single. A length that is not finite is flagged, and one that is not above zero is
    /// not kept. A subsong past the cap is dropped and the cut flagged.
    pub fn add_subsong(&mut self, parent_id: u64, index: u32, name: Decoded, length_bits: u32)
        ensures
            within_caps(*old(self)) ==> within_caps(*final(self)),
            ({
                let noted = TrackMetadata {
                    foreign_record_id: old(self).foreign_record_id || parent_id != old(self).id.0,
                    ..*old(self)
                };
                let named = booked(noted, name, TextKind::Name);
                let flagged = TrackMetadata {
                    non_finite_number: named.non_finite_number || !f32_bits_finite(length_bits),
                    ..named
                };
                *final(self) == if old(self).subsongs@.len() >= SUBSONG_COUNT_LIMIT {
                    TrackMetadata {
                        truncation: MetadataTruncation { subsongs: true, ..flagged.truncation },
                        ..flagged
                    }
                } else {
                    TrackMetadata { subsongs: final(self).subsongs, ..flagged }
                }
            }),
            old(self).subsongs@.len() < SUBSONG_COUNT_LIMIT ==> final(self).subsongs@
                == old(self).subsongs@.push(
                MetadataSubsong {
                    index,
                    name: name.text,
                    length_seconds: if f32_bits_positive(length_bits) {
                        Some(length_bits)
                    } else {
                        None
                    },
                },
            ),
    {
        self.note_id(parent_id);
        let name = self.accept(name, TextKind::Name);
        let finite = single_is_finite(length_bits);
        if !finite {
            self.non_finite_number = true;
        }
        if self.subsongs.len() >= SUBSONG_COUNT_LIMIT {
            self.truncation.subsongs = true;
            return;
        }
        let length_seconds = if finite && length_bits >> 31u32 == 0 && length_bits != 0 {
            Some(length_bits)
        } else {
            None
        };
        self.subsongs.push(MetadataSubsong { index, name, length_seconds });
    }

    /// A sample or instrument name pushed under record id `parent_id`. A name past its
    /// list's cap is dropped and that list's cut flagged.
    #[verifier::rlimit(40)]
    pub fn add_name(&mut self, parent_id: u64, text: Decoded, kind: NameKind)
        ensures
            within_caps(*old(self)) ==> within_caps(*final(self)),
            ({
                let noted = TrackMetadata {
                    foreign_record_id: old(self).foreign_record_id || parent_id != old(self).id.0,
                    ..*old(self)
                };
                let named = booked(noted, text, TextKind::Name);
                *final(self) == match kind {
                    NameKind::Sample => if old(self).samples@.len() >= NAME_COUNT_LIMIT {
                        TrackMetadata {
                            truncation: MetadataTruncation { samples: true, ..named.truncation },
                            ..named
                        }
                    } else {
                        TrackMetadata { samples: final(self).samples, ..named }
                    },
                    NameKind::Instrument => if old(self).instruments@.len() >= NAME_COUNT_LIMIT {
                        TrackMetadata {
                            truncation: MetadataTruncation { instruments: true, ..named.truncation },
                            ..named
                        }
                    } else {
                        TrackMetadata { instruments: final(self).instruments, ..named }
                    },
                }
            }),
            kind == NameKind::Sample && old(self).samples@.len() < NAME_COUNT_LIMIT
                ==> final(self).samples@ == old(self).samples@.push(text.text),
            kind == NameKind::Instrument && old(self).instruments@.len() < NAME_COUNT_LIMIT
                ==> final(self).instruments@ == old(self).instruments@.push(text.text),
    {
        self.note_id(parent_id);
        let text = self.accept(text, TextKind::Name);
        match kind {
            NameKind::Sample => {
                if self.samples.len() >= NAME_COUNT_LIMIT {
                    self.truncation.samples = true;
                    return;
                }
                self.samples.push(text);
            },
            NameKind::Instrument => {
                if self.instruments.len() >= NAME_COUNT_LIMIT {
                    self.truncation.instruments = true;
                    return;
                }
                self.instruments.push(text);
            },
        }
    }

    /// The record as handed to its consumer: a plugin that named no subsong still has one
    /// to play.
    pub fn finish(self) -> (finished: Self)
        ensures
            finished == (if self.subsongs@.len() == 0 {
                TrackMetadata {
                    subsong_count: SubsongCount::Assumed,
                    subsongs: finished.subsongs,
                    ..self
                }
            } else {
                self
            }),
            self.subsongs@.len() == 0 ==> finished.subsongs@.len() == 1 && finished.subsongs@[0].index
                == 0 && finished.subsongs@[0].name.text@ == Seq::<char>::empty()
                && finished.subsongs@[0].name.raw is None && finished.subsongs@[0].length_seconds is None,
    {
        let mut record = self;
        if record.subsongs.len() == 0 {
            record.subsong_count = SubsongCount::Assumed;
            record.subsongs.push(
                MetadataSubsong { index: 0, name: MetadataText::default(), length_seconds: None },
            );
        }
        record
    }

    /// Takes what has accumulated, finished, and leaves an empty record under the next id.
    pub fn take(&mut self) -> (taken: Self)
        ensures
            is_empty_record(*final(self), RecordId(if old(self).id.0 == u64::MAX {
                0
            } else {
                (old(self).id.0 + 1) as u64
            })),
            old(self).subsongs@.len() > 0 ==> taken == *old(self),
            old(self).subsongs@.len() == 0 ==> taken == (TrackMetadata {
                subsong_count: SubsongCount::Assumed,
                subsongs: taken.subsongs,
                ..*old(self)
            }),
    {
        let next_id = self.id.0.wrapping_add(1);
        let mut record = TrackMetadata::new(RecordId(next_id));
        core::mem::swap(self, &mut record);
        record.finish()
    }
}

/// `after` is `record` once the tag `key` = `value` was pushed to it, as `push_tag` does.
pub open spec fn pushed_tag(record: TrackMetadata, key: MetadataText, value: MetadataValue, after: TrackMetadata) -> bool {
    let keyless = key.text@.len() == 0;
    let unusable = (value matches MetadataValue::Number(bits) && !f64_bits_finite(bits));
    let flagged = TrackMetadata {
        empty_tag_key: record.empty_tag_key || keyless,
        non_finite_number: record.non_finite_number || unusable,
        ..record
    };
    if keyless || unusable {
        after == flagged
    } else if record.tags@.len() >= TAG_COUNT_LIMIT {
        after == TrackMetadata {
            truncation: MetadataTruncation { tags: true, ..record.truncation },
            ..flagged
        }
    } else {
        after == TrackMetadata { tags: after.tags, ..flagged } && after.tags@ == record.tags@.push(
            MetadataTag { key: key.text, raw_key: key.raw, value },
        )
    }
}

} // verus!
