//! Bounded reads of the C strings plugins hand the host.
//!
//! A plugin string is read through at most `limit + 1` bytes: the extra byte admits a
//! value of exactly `limit` non-NUL bytes, and a string with no terminator in that window
//! is reported as over the limit. The bytes come here already read from the plugin's
//! memory; this module decides what they are.

use vstd::prelude::*;

use crate::text::{
    boundary_at_most, check_utf8, holds_nul, lemma_append_decoded, lemma_boundary_at_most, push_text,
    lemma_boundaries_of_concat, lemma_boundary_in_prefix, lemma_boundary_past_prefix,
    lemma_boundary_unique, lemma_encode_concat, lemma_valid_prefix_len,
    invalid_span, resume_at, utf8_lossy, valid_prefix_len,
};
use std::borrow::Cow;
use vstd::string::StringSliceAdditionalSpecFns;
use vstd::utf8::*;

verus! {

/// A plugin string did not terminate within its limit.
#[derive(Debug, Clone, Copy, PartialEq, Eq, Structural)]
pub struct StringLimitExceeded;

/// What a bounded read of a plugin string found.
#[derive(Debug, Clone, PartialEq, Eq)]
pub enum BoundedBytes {
    /// The pointer was null.
    Null,
    /// The bytes before the terminator.
    Bytes(Vec<u8>),
    /// No terminator within the limit; the first `limit` bytes.
    LimitExceeded(Vec<u8>),
}

/// Matches a NUL byte.
pub open spec fn is_nul() -> spec_fn(u8) -> bool {
    |b: u8| b == 0
}

/// The index of the first NUL in `window`, if it holds one.
pub open spec fn first_nul(window: Seq<u8>) -> Option<int> {
    crate::text::first_match(window, is_nul())
}

/// What a bounded read finds in the bytes at a string pointer (`None` for a null
/// pointer): the bytes before a terminator that lies within `limit` bytes, else the
/// first `limit` bytes as over-limit.
pub open spec fn bounded_verdict(window: Option<Seq<u8>>, limit: usize) -> Option<
    (bool, Seq<u8>),
> {
    match window {
        None => None,
        Some(w) => match first_nul(w) {
            Some(k) => if k <= limit {
                Some((true, w.subrange(0, k)))
            } else {
                Some((false, w.subrange(0, limit as int)))
            },
            None => Some((false, w.subrange(0, limit as int))),
        },
    }
}

/// The bytes at a string pointer, by value; `None` for a null pointer.
pub open spec fn window_view(window: Option<&[u8]>) -> Option<Seq<u8>> {
    match window {
        Some(w) => Some(w@),
        None => None,
    }
}

/// Reads a plugin string through at most `limit + 1` bytes of `window`, the readable
/// bytes at the string's pointer (`None` for a null pointer). The window must reach the
/// string's terminator or run past the limit.
pub fn bounded_bytes(window: Option<&[u8]>, limit: usize) -> (found: BoundedBytes)
    requires
        window matches Some(w) ==> (w@.len() > limit || holds_nul(w@)),
    ensures
        match bounded_verdict(window_view(window), limit) {
            None => found == BoundedBytes::Null,
            Some(v) => if v.0 {
                found matches BoundedBytes::Bytes(b) && b@ == v.1
            } else {
                found matches BoundedBytes::LimitExceeded(b) && b@ == v.1
            },
        },
{
    let bytes = match window {
        Some(w) => w,
        None => return BoundedBytes::Null,
    };
    let mut length: usize = 0;
    while length < bytes.len() && length <= limit
        invariant
            window_view(window) == Some(bytes@),
            0 <= length <= bytes@.len(),
            length <= limit + 1,
            forall|j: int| 0 <= j < length ==> bytes@[j] != 0,
        decreases bytes@.len() - length,
    {
        if bytes[length] == 0 {
            proof {
                crate::text::lemma_first_match_found(bytes@, is_nul(), length as int);
            }
            return BoundedBytes::Bytes(copy_prefix(bytes, length));
        }
        length = length + 1;
    }
    proof {
        crate::text::lemma_first_match_facts(bytes@, is_nul());
        if length == bytes@.len() {
            crate::text::lemma_first_match_absent(bytes@, is_nul());
        }
    }
    BoundedBytes::LimitExceeded(copy_prefix(bytes, limit))
}

/// The first `count` bytes of `bytes`, copied.
pub fn copy_prefix(bytes: &[u8], count: usize) -> (prefix: Vec<u8>)
    requires
        count <= bytes@.len(),
    ensures
        prefix@ == bytes@.subrange(0, count as int),
{
    let mut prefix: Vec<u8> = Vec::new();
    let mut i: usize = 0;
    while i < count
        invariant
            0 <= i <= count <= bytes@.len(),
            prefix@ == bytes@.subrange(0, i as int),
        decreases count - i,
    {
        prefix.push(bytes[i]);
        proof {
            assert(prefix@ =~= bytes@.subrange(0, i + 1));
        }
        i = i + 1;
    }
    prefix
}

/// The text kept of the valid UTF-8 `bytes` within `room` bytes: whole characters only,
/// as many as fit.
pub open spec fn fit_bytes(bytes: Seq<u8>, room: int) -> Seq<char> {
    decode_utf8(bytes.subrange(0, boundary_at_most(bytes, room)))
}

/// The longest prefix of `chars` whose encoding fits in `limit` bytes.
pub open spec fn fit_text(chars: Seq<char>, limit: int) -> Seq<char> {
    fit_bytes(encode_utf8(chars), limit)
}

/// U+FFFD takes three bytes, the last two of them continuation bytes.
proof fn lemma_replacement_encoding()
    ensures
        encode_utf8(seq!['\u{FFFD}']).len() == 3,
        is_continuation_byte(encode_utf8(seq!['\u{FFFD}'])[1]),
        is_continuation_byte(encode_utf8(seq!['\u{FFFD}'])[2]),
{
    let f = seq!['\u{FFFD}'];
    assert(f[0] as u32 == 0xFFFDu32);
    assert(f.drop_first() =~= Seq::<char>::empty());
    assert(encode_utf8(f.drop_first()) =~= Seq::<u8>::empty());
    assert(encode_utf8(f) == encode_scalar(f[0] as u32) + encode_utf8(f.drop_first()));
    assert(encode_utf8(f) =~= encode_scalar(0xFFFDu32));
    let v: u32 = 0xFFFD;
    assert(0x80u8 <= (0x80u8 | ((v >> 6u32) & 0x3Fu32) as u8) <= 0xBFu8) by (bit_vector)
        requires
            v == 0xFFFDu32,
    ;
    assert(0x80u8 <= (0x80u8 | (v & 0x3Fu32) as u8) <= 0xBFu8) by (bit_vector)
        requires
            v == 0xFFFDu32,
    ;
}

/// What decoding `rest` into `room` bytes makes: each valid stretch as far as it fits,
/// each invalid sequence as one U+FFFD (three bytes) where it fits, stopping at the first
/// piece that does not fit whole.
pub open spec fn lossy_capped(rest: Seq<u8>, room: int) -> Seq<char>
    decreases rest.len(),
{
    if rest.len() == 0 || room <= 0 {
        Seq::empty()
    } else if valid_utf8(rest) {
        fit_bytes(rest, room)
    } else {
        let k = valid_prefix_len(rest);
        let valid = rest.subrange(0, k);
        let piece = fit_bytes(valid, room);
        if boundary_at_most(valid, room) < k || room - k < 3 {
            piece
        } else {
            piece + seq!['\u{FFFD}'] + lossy_capped(
                rest.subrange(resume_at(rest), rest.len() as int),
                room - k - 3,
            )
        }
    }
}

/// The lossy text of invalid bytes: the valid prefix, one U+FFFD, then the lossy text of
/// what follows the invalid sequence, and its encoding laid out the same way.
proof fn lemma_lossy_layout(rest: Seq<u8>)
    requires
        !valid_utf8(rest),
    ensures
        0 <= valid_prefix_len(rest) < rest.len(),
        valid_utf8(rest.subrange(0, valid_prefix_len(rest))),
        encode_utf8(utf8_lossy(rest)) == rest.subrange(0, valid_prefix_len(rest)) + encode_utf8(
            seq!['\u{FFFD}'],
        ) + encode_utf8(utf8_lossy(rest.subrange(resume_at(rest), rest.len() as int))),
{
    lemma_valid_prefix_len(rest);
    let p = rest.subrange(0, valid_prefix_len(rest));
    let a = decode_utf8(p);
    let f = seq!['\u{FFFD}'];
    let tail = utf8_lossy(rest.subrange(resume_at(rest), rest.len() as int));
    decode_utf8_encode_utf8(p);
    lemma_encode_concat(a, f);
    lemma_encode_concat(a + f, tail);
}

/// Cutting within the first part of a valid concatenation cuts that part.
proof fn lemma_fit_within(p: Seq<u8>, z: Seq<u8>, room: int)
    requires
        valid_utf8(p),
        valid_utf8(z),
        room < p.len(),
    ensures
        fit_bytes(p + z, room) == fit_bytes(p, room),
{
    lemma_boundary_in_prefix(p, z, room);
    lemma_boundary_at_most(p, room);
    let b = boundary_at_most(p, room);
    assert((p + z).subrange(0, b) =~= p.subrange(0, b));
}

/// Room for all of `p` but not for the replacement after it keeps `p`.
proof fn lemma_fit_before_replacement(p: Seq<u8>, z: Seq<u8>, room: int)
    requires
        valid_utf8(p),
        valid_utf8(z),
        p.len() <= room < p.len() + 3,
    ensures
        fit_bytes(p + encode_utf8(seq!['\u{FFFD}']) + z, room) == decode_utf8(p),
{
    let e = encode_utf8(seq!['\u{FFFD}']);
    let k = p.len() as int;
    encode_utf8_valid_utf8(seq!['\u{FFFD}']);
    lemma_replacement_encoding();
    valid_utf8_concat(p, e);
    let pe = p + e;
    lemma_boundary_in_prefix(pe, z, room);
    is_char_boundary_start_end_of_seq(p);
    lemma_boundaries_of_concat(p, e, k);
    assert forall|j: int| k < j <= room && j <= pe.len() implies !is_char_boundary(pe, j) by {
        lemma_boundaries_of_concat(p, e, j);
        is_char_boundary_iff_not_is_continuation_byte(e, j - k);
    }
    lemma_boundary_unique(pe, room, k);
    assert((pe + z).subrange(0, k) =~= p);
}

/// Room past `p` and the replacement after it keeps both whole and cuts the rest in
/// what is left.
proof fn lemma_fit_past_replacement(p: Seq<u8>, z: Seq<u8>, room: int)
    requires
        valid_utf8(p),
        valid_utf8(z),
        p.len() + 3 <= room,
    ensures
        fit_bytes(p + encode_utf8(seq!['\u{FFFD}']) + z, room) == decode_utf8(p) + seq!['\u{FFFD}']
            + fit_bytes(z, room - p.len() - 3),
{
    let f = seq!['\u{FFFD}'];
    let e = encode_utf8(f);
    encode_utf8_valid_utf8(f);
    lemma_replacement_encoding();
    valid_utf8_concat(p, e);
    let pe = p + e;
    lemma_boundary_past_prefix(pe, z, room);
    lemma_boundary_at_most(z, room - p.len() - 3);
    let bz = boundary_at_most(z, room - p.len() - 3);
    valid_utf8_split(z, bz);
    let zc = z.subrange(0, bz);
    assert((pe + z).subrange(0, p.len() + 3 + bz) =~= p + e + zc);
    let a = decode_utf8(p);
    let w = a + f + decode_utf8(zc);
    decode_utf8_encode_utf8(p);
    decode_utf8_encode_utf8(zc);
    lemma_encode_concat(a, f);
    lemma_encode_concat(a + f, decode_utf8(zc));
    assert(encode_utf8(w) =~= p + e + zc);
    encode_utf8_decode_utf8(w);
}

/// Decoding with replacements into `room` bytes, piece by piece, keeps the longest
/// prefix of the whole lossy text that fits.
pub proof fn lemma_lossy_capped_fits(rest: Seq<u8>, room: int)
    ensures
        lossy_capped(rest, room) == fit_text(utf8_lossy(rest), room),
    decreases rest.len(),
{
    let x = encode_utf8(utf8_lossy(rest));
    if rest.len() == 0 {
        assert(utf8_lossy(rest) =~= Seq::<char>::empty());
        assert(x =~= Seq::<u8>::empty());
        assert(x.subrange(0, boundary_at_most(x, room)) =~= Seq::<u8>::empty());
    } else if room <= 0 {
        assert(x.subrange(0, boundary_at_most(x, room)) =~= Seq::<u8>::empty());
    } else if valid_utf8(rest) {
        decode_utf8_encode_utf8(rest);
    } else {
        lemma_lossy_layout(rest);
        let k = valid_prefix_len(rest);
        let p = rest.subrange(0, k);
        let e = encode_utf8(seq!['\u{FFFD}']);
        let r = rest.subrange(resume_at(rest), rest.len() as int);
        let z = encode_utf8(utf8_lossy(r));
        encode_utf8_valid_utf8(seq!['\u{FFFD}']);
        encode_utf8_valid_utf8(utf8_lossy(r));
        lemma_boundary_at_most(p, room);
        is_char_boundary_start_end_of_seq(p);
        if room >= k {
            lemma_boundary_unique(p, room, k);
            assert(p.subrange(0, k) =~= p);
        }
        if boundary_at_most(p, room) < k {
            valid_utf8_concat(e, z);
            assert(p + e + z =~= p + (e + z));
            lemma_fit_within(p, e + z, room);
        } else if room - k < 3 {
            lemma_fit_before_replacement(p, z, room);
        } else {
            lemma_lossy_capped_fits(r, room - k - 3);
            lemma_fit_past_replacement(p, z, room);
        }
    }
}

/// What `lossy_with_limit` makes of `bytes`: valid UTF-8 whole, anything else as the
/// longest prefix of its `String::from_utf8_lossy` text that fits in `limit` bytes.
pub open spec fn lossy_verdict(bytes: Seq<u8>, limit: int) -> Seq<char> {
    if valid_utf8(bytes) {
        decode_utf8(bytes)
    } else {
        fit_text(utf8_lossy(bytes), limit)
    }
}

/// Appends to `text` as much of `valid` as fits in `limit` bytes, cut at a character
/// boundary, and returns how many bytes of `valid` it took.
pub fn push_valid(text: &mut String, valid: &str, limit: usize) -> (taken: usize)
    requires
        encode_utf8(old(text)@).len() <= limit,
    ensures
        taken == boundary_at_most(valid.spec_bytes(), limit - encode_utf8(old(text)@).len()),
        final(text)@ == old(text)@ + decode_utf8(valid.spec_bytes().subrange(0, taken as int)),
{
    let ghost bytes = valid.spec_bytes();
    let ghost room = limit - encode_utf8(text@).len();
    proof {
        encode_utf8_valid_utf8(valid@);
        lemma_boundary_at_most(bytes, room);
    }
    let used = text.as_str().as_bytes().len();
    let available = valid.as_bytes().len();
    let mut length: usize = if available < limit - used {
        available
    } else {
        limit - used
    };
    proof {
        assert(used == encode_utf8(old(text)@).len());
        assert(length as int == if room < bytes.len() { room } else { bytes.len() as int });
        assert(boundary_at_most(bytes, room) == boundary_at_most(bytes, length as int));
    }
    while !valid.is_char_boundary(length)
        invariant
            valid_utf8(bytes),
            bytes == valid.spec_bytes(),
            0 <= length <= bytes.len(),
            length <= room,
            boundary_at_most(bytes, room) == boundary_at_most(bytes, length as int),
        decreases length,
    {
        proof {
            is_char_boundary_start_end_of_seq(bytes);
        }
        length = length - 1;
    }
    let (piece, _) = valid.split_at(length);
    proof {
        encode_utf8_decode_utf8(piece@);
    }
    push_text(text, piece);
    length
}

/// Decodes the bytes of a plugin string: valid UTF-8 borrowed as it stands, anything
/// else built with replacement characters, never past `limit` bytes of work or output.
#[verifier::rlimit(60)]
pub fn lossy_with_limit(bytes: &[u8], limit: usize) -> (text: Cow<'_, str>)
    ensures
        text@ == lossy_verdict(bytes@, limit as int),
        (text is Borrowed) == valid_utf8(bytes@),
        bytes@.len() <= limit ==> encode_utf8(text@).len() <= limit,
{
    if let Ok(valid) = check_utf8(bytes) {
        proof {
            decode_utf8_encode_utf8(bytes@);
            encode_utf8_decode_utf8(valid@);
        }
        return Cow::Borrowed(valid);
    }
    let mut text = String::new();
    let mut rest: &[u8] = bytes;
    proof {
        assert(encode_utf8(text@) =~= Seq::<u8>::empty());
        assert(text@ + lossy_capped(rest@, limit as int) =~= lossy_capped(bytes@, limit as int));
    }
    loop
        invariant_except_break
            text@ + lossy_capped(rest@, limit - encode_utf8(text@).len()) == lossy_capped(
                bytes@,
                limit as int,
            ),
        invariant
            encode_utf8(text@).len() <= limit,
        ensures
            encode_utf8(text@).len() <= limit,
            text@ == lossy_capped(bytes@, limit as int),
        decreases rest@.len(),
    {
        let ghost before = text@;
        let ghost room = limit - encode_utf8(text@).len();
        let used = text.as_str().as_bytes().len();
        if rest.len() == 0 || used >= limit {
            proof {
                assert(text@ + lossy_capped(rest@, room) =~= text@);
            }
            break;
        }
        match check_utf8(rest) {
            Ok(valid) => {
                let taken = push_valid(&mut text, valid, limit);
                proof {
                    lemma_boundary_at_most(rest@, room);
                    valid_utf8_split(rest@, taken as int);
                    lemma_append_decoded(before, rest@.subrange(0, taken as int));
                }
                break;
            },
            Err((valid_up_to, error_len)) => {
                let prefix = vstd::slice::slice_subrange(rest, 0, valid_up_to);
                let valid = match check_utf8(prefix) {
                    Ok(valid) => valid,
                    Err(_) => break,
                };
                let ghost piece_bytes = prefix@;
                let taken = push_valid(&mut text, valid, limit);
                proof {
                    lemma_boundary_at_most(piece_bytes, room);
                    valid_utf8_split(piece_bytes, taken as int);
                    lemma_append_decoded(before, piece_bytes.subrange(0, taken as int));
                }
                if taken < valid_up_to {
                    break;
                }
                let ghost after_piece = text@;
                proof {
                    assert(piece_bytes.subrange(0, taken as int) =~= piece_bytes);
                    assert(encode_utf8(text@).len() == used + valid_up_to);
                }
                if limit < 3 || used + valid_up_to > limit - 3 {
                    break;
                }
                let replacement = "\u{FFFD}";
                proof {
                    reveal_strlit("\u{FFFD}");
                    assert(replacement@.len() == 1);
                    assert(replacement@[0] == '\u{FFFD}');
                    assert(replacement@[0] as u32 == 0xFFFDu32);
                    assert(replacement@.drop_first() =~= Seq::<char>::empty());
                    assert(encode_utf8(replacement@.drop_first()) =~= Seq::<u8>::empty());
                    assert(encode_utf8(replacement@).len() == 3);
                    crate::text::lemma_encode_concat(after_piece, replacement@);
                }
                push_text(&mut text, replacement);
                let invalid = match error_len {
                    Some(n) => n,
                    None => rest.len() - valid_up_to,
                };
                let ghost old_rest = rest@;
                rest = vstd::slice::slice_subrange(rest, valid_up_to + invalid, rest.len());
                proof {
                    assert(text@ + lossy_capped(rest@, limit - encode_utf8(text@).len()) =~= before
                        + lossy_capped(old_rest, room));
                }
            },
        }
    }
    proof {
        lemma_lossy_capped_fits(bytes@, limit as int);
    }
    Cow::Owned(text)
}

/// What `plugin_str` answers for the bytes at a string pointer.
pub open spec fn plugin_str_verdict(window: Option<Seq<u8>>, limit: usize) -> Result<Option<Seq<char>>, StringLimitExceeded> {
    match bounded_verdict(window, limit) {
        None => Ok(None),
        Some(v) => if v.0 {
            Ok(Some(lossy_verdict(v.1, limit as int)))
        } else {
            Err(StringLimitExceeded)
        },
    }
}

/// Reads a plugin string through at most `limit + 1` bytes of `window` (see
/// [`bounded_bytes`]) and decodes it; invalid UTF-8 gets replacement characters.
pub fn plugin_str(window: Option<&[u8]>, limit: usize) -> (text: Result<Option<String>, StringLimitExceeded>)
    requires
        window matches Some(w) ==> (w@.len() > limit || holds_nul(w@)),
    ensures
        match (text, plugin_str_verdict(window_view(window), limit)) {
            (Ok(None), Ok(None)) => true,
            (Ok(Some(t)), Ok(Some(v))) => t@ == v && encode_utf8(t@).len() <= limit,
            (Err(e), Err(f)) => e == f,
            _ => false,
        },
{
    match bounded_bytes(window, limit) {
        BoundedBytes::Null => Ok(None),
        BoundedBytes::Bytes(bytes) => {
            proof {
                crate::text::lemma_first_match_facts(window_view(window).unwrap(), is_nul());
            }
            let text = match lossy_with_limit(bytes.as_slice(), limit) {
                Cow::Borrowed(valid) => valid.to_owned(),
                Cow::Owned(owned) => owned,
            };
            Ok(Some(text))
        },
        BoundedBytes::LimitExceeded(_) => Err(StringLimitExceeded),
    }
}

} // verus!
