//! Small facts about text and sequences the rest of the crate leans on: comparing strings
//! by content, and the first element of a sequence that satisfies a predicate.

use vstd::prelude::*;
use vstd::string::StringSliceAdditionalSpecFns;
use vstd::string::StrSliceExecFns;
use vstd::utf8::*;

verus! {

/// The index of the first element of `s` that satisfies `p`, if any does.
pub open spec fn first_match<A>(s: Seq<A>, p: spec_fn(A) -> bool) -> Option<int> {
    if exists|i: int| 0 <= i < s.len() && p(s[i]) && (forall|j: int| 0 <= j < i ==> !p(s[j])) {
        Some(
            choose|i: int| 0 <= i < s.len() && p(s[i]) && (forall|j: int| 0 <= j < i ==> !p(s[j])),
        )
    } else {
        None
    }
}

/// An element that satisfies `p` with none before it is the first match.
pub proof fn lemma_first_match_found<A>(s: Seq<A>, p: spec_fn(A) -> bool, i: int)
    requires
        0 <= i < s.len(),
        p(s[i]),
        forall|j: int| 0 <= j < i ==> !p(s[j]),
    ensures
        first_match(s, p) == Some(i),
{
    let k = choose|k: int| 0 <= k < s.len() && p(s[k]) && (forall|j: int| 0 <= j < k ==> !p(s[j]));
    assert(0 <= i < s.len() && p(s[i]) && (forall|j: int| 0 <= j < i ==> !p(s[j])));
    if k < i {
        assert(!p(s[k]));
    }
    if i < k {
        assert(!p(s[i]));
    }
}

/// When no element satisfies `p` there is no first match.
pub proof fn lemma_first_match_absent<A>(s: Seq<A>, p: spec_fn(A) -> bool)
    requires
        forall|j: int| 0 <= j < s.len() ==> !p(s[j]),
    ensures
        first_match(s, p) is None,
{
}

/// What a first match says about the sequence.
pub proof fn lemma_first_match_facts<A>(s: Seq<A>, p: spec_fn(A) -> bool)
    ensures
        first_match(s, p) matches Some(i) ==> 0 <= i < s.len() && p(s[i]) && (forall|j: int|
            0 <= j < i ==> !p(s[j])),
{
}

/// Compares two strings by content.
pub fn same_text(a: &str, b: &str) -> (same: bool)
    ensures
        same == (a@ == b@),
{
    let x = a.as_bytes();
    let y = b.as_bytes();
    proof {
        broadcast use encode_utf8_decode_utf8;

        assert(x@ == encode_utf8(a@));
        assert(y@ == encode_utf8(b@));
    }
    if x.len() != y.len() {
        proof {
            if a@ == b@ {
                assert(x@ == y@);
            }
        }
        return false;
    }
    let mut index: usize = 0;
    while index < x.len()
        invariant
            x.len() == y.len(),
            x@ == encode_utf8(a@),
            y@ == encode_utf8(b@),
            0 <= index <= x.len(),
            forall|i: int| 0 <= i < index ==> x@[i] == y@[i],
        decreases x.len() - index,
    {
        if x[index] != y[index] {
            proof {
                if a@ == b@ {
                    assert(x@ == y@);
                }
            }
            return false;
        }
        index = index + 1;
    }
    proof {
        broadcast use encode_utf8_decode_utf8;

        assert(x@ =~= y@);
        assert(decode_utf8(encode_utf8(a@)) == a@);
        assert(decode_utf8(encode_utf8(b@)) == b@);
    }
    true
}

/// Whether `bytes` holds a NUL.
pub open spec fn holds_nul(bytes: Seq<u8>) -> bool {
    exists|i: int| 0 <= i < bytes.len() && bytes[i] == 0
}

/// Whether `bytes` holds a NUL, which no C string can carry.
pub fn contains_nul(bytes: &[u8]) -> (found: bool)
    ensures
        found == holds_nul(bytes@),
{
    let mut index: usize = 0;
    while index < bytes.len()
        invariant
            0 <= index <= bytes.len(),
            forall|i: int| 0 <= i < index ==> bytes@[i] != 0,
        decreases bytes.len() - index,
    {
        if bytes[index] == 0 {
            return true;
        }
        index = index + 1;
    }
    false
}

/// The text `s` stands for once every leading `.` is dropped.
pub open spec fn drop_leading_dots(s: Seq<char>) -> Seq<char>
    decreases s.len(),
{
    if s.len() > 0 && s[0] == '.' {
        drop_leading_dots(s.drop_first())
    } else {
        s
    }
}

/// `s` with every leading `.` removed.
pub(crate) fn trim_leading_dots(s: &str) -> (trimmed: &str)
    ensures
        trimmed@ == drop_leading_dots(s@),
{
    let len = s.unicode_len();
    proof {
        assert(s@.subrange(0, len as int) =~= s@);
    }
    let mut k: usize = 0;
    while k < len && s.get_char(k) == '.'
        invariant
            k <= len,
            len == s@.len(),
            drop_leading_dots(s@.subrange(k as int, len as int)) == drop_leading_dots(s@),
        decreases len - k,
    {
        proof {
            let rest = s@.subrange(k as int, len as int);
            assert(rest.drop_first() =~= s@.subrange(k + 1, len as int));
        }
        k = k + 1;
    }
    s.substring_char(k, len)
}

/// The Unicode lowercase mapping `str::to_lowercase` applies to `s`.
pub uninterp spec fn lowercase(s: Seq<char>) -> Seq<char>;

/// The ASCII lowercase of `c`: `A`..=`Z` become `a`..=`z`, every other character stays.
pub open spec fn ascii_lower(c: char) -> char {
    if 'A' <= c <= 'Z' {
        ((c as u32) + 32) as char
    } else {
        c
    }
}

/// `str::to_lowercase`: the lowercase equivalent of `s`, by the Unicode `Lowercase`
/// property. Its result is named [`lowercase`]. Stated beyond the name is what its
/// documentation gives of plain text: empty text stays empty, and ASCII text has its
/// letters lowered one for one (`"HELLO"` becomes `"hello"`).
#[verifier::external_body]
pub(crate) fn to_lowercase(s: &str) -> (lower: String)
    ensures
        lower@ == lowercase(s@),
        s@.len() == 0 ==> lower@.len() == 0,
        is_ascii_chars(s@) ==> lower@ == s@.map_values(|c: char| ascii_lower(c)),
{
    s.to_lowercase()
}


/// The length of the longest prefix of `bytes` that is valid UTF-8.
pub open spec fn valid_prefix_len(bytes: Seq<u8>) -> int {
    choose|k: int|
        0 <= k <= bytes.len() && valid_utf8(bytes.subrange(0, k)) && forall|j: int|
            k < j <= bytes.len() ==> !valid_utf8(#[trigger] bytes.subrange(0, j))
}

/// The length `Utf8Error::error_len` reports for the first invalid sequence in `bytes`:
/// `None` where the input ends inside a sequence that could still complete.
pub uninterp spec fn utf8_error_len(bytes: Seq<u8>) -> Option<usize>;

/// `core::str::from_utf8`: the bytes as text where they are valid UTF-8; otherwise the
/// length of the longest valid prefix (`Utf8Error::valid_up_to`, the largest index up to
/// which the input decodes) and the length of the invalid sequence after it (`Utf8Error::error_len`, named [`utf8_error_len`]). Of that
/// length only what its documentation gives is stated: a sequence that starts at the
/// valid prefix's end and stays within the input, or, for `None`, an input that ends
/// within three bytes of the valid prefix.
#[verifier::external_body]
pub(crate) fn check_utf8(bytes: &[u8]) -> (checked: Result<&str, (usize, Option<usize>)>)
    ensures
        match checked {
            Ok(text) => valid_utf8(bytes@) && text.spec_bytes() == bytes@,
            Err((valid_up_to, error_len)) => {
                &&& !valid_utf8(bytes@)
                &&& valid_utf8(bytes@.subrange(0, valid_up_to as int))
                &&& valid_up_to as int == valid_prefix_len(bytes@)
                &&& valid_up_to < bytes@.len()
                &&& error_len == utf8_error_len(bytes@)
                &&& match error_len {
                    Some(n) => 1 <= n && valid_up_to + n <= bytes@.len(),
                    None => bytes@.len() - valid_up_to <= 3,
                }
            },
        },
{
    match core::str::from_utf8(bytes) {
        Ok(text) => Ok(text),
        Err(error) => Err((error.valid_up_to(), error.error_len())),
    }
}

/// Encoding a concatenation concatenates the encodings.
pub proof fn lemma_encode_concat(a: Seq<char>, b: Seq<char>)
    ensures
        encode_utf8(a + b) == encode_utf8(a) + encode_utf8(b),
    decreases a.len(),
{
    if a.len() == 0 {
        assert(a + b =~= b);
        assert(encode_utf8(a) + encode_utf8(b) =~= encode_utf8(b));
    } else {
        lemma_encode_concat(a.drop_first(), b);
        assert((a + b).drop_first() =~= a.drop_first() + b);
        assert((a + b)[0] == a[0]);
        assert(encode_utf8(a) + encode_utf8(b) =~= encode_scalar(a[0] as u32) + (encode_utf8(
            a.drop_first(),
        ) + encode_utf8(b)));
    }
}

/// Appending decoded valid bytes to a text appends those bytes to its encoding.
pub proof fn lemma_append_decoded(text: Seq<char>, bytes: Seq<u8>)
    requires
        valid_utf8(bytes),
    ensures
        encode_utf8(text + decode_utf8(bytes)) == encode_utf8(text) + bytes,
{
    lemma_encode_concat(text, decode_utf8(bytes));
    decode_utf8_encode_utf8(bytes);
}

/// How far past the valid prefix of `bytes` decoding resumes: the length of the invalid
/// sequence there, or the rest of the input where it ends inside a sequence.
pub open spec fn invalid_span(bytes: Seq<u8>) -> int {
    match utf8_error_len(bytes) {
        Some(n) => n as int,
        None => bytes.len() - valid_prefix_len(bytes),
    }
}

/// Where decoding resumes after the first invalid sequence of `bytes` (kept within the
/// input; `core::str::from_utf8` always reports a position there).
pub open spec fn resume_at(bytes: Seq<u8>) -> int {
    let next = valid_prefix_len(bytes) + invalid_span(bytes);
    if 0 < next <= bytes.len() {
        next
    } else {
        bytes.len() as int
    }
}

/// The text `String::from_utf8_lossy` makes of `bytes`: the valid stretches decoded, and
/// each invalid sequence, as `Utf8Error` delimits it, replaced by one U+FFFD.
pub open spec fn utf8_lossy(bytes: Seq<u8>) -> Seq<char>
    decreases bytes.len(),
{
    if valid_utf8(bytes) {
        decode_utf8(bytes)
    } else {
        decode_utf8(bytes.subrange(0, valid_prefix_len(bytes))) + seq!['\u{FFFD}'] + utf8_lossy(
            bytes.subrange(resume_at(bytes), bytes.len() as int),
        )
    }
}

/// Some prefix no longer than `n` is valid UTF-8 while no longer one up to `n` is.
proof fn lemma_longest_valid_prefix(bytes: Seq<u8>, n: int)
    requires
        0 <= n <= bytes.len(),
    ensures
        exists|k: int|
            0 <= k <= n && valid_utf8(bytes.subrange(0, k)) && forall|j: int|
                k < j <= n ==> !valid_utf8(#[trigger] bytes.subrange(0, j)),
    decreases n,
{
    if n == 0 {
        assert(bytes.subrange(0, 0) =~= Seq::<u8>::empty());
        assert(valid_utf8(bytes.subrange(0, 0)));
        assert(forall|j: int| 0 < j <= 0 ==> !valid_utf8(#[trigger] bytes.subrange(0, j)));
    } else if valid_utf8(bytes.subrange(0, n)) {
        assert(forall|j: int| n < j <= n ==> !valid_utf8(#[trigger] bytes.subrange(0, j)));
    } else {
        lemma_longest_valid_prefix(bytes, n - 1);
        let k = choose|k: int|
            0 <= k <= n - 1 && valid_utf8(bytes.subrange(0, k)) && forall|j: int|
                k < j <= n - 1 ==> !valid_utf8(#[trigger] bytes.subrange(0, j));
        assert(forall|j: int| k < j <= n ==> !valid_utf8(#[trigger] bytes.subrange(0, j)));
    }
}

/// The longest valid prefix is within the bytes and valid, and short of their end when
/// they are not valid as a whole.
pub proof fn lemma_valid_prefix_len(bytes: Seq<u8>)
    ensures
        0 <= valid_prefix_len(bytes) <= bytes.len(),
        valid_utf8(bytes.subrange(0, valid_prefix_len(bytes))),
        !valid_utf8(bytes) ==> valid_prefix_len(bytes) < bytes.len(),
{
    lemma_longest_valid_prefix(bytes, bytes.len() as int);
    if valid_prefix_len(bytes) == bytes.len() {
        assert(bytes.subrange(0, bytes.len() as int) =~= bytes);
    }
}

/// Where two valid encodings meet, the character boundaries of the whole are those of
/// each part.
pub proof fn lemma_boundaries_of_concat(q: Seq<u8>, z: Seq<u8>, j: int)
    requires
        valid_utf8(q),
        valid_utf8(z),
        0 <= j <= q.len() + z.len(),
    ensures
        valid_utf8(q + z),
        is_char_boundary(q + z, j) == if j <= q.len() {
            is_char_boundary(q, j)
        } else {
            is_char_boundary(z, j - q.len())
        },
{
    let x = q + z;
    valid_utf8_concat(q, z);
    is_char_boundary_start_end_of_seq(q);
    is_char_boundary_start_end_of_seq(z);
    is_char_boundary_start_end_of_seq(x);
    if j < x.len() {
        is_char_boundary_iff_not_is_continuation_byte(x, j);
        if j < q.len() {
            is_char_boundary_iff_not_is_continuation_byte(q, j);
        } else {
            is_char_boundary_iff_not_is_continuation_byte(z, j - q.len());
        }
    } else if j == q.len() {
        assert(z.len() == 0);
    }
}

/// A boundary within `room` that no later boundary within `room` follows is the one
/// [`boundary_at_most`] finds.
pub proof fn lemma_boundary_unique(bytes: Seq<u8>, room: int, c: int)
    requires
        valid_utf8(bytes),
        0 <= c <= bytes.len(),
        c <= room,
        is_char_boundary(bytes, c),
        forall|j: int| c < j <= room && j <= bytes.len() ==> !is_char_boundary(bytes, j),
    ensures
        boundary_at_most(bytes, room) == c,
{
    lemma_boundary_at_most(bytes, room);
    let b = boundary_at_most(bytes, room);
    if b < c {
        assert(!is_char_boundary(bytes, c));
    } else if b > c {
        assert(!is_char_boundary(bytes, b));
    }
}

/// Cutting a valid concatenation within its first part cuts the first part.
pub proof fn lemma_boundary_in_prefix(q: Seq<u8>, z: Seq<u8>, room: int)
    requires
        valid_utf8(q),
        valid_utf8(z),
        room <= q.len(),
    ensures
        boundary_at_most(q + z, room) == boundary_at_most(q, room),
{
    valid_utf8_concat(q, z);
    if room > 0 {
        lemma_boundary_at_most(q, room);
        let c = boundary_at_most(q, room);
        lemma_boundaries_of_concat(q, z, c);
        assert forall|j: int| c < j <= room && j <= (q + z).len() implies !is_char_boundary(q + z, j) by {
            lemma_boundaries_of_concat(q, z, j);
        }
        lemma_boundary_unique(q + z, room, c);
    }
}

/// Cutting a valid concatenation past its first part keeps the first part whole and cuts
/// the second within what is left.
pub proof fn lemma_boundary_past_prefix(q: Seq<u8>, z: Seq<u8>, room: int)
    requires
        valid_utf8(q),
        valid_utf8(z),
        q.len() <= room,
    ensures
        boundary_at_most(q + z, room) == q.len() + boundary_at_most(z, room - q.len()),
{
    valid_utf8_concat(q, z);
    lemma_boundary_at_most(z, room - q.len());
    let bz = boundary_at_most(z, room - q.len());
    let c = q.len() + bz;
    lemma_boundaries_of_concat(q, z, c);
    is_char_boundary_start_end_of_seq(q);
    assert forall|j: int| c < j <= room && j <= (q + z).len() implies !is_char_boundary(q + z, j) by {
        lemma_boundaries_of_concat(q, z, j);
    }
    lemma_boundary_unique(q + z, room, c);
}

/// `String::from_utf8_lossy`, owned: the text [`utf8_lossy`] states, valid stretches as
/// they are and each invalid sequence `Utf8Error` delimits replaced by U+FFFD.
#[verifier::external_body]
pub(crate) fn lossy_text(bytes: &[u8]) -> (text: String)
    ensures
        text@ == utf8_lossy(bytes@),
{
    String::from_utf8_lossy(bytes).into_owned()
}

/// `String::push_str`: appends `piece` to `text`.
#[verifier::external_body]
pub(crate) fn push_text(text: &mut String, piece: &str)
    ensures
        final(text)@ == old(text)@ + piece@,
{
    text.push_str(piece);
}

/// The largest character boundary of valid UTF-8 `bytes` no further in than `room` bytes.
pub open spec fn boundary_at_most(bytes: Seq<u8>, room: int) -> int
    decreases room,
{
    let top = if room < bytes.len() {
        room
    } else {
        bytes.len() as int
    };
    if top <= 0 {
        0
    } else if is_char_boundary(bytes, top) {
        top
    } else {
        boundary_at_most(bytes, top - 1)
    }
}

/// A boundary found that way is a character boundary, within `room` and the bytes, and
/// no later boundary is.
pub proof fn lemma_boundary_at_most(bytes: Seq<u8>, room: int)
    requires
        valid_utf8(bytes),
    ensures
        0 <= boundary_at_most(bytes, room) <= bytes.len(),
        room >= 0 ==> boundary_at_most(bytes, room) <= room,
        is_char_boundary(bytes, boundary_at_most(bytes, room)),
        forall|j: int|
            boundary_at_most(bytes, room) < j <= room && j <= bytes.len() ==> !is_char_boundary(
                bytes,
                j,
            ),
    decreases room,
{
    is_char_boundary_start_end_of_seq(bytes);
    let top = if room < bytes.len() {
        room
    } else {
        bytes.len() as int
    };
    if top > 0 && !is_char_boundary(bytes, top) {
        lemma_boundary_at_most(bytes, top - 1);
    }
}

/// Two sequences whose elements answer two predicates alike have their first matches at
/// the same index.
pub proof fn lemma_first_match_same<A, B>(
    s: Seq<A>,
    p: spec_fn(A) -> bool,
    t: Seq<B>,
    q: spec_fn(B) -> bool,
)
    requires
        s.len() == t.len(),
        forall|i: int| 0 <= i < s.len() ==> p(s[i]) == q(t[i]),
    ensures
        first_match(s, p) == first_match(t, q),
{
    lemma_first_match_facts(s, p);
    lemma_first_match_facts(t, q);
    match first_match(s, p) {
        Some(i) => {
            lemma_first_match_found(t, q, i);
        },
        None => {
            match first_match(t, q) {
                Some(i) => {
                    lemma_first_match_found(s, p, i);
                },
                None => {},
            }
        },
    }
}

/// A match at `q` means some match is the first.
pub proof fn lemma_least_match<A>(s: Seq<A>, p: spec_fn(A) -> bool, q: int)
    requires
        0 <= q < s.len(),
        p(s[q]),
    ensures
        first_match(s, p) is Some,
    decreases q,
{
    if exists|j: int| 0 <= j < q && p(s[j]) {
        let j = choose|j: int| 0 <= j < q && p(s[j]);
        lemma_least_match(s, p, j);
    } else {
        lemma_first_match_found(s, p, q);
    }
}

/// No first match means no match at all.
pub proof fn lemma_first_match_none<A>(s: Seq<A>, p: spec_fn(A) -> bool)
    requires
        first_match(s, p) is None,
    ensures
        forall|j: int| 0 <= j < s.len() ==> !p(s[j]),
{
    assert forall|j: int| 0 <= j < s.len() implies !p(s[j]) by {
        if p(s[j]) {
            lemma_least_match(s, p, j);
        }
    }
}


/// A match in a prefix is the match of the whole sequence when nothing after it matches
/// first.
pub proof fn lemma_first_match_push<A>(s: Seq<A>, p: spec_fn(A) -> bool, x: A)
    ensures
        first_match(s.push(x), p) == match first_match(s, p) {
            Some(i) => Some(i),
            None => if p(x) {
                Some(s.len() as int)
            } else {
                None
            },
        },
{
    lemma_first_match_facts(s, p);
    let t = s.push(x);
    assert(forall|j: int| 0 <= j < s.len() ==> t[j] == s[j]);
    match first_match(s, p) {
        Some(i) => {
            lemma_first_match_found(t, p, i);
        },
        None => {
            lemma_first_match_none(s, p);
            if p(x) {
                lemma_first_match_found(t, p, s.len() as int);
            } else {
                assert forall|j: int| 0 <= j < t.len() implies !p(t[j]) by {
                    if j < s.len() {
                        assert(t[j] == s[j]);
                    }
                }
                lemma_first_match_absent(t, p);
            }
        },
    }
}

/// Matches a string whose text is `text`.
pub open spec fn equals_text(text: Seq<char>) -> spec_fn(String) -> bool {
    |s: String| s@ == text
}

/// Byte-wise lexicographic order, the order `str` compares in.
pub open spec fn bytes_le(a: Seq<u8>, b: Seq<u8>) -> bool
    decreases a.len(),
{
    if a.len() == 0 {
        true
    } else if b.len() == 0 {
        false
    } else if a[0] < b[0] {
        true
    } else if a[0] > b[0] {
        false
    } else {
        bytes_le(a.drop_first(), b.drop_first())
    }
}

/// Any two byte strings compare one way or the other.
pub proof fn lemma_bytes_le_total(a: Seq<u8>, b: Seq<u8>)
    ensures
        bytes_le(a, b) || bytes_le(b, a),
    decreases a.len(),
{
    if a.len() > 0 && b.len() > 0 && a[0] == b[0] {
        lemma_bytes_le_total(a.drop_first(), b.drop_first());
    }
}

/// The order is transitive.
pub proof fn lemma_bytes_le_transitive(a: Seq<u8>, b: Seq<u8>, c: Seq<u8>)
    requires
        bytes_le(a, b),
        bytes_le(b, c),
    ensures
        bytes_le(a, c),
    decreases a.len(),
{
    if a.len() > 0 && b.len() > 0 && c.len() > 0 && a[0] == b[0] && b[0] == c[0] {
        lemma_bytes_le_transitive(a.drop_first(), b.drop_first(), c.drop_first());
    }
}

/// Compares two byte strings in byte-wise lexicographic order.
pub fn bytes_at_most(a: &[u8], b: &[u8]) -> (le: bool)
    ensures
        le == bytes_le(a@, b@),
{
    let mut i: usize = 0;
    proof {
        assert(a@.skip(0) =~= a@);
        assert(b@.skip(0) =~= b@);
    }
    while i < a.len() && i < b.len()
        invariant
            0 <= i <= a@.len(),
            i <= b@.len(),
            bytes_le(a@, b@) == bytes_le(a@.skip(i as int), b@.skip(i as int)),
        decreases a@.len() - i,
    {
        if a[i] < b[i] {
            return true;
        }
        if a[i] > b[i] {
            return false;
        }
        proof {
            assert(a@.skip(i as int).drop_first() =~= a@.skip(i + 1));
            assert(b@.skip(i as int).drop_first() =~= b@.skip(i + 1));
        }
        i = i + 1;
    }
    a.len() <= b.len()
}

} // verus!
