//! The loader's rules: which files are plugin candidates, which descriptors are accepted,
//! the order plugins are probed in, and which plugin a probe selects.

use vstd::prelude::*;

use crate::ffi::playback::{RVProbeResult, RV_PLAYBACK_PLUGIN_API_VERSION};
use crate::text::{
    bytes_at_most, bytes_le, equals_text, first_match,
    lemma_bytes_le_total, lemma_bytes_le_transitive, lemma_first_match_absent,
    lemma_first_match_facts, lemma_first_match_found, lemma_first_match_none, lemma_first_match_push, same_text,
    contains_nul, holds_nul,
};
use vstd::string::StringSliceAdditionalSpecFns;

verus! {

/// One version covers the whole ABI; `playback.h` is the only header that spells it.
pub const PLUGIN_API_VERSION: u64 = RV_PLAYBACK_PLUGIN_API_VERSION;

/// The three descriptors a library can publish.
#[derive(Debug, Clone, Copy, PartialEq, Eq, Hash, Structural)]
pub enum PluginKind {
    Playback,
    Output,
    Resample,
}

impl PluginKind {
    /// The entry-point symbol, NUL-terminated for `dlsym`.
    pub fn symbol(self) -> (symbol: &'static str)
        ensures
            symbol@ == match self {
                PluginKind::Playback => "rv_playback_plugin\0"@,
                PluginKind::Output => "rv_output_plugin\0"@,
                PluginKind::Resample => "rv_resample_plugin\0"@,
            },
    {
        match self {
            PluginKind::Playback => "rv_playback_plugin\0",
            PluginKind::Output => "rv_output_plugin\0",
            PluginKind::Resample => "rv_resample_plugin\0",
        }
    }

    /// The kind's name as messages spell it.
    pub fn label(self) -> (label: &'static str)
        ensures
            label@ == match self {
                PluginKind::Playback => "playback"@,
                PluginKind::Output => "output"@,
                PluginKind::Resample => "resample"@,
            },
    {
        match self {
            PluginKind::Playback => "playback",
            PluginKind::Output => "output",
            PluginKind::Resample => "resample",
        }
    }
}

/// The kinds in the order a library's entry points are tried.
pub fn plugin_kinds() -> (kinds: [PluginKind; 3])
    ensures
        kinds@ == seq![PluginKind::Playback, PluginKind::Output, PluginKind::Resample],
{
    let kinds = [PluginKind::Playback, PluginKind::Output, PluginKind::Resample];
    proof {
        assert(kinds@ =~= seq![PluginKind::Playback, PluginKind::Output, PluginKind::Resample]);
    }
    kinds
}

/// The lower-case ASCII form of a byte.
pub open spec fn ascii_lower(b: u8) -> u8 {
    if 0x41 <= b <= 0x5a {
        (b + 0x20) as u8
    } else {
        b
    }
}

/// Whether two byte strings are equal once ASCII letters are folded to lower case.
pub open spec fn eq_ignore_ascii_case(a: Seq<u8>, b: Seq<u8>) -> bool {
    a.len() == b.len() && forall|i: int| 0 <= i < a.len() ==> ascii_lower(a[i]) == ascii_lower(b[i])
}

/// Compares two byte strings ignoring ASCII case, as `str::eq_ignore_ascii_case` does.
pub fn bytes_eq_ignore_ascii_case(a: &[u8], b: &[u8]) -> (equal: bool)
    ensures
        equal == eq_ignore_ascii_case(a@, b@),
{
    if a.len() != b.len() {
        return false;
    }
    let mut i: usize = 0;
    while i < a.len()
        invariant
            a@.len() == b@.len(),
            0 <= i <= a@.len(),
            forall|j: int| 0 <= j < i ==> ascii_lower(a@[j]) == ascii_lower(b@[j]),
        decreases a@.len() - i,
    {
        let x = if 0x41 <= a[i] && a[i] <= 0x5a {
            a[i] + 0x20
        } else {
            a[i]
        };
        let y = if 0x41 <= b[i] && b[i] <= 0x5a {
            b[i] + 0x20
        } else {
            b[i]
        };
        if x != y {
            return false;
        }
        i = i + 1;
    }
    true
}

/// The extensions accepted on every platform, so a plugin built elsewhere still loads.
pub open spec fn plugin_extension_canon() -> Seq<Seq<char>> {
    seq!["so"@, "dylib"@, "dll"@, "rvp"@]
}

/// Whether a directory entry with this extension (`None` for none, or one that is not
/// UTF-8) is a plugin candidate: it matches the canon without regard to ASCII case.
pub open spec fn is_plugin_extension(extension: Option<Seq<u8>>) -> bool {
    match extension {
        None => false,
        Some(ext) => exists|i: int|
            0 <= i < 4 && eq_ignore_ascii_case(
                ext,
                vstd::utf8::encode_utf8(plugin_extension_canon()[i]),
            ),
    }
}

/// Whether a directory entry with this extension is a plugin candidate.
pub fn has_plugin_extension(extension: Option<&str>) -> (candidate: bool)
    ensures
        candidate == is_plugin_extension(
            match extension {
                Some(e) => Some(e.spec_bytes()),
                None => None,
            },
        ),
{
    let ext = match extension {
        Some(ext) => ext.as_bytes(),
        None => return false,
    };
    let canon = ["so", "dylib", "dll", "rvp"];
    proof {
        assert(canon@ =~= seq!["so", "dylib", "dll", "rvp"]);
    }
    let mut i: usize = 0;
    while i < 4
        invariant
            0 <= i <= 4,
            canon@ == seq!["so", "dylib", "dll", "rvp"],
            ext@ == extension->0.spec_bytes(),
            extension is Some,
            forall|j: int|
                0 <= j < i ==> !eq_ignore_ascii_case(
                    ext@,
                    vstd::utf8::encode_utf8(plugin_extension_canon()[j]),
                ),
        decreases 4 - i,
    {
        let name = canon[i];
        if bytes_eq_ignore_ascii_case(ext, name.as_bytes()) {
            proof {
                assert(plugin_extension_canon()[i as int] == name@);
                assert(eq_ignore_ascii_case(
                    ext@,
                    vstd::utf8::encode_utf8(plugin_extension_canon()[i as int]),
                ));
            }
            return true;
        }
        proof {
            assert(plugin_extension_canon()[i as int] == name@);
        }
        i = i + 1;
    }
    false
}


/// `std::io::Error`, carried through a failed path read.
#[verifier::external_type_specification]
#[verifier::external_body]
pub struct ExIoError(std::io::Error);

/// `libloading::Error`, carried through a failed `dlopen`.
#[verifier::external_type_specification]
#[verifier::external_body]
pub struct ExLibloadingError(libloading::Error);

/// Why one path yielded no plugin.
#[derive(Debug)]
pub enum LoadError {
    Path(std::io::Error),
    Open(libloading::Error),
    NoEntryPoint,
    NullDescriptor(PluginKind),
    ApiVersion { kind: PluginKind, found: u64, expected: u64 },
    MissingName(PluginKind),
    /// Routine rather than exceptional: a CMake `SOVERSION` install leaves `foo.so`,
    /// `foo.1.so` and `foo.1.0.0.so` side by side, all three loadable.
    DuplicateName { kind: PluginKind, name: String },
}

/// Matches a plugin already loaded as `kind` under `name`.
pub open spec fn names_loaded(kind: PluginKind, name: Seq<char>) -> spec_fn((PluginKind, String)) -> bool {
    |entry: (PluginKind, String)| entry.0 == kind && entry.1@ == name
}

/// Accepts the descriptor a library's entry point for `kind` returned, once its header
/// is read: a null descriptor, another ABI version, a missing or empty name, or a name a
/// plugin of the same kind already took each refuse it. An accepted plugin's kind and
/// name join `seen`, and its name comes back.
pub fn accept_descriptor(
    kind: PluginKind,
    descriptor_is_null: bool,
    api_version: u64,
    name: Option<String>,
    seen: &mut Vec<(PluginKind, String)>,
) -> (accepted: Result<String, LoadError>)
    ensures
        descriptor_is_null ==> (accepted matches Err(LoadError::NullDescriptor(k)) && k == kind)
            && final(seen)@ == old(seen)@,
        !descriptor_is_null && api_version != PLUGIN_API_VERSION ==> (accepted matches Err(
            LoadError::ApiVersion { kind: k, found, expected },
        ) && k == kind && found == api_version && expected == PLUGIN_API_VERSION) && final(seen)@
            == old(seen)@,
        !descriptor_is_null && api_version == PLUGIN_API_VERSION && (name is None || name->0@.len()
            == 0) ==> (accepted matches Err(LoadError::MissingName(k)) && k == kind) && final(seen)@
            == old(seen)@,
        !descriptor_is_null && api_version == PLUGIN_API_VERSION && name is Some && name->0@.len()
            > 0 ==> {
            let n = name->0@;
            if first_match(old(seen)@, names_loaded(kind, n)) is Some {
                &&& accepted matches Err(LoadError::DuplicateName { kind: k, name: dup })
                &&& k == kind
                &&& dup@ == n
                &&& final(seen)@ == old(seen)@
            } else {
                &&& accepted matches Ok(accepted_name)
                &&& accepted_name@ == n
                &&& final(seen)@.len() == old(seen)@.len() + 1
                &&& final(seen)@.drop_last() == old(seen)@
                &&& final(seen)@.last().0 == kind
                &&& final(seen)@.last().1@ == n
            }
        },
{
    if descriptor_is_null {
        return Err(LoadError::NullDescriptor(kind));
    }
    if api_version != PLUGIN_API_VERSION {
        return Err(LoadError::ApiVersion { kind, found: api_version, expected: PLUGIN_API_VERSION });
    }
    let plugin_name = match name {
        Some(n) => n,
        None => return Err(LoadError::MissingName(kind)),
    };
    if plugin_name.as_str().is_empty() {
        return Err(LoadError::MissingName(kind));
    }
    let mut i: usize = 0;
    while i < seen.len()
        invariant
            0 <= i <= seen@.len(),
            seen@ == old(seen)@,
            !descriptor_is_null,
            api_version == PLUGIN_API_VERSION,
            name == Some(plugin_name),
            plugin_name@.len() > 0,
            forall|j: int| 0 <= j < i ==> !names_loaded(kind, plugin_name@)(seen@[j]),
        decreases seen@.len() - i,
    {
        if seen[i].0 == kind && same_text(seen[i].1.as_str(), plugin_name.as_str()) {
            proof {
                lemma_first_match_found(seen@, names_loaded(kind, plugin_name@), i as int);
            }
            return Err(LoadError::DuplicateName { kind, name: plugin_name });
        }
        i = i + 1;
    }
    proof {
        lemma_first_match_absent(seen@, names_loaded(kind, plugin_name@));
    }
    seen.push((kind, plugin_name.clone()));
    proof {
        assert(seen@.drop_last() =~= old(seen)@);
    }
    Ok(plugin_name)
}


/// The order plugins are probed in: pinned names first, pinned names last, everything
/// else alphabetical in between.
///
/// The default is the canon both existing hosts hardcode: `libopenmpt` recognizes tracker
/// formats most reliably, `uade` claims Amiga files broadly enough to shadow the
/// specialized players.
#[derive(Debug, Clone)]
pub struct ProbeOrder {
    pub first: Vec<String>,
    pub last: Vec<String>,
}

impl Default for ProbeOrder {
    fn default() -> (order: Self)
        ensures
            order.first@.len() == 1,
            order.first@[0]@ == "libopenmpt"@,
            order.last@.len() == 1,
            order.last@[0]@ == "uade"@,
    {
        ProbeOrder { first: vec!["libopenmpt".to_owned()], last: vec!["uade".to_owned()] }
    }
}

/// Where a name sorts before its own text breaks ties: its position among the pinned
/// first names (group 0), among the pinned last names (group 2), or in the unpinned
/// middle (group 1).
pub open spec fn probe_rank(first: Seq<String>, last: Seq<String>, name: Seq<char>) -> (u8, usize) {
    match first_match(first, equals_text(name)) {
        Some(i) => (0u8, i as usize),
        None => match first_match(last, equals_text(name)) {
            Some(i) => (2u8, i as usize),
            None => (1u8, 0usize),
        },
    }
}

/// Names pinned last are probed in the order of the last list, after everything else:
/// each ranks in the last group at its own position there, so an earlier pin sorts
/// strictly before a later one whatever their names. The same holds of the first list,
/// ahead of everything else.
pub proof fn lemma_pins_keep_their_order(first: Seq<String>, last: Seq<String>, i: int, j: int)
    requires
        0 <= i < j < last.len(),
        last.len() <= usize::MAX,
        first_match(last, equals_text(last[i]@)) == Some(i),
        first_match(last, equals_text(last[j]@)) == Some(j),
        first_match(first, equals_text(last[i]@)) is None,
        first_match(first, equals_text(last[j]@)) is None,
    ensures
        probe_rank(first, last, last[i]@) == (2u8, i as usize),
        probe_rank(first, last, last[j]@) == (2u8, j as usize),
        key_le(probe_key(first, last, last[i]@), probe_key(first, last, last[j]@)),
        !key_le(probe_key(first, last, last[j]@), probe_key(first, last, last[i]@)),
{
}

/// Names pinned first are probed in the order of the first list, before everything else.
pub proof fn lemma_first_pins_keep_their_order(first: Seq<String>, last: Seq<String>, i: int, j: int)
    requires
        0 <= i < j < first.len(),
        first.len() <= usize::MAX,
        first_match(first, equals_text(first[i]@)) == Some(i),
        first_match(first, equals_text(first[j]@)) == Some(j),
    ensures
        probe_rank(first, last, first[i]@) == (0u8, i as usize),
        probe_rank(first, last, first[j]@) == (0u8, j as usize),
        key_le(probe_key(first, last, first[i]@), probe_key(first, last, first[j]@)),
        !key_le(probe_key(first, last, first[j]@), probe_key(first, last, first[i]@)),
{
}

/// A name pinned first is probed before every name not pinned, and every name not
/// pinned before every name pinned last (and not first); names not pinned rank alike, so
/// their bytes order them.
pub proof fn lemma_pin_groups(first: Seq<String>, last: Seq<String>, a: Seq<char>, b: Seq<char>)
    ensures
        first_match(first, equals_text(a)) is Some && first_match(first, equals_text(b)) is None
            ==> !key_le(probe_key(first, last, b), probe_key(first, last, a)),
        first_match(first, equals_text(a)) is None && first_match(last, equals_text(a)) is None
            && first_match(first, equals_text(b)) is None && first_match(last, equals_text(b)) is Some
            ==> !key_le(probe_key(first, last, b), probe_key(first, last, a)),
        first_match(first, equals_text(a)) is None && first_match(last, equals_text(a)) is None
            ==> probe_rank(first, last, a) == (1u8, 0usize),
{
}

/// The full sort key of a name: its rank, then its bytes.
pub open spec fn probe_key(first: Seq<String>, last: Seq<String>, name: Seq<char>) -> (
    u8,
    usize,
    Seq<u8>,
) {
    let rank = probe_rank(first, last, name);
    (rank.0, rank.1, vstd::utf8::encode_utf8(name))
}

/// Whether key `a` sorts no later than key `b`: by group, then position, then bytes.
pub open spec fn key_le(a: (u8, usize, Seq<u8>), b: (u8, usize, Seq<u8>)) -> bool {
    a.0 < b.0 || (a.0 == b.0 && (a.1 < b.1 || (a.1 == b.1 && bytes_le(a.2, b.2))))
}

pub proof fn lemma_key_le_total(a: (u8, usize, Seq<u8>), b: (u8, usize, Seq<u8>))
    ensures
        key_le(a, b) || key_le(b, a),
{
    lemma_bytes_le_total(a.2, b.2);
}

pub proof fn lemma_key_le_transitive(
    a: (u8, usize, Seq<u8>),
    b: (u8, usize, Seq<u8>),
    c: (u8, usize, Seq<u8>),
)
    requires
        key_le(a, b),
        key_le(b, c),
    ensures
        key_le(a, c),
{
    if a.0 == b.0 && b.0 == c.0 && a.1 == b.1 && b.1 == c.1 {
        lemma_bytes_le_transitive(a.2, b.2, c.2);
    }
}

/// Whether `perm` lists the positions `0..n` each once.
pub open spec fn is_permutation(perm: Seq<usize>, n: int) -> bool {
    &&& perm.len() == n
    &&& forall|i: int| 0 <= i < n ==> perm[i] < n
    &&& forall|i: int, j: int| 0 <= i < j < n ==> perm[i] != perm[j]
}

/// Whether `perm` orders the names stably by probe key: keys never decrease, and names
/// with one key keep the order they were loaded in.
pub open spec fn is_probe_order(first: Seq<String>, last: Seq<String>, names: Seq<String>, perm: Seq<usize>) -> bool {
    sorted_slots(first, last, names, perm, names.len() as int)
}

/// The probe key of the name at position `x` of `names`.
pub open spec fn slot_key(first: Seq<String>, last: Seq<String>, names: Seq<String>, x: usize) -> (
    u8,
    usize,
    Seq<u8>,
) {
    probe_key(first, last, names[x as int]@)
}

/// Whether `perm`, over positions below `n`, is sorted by slot key and stable.
pub open spec fn sorted_slots(first: Seq<String>, last: Seq<String>, names: Seq<String>, perm: Seq<usize>, n: int) -> bool {
    &&& is_permutation(perm, n)
    &&& forall|a: int, b: int|
        0 <= a < b < perm.len() ==> key_le(
            #[trigger] slot_key(first, last, names, perm[a]),
            #[trigger] slot_key(first, last, names, perm[b]),
        )
    &&& forall|a: int, b: int|
        0 <= a < b < perm.len() && key_le(
            #[trigger] slot_key(first, last, names, perm[b]),
            #[trigger] slot_key(first, last, names, perm[a]),
        ) ==> perm[a] < perm[b]
}

/// Inserting position `i` into a sorted order over `0..i`, just after the last entry that
/// sorts no later than it, keeps the order sorted and stable.
proof fn lemma_insert_keeps_order(
    first: Seq<String>,
    last: Seq<String>,
    names: Seq<String>,
    before: Seq<usize>,
    i: usize,
    p: int,
)
    requires
        i < names.len(),
        0 <= p <= before.len(),
        sorted_slots(first, last, names, before, i as int),
        p > 0 ==> key_le(slot_key(first, last, names, before[p - 1]), slot_key(first, last, names, i)),
        forall|q: int| p <= q < before.len() ==> !key_le(
            #[trigger] slot_key(first, last, names, before[q]),
            slot_key(first, last, names, i),
        ),
    ensures
        sorted_slots(first, last, names, before.insert(p, i), i + 1),
{
    let after = before.insert(p, i);
    let k = |x: usize| slot_key(first, last, names, x);
    assert forall|q: int| 0 <= q < after.len() implies after[q] < i + 1 by {}
    assert forall|a: int, b: int| 0 <= a < b < after.len() implies after[a] != after[b] by {
        if a != p && b != p {
            let a0 = if a < p { a } else { a - 1 };
            let b0 = if b < p { b } else { b - 1 };
            assert(before[a0] != before[b0]);
        }
    }
    assert forall|a: int, b: int| 0 <= a < b < after.len() implies key_le(
        #[trigger] slot_key(first, last, names, after[a]),
        #[trigger] slot_key(first, last, names, after[b]),
    ) by {
        if b == p {
            assert(after[b] == i);
            assert(after[a] == before[a]);
            if a < p - 1 {
                lemma_key_le_transitive(k(before[a]), k(before[p - 1]), k(i));
            }
        } else if a == p {
            assert(after[b] == before[b - 1]);
            lemma_key_le_total(k(before[b - 1]), k(i));
        } else {
            let a0 = if a < p { a } else { a - 1 };
            let b0 = if b < p { b } else { b - 1 };
            assert(after[a] == before[a0]);
            assert(after[b] == before[b0]);
            if a0 < b0 {
                assert(key_le(k(before[a0]), k(before[b0])));
            }
        }
    }
    assert forall|a: int, b: int| 0 <= a < b < after.len() && key_le(
        #[trigger] slot_key(first, last, names, after[b]),
        #[trigger] slot_key(first, last, names, after[a]),
    ) implies after[a] < after[b] by {
        if a == p {
            assert(after[b] == before[b - 1]);
        } else if b == p {
            assert(after[a] == before[a]);
        } else {
            let a0 = if a < p { a } else { a - 1 };
            let b0 = if b < p { b } else { b - 1 };
            assert(after[a] == before[a0]);
            assert(after[b] == before[b0]);
        }
    }
}

impl ProbeOrder {
    /// Where `name` sorts before its own text breaks ties.
    pub fn rank(&self, name: &str) -> (rank: (u8, usize))
        ensures
            rank == probe_rank(self.first@, self.last@, name@),
    {
        let mut i: usize = 0;
        while i < self.first.len()
            invariant
                0 <= i <= self.first@.len(),
                forall|j: int| 0 <= j < i ==> !equals_text(name@)(self.first@[j]),
            decreases self.first@.len() - i,
        {
            if same_text(self.first[i].as_str(), name) {
                proof {
                    lemma_first_match_found(self.first@, equals_text(name@), i as int);
                }
                return (0, i);
            }
            i = i + 1;
        }
        proof {
            lemma_first_match_absent(self.first@, equals_text(name@));
        }
        let mut k: usize = 0;
        while k < self.last.len()
            invariant
                0 <= k <= self.last@.len(),
                first_match(self.first@, equals_text(name@)) is None,
                forall|j: int| 0 <= j < k ==> !equals_text(name@)(self.last@[j]),
            decreases self.last@.len() - k,
        {
            if same_text(self.last[k].as_str(), name) {
                proof {
                    lemma_first_match_found(self.last@, equals_text(name@), k as int);
                }
                return (2, k);
            }
            k = k + 1;
        }
        proof {
            lemma_first_match_absent(self.last@, equals_text(name@));
        }
        (1, 0)
    }

    /// The sort key of `name`: its rank, then its own text.
    pub fn key<'a>(&self, name: &'a str) -> (key: (u8, usize, &'a str))
        ensures
            (key.0, key.1) == probe_rank(self.first@, self.last@, name@),
            key.2 == name,
    {
        let rank = self.rank(name);
        (rank.0, rank.1, name)
    }

    /// The order to probe plugins named `names` in, as positions into `names`: sorted by
    /// probe key, loading order kept among equal names.
    pub fn probe_sequence(&self, names: &Vec<String>) -> (perm: Vec<usize>)
        ensures
            is_probe_order(self.first@, self.last@, names@, perm@),
    {
        let ghost first = self.first@;
        let ghost last = self.last@;
        let mut ranks: Vec<(u8, usize)> = Vec::new();
        let mut r: usize = 0;
        while r < names.len()
            invariant
                0 <= r <= names@.len(),
                first == self.first@,
                last == self.last@,
                ranks@.len() == r,
                forall|j: int| 0 <= j < r ==> ranks@[j] == probe_rank(first, last, names@[j]@),
            decreases names@.len() - r,
        {
            let rank = self.rank(names[r].as_str());
            ranks.push(rank);
            r = r + 1;
        }
        let mut perm: Vec<usize> = Vec::new();
        let mut i: usize = 0;
        while i < names.len()
            invariant
                0 <= i <= names@.len(),
                first == self.first@,
                last == self.last@,
                ranks@.len() == names@.len(),
                forall|j: int| 0 <= j < names@.len() ==> ranks@[j] == probe_rank(first, last, names@[j]@),
                sorted_slots(first, last, names@, perm@, i as int),
            decreases names@.len() - i,
        {
            let mut p: usize = perm.len();
            while p > 0 && !self.sorts_no_later(&ranks, names, perm[p - 1], i)
                invariant
                    0 <= p <= perm@.len(),
                    perm@.len() == i,
                    i < names@.len(),
                    ranks@.len() == names@.len(),
                    first == self.first@,
                    last == self.last@,
                    forall|j: int| 0 <= j < names@.len() ==> ranks@[j] == probe_rank(first, last, names@[j]@),
                    is_permutation(perm@, i as int),
                    forall|q: int| p <= q < perm@.len() ==> !key_le(
                        #[trigger] slot_key(first, last, names@, perm@[q]),
                        slot_key(first, last, names@, i),
                    ),
                decreases p,
            {
                p = p - 1;
            }
            let ghost before = perm@;
            perm.insert(p, i);
            proof {
                lemma_insert_keeps_order(first, last, names@, before, i, p as int);
            }
            i = i + 1;
        }
        perm
    }

    /// Whether the name at `a` sorts no later than the name at `b`.
    fn sorts_no_later(&self, ranks: &Vec<(u8, usize)>, names: &Vec<String>, a: usize, b: usize) -> (le: bool)
        requires
            a < names@.len(),
            b < names@.len(),
            ranks@.len() == names@.len(),
            forall|j: int| 0 <= j < names@.len() ==> ranks@[j] == probe_rank(self.first@, self.last@, names@[j]@),
        ensures
            le == key_le(
                probe_key(self.first@, self.last@, names@[a as int]@),
                probe_key(self.first@, self.last@, names@[b as int]@),
            ),
    {
        let x = ranks[a];
        let y = ranks[b];
        if x.0 != y.0 {
            return x.0 < y.0;
        }
        if x.1 != y.1 {
            return x.1 < y.1;
        }
        bytes_at_most(names[a].as_str().as_bytes(), names[b].as_str().as_bytes())
    }
}

/// Whether a probe answer (`None` where a plugin has no probe) claims the file outright.
pub open spec fn answers_supported() -> spec_fn(Option<u32>) -> bool {
    |answer: Option<u32>| answer == Some(RVProbeResult::Supported.raw())
}

/// Whether a probe answer (`None` where a plugin has no probe) claims the file tentatively.
pub open spec fn answers_unsure() -> spec_fn(Option<u32>) -> bool {
    |answer: Option<u32>| answer == Some(RVProbeResult::Unsure.raw())
}

/// The candidate that answers select: the first `Supported`, otherwise the first `Unsure`.
pub open spec fn selected_candidate(answers: Seq<Option<u32>>) -> Option<int> {
    match first_match(answers, answers_supported()) {
        Some(i) => Some(i),
        None => first_match(answers, answers_unsure()),
    }
}

/// Asking candidates in probe order and stopping at the first that claims the file
/// outright selects what asking every candidate would: the answers up to and including
/// that claim (all of them when none claims) decide the same candidate.
pub proof fn lemma_stopping_at_a_claim_selects_as_all(answers: Seq<Option<u32>>)
    ensures
        ({
            let asked = match first_match(answers, answers_supported()) {
                Some(s) => s + 1,
                None => answers.len() as int,
            };
            selected_candidate(answers.subrange(0, asked)) == selected_candidate(answers)
        }),
{
    lemma_first_match_facts(answers, answers_supported());
    match first_match(answers, answers_supported()) {
        Some(s) => {
            let asked = answers.subrange(0, s + 1);
            assert(asked[s] == answers[s]);
            assert forall|j: int| 0 <= j < s implies !answers_supported()(asked[j]) by {
                assert(asked[j] == answers[j]);
            }
            lemma_first_match_found(asked, answers_supported(), s);
        },
        None => {
            assert(answers.subrange(0, answers.len() as int) =~= answers);
        },
    }
}

/// The selected candidate answered `Supported`, or `Unsure` with no candidate answering
/// `Supported`; a candidate without a probe is never selected, and a claim is never passed
/// over for a guess.
pub proof fn lemma_selected_candidate_answered(answers: Seq<Option<u32>>)
    ensures
        match selected_candidate(answers) {
            Some(i) => 0 <= i < answers.len() && (answers_supported()(answers[i]) || (
            answers_unsure()(answers[i]) && forall|j: int|
                0 <= j < answers.len() ==> !answers_supported()(#[trigger] answers[j]))),
            None => forall|j: int|
                0 <= j < answers.len() ==> !answers_supported()(#[trigger] answers[j])
                    && !answers_unsure()(answers[j]),
        },
{
    lemma_first_match_facts(answers, answers_supported());
    lemma_first_match_facts(answers, answers_unsure());
    if first_match(answers, answers_supported()) is None {
        lemma_first_match_none(answers, answers_supported());
        if first_match(answers, answers_unsure()) is None {
            lemma_first_match_none(answers, answers_unsure());
        }
    }
}

/// Whether a file may be offered to probes at all: some bytes to look at, and a name that
/// can travel as a C string.
pub fn probe_input_ok(data: &[u8], filename: &str) -> (ok: bool)
    ensures
        ok == (data@.len() > 0 && !holds_nul(filename.spec_bytes())),
{
    if data.len() == 0 {
        return false;
    }
    !contains_nul(filename.as_bytes())
}

/// Selection among playback plugins offered one file, fed the candidates' answers in
/// probe order until one claims the file outright.
pub struct ProbeSelection {
    supported: Option<usize>,
    unsure: Option<usize>,
    count: usize,
    answers: Ghost<Seq<Option<u32>>>,
}

impl ProbeSelection {
    /// The answers recorded so far, one per candidate in probe order.
    pub closed spec fn answers(self) -> Seq<Option<u32>> {
        self.answers@
    }

    pub closed spec fn well_formed(self) -> bool {
        &&& self.count == self.answers@.len()
        &&& self.supported == match first_match(self.answers@, answers_supported()) {
            Some(i) => Some(i as usize),
            None => None::<usize>,
        }
        &&& self.unsure == match first_match(self.answers@, answers_unsure()) {
            Some(i) => Some(i as usize),
            None => None::<usize>,
        }
    }

    /// Whether a candidate has claimed the file outright, so that no later one is asked.
    pub open spec fn is_settled(self) -> bool {
        first_match(self.answers(), answers_supported()) is Some
    }

    /// A selection before any candidate was asked.
    pub fn new() -> (selection: Self)
        ensures
            selection.well_formed(),
            selection.answers() == Seq::<Option<u32>>::empty(),
    {
        ProbeSelection { supported: None, unsure: None, count: 0, answers: Ghost(Seq::empty()) }
    }

    /// Records the next candidate's answer (`None` where it has no probe) and says whether
    /// the selection is now settled.
    pub fn record(&mut self, answer: Option<u32>) -> (settled: bool)
        requires
            old(self).well_formed(),
            !old(self).is_settled(),
            old(self).answers().len() < usize::MAX,
        ensures
            final(self).well_formed(),
            final(self).answers() == old(self).answers().push(answer),
            settled == final(self).is_settled(),
            settled == (answer == Some(RVProbeResult::Supported.raw())),
    {
        let ghost before = self.answers@;
        let ghost after = before.push(answer);
        proof {
            lemma_first_match_push(before, answers_supported(), answer);
            lemma_first_match_push(before, answers_unsure(), answer);
        }
        let position = self.count;
        let settled = match answer {
            Some(raw) => raw == RVProbeResult::Supported.to_raw(),
            None => false,
        };
        if settled {
            self.supported = Some(position);
        }
        let unsure_answer = match answer {
            Some(raw) => raw == RVProbeResult::Unsure.to_raw(),
            None => false,
        };
        if unsure_answer && self.unsure.is_none() {
            self.unsure = Some(position);
        }
        self.count = position + 1;
        self.answers = Ghost(after);
        settled
    }

    /// The candidate selected by the answers recorded: the first `Supported`, otherwise
    /// the first `Unsure`, as a position in probe order.
    pub fn outcome(&self) -> (chosen: Option<usize>)
        requires
            self.well_formed(),
        ensures
            chosen == match selected_candidate(self.answers()) {
                Some(i) => Some(i as usize),
                None => None::<usize>,
            },
    {
        match self.supported {
            Some(i) => Some(i),
            None => self.unsure,
        }
    }
}

} // verus!
