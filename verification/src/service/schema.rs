//! What a settings registration says: the schemas read out of the array a plugin hands
//! the host, entry by entry, with the entries that cannot be used skipped and reported.
//!
//! The array's memory is read before it gets here: each entry arrives with its strings
//! already decoded (see [`crate::plugin_string::plugin_str`]) and its choice list either
//! read or refused for its count.

use vstd::prelude::*;

use crate::ffi::settings::RVSettingsResult;
use crate::plugin_string::StringLimitExceeded;
use crate::service::settings::{Choice, Setting, SettingSchema};
use crate::text::{first_match, lemma_first_match_absent, lemma_first_match_found};

verus! {

/// A plugin string as decoded: `None` for a null pointer.
pub type PluginText = Result<Option<String>, StringLimitExceeded>;

/// A decoded plugin string, or the empty text where the pointer was null.
pub open spec fn text_or_empty(text: PluginText) -> Seq<char> {
    match text {
        Ok(Some(s)) => s@,
        _ => Seq::empty(),
    }
}

/// One entry of an integer choice list.
#[derive(Debug)]
pub struct WireIntChoice {
    pub name: PluginText,
    pub value: i32,
}

/// One entry of a string choice list.
#[derive(Debug)]
pub struct WireStrChoice {
    pub name: PluginText,
    pub value: PluginText,
}

/// The kind-specific part of a registered setting. Float fields hold IEEE-754 bit
/// patterns; a choice list is `None` when its count was refused, and empty when its
/// pointer was null.
#[derive(Debug)]
pub enum WireBody {
    Float { value: u32, start_range: u32, end_range: u32 },
    Int { value: i32, start_range: i32, end_range: i32 },
    Bool { byte: u8 },
    IntChoice { value: i32, choices: Option<Vec<WireIntChoice>> },
    StrChoice { value: PluginText, choices: Option<Vec<WireStrChoice>> },
    /// A widget type this ABI version does not define.
    Unknown,
}

/// One registered setting as the plugin wrote it.
#[derive(Debug)]
pub struct WireSetting {
    pub widget_type: u64,
    pub id: PluginText,
    pub name: PluginText,
    pub desc: PluginText,
    pub body: WireBody,
}

/// An entry that was skipped, and why.
#[derive(Debug, Clone, PartialEq, Eq)]
pub enum SchemaWarning {
    /// The widget type is not one this ABI version defines.
    UnknownWidgetType { id: String, widget_type: u64 },
    /// The setting has no id, so nothing could look it up.
    MissingId,
    /// A Boolean setting stores a byte other than 0 or 1.
    InvalidBool { id: String, byte: u8 },
}

/// What a registration's entries produced: the schemas, or the code the registration is
/// refused with, and the entries skipped before that.
#[derive(Debug)]
pub struct SchemaRead {
    pub schemas: Result<Vec<SettingSchema>, RVSettingsResult>,
    pub warnings: Vec<SchemaWarning>,
}

/// What one entry does to a registration.
pub enum EntryVerdict {
    /// The whole registration is refused with this code.
    Refuse(RVSettingsResult),
    /// The entry is skipped.
    Skip,
    /// The entry becomes a schema.
    Keep,
}

/// What an integer choice list does: refused for its count or for an unreadable name;
/// otherwise kept.
pub open spec fn int_choices_refusal(choices: Option<Seq<WireIntChoice>>) -> Option<RVSettingsResult> {
    match choices {
        None => Some(RVSettingsResult::InvalidCount),
        Some(c) => if exists|i: int| 0 <= i < c.len() && c[i].name is Err {
            Some(RVSettingsResult::NotFound)
        } else {
            None
        },
    }
}

/// Whether a string choice entry refuses the registration: neither of its strings is null,
/// and one of them could not be read.
pub open spec fn str_choice_refuses(choice: WireStrChoice) -> bool {
    !(choice.name matches Ok(None)) && !(choice.value matches Ok(None)) && (choice.name is Err
        || choice.value is Err)
}

/// Whether a string choice entry is kept: both strings present.
pub open spec fn str_choice_kept(choice: WireStrChoice) -> bool {
    choice.name matches Ok(Some(_)) && choice.value matches Ok(Some(_))
}

/// Whether some entry of a string choice list refuses the registration.
pub open spec fn some_str_choice_refuses(c: Seq<WireStrChoice>) -> bool {
    exists|i: int| 0 <= i < c.len() && #[trigger] str_choice_refuses(c[i])
}

/// What a string choice list does: refused for its count or for an entry that refuses;
/// otherwise kept.
pub open spec fn str_choices_refusal(choices: Option<Seq<WireStrChoice>>) -> Option<RVSettingsResult> {
    match choices {
        None => Some(RVSettingsResult::InvalidCount),
        Some(c) => if some_str_choice_refuses(c) {
            Some(RVSettingsResult::NotFound)
        } else {
            None
        },
    }
}

/// The choice lists of a body, by value.
pub open spec fn int_choices_view(choices: Option<Vec<WireIntChoice>>) -> Option<Seq<WireIntChoice>> {
    match choices {
        Some(c) => Some(c@),
        None => None,
    }
}

pub open spec fn str_choices_view(choices: Option<Vec<WireStrChoice>>) -> Option<Seq<WireStrChoice>> {
    match choices {
        Some(c) => Some(c@),
        None => None,
    }
}

/// What one entry does to a registration, in the order the checks run: an unknown widget
/// type skips it (though an unreadable id still refuses), an unreadable id, name or
/// description refuses, a missing or empty id skips, a Boolean byte other than 0 or 1
/// skips, and an unreadable choice list or string choice value refuses.
pub open spec fn entry_verdict(e: WireSetting) -> EntryVerdict {
    if e.body is Unknown {
        if e.id is Err {
            EntryVerdict::Refuse(RVSettingsResult::NotFound)
        } else {
            EntryVerdict::Skip
        }
    } else if e.id is Err || e.name is Err || e.desc is Err {
        EntryVerdict::Refuse(RVSettingsResult::NotFound)
    } else if text_or_empty(e.id).len() == 0 {
        EntryVerdict::Skip
    } else {
        match e.body {
            WireBody::Bool { byte } => if byte > 1 {
                EntryVerdict::Skip
            } else {
                EntryVerdict::Keep
            },
            WireBody::IntChoice { choices, .. } => match int_choices_refusal(
                int_choices_view(choices),
            ) {
                Some(code) => EntryVerdict::Refuse(code),
                None => EntryVerdict::Keep,
            },
            WireBody::StrChoice { value, choices } => if value is Err {
                EntryVerdict::Refuse(RVSettingsResult::NotFound)
            } else {
                match str_choices_refusal(str_choices_view(choices)) {
                    Some(code) => EntryVerdict::Refuse(code),
                    None => EntryVerdict::Keep,
                }
            },
            _ => EntryVerdict::Keep,
        }
    }
}

/// The warning a skipped entry is reported with.
pub open spec fn warned_as(e: WireSetting, w: SchemaWarning) -> bool {
    if e.body is Unknown {
        w matches SchemaWarning::UnknownWidgetType { id, widget_type } && id@ == text_or_empty(e.id)
            && widget_type == e.widget_type
    } else if text_or_empty(e.id).len() == 0 {
        w is MissingId
    } else {
        w matches SchemaWarning::InvalidBool { id, byte } && id@ == text_or_empty(e.id) && e.body
            == (WireBody::Bool { byte })
    }
}

/// Whether `out` lists the integer choices of `wire` that have a name, in order.
pub open spec fn int_choices_as(wire: Seq<WireIntChoice>, out: Seq<Choice<i32>>) -> bool
    decreases wire.len(),
{
    if wire.len() == 0 {
        out.len() == 0
    } else {
        let last = wire.last();
        match last.name {
            Ok(Some(name)) => out.len() > 0 && out.last().name@ == name@ && out.last().value
                == last.value && int_choices_as(wire.drop_last(), out.drop_last()),
            _ => int_choices_as(wire.drop_last(), out),
        }
    }
}

/// Whether `out` lists the string choices of `wire` that have both strings, in order.
pub open spec fn str_choices_as(wire: Seq<WireStrChoice>, out: Seq<Choice<String>>) -> bool
    decreases wire.len(),
{
    if wire.len() == 0 {
        out.len() == 0
    } else {
        let last = wire.last();
        if str_choice_kept(last) {
            out.len() > 0 && out.last().name@ == text_or_empty(last.name) && out.last().value@
                == text_or_empty(last.value) && str_choices_as(wire.drop_last(), out.drop_last())
        } else {
            str_choices_as(wire.drop_last(), out)
        }
    }
}

/// Whether `s` is the schema a kept entry `e` becomes: its strings (a null name or
/// description reads as empty) and the setting its body describes.
pub open spec fn kept_as(e: WireSetting, s: SettingSchema) -> bool {
    &&& s.id@ == text_or_empty(e.id)
    &&& s.name@ == text_or_empty(e.name)
    &&& s.desc@ == text_or_empty(e.desc)
    &&& match (e.body, s.setting) {
        (
            WireBody::Float { value, start_range, end_range },
            Setting::Float { value: v, start_range: a, end_range: b },
        ) => v == value && a == start_range && b == end_range,
        (
            WireBody::Int { value, start_range, end_range },
            Setting::Int { value: v, start_range: a, end_range: b },
        ) => v == value && a == start_range && b == end_range,
        (WireBody::Bool { byte }, Setting::Bool { value }) => value == (byte == 1),
        (WireBody::IntChoice { value, choices }, Setting::IntChoice { value: v, choices: out }) => {
            &&& v == value
            &&& choices matches Some(c) && int_choices_as(c@, out@)
        },
        (WireBody::StrChoice { value, choices }, Setting::StrChoice { value: v, choices: out }) => {
            &&& v@ == text_or_empty(value)
            &&& choices matches Some(c) && str_choices_as(c@, out@)
        },
        _ => false,
    }
}

/// Whether reading `entries`, none of which refuses, gives `schemas` and `warnings`: each
/// kept entry its schema and each skipped one its warning, in order.
pub open spec fn read_as(entries: Seq<WireSetting>, schemas: Seq<SettingSchema>, warnings: Seq<SchemaWarning>) -> bool
    decreases entries.len(),
{
    if entries.len() == 0 {
        schemas.len() == 0 && warnings.len() == 0
    } else {
        let e = entries.last();
        match entry_verdict(e) {
            EntryVerdict::Keep => schemas.len() > 0 && kept_as(e, schemas.last()) && read_as(
                entries.drop_last(),
                schemas.drop_last(),
                warnings,
            ),
            EntryVerdict::Skip => warnings.len() > 0 && warned_as(e, warnings.last()) && read_as(
                entries.drop_last(),
                schemas,
                warnings.drop_last(),
            ),
            EntryVerdict::Refuse(_) => false,
        }
    }
}

/// Whether reading `entries`, none of which refuses, reports `warnings`, whatever schemas
/// it kept.
pub open spec fn warned_before(entries: Seq<WireSetting>, warnings: Seq<SchemaWarning>) -> bool {
    exists|s: Seq<SettingSchema>| #[trigger] read_as(entries, s, warnings)
}

/// Whether an entry refuses the registration.
pub open spec fn refuses() -> spec_fn(WireSetting) -> bool {
    |e: WireSetting| entry_verdict(e) is Refuse
}

/// What reading one entry gave.
pub enum EntryRead {
    Refuse(RVSettingsResult),
    Skip(SchemaWarning),
    Keep(SettingSchema),
}

/// A decoded plugin string, or the empty text where the pointer was null.
fn owned_or_empty(text: &PluginText) -> (owned: String)
    ensures
        owned@ == text_or_empty(*text),
{
    match text {
        Ok(Some(s)) => s.clone(),
        _ => String::new(),
    }
}

/// Reads an integer choice list: each entry with a name becomes a choice.
pub fn read_int_choices(choices: &Option<Vec<WireIntChoice>>) -> (read: Result<Vec<Choice<i32>>, RVSettingsResult>)
    ensures
        match read {
            Ok(out) => {
                &&& int_choices_refusal(int_choices_view(*choices)) is None
                &&& choices matches Some(c) && int_choices_as(c@, out@)
            },
            Err(code) => int_choices_refusal(int_choices_view(*choices)) == Some(code),
        },
{
    let wire = match choices {
        Some(c) => c,
        None => return Err(RVSettingsResult::InvalidCount),
    };
    let mut out: Vec<Choice<i32>> = Vec::new();
    let mut i: usize = 0;
    while i < wire.len()
        invariant
            *choices == Some(*wire),
            0 <= i <= wire@.len(),
            forall|j: int| 0 <= j < i ==> !(wire@[j].name is Err),
            int_choices_as(wire@.subrange(0, i as int), out@),
        decreases wire@.len() - i,
    {
        let ghost before = out@;
        match &wire[i].name {
            Ok(Some(name)) => {
                out.push(Choice { name: name.clone(), value: wire[i].value });
                proof {
                    assert(out@.drop_last() =~= before);
                }
            },
            Ok(None) => {},
            Err(_) => return Err(RVSettingsResult::NotFound),
        }
        proof {
            assert(wire@.subrange(0, i + 1).drop_last() =~= wire@.subrange(0, i as int));
        }
        i = i + 1;
    }
    proof {
        assert(wire@.subrange(0, wire@.len() as int) =~= wire@);
    }
    Ok(out)
}

/// Reads a string choice list: each entry with both strings becomes a choice.
pub fn read_str_choices(choices: &Option<Vec<WireStrChoice>>) -> (read: Result<Vec<Choice<String>>, RVSettingsResult>)
    ensures
        match read {
            Ok(out) => {
                &&& str_choices_refusal(str_choices_view(*choices)) is None
                &&& choices matches Some(c) && str_choices_as(c@, out@)
            },
            Err(code) => str_choices_refusal(str_choices_view(*choices)) == Some(code),
        },
{
    let wire = match choices {
        Some(c) => c,
        None => return Err(RVSettingsResult::InvalidCount),
    };
    let mut out: Vec<Choice<String>> = Vec::new();
    let mut i: usize = 0;
    while i < wire.len()
        invariant
            *choices == Some(*wire),
            0 <= i <= wire@.len(),
            forall|j: int| 0 <= j < i ==> !str_choice_refuses(wire@[j]),
            str_choices_as(wire@.subrange(0, i as int), out@),
        decreases wire@.len() - i,
    {
        let ghost before = out@;
        let entry = &wire[i];
        match (&entry.name, &entry.value) {
            (Ok(Some(name)), Ok(Some(value))) => {
                out.push(Choice { name: name.clone(), value: value.clone() });
                proof {
                    assert(out@.drop_last() =~= before);
                }
            },
            (Ok(None), _) => {},
            (_, Ok(None)) => {},
            _ => {
                proof {
                    assert(str_choice_refuses(wire@[i as int]));
                    assert(some_str_choice_refuses(wire@));
                    assert(str_choices_refusal(str_choices_view(*choices)) == Some(RVSettingsResult::NotFound));
                }
                return Err(RVSettingsResult::NotFound);
            },
        }
        proof {
            assert(wire@.subrange(0, i + 1).drop_last() =~= wire@.subrange(0, i as int));
        }
        i = i + 1;
    }
    proof {
        assert(wire@.subrange(0, wire@.len() as int) =~= wire@);
    }
    Ok(out)
}

/// Reads one registered setting.
pub fn read_entry(e: &WireSetting) -> (read: EntryRead)
    ensures
        match (read, entry_verdict(*e)) {
            (EntryRead::Refuse(code), EntryVerdict::Refuse(c)) => code == c,
            (EntryRead::Skip(w), EntryVerdict::Skip) => warned_as(*e, w),
            (EntryRead::Keep(s), EntryVerdict::Keep) => kept_as(*e, s),
            _ => false,
        },
{
    if let WireBody::Unknown = e.body {
        if e.id.is_err() {
            return EntryRead::Refuse(RVSettingsResult::NotFound);
        }
        return EntryRead::Skip(
            SchemaWarning::UnknownWidgetType { id: owned_or_empty(&e.id), widget_type: e.widget_type },
        );
    }
    if e.id.is_err() || e.name.is_err() || e.desc.is_err() {
        return EntryRead::Refuse(RVSettingsResult::NotFound);
    }
    let id = owned_or_empty(&e.id);
    if id.as_str().is_empty() {
        return EntryRead::Skip(SchemaWarning::MissingId);
    }
    let setting = match &e.body {
        WireBody::Float { value, start_range, end_range } => Setting::Float {
            value: *value,
            start_range: *start_range,
            end_range: *end_range,
        },
        WireBody::Int { value, start_range, end_range } => Setting::Int {
            value: *value,
            start_range: *start_range,
            end_range: *end_range,
        },
        WireBody::Bool { byte } => {
            if *byte > 1 {
                return EntryRead::Skip(SchemaWarning::InvalidBool { id, byte: *byte });
            }
            Setting::Bool { value: *byte == 1 }
        },
        WireBody::IntChoice { value, choices } => match read_int_choices(choices) {
            Ok(out) => Setting::IntChoice { value: *value, choices: out },
            Err(code) => return EntryRead::Refuse(code),
        },
        WireBody::StrChoice { value, choices } => {
            if value.is_err() {
                return EntryRead::Refuse(RVSettingsResult::NotFound);
            }
            let value = owned_or_empty(value);
            match read_str_choices(choices) {
                Ok(out) => Setting::StrChoice { value, choices: out },
                Err(code) => return EntryRead::Refuse(code),
            }
        },
        WireBody::Unknown => return EntryRead::Skip(SchemaWarning::MissingId),
    };
    EntryRead::Keep(
        SettingSchema { id, name: owned_or_empty(&e.name), desc: owned_or_empty(&e.desc), setting },
    )
}

/// The schemas of a registration read so far, one entry at a time in order, so that the
/// reader of plugin memory can stop at the first entry that refuses the registration.
pub struct SchemaReader {
    schemas: Vec<SettingSchema>,
    warnings: Vec<SchemaWarning>,
    taken: Ghost<Seq<WireSetting>>,
}

impl SchemaReader {
    /// The entries taken so far.
    pub closed spec fn taken(&self) -> Seq<WireSetting> {
        self.taken@
    }

    /// The warnings reported so far.
    pub closed spec fn spec_warnings(&self) -> Seq<SchemaWarning> {
        self.warnings@
    }

    /// No entry taken refuses, and what was kept and reported is what they give.
    pub closed spec fn well_formed(&self) -> bool {
        &&& forall|j: int| 0 <= j < self.taken@.len() ==> !refuses()(self.taken@[j])
        &&& read_as(self.taken@, self.schemas@, self.warnings@)
    }

    /// A reader that has taken nothing.
    pub fn new() -> (reader: Self)
        ensures
            reader.well_formed(),
            reader.taken() == Seq::<WireSetting>::empty(),
    {
        SchemaReader { schemas: Vec::new(), warnings: Vec::new(), taken: Ghost(Seq::empty()) }
    }

    /// Takes the next entry: `Some(code)`, leaving the reader as it was, where the entry
    /// refuses the registration with `code`; otherwise its schema is kept or its warning
    /// reported.
    pub fn take(&mut self, e: &WireSetting) -> (refused: Option<RVSettingsResult>)
        requires
            old(self).well_formed(),
        ensures
            match entry_verdict(*e) {
                EntryVerdict::Refuse(code) => refused == Some(code) && *final(self) == *old(self),
                _ => {
                    &&& refused is None
                    &&& final(self).well_formed()
                    &&& final(self).taken() == old(self).taken().push(*e)
                },
            },
    {
        let ghost before_schemas = self.schemas@;
        let ghost before_warnings = self.warnings@;
        let ghost after = self.taken@.push(*e);
        proof {
            assert(after.drop_last() =~= self.taken@);
        }
        match read_entry(e) {
            EntryRead::Refuse(code) => {
                return Some(code);
            },
            EntryRead::Skip(w) => {
                self.warnings.push(w);
                proof {
                    assert(self.warnings@.drop_last() =~= before_warnings);
                }
            },
            EntryRead::Keep(schema) => {
                self.schemas.push(schema);
                proof {
                    assert(self.schemas@.drop_last() =~= before_schemas);
                }
            },
        }
        self.taken = Ghost(after);
        None
    }

    /// The warnings reported so far, in order.
    pub fn warnings(&self) -> (warnings: &Vec<SchemaWarning>)
        ensures
            warnings@ == self.spec_warnings(),
    {
        &self.warnings
    }

    /// Ends the read: the schemas kept where no entry refused, or `code`, with the
    /// warnings reported before it.
    pub fn finish(self, refused: Option<RVSettingsResult>) -> (read: SchemaRead)
        requires
            self.well_formed(),
        ensures
            read.warnings@ == self.spec_warnings(),
            match refused {
                Some(code) => read.schemas == Err::<Vec<SettingSchema>, RVSettingsResult>(code),
                None => read.schemas matches Ok(s) && read_as(self.taken(), s@, read.warnings@),
            },
    {
        match refused {
            Some(code) => SchemaRead { schemas: Err(code), warnings: self.warnings },
            None => SchemaRead { schemas: Ok(self.schemas), warnings: self.warnings },
        }
    }
}

/// Reads the schemas out of a registration, entry by entry: kept entries become schemas,
/// skipped ones warnings, and the first entry that refuses the registration ends it.
pub fn schemas_from_wire(entries: &Vec<WireSetting>) -> (read: SchemaRead)
    ensures
        match read.schemas {
            Ok(s) => first_match(entries@, refuses()) is None && read_as(entries@, s@, read.warnings@),
            Err(code) => match first_match(entries@, refuses()) {
                Some(k) => entry_verdict(entries@[k]) == EntryVerdict::Refuse(code) && warned_before(
                    entries@.subrange(0, k),
                    read.warnings@,
                ),
                None => false,
            },
        },
{
    let mut reader = SchemaReader::new();
    let mut i: usize = 0;
    while i < entries.len()
        invariant
            0 <= i <= entries@.len(),
            reader.well_formed(),
            reader.taken() == entries@.subrange(0, i as int),
        decreases entries@.len() - i,
    {
        proof {
            assert(entries@.subrange(0, i + 1) =~= entries@.subrange(0, i as int).push(entries@[i as int]));
        }
        if let Some(code) = reader.take(&entries[i]) {
            proof {
                assert forall|j: int| 0 <= j < i implies !refuses()(entries@[j]) by {
                    assert(entries@[j] == reader.taken()[j]);
                }
                lemma_first_match_found(entries@, refuses(), i as int);
                assert(read_as(entries@.subrange(0, i as int), reader.schemas@, reader.spec_warnings()));
            }
            return reader.finish(Some(code));
        }
        i = i + 1;
    }
    proof {
        assert(entries@.subrange(0, entries@.len() as int) =~= entries@);
        assert forall|j: int| 0 <= j < entries@.len() implies !refuses()(entries@[j]) by {
            assert(entries@[j] == reader.taken()[j]);
        }
        lemma_first_match_absent(entries@, refuses());
    }
    reader.finish(None)
}

/// Whether an entry's kind-specific part (its values, choice lists and string value)
/// is looked at: only for a known widget type whose strings were read and whose id is
/// not empty. The reader of plugin memory leaves the rest unread.
pub open spec fn spec_body_needed(known: bool, id: PluginText, name: PluginText, desc: PluginText) -> bool {
    known && id is Ok && name is Ok && desc is Ok && text_or_empty(id).len() > 0
}

/// Whether an entry's kind-specific part is looked at (see [`spec_body_needed`]).
pub fn body_needed(known: bool, id: &PluginText, name: &PluginText, desc: &PluginText) -> (needed: bool)
    ensures
        needed == spec_body_needed(known, *id, *name, *desc),
{
    if !known || id.is_err() || name.is_err() || desc.is_err() {
        return false;
    }
    match id {
        Ok(Some(text)) => !text.as_str().is_empty(),
        _ => false,
    }
}

/// Where the kind-specific part is not looked at, any body of a known kind decides the
/// entry alike: the same verdict and the same warning.
pub proof fn lemma_unread_body_is_irrelevant(e: WireSetting, f: WireSetting, w: SchemaWarning)
    requires
        e.widget_type == f.widget_type,
        e.id == f.id,
        e.name == f.name,
        e.desc == f.desc,
        !(e.body is Unknown),
        !(f.body is Unknown),
        !spec_body_needed(true, e.id, e.name, e.desc),
    ensures
        entry_verdict(e) == entry_verdict(f),
        entry_verdict(e) is Skip ==> warned_as(e, w) == warned_as(f, w),
{
}

/// A Boolean entry with readable strings and an id is kept exactly when its byte is 0
/// or 1, and the setting it becomes holds true exactly when the byte is 1: a setting
/// registered off reads as off.
pub proof fn lemma_kept_bool_reads_its_byte(e: WireSetting, s: SettingSchema)
    requires
        e.body is Bool,
        e.id is Ok,
        e.name is Ok,
        e.desc is Ok,
        text_or_empty(e.id).len() > 0,
    ensures
        (entry_verdict(e) is Keep) == (e.body->byte <= 1),
        entry_verdict(e) is Keep && kept_as(e, s) ==> s.setting == (Setting::Bool {
            value: e.body->byte == 1,
        }),
        entry_verdict(e) is Keep && kept_as(e, s) && e.body->byte == 0 ==> s.setting == (
        Setting::Bool { value: false }),
{
}

/// A kept entry carries what the plugin wrote: its strings (a null one read as empty),
/// and for numbers the value and range exactly as registered.
pub proof fn lemma_kept_entry_carries_its_wire_values(e: WireSetting, s: SettingSchema)
    requires
        kept_as(e, s),
    ensures
        s.id@ == text_or_empty(e.id),
        s.name@ == text_or_empty(e.name),
        s.desc@ == text_or_empty(e.desc),
        e.body matches WireBody::Int { value, start_range, end_range } ==> s.setting == (
        Setting::Int { value, start_range, end_range }),
        e.body matches WireBody::Float { value, start_range, end_range } ==> s.setting == (
        Setting::Float { value, start_range, end_range }),
        e.body matches WireBody::IntChoice { value, .. } ==> s.setting matches Setting::IntChoice {
            value: v,
            ..
        } && v == value,
        e.body matches WireBody::StrChoice { value, .. } ==> s.setting matches Setting::StrChoice {
            value: v,
            ..
        } && v@ == text_or_empty(value),
{
}

/// Whether a body is a choice list whose count was refused (for a string choice, with a
/// readable value).
pub open spec fn refused_choice_count(body: WireBody) -> bool {
    match body {
        WireBody::IntChoice { choices, .. } => choices is None,
        WireBody::StrChoice { value, choices } => value is Ok && choices is None,
        _ => false,
    }
}

/// A choice list of either kind whose count was refused refuses the whole registration
/// with `InvalidCount`, unless an earlier entry refused it first: the setting carrying it
/// is the first refusing entry, so [`schemas_from_wire`] answers that code.
pub proof fn lemma_refused_choice_count_refuses(entries: Seq<WireSetting>, k: int)
    requires
        0 <= k < entries.len(),
        entries[k].id is Ok,
        entries[k].name is Ok,
        entries[k].desc is Ok,
        text_or_empty(entries[k].id).len() > 0,
        refused_choice_count(entries[k].body),
        forall|j: int| 0 <= j < k ==> !(entry_verdict(entries[j]) is Refuse),
    ensures
        first_match(entries, refuses()) == Some(k),
        entry_verdict(entries[k]) == EntryVerdict::Refuse(RVSettingsResult::InvalidCount),
{
    lemma_first_match_found(entries, refuses(), k);
}

/// A choice list whose entries all lack a name is read as no choices, and refuses nothing.
pub proof fn lemma_nameless_int_choices_dropped(wire: Seq<WireIntChoice>)
    requires
        forall|i: int| 0 <= i < wire.len() ==> wire[i].name == Ok::<Option<String>, StringLimitExceeded>(None),
    ensures
        int_choices_refusal(Some(wire)) is None,
        int_choices_as(wire, Seq::empty()),
    decreases wire.len(),
{
    if wire.len() > 0 {
        lemma_nameless_int_choices_dropped(wire.drop_last());
        assert(wire.last().name == Ok::<Option<String>, StringLimitExceeded>(None));
    }
}

/// A string choice list whose entries all lack a name is read as no choices, and refuses
/// nothing, whatever their values.
pub proof fn lemma_nameless_str_choices_dropped(wire: Seq<WireStrChoice>)
    requires
        forall|i: int| 0 <= i < wire.len() ==> wire[i].name == Ok::<Option<String>, StringLimitExceeded>(None),
    ensures
        str_choices_refusal(Some(wire)) is None,
        str_choices_as(wire, Seq::empty()),
    decreases wire.len(),
{
    if wire.len() > 0 {
        lemma_nameless_str_choices_dropped(wire.drop_last());
        assert(wire.last().name == Ok::<Option<String>, StringLimitExceeded>(None));
        assert(!str_choice_kept(wire.last()));
    }
    assert(!some_str_choice_refuses(wire)) by {
        assert forall|i: int| 0 <= i < wire.len() implies !str_choice_refuses(#[trigger] wire[i]) by {
            assert(wire[i].name == Ok::<Option<String>, StringLimitExceeded>(None));
        }
    }
}

/// The module a registration names: `None`, refusing it, when the name could not be
/// read, was null or is empty.
pub fn registration_id(reg_id: PluginText) -> (id: Option<String>)
    ensures
        match reg_id {
            Ok(Some(r)) => if r@.len() > 0 {
                id == Some(r)
            } else {
                id is None
            },
            _ => id is None,
        },
{
    match reg_id {
        Ok(Some(r)) => {
            if r.as_str().is_empty() {
                None
            } else {
                Some(r)
            }
        },
        _ => None,
    }
}

/// The module, extension and id a plugin's settings lookup names: `None`, refusing it,
/// when any of them could not be read or the module or id is null. A null extension
/// reads as the global value's, the empty one.
pub fn lookup_keys(reg_id: PluginText, ext: PluginText, id: PluginText) -> (keys: Option<(String, String, String)>)
    ensures
        match (reg_id, ext, id) {
            (Ok(Some(r)), Ok(e), Ok(Some(i))) => keys matches Some(k) && k.0 == r && k.1@ == (
            match e {
                Some(x) => x@,
                None => Seq::<char>::empty(),
            }) && k.2 == i,
            _ => keys is None,
        },
{
    match (reg_id, ext, id) {
        (Ok(Some(r)), Ok(e), Ok(Some(i))) => {
            let e = match e {
                Some(x) => x,
                None => String::new(),
            };
            Some((r, e, i))
        },
        _ => None,
    }
}

} // verus!
