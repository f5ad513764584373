//! The settings service: the registry a plugin registers into and a host renders from.
//!
//! The crate owns the bookkeeping: schema storage, duplicate detection, type checking and
//! per-extension resolution, so every host gets the same answers. A host supplies only
//! persistence.
//!
//! Float values travel as their IEEE-754 single-precision bit patterns, and compare the
//! way `f32` does: NaN equals nothing, and the two zeros are equal.

use vstd::prelude::*;

use crate::ffi::settings::{
    RVSettingsResult, RVS_BOOL_TYPE, RVS_CHOICE_COUNT_LIMIT, RVS_FLOAT_TYPE,
    RVS_INTEGER_RANGE_TYPE, RVS_INTEGER_TYPE, RVS_STRING_RANGE_TYPE, RV_SETTINGS_COUNT_LIMIT,
};
use crate::text::{
    ascii_lower, contains_nul, drop_leading_dots, holds_nul, lowercase, same_text, to_lowercase,
    trim_leading_dots,
};
use vstd::string::StringSliceAdditionalSpecFns;
use vstd::utf8::is_ascii_chars;

verus! {

/// Maximum number of settings accepted in one plugin registration.
pub const SETTINGS_COUNT_LIMIT: u64 = RV_SETTINGS_COUNT_LIMIT;
/// Maximum number of choices accepted by one fixed-range setting.
pub const SETTING_CHOICE_COUNT_LIMIT: u64 = RVS_CHOICE_COUNT_LIMIT;
/// Longest registration identifier accepted from a plugin, in bytes.
pub const SETTING_REG_ID_LIMIT: usize = 128;
/// Longest setting identifier accepted from a plugin, in bytes.
pub const SETTING_ID_LIMIT: usize = 128;
/// Longest setting or choice display label accepted from a plugin, in bytes.
pub const SETTING_LABEL_LIMIT: usize = 256;
/// Longest setting description accepted from a plugin, in bytes.
pub const SETTING_DESCRIPTION_LIMIT: usize = 4096;
/// Longest string setting value accepted from a plugin, in bytes.
pub const SETTING_VALUE_LIMIT: usize = 4096;
/// Longest extension selector accepted from a plugin, in bytes.
pub const SETTING_EXTENSION_LIMIT: usize = 32;

/// The element count of a plugin array, once it is within `limit` and an array of that
/// many `T` fits the address space (`Layout::array` accepts it: at most `isize::MAX`
/// bytes).
pub open spec fn array_count_verdict<T>(count: u64, limit: u64) -> Option<usize> {
    if count > limit || count > usize::MAX {
        None
    } else if count as int * vstd::layout::size_of::<T>() > isize::MAX {
        None
    } else {
        Some(count as usize)
    }
}

/// Validates a plugin-supplied array count before any conversion, slicing or allocation.
pub fn checked_array_count<T>(count: u64, limit: u64) -> (checked: Option<usize>)
    ensures
        checked == array_count_verdict::<T>(count, limit),
{
    if count > limit {
        return None;
    }
    if count > usize::MAX as u64 {
        return None;
    }
    let count = count as usize;
    let size = core::mem::size_of::<T>();
    match count.checked_mul(size) {
        Some(bytes) => if bytes > isize::MAX as usize {
            None
        } else {
            Some(count)
        },
        None => None,
    }
}

/// The five widget kinds the ABI defines.
#[derive(Debug, Clone, Copy, PartialEq, Eq, Structural)]
pub enum SettingKind {
    Float,
    Int,
    Bool,
    IntChoice,
    StrChoice,
}

impl SettingKind {
    /// The kind a `widget_type` names, or `None` for one the ABI does not define.
    pub fn from_wire(value: u64) -> (kind: Option<Self>)
        ensures
            kind == if value == RVS_FLOAT_TYPE {
                Some(SettingKind::Float)
            } else if value == RVS_INTEGER_TYPE {
                Some(SettingKind::Int)
            } else if value == RVS_BOOL_TYPE {
                Some(SettingKind::Bool)
            } else if value == RVS_INTEGER_RANGE_TYPE {
                Some(SettingKind::IntChoice)
            } else if value == RVS_STRING_RANGE_TYPE {
                Some(SettingKind::StrChoice)
            } else {
                None
            },
    {
        if value == RVS_FLOAT_TYPE {
            Some(SettingKind::Float)
        } else if value == RVS_INTEGER_TYPE {
            Some(SettingKind::Int)
        } else if value == RVS_BOOL_TYPE {
            Some(SettingKind::Bool)
        } else if value == RVS_INTEGER_RANGE_TYPE {
            Some(SettingKind::IntChoice)
        } else if value == RVS_STRING_RANGE_TYPE {
            Some(SettingKind::StrChoice)
        } else {
            None
        }
    }
}

/// One entry of a fixed-range setting: a display name for a value.
#[derive(Debug, Clone, PartialEq)]
pub struct Choice<T> {
    pub name: String,
    pub value: T,
}

/// The value a setting holds. Closed, because the ABI is frozen at these five kinds.
/// Float fields hold IEEE-754 single-precision bit patterns.
#[derive(Debug, Clone, PartialEq)]
pub enum Setting {
    /// `start_range == end_range` means the plugin declared no bounds.
    Float { value: u32, start_range: u32, end_range: u32 },
    /// `start_range == end_range` means the plugin declared no bounds.
    Int { value: i32, start_range: i32, end_range: i32 },
    Bool { value: bool },
    IntChoice { value: i32, choices: Vec<Choice<i32>> },
    StrChoice { value: String, choices: Vec<Choice<String>> },
}

/// A setting's value, as it crosses the host-facing surface and the persistence store.
/// A float is its IEEE-754 single-precision bit pattern.
#[derive(Debug, Clone, PartialEq)]
pub enum Value {
    Float(u32),
    Int(i32),
    Bool(bool),
    Str(String),
}

/// What a [`Value`] stands for.
pub enum ValueView {
    Float(u32),
    Int(i32),
    Bool(bool),
    Str(Seq<char>),
}

impl View for Value {
    type V = ValueView;

    open spec fn view(&self) -> ValueView {
        match self {
            Value::Float(bits) => ValueView::Float(*bits),
            Value::Int(v) => ValueView::Int(*v),
            Value::Bool(v) => ValueView::Bool(*v),
            Value::Str(s) => ValueView::Str(s@),
        }
    }
}

/// Whether a single-precision bit pattern is a NaN.
pub open spec fn f32_bits_nan(bits: u32) -> bool {
    bits & 0x7f80_0000 == 0x7f80_0000 && bits & 0x007f_ffff != 0
}

/// Whether a single-precision bit pattern is one of the two zeros.
pub open spec fn f32_bits_zero(bits: u32) -> bool {
    bits & 0x7fff_ffff == 0
}

/// `==` on the floats two bit patterns encode: NaN equals nothing, the zeros are equal.
pub open spec fn f32_bits_equal(a: u32, b: u32) -> bool {
    !f32_bits_nan(a) && !f32_bits_nan(b) && (a == b || (f32_bits_zero(a) && f32_bits_zero(b)))
}

/// Whether two values are equal: of one kind, and equal as that kind's Rust type.
pub open spec fn value_equal(a: ValueView, b: ValueView) -> bool {
    match (a, b) {
        (ValueView::Float(x), ValueView::Float(y)) => f32_bits_equal(x, y),
        (ValueView::Int(x), ValueView::Int(y)) => x == y,
        (ValueView::Bool(x), ValueView::Bool(y)) => x == y,
        (ValueView::Str(x), ValueView::Str(y)) => x == y,
        _ => false,
    }
}

/// Two values that are not both floats are equal exactly when they are the same value:
/// same kind, same content. (Floats compare as `f32`, where NaN equals nothing and the
/// two zeros are equal.)
pub proof fn lemma_value_equal_is_sameness(a: ValueView, b: ValueView)
    requires
        !(a is Float && b is Float),
    ensures
        value_equal(a, b) == (a == b),
{
}

/// A float equals itself unless it is NaN, never equals a value of another kind, and the
/// two zeros are equal.
pub proof fn lemma_float_equality(x: u32, y: u32, other: ValueView)
    requires
        !(other is Float),
    ensures
        value_equal(ValueView::Float(x), ValueView::Float(x)) == !f32_bits_nan(x),
        !value_equal(ValueView::Float(x), other),
        !value_equal(other, ValueView::Float(x)),
        value_equal(ValueView::Float(0u32), ValueView::Float(0x8000_0000u32)),
        f32_bits_nan(x) ==> !value_equal(ValueView::Float(x), ValueView::Float(y)),
{
    assert(0u32 & 0x7f80_0000u32 != 0x7f80_0000u32) by (bit_vector);
    assert(0x8000_0000u32 & 0x7f80_0000u32 != 0x7f80_0000u32) by (bit_vector);
    assert(0u32 & 0x7fff_ffffu32 == 0u32) by (bit_vector);
    assert(0x8000_0000u32 & 0x7fff_ffffu32 == 0u32) by (bit_vector);
}

/// Compares two values of one kind by that kind's `==`; values of different kinds differ.
pub fn values_equal(a: &Value, b: &Value) -> (equal: bool)
    ensures
        equal == value_equal(a@, b@),
{
    match (a, b) {
        (Value::Float(x), Value::Float(y)) => {
            let x_nan = *x & 0x7f80_0000 == 0x7f80_0000 && *x & 0x007f_ffff != 0;
            let y_nan = *y & 0x7f80_0000 == 0x7f80_0000 && *y & 0x007f_ffff != 0;
            !x_nan && !y_nan && (*x == *y || (*x & 0x7fff_ffff == 0 && *y & 0x7fff_ffff == 0))
        },
        (Value::Int(x), Value::Int(y)) => *x == *y,
        (Value::Bool(x), Value::Bool(y)) => *x == *y,
        (Value::Str(x), Value::Str(y)) => same_text(x.as_str(), y.as_str()),
        _ => false,
    }
}

impl Value {
    /// The accessor name that reads this kind, for error messages.
    pub open spec fn spec_kind_name(&self) -> &'static str {
        match self {
            Value::Float(_) => "float",
            Value::Int(_) => "int",
            Value::Bool(_) => "bool",
            Value::Str(_) => "string",
        }
    }

    /// The accessor name that reads this kind, for error messages.
    pub fn kind_name(&self) -> (name: &'static str)
        ensures
            name == self.spec_kind_name(),
    {
        match self {
            Value::Float(_) => "float",
            Value::Int(_) => "int",
            Value::Bool(_) => "bool",
            Value::Str(_) => "string",
        }
    }
}

impl Setting {
    /// The accessor name that reads this kind, for error messages.
    pub open spec fn spec_kind_name(&self) -> &'static str {
        match self {
            Setting::Float { .. } => "float",
            Setting::Int { .. } => "int",
            Setting::IntChoice { .. } => "int",
            Setting::Bool { .. } => "bool",
            Setting::StrChoice { .. } => "string",
        }
    }

    /// The accessor name that reads this kind, for error messages.
    pub fn kind_name(&self) -> (name: &'static str)
        ensures
            name == self.spec_kind_name(),
    {
        match self {
            Setting::Float { .. } => "float",
            Setting::Int { .. } | Setting::IntChoice { .. } => "int",
            Setting::Bool { .. } => "bool",
            Setting::StrChoice { .. } => "string",
        }
    }

    /// The value the setting currently holds.
    pub open spec fn current(&self) -> ValueView {
        match self {
            Setting::Float { value, .. } => ValueView::Float(*value),
            Setting::Int { value, .. } => ValueView::Int(*value),
            Setting::IntChoice { value, .. } => ValueView::Int(*value),
            Setting::Bool { value } => ValueView::Bool(*value),
            Setting::StrChoice { value, .. } => ValueView::Str(value@),
        }
    }

    /// The value the setting currently holds.
    pub fn value(&self) -> (value: Value)
        ensures
            value@ == self.current(),
    {
        match self {
            Setting::Float { value, .. } => Value::Float(*value),
            Setting::Int { value, .. } | Setting::IntChoice { value, .. } => Value::Int(*value),
            Setting::Bool { value } => Value::Bool(*value),
            Setting::StrChoice { value, .. } => Value::Str(value.clone()),
        }
    }

    /// Whether the setting can hold `value`: a choice setting holds its underlying kind.
    pub open spec fn holds_kind_of(&self, value: ValueView) -> bool {
        match (self, value) {
            (Setting::Float { .. }, ValueView::Float(_)) => true,
            (Setting::Int { .. }, ValueView::Int(_)) => true,
            (Setting::IntChoice { .. }, ValueView::Int(_)) => true,
            (Setting::Bool { .. }, ValueView::Bool(_)) => true,
            (Setting::StrChoice { .. }, ValueView::Str(_)) => true,
            _ => false,
        }
    }

    /// Whether the setting can hold `value`.
    pub fn accepts(&self, value: &Value) -> (accepted: bool)
        ensures
            accepted == self.holds_kind_of(value@),
    {
        match (self, value) {
            (Setting::Float { .. }, Value::Float(_)) => true,
            (Setting::Int { .. }, Value::Int(_)) => true,
            (Setting::IntChoice { .. }, Value::Int(_)) => true,
            (Setting::Bool { .. }, Value::Bool(_)) => true,
            (Setting::StrChoice { .. }, Value::Str(_)) => true,
            _ => false,
        }
    }

    /// The setting with its value replaced and everything else, kind, bounds and
    /// choices, kept.
    pub open spec fn keeps_all_but_value(self, before: Setting) -> bool {
        match (before, self) {
            (
                Setting::Float { start_range: s0, end_range: e0, .. },
                Setting::Float { start_range: s1, end_range: e1, .. },
            ) => s0 == s1 && e0 == e1,
            (
                Setting::Int { start_range: s0, end_range: e0, .. },
                Setting::Int { start_range: s1, end_range: e1, .. },
            ) => s0 == s1 && e0 == e1,
            (Setting::Bool { .. }, Setting::Bool { .. }) => true,
            (Setting::IntChoice { choices: c0, .. }, Setting::IntChoice { choices: c1, .. }) => c0
                == c1,
            (Setting::StrChoice { choices: c0, .. }, Setting::StrChoice { choices: c1, .. }) => c0
                == c1,
            _ => false,
        }
    }

    /// Stores a value the setting accepts.
    pub fn assign(&mut self, new: Value)
        requires
            old(self).holds_kind_of(new@),
        ensures
            final(self).current() == new@,
            final(self).keeps_all_but_value(*old(self)),
    {
        match (self, new) {
            (Setting::Float { value, .. }, Value::Float(new)) => *value = new,
            (Setting::Int { value, .. }, Value::Int(new)) => *value = new,
            (Setting::IntChoice { value, .. }, Value::Int(new)) => *value = new,
            (Setting::Bool { value }, Value::Bool(new)) => *value = new,
            (Setting::StrChoice { value, .. }, Value::Str(new)) => *value = new,
            _ => {},
        }
    }
}

/// Extensions are compared without leading dots and without case, so a setting stored
/// for `.MOD` answers a lookup for `mod`.
pub open spec fn normalized_ext(ext: Seq<char>) -> Seq<char> {
    let trimmed = drop_leading_dots(ext);
    if is_ascii_chars(trimmed) {
        trimmed.map_values(|c: char| ascii_lower(c))
    } else {
        lowercase(trimmed)
    }
}

/// The empty extension is the global value's key.
pub proof fn lemma_empty_extension_is_global()
    ensures
        normalized_ext(Seq::<char>::empty()).len() == 0,
{
    assert(Seq::<char>::empty().map_values(|c: char| ascii_lower(c)) =~= Seq::<char>::empty());
}

/// A leading dot does not change the key an extension goes by.
pub proof fn lemma_leading_dot_ignored(ext: Seq<char>)
    ensures
        normalized_ext(seq!['.'] + ext) == normalized_ext(ext),
{
    assert((seq!['.'] + ext).drop_first() =~= ext);
}

/// Lowering ASCII text and then dropping its leading dots is dropping them first.
proof fn lemma_lower_then_drop(a: Seq<char>)
    requires
        is_ascii_chars(a),
    ensures
        is_ascii_chars(drop_leading_dots(a)),
        drop_leading_dots(a).map_values(|c: char| ascii_lower(c)) == drop_leading_dots(
            a.map_values(|c: char| ascii_lower(c)),
        ),
    decreases a.len(),
{
    let lowered = a.map_values(|c: char| ascii_lower(c));
    if a.len() > 0 {
        assert(lowered[0] == ascii_lower(a[0]));
        assert(lowered.drop_first() =~= a.drop_first().map_values(|c: char| ascii_lower(c)));
        if a[0] == '.' {
            lemma_lower_then_drop(a.drop_first());
        } else {
            assert(ascii_lower(a[0]) != '.');
        }
    }
}

/// ASCII extensions that differ only in the case of their letters go by the same key.
pub proof fn lemma_ascii_case_ignored(a: Seq<char>, b: Seq<char>)
    requires
        is_ascii_chars(a),
        is_ascii_chars(b),
        a.map_values(|c: char| ascii_lower(c)) == b.map_values(|c: char| ascii_lower(c)),
    ensures
        normalized_ext(a) == normalized_ext(b),
{
    lemma_lower_then_drop(a);
    lemma_lower_then_drop(b);
}

/// The extension key a lookup or a write goes by.
pub fn normalize_ext(ext: &str) -> (key: String)
    ensures
        key@ == normalized_ext(ext@),
{
    to_lowercase(trim_leading_dots(ext))
}

/// Whether a value can reach a plugin: a string with an interior NUL cannot be a
/// `const char*`, so the registry refuses it at the door.
pub open spec fn value_nul_free(value: ValueView) -> bool {
    match value {
        ValueView::Str(s) => !holds_nul(vstd::utf8::encode_utf8(s)),
        _ => true,
    }
}

/// Whether a value can reach a plugin as a C string.
pub fn nul_free(value: &Value) -> (free: bool)
    ensures
        free == value_nul_free(value@),
{
    match value {
        Value::Str(text) => !contains_nul(text.as_str().as_bytes()),
        _ => true,
    }
}


impl Value {
    /// An independent copy of the value.
    pub fn duplicate(&self) -> (copy: Value)
        ensures
            copy@ == self@,
    {
        match self {
            Value::Float(bits) => Value::Float(*bits),
            Value::Int(v) => Value::Int(*v),
            Value::Bool(v) => Value::Bool(*v),
            Value::Str(s) => Value::Str(s.clone()),
        }
    }
}

/// A registered setting: its identity and description, plus the value it holds.
#[derive(Debug, Clone, PartialEq)]
pub struct SettingSchema {
    pub id: String,
    pub name: String,
    pub desc: String,
    pub setting: Setting,
}

/// One value as persistence sees it. `ext` is empty for the global value.
#[derive(Debug, Clone, PartialEq)]
pub struct StoredValue {
    pub ext: String,
    pub id: String,
    pub value: Value,
}

/// What a [`StoredValue`] stands for.
pub struct StoredView {
    pub ext: Seq<char>,
    pub id: Seq<char>,
    pub value: ValueView,
}

impl View for StoredValue {
    type V = StoredView;

    open spec fn view(&self) -> StoredView {
        StoredView { ext: self.ext@, id: self.id@, value: self.value@ }
    }
}

impl StoredValue {
    /// An independent copy of the stored value.
    pub fn duplicate(&self) -> (copy: StoredValue)
        ensures
            copy@ == self@,
    {
        StoredValue { ext: self.ext.clone(), id: self.id.clone(), value: self.value.duplicate() }
    }
}

/// Where a host keeps settings between runs.
///
/// Dumb by design: the registry resolves and type-checks, the store only moves values. No
/// file format is picked here: `load` and `save` work in whole per-`reg_id` sets.
pub trait SettingsStore: Send + Sync {
    /// Called while the plugin registers, so its saved values are live from the first read.
    fn load(&self, reg_id: &str) -> Vec<StoredValue>;

    fn save(&self, reg_id: &str, values: &[StoredValue]);
}

/// Whether a settings change can be applied live or needs the song reopened.
///
/// Nothing can apply a change to an already-open song until its plugin instance says so,
/// which is what the plugin's `settings_updated` callback answers; until then a real change
/// reports [`SettingsUpdate::RequireRestart`] and a write that changed nothing reports
/// [`SettingsUpdate::Default`].
#[derive(Debug, Clone, Copy, PartialEq, Eq, Structural)]
pub enum SettingsUpdate {
    Default,
    RequireRestart,
}

/// Why a registration or a lookup did not succeed.
#[derive(Debug, Clone, PartialEq, Eq)]
pub enum SettingsError {
    NotFound { reg_id: String },
    UnknownId { reg_id: String, id: String },
    WrongType { reg_id: String, id: String, actual: &'static str, requested: &'static str },
    InteriorNul { reg_id: String, id: String },
    DuplicateRegId { reg_id: String },
    DuplicateId { reg_id: String, id: String },
}

/// What a [`SettingsError`] stands for.
pub enum ErrorView {
    NotFound { reg_id: Seq<char> },
    UnknownId { reg_id: Seq<char>, id: Seq<char> },
    WrongType { reg_id: Seq<char>, id: Seq<char>, actual: &'static str, requested: &'static str },
    InteriorNul { reg_id: Seq<char>, id: Seq<char> },
    DuplicateRegId { reg_id: Seq<char> },
    DuplicateId { reg_id: Seq<char>, id: Seq<char> },
}

impl View for SettingsError {
    type V = ErrorView;

    open spec fn view(&self) -> ErrorView {
        match self {
            SettingsError::NotFound { reg_id } => ErrorView::NotFound { reg_id: reg_id@ },
            SettingsError::UnknownId { reg_id, id } => ErrorView::UnknownId {
                reg_id: reg_id@,
                id: id@,
            },
            SettingsError::WrongType { reg_id, id, actual, requested } => ErrorView::WrongType {
                reg_id: reg_id@,
                id: id@,
                actual: *actual,
                requested: *requested,
            },
            SettingsError::InteriorNul { reg_id, id } => ErrorView::InteriorNul {
                reg_id: reg_id@,
                id: id@,
            },
            SettingsError::DuplicateRegId { reg_id } => ErrorView::DuplicateRegId {
                reg_id: reg_id@,
            },
            SettingsError::DuplicateId { reg_id, id } => ErrorView::DuplicateId {
                reg_id: reg_id@,
                id: id@,
            },
        }
    }
}

impl SettingsError {
    /// The code the ABI reports this error as.
    pub open spec fn abi_code(&self) -> RVSettingsResult {
        match self {
            SettingsError::NotFound { .. } => RVSettingsResult::NotFound,
            SettingsError::UnknownId { .. } => RVSettingsResult::UnknownId,
            SettingsError::WrongType { .. } => RVSettingsResult::WrongType,
            SettingsError::InteriorNul { .. } => RVSettingsResult::WrongType,
            SettingsError::DuplicateRegId { .. } => RVSettingsResult::DuplicatedId,
            SettingsError::DuplicateId { .. } => RVSettingsResult::DuplicatedId,
        }
    }

    /// The code the ABI reports this error as.
    pub fn to_abi(&self) -> (code: RVSettingsResult)
        ensures
            code == self.abi_code(),
    {
        match self {
            SettingsError::NotFound { .. } => RVSettingsResult::NotFound,
            SettingsError::UnknownId { .. } => RVSettingsResult::UnknownId,
            SettingsError::WrongType { .. } | SettingsError::InteriorNul { .. } => {
                RVSettingsResult::WrongType
            },
            SettingsError::DuplicateRegId { .. } | SettingsError::DuplicateId { .. } => {
                RVSettingsResult::DuplicatedId
            },
        }
    }
}

/// A lookup's result, by what its parts stand for.
pub open spec fn read_result_view(r: Result<Value, SettingsError>) -> Result<ValueView, ErrorView> {
    match r {
        Ok(v) => Ok(v@),
        Err(e) => Err(e@),
    }
}

} // verus!
