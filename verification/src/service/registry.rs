//! The settings registry: one module per plugin registration, each holding the schemas it
//! registered and its per-extension overrides. Lookups and writes resolve here; the
//! shared handle around it only locks and persists.

use vstd::prelude::*;

use crate::service::settings::{
    lemma_value_equal_is_sameness, normalize_ext, normalized_ext, nul_free, value_equal, value_nul_free, values_equal,
    ErrorView, SettingSchema, SettingsError, SettingsUpdate, StoredValue, StoredView, Value,
    ValueView,
};
use crate::text::{
    first_match, lemma_first_match_absent, lemma_first_match_facts, lemma_first_match_found,
    lemma_first_match_none, lemma_first_match_push, lemma_first_match_same, lemma_least_match, same_text,
};

verus! {

/// Matches the schema registered under `id`.
pub open spec fn names_schema(id: Seq<char>) -> spec_fn(SettingSchema) -> bool {
    |s: SettingSchema| s.id@ == id
}

/// Matches the override stored for `ext` and `id`.
pub open spec fn names_override(ext: Seq<char>, id: Seq<char>) -> spec_fn(StoredValue) -> bool {
    |o: StoredValue| o.ext@ == ext && o.id@ == id
}

/// The accessor name that reads a value of this kind.
pub open spec fn value_kind_name(value: ValueView) -> &'static str {
    match value {
        ValueView::Float(_) => "float",
        ValueView::Int(_) => "int",
        ValueView::Bool(_) => "bool",
        ValueView::Str(_) => "string",
    }
}

/// Why a stored value was not restored into a module.
#[derive(Debug, Clone, Copy, PartialEq, Eq)]
pub enum RestoreOutcome {
    /// The value now holds.
    Restored,
    /// The module has no setting under the stored id.
    UnknownId,
    /// The setting is of another kind than the stored value.
    WrongType { actual: &'static str, requested: &'static str },
    /// The stored string holds a NUL, which no plugin could be handed.
    InteriorNul,
}

/// One plugin's settings: the schemas it registered, plus per-extension overrides.
pub struct Module {
    registration_order: usize,
    reg_id: String,
    schemas: Vec<SettingSchema>,
    overrides: Vec<StoredValue>,
    dirty: bool,
    saving: bool,
    revision: u64,
}

impl Module {
    pub closed spec fn spec_order(&self) -> usize {
        self.registration_order
    }

    pub closed spec fn spec_reg_id(&self) -> Seq<char> {
        self.reg_id@
    }

    pub closed spec fn spec_schemas(&self) -> Seq<SettingSchema> {
        self.schemas@
    }

    pub closed spec fn spec_overrides(&self) -> Seq<StoredValue> {
        self.overrides@
    }

    /// Changed since it was last written to the store.
    pub closed spec fn spec_dirty(&self) -> bool {
        self.dirty
    }

    /// Handed to the store and not yet reported back.
    pub closed spec fn spec_saving(&self) -> bool {
        self.saving
    }

    /// Counts the changes, so a save can tell whether an edit raced it.
    pub closed spec fn spec_revision(&self) -> u64 {
        self.revision
    }

    /// A freshly registered module: clean, with no overrides.
    pub fn new(registration_order: usize, reg_id: &str, schemas: Vec<SettingSchema>) -> (module:
        Module)
        ensures
            module.spec_order() == registration_order,
            module.spec_reg_id() == reg_id@,
            module.spec_schemas() == schemas@,
            module.spec_overrides().len() == 0,
            !module.spec_dirty(),
            !module.spec_saving(),
            module.spec_revision() == 0,
            module.well_formed(),
    {
        Module {
            registration_order,
            reg_id: reg_id.to_owned(),
            schemas,
            overrides: Vec::new(),
            dirty: false,
            saving: false,
            revision: 0,
        }
    }

    pub fn reg_id(&self) -> (reg_id: &str)
        ensures
            reg_id@ == self.spec_reg_id(),
    {
        self.reg_id.as_str()
    }

    pub fn schemas(&self) -> (schemas: &[SettingSchema])
        ensures
            schemas@ == self.spec_schemas(),
    {
        self.schemas.as_slice()
    }

    /// The value a lookup for `id` under extension key `ext` reads: the override for that
    /// extension when there is one, else the global value. `None` when no setting is
    /// registered under `id`.
    pub open spec fn read(&self, ext: Seq<char>, id: Seq<char>) -> Option<ValueView> {
        match first_match(self.spec_schemas(), names_schema(id)) {
            None => None,
            Some(si) => if ext.len() > 0 && first_match(self.spec_overrides(), names_override(ext, id))
                is Some {
                Some(
                    self.spec_overrides()[first_match(
                        self.spec_overrides(),
                        names_override(ext, id),
                    )->0].value@,
                )
            } else {
                Some(self.spec_schemas()[si].setting.current())
            },
        }
    }

    /// Where the schema registered under `id` is.
    pub fn schema_index(&self, id: &str) -> (index: Option<usize>)
        ensures
            match index {
                Some(i) => first_match(self.spec_schemas(), names_schema(id@)) == Some(i as int),
                None => first_match(self.spec_schemas(), names_schema(id@)) is None,
            },
    {
        let mut i: usize = 0;
        while i < self.schemas.len()
            invariant
                0 <= i <= self.schemas@.len(),
                forall|j: int| 0 <= j < i ==> !names_schema(id@)(self.schemas@[j]),
            decreases self.schemas@.len() - i,
        {
            if same_text(self.schemas[i].id.as_str(), id) {
                proof {
                    lemma_first_match_found(self.schemas@, names_schema(id@), i as int);
                }
                return Some(i);
            }
            i = i + 1;
        }
        proof {
            lemma_first_match_absent(self.schemas@, names_schema(id@));
        }
        None
    }

    /// Where the override for `ext` and `id` is.
    pub fn override_index(&self, ext: &str, id: &str) -> (index: Option<usize>)
        ensures
            match index {
                Some(i) => first_match(self.spec_overrides(), names_override(ext@, id@)) == Some(
                    i as int,
                ),
                None => first_match(self.spec_overrides(), names_override(ext@, id@)) is None,
            },
    {
        let mut i: usize = 0;
        while i < self.overrides.len()
            invariant
                0 <= i <= self.overrides@.len(),
                forall|j: int| 0 <= j < i ==> !names_override(ext@, id@)(self.overrides@[j]),
            decreases self.overrides@.len() - i,
        {
            if same_text(self.overrides[i].ext.as_str(), ext) && same_text(
                self.overrides[i].id.as_str(),
                id,
            ) {
                proof {
                    lemma_first_match_found(self.overrides@, names_override(ext@, id@), i as int);
                }
                return Some(i);
            }
            i = i + 1;
        }
        proof {
            lemma_first_match_absent(self.overrides@, names_override(ext@, id@));
        }
        None
    }

    /// What writing `value` for `ext` and `id` leaves: the schema's own value replaced when
    /// `ext` is empty, else the override for that extension set, appended if it is new.
    /// Nothing else changes.
    pub open spec fn written(self, before: Module, ext: Seq<char>, id: Seq<char>, value: ValueView) -> bool {
        let si = first_match(before.spec_schemas(), names_schema(id))->0;
        &&& self.spec_order() == before.spec_order()
        &&& self.spec_reg_id() == before.spec_reg_id()
        &&& self.spec_dirty() == before.spec_dirty()
        &&& self.spec_saving() == before.spec_saving()
        &&& self.spec_revision() == before.spec_revision()
        &&& ext.len() == 0 ==> {
            &&& self.spec_schemas().len() == before.spec_schemas().len()
            &&& forall|j: int|
                0 <= j < self.spec_schemas().len() && j != si ==> self.spec_schemas()[j] == before.spec_schemas()[j]
            &&& self.spec_schemas()[si].id == before.spec_schemas()[si].id
            &&& self.spec_schemas()[si].name == before.spec_schemas()[si].name
            &&& self.spec_schemas()[si].desc == before.spec_schemas()[si].desc
            &&& self.spec_schemas()[si].setting.current() == value
            &&& self.spec_schemas()[si].setting.keeps_all_but_value(before.spec_schemas()[si].setting)
            &&& self.spec_overrides() == before.spec_overrides()
        }
        &&& ext.len() > 0 ==> {
            &&& self.spec_schemas() == before.spec_schemas()
            &&& match first_match(before.spec_overrides(), names_override(ext, id)) {
                Some(oi) => {
                    &&& self.spec_overrides().len() == before.spec_overrides().len()
                    &&& forall|j: int|
                        0 <= j < self.spec_overrides().len() && j != oi ==> self.spec_overrides()[j]
                            == before.spec_overrides()[j]
                    &&& self.spec_overrides()[oi].ext@ == ext
                    &&& self.spec_overrides()[oi].id@ == id
                    &&& self.spec_overrides()[oi].value@ == value
                },
                None => {
                    &&& self.spec_overrides().len() == before.spec_overrides().len() + 1
                    &&& forall|j: int|
                        0 <= j < before.spec_overrides().len() ==> self.spec_overrides()[j]
                            == before.spec_overrides()[j]
                    &&& self.spec_overrides().last()@ == (StoredView { ext, id, value })
                },
            }
        }
    }

    /// Writes a value the schema has already accepted, under extension key `ext`.
    pub fn write(&mut self, ext: &str, id: &str, value: Value)
        requires
            first_match(old(self).spec_schemas(), names_schema(id@)) is Some,
            old(self).spec_schemas()[first_match(
                old(self).spec_schemas(),
                names_schema(id@),
            )->0].setting.holds_kind_of(value@),
        ensures
            final(self).written(*old(self), ext@, id@, value@),
    {
        proof {
            lemma_first_match_facts(self.schemas@, names_schema(id@));
        }
        if ext.is_empty() {
            let si = match self.schema_index(id) {
                Some(si) => si,
                None => return,
            };
            let ghost before = self.schemas@;
            let mut schema = self.schemas.remove(si);
            schema.setting.assign(value);
            self.schemas.insert(si, schema);
            proof {
                assert(self.schemas@ =~= before.update(si as int, schema));
            }
            return;
        }
        proof {
            lemma_first_match_facts(self.overrides@, names_override(ext@, id@));
        }
        match self.override_index(ext, id) {
            Some(oi) => {
                let ghost before = self.overrides@;
                let mut over = self.overrides.remove(oi);
                over.value = value;
                self.overrides.insert(oi, over);
                proof {
                    assert(self.overrides@ =~= before.update(oi as int, over));
                }
            },
            None => {
                self.overrides.push(StoredValue { ext: ext.to_owned(), id: id.to_owned(), value });
            },
        }
    }
}


/// What [`Module::stored_values`] hands the store for one schema: its global value.
pub open spec fn global_stored(schema: SettingSchema) -> StoredView {
    StoredView { ext: Seq::empty(), id: schema.id@, value: schema.setting.current() }
}

/// Why restoring `stored` into a module would fail, or `None` when it would hold.
pub open spec fn restore_refusal(schemas: Seq<SettingSchema>, stored: StoredView) -> Option<
    RestoreOutcome,
> {
    match first_match(schemas, names_schema(stored.id)) {
        None => Some(RestoreOutcome::UnknownId),
        Some(si) => if !schemas[si].setting.holds_kind_of(stored.value) {
            Some(
                RestoreOutcome::WrongType {
                    actual: schemas[si].setting.spec_kind_name(),
                    requested: value_kind_name(stored.value),
                },
            )
        } else if !value_nul_free(stored.value) {
            Some(RestoreOutcome::InteriorNul)
        } else {
            None
        },
    }
}

impl Module {
    /// Overrides have non-empty extension keys, and no two share one extension and id.
    pub open spec fn well_formed(&self) -> bool {
        &&& forall|i: int| 0 <= i < self.spec_overrides().len() ==> self.spec_overrides()[i].ext@.len() > 0
        &&& forall|i: int, j: int|
            0 <= i < j < self.spec_overrides().len() ==> !(self.spec_overrides()[i].ext@
                == self.spec_overrides()[j].ext@ && self.spec_overrides()[i].id@ == self.spec_overrides()[j].id@)
    }

    /// Writing keeps a module well formed.
    pub proof fn lemma_written_well_formed(
        self,
        before: Module,
        ext: Seq<char>,
        id: Seq<char>,
        value: ValueView,
    )
        requires
            before.well_formed(),
            self.written(before, ext, id, value),
        ensures
            self.well_formed(),
    {
        lemma_first_match_facts(before.overrides@, names_override(ext, id));
        if ext.len() > 0 {
            match first_match(before.overrides@, names_override(ext, id)) {
                Some(oi) => {
                    assert forall|i: int, j: int|
                        0 <= i < j < self.overrides@.len() implies !(self.overrides@[i].ext@
                        == self.overrides@[j].ext@ && self.overrides@[i].id@
                        == self.overrides@[j].id@) by {
                        assert(before.overrides@[oi].ext@ == ext);
                        assert(before.overrides@[oi].id@ == id);
                    }
                },
                None => {
                    assert forall|i: int, j: int|
                        0 <= i < j < self.overrides@.len() implies !(self.overrides@[i].ext@
                        == self.overrides@[j].ext@ && self.overrides@[i].id@
                        == self.overrides@[j].id@) by {
                        if j == before.overrides@.len() {
                            assert(!names_override(ext, id)(before.overrides@[i]));
                        }
                    }
                },
            }
        }
    }

    /// Overlays one stored value: into the schema itself when its extension is empty,
    /// otherwise into the override for that extension. A value the module cannot hold is
    /// dropped, and the outcome says why.
    pub fn restore(&mut self, stored: StoredValue) -> (outcome: RestoreOutcome)
        requires
            old(self).well_formed(),
        ensures
            final(self).well_formed(),
            match restore_refusal(old(self).spec_schemas(), stored@) {
                Some(refusal) => outcome == refusal && *final(self) == *old(self),
                None => outcome == RestoreOutcome::Restored && final(self).written(
                    *old(self),
                    normalized_ext(stored.ext@),
                    stored.id@,
                    stored.value@,
                ),
            },
    {
        let si = match self.schema_index(stored.id.as_str()) {
            Some(si) => si,
            None => return RestoreOutcome::UnknownId,
        };
        proof {
            lemma_first_match_facts(self.schemas@, names_schema(stored.id@));
        }
        if !self.schemas[si].setting.accepts(&stored.value) {
            return RestoreOutcome::WrongType {
                actual: self.schemas[si].setting.kind_name(),
                requested: stored.value.kind_name(),
            };
        }
        if !nul_free(&stored.value) {
            return RestoreOutcome::InteriorNul;
        }
        let ext = normalize_ext(stored.ext.as_str());
        let ghost before = *self;
        self.write(ext.as_str(), stored.id.as_str(), stored.value);
        proof {
            self.lemma_written_well_formed(before, ext@, stored.id@, stored.value@);
        }
        RestoreOutcome::Restored
    }

    /// What a save hands the store: every global value, then every override.
    pub open spec fn stored_views(&self) -> Seq<StoredView> {
        self.spec_schemas().map_values(|schema: SettingSchema| global_stored(schema)) + self.spec_overrides().map_values(
            |over: StoredValue| over@,
        )
    }

    /// Every global value, then every override, as persistence sees them.
    pub fn stored_values(&self) -> (values: Vec<StoredValue>)
        ensures
            values@.map_values(|v: StoredValue| v@) == self.stored_views(),
    {
        let mut values: Vec<StoredValue> = Vec::new();
        let mut i: usize = 0;
        while i < self.schemas.len()
            invariant
                0 <= i <= self.schemas@.len(),
                values@.len() == i,
                forall|k: int| 0 <= k < i ==> values@[k]@ == global_stored(self.schemas@[k]),
            decreases self.schemas@.len() - i,
        {
            let schema = &self.schemas[i];
            values.push(
                StoredValue {
                    ext: String::new(),
                    id: schema.id.clone(),
                    value: schema.setting.value(),
                },
            );
            i = i + 1;
        }
        let mut j: usize = 0;
        while j < self.overrides.len()
            invariant
                0 <= j <= self.overrides@.len(),
                values@.len() == self.schemas@.len() + j,
                forall|k: int|
                    0 <= k < self.schemas@.len() ==> values@[k]@ == global_stored(self.schemas@[k]),
                forall|k: int|
                    0 <= k < j ==> values@[self.schemas@.len() + k]@ == self.overrides@[k]@,
            decreases self.overrides@.len() - j,
        {
            values.push(self.overrides[j].duplicate());
            j = j + 1;
        }
        proof {
            assert(values@.map_values(|v: StoredValue| v@) =~= self.stored_views());
        }
        values
    }
}


/// Matches the module registered under `reg_id`.
pub open spec fn names_module(reg_id: Seq<char>) -> spec_fn(Module) -> bool {
    |m: Module| m.spec_reg_id() == reg_id
}

/// Matches a pending registration of `reg_id`.
pub open spec fn names_pending(reg_id: Seq<char>) -> spec_fn(String) -> bool {
    |p: String| p@ == reg_id
}

/// The first schema whose id an earlier schema of the same registration already used.
pub open spec fn first_repeated_id(schemas: Seq<SettingSchema>) -> Option<int> {
    first_match(schema_positions(schemas), repeats_earlier(schemas))
}

/// The positions of a registration's schemas.
pub open spec fn schema_positions(schemas: Seq<SettingSchema>) -> Seq<int> {
    Seq::new(schemas.len(), |i: int| i)
}

/// Matches the position of a schema whose id an earlier schema already used.
pub open spec fn repeats_earlier(schemas: Seq<SettingSchema>) -> spec_fn(int) -> bool {
    |i: int| exists|j: int| 0 <= j < i && schemas[j].id@ == schemas[i].id@
}

/// Matches a schema whose current value is a string holding a NUL.
pub open spec fn holds_nul_value() -> spec_fn(SettingSchema) -> bool {
    |s: SettingSchema| !value_nul_free(s.setting.current())
}

/// Matches a module registered no earlier than `order`.
pub open spec fn registered_no_earlier(order: usize) -> spec_fn(Module) -> bool {
    |m: Module| m.spec_order() >= order
}

/// Whether a module is handed to the next flush: changed, and not already being saved.
pub open spec fn awaits_flush(m: Module) -> bool {
    m.spec_dirty() && !m.spec_saving()
}

/// Every registration: the modules in registration order, plus the registrations under
/// way, which hold their id until they finish or abort.
pub struct Registry {
    modules: Vec<Module>,
    pending_registrations: Vec<String>,
    next_registration_order: usize,
}

impl Registry {
    pub closed spec fn spec_modules(&self) -> Seq<Module> {
        self.modules@
    }

    pub closed spec fn spec_pending(&self) -> Seq<String> {
        self.pending_registrations@
    }

    pub closed spec fn spec_next_order(&self) -> usize {
        self.next_registration_order
    }

    /// Modules are kept in registration order and each is well formed; no id is
    /// registered twice, claimed twice, or both registered and claimed.
    pub open spec fn well_formed(&self) -> bool {
        &&& forall|i: int, j: int|
            0 <= i <= j < self.spec_modules().len() ==> self.spec_modules()[i].spec_order()
                <= self.spec_modules()[j].spec_order()
        &&& forall|i: int| 0 <= i < self.spec_modules().len() ==> self.spec_modules()[i].well_formed()
        &&& forall|i: int, j: int|
            0 <= i < j < self.spec_modules().len() ==> self.spec_modules()[i].spec_reg_id()
                != self.spec_modules()[j].spec_reg_id()
        &&& forall|i: int, j: int|
            0 <= i < j < self.spec_pending().len() ==> self.spec_pending()[i]@
                != self.spec_pending()[j]@
        &&& forall|i: int, j: int|
            0 <= i < self.spec_modules().len() && 0 <= j < self.spec_pending().len()
                ==> self.spec_modules()[i].spec_reg_id() != self.spec_pending()[j]@
    }

    /// An empty registry.
    pub fn new() -> (registry: Registry)
        ensures
            registry.well_formed(),
            registry.spec_modules().len() == 0,
            registry.spec_pending().len() == 0,
            registry.spec_next_order() == 0,
    {
        Registry { modules: Vec::new(), pending_registrations: Vec::new(), next_registration_order: 0 }
    }

    /// Where the module registered under `reg_id` is.
    pub fn module_index(&self, reg_id: &str) -> (index: Option<usize>)
        ensures
            match index {
                Some(i) => first_match(self.spec_modules(), names_module(reg_id@)) == Some(
                    i as int,
                ),
                None => first_match(self.spec_modules(), names_module(reg_id@)) is None,
            },
    {
        let mut i: usize = 0;
        while i < self.modules.len()
            invariant
                0 <= i <= self.modules@.len(),
                forall|j: int| 0 <= j < i ==> !names_module(reg_id@)(self.modules@[j]),
            decreases self.modules@.len() - i,
        {
            if same_text(self.modules[i].reg_id(), reg_id) {
                proof {
                    lemma_first_match_found(self.modules@, names_module(reg_id@), i as int);
                }
                return Some(i);
            }
            i = i + 1;
        }
        proof {
            lemma_first_match_absent(self.modules@, names_module(reg_id@));
        }
        None
    }

    /// What a lookup for `id` of `reg_id` under extension key `ext` reads.
    pub open spec fn lookup(&self, reg_id: Seq<char>, ext: Seq<char>, id: Seq<char>) -> Result<
        ValueView,
        ErrorView,
    > {
        match first_match(self.spec_modules(), names_module(reg_id)) {
            None => Err(ErrorView::NotFound { reg_id }),
            Some(mi) => match self.spec_modules()[mi].read(ext, id) {
                None => Err(ErrorView::UnknownId { reg_id, id }),
                Some(value) => Ok(value),
            },
        }
    }

    /// Reads the value for `ext`, falling back to the global value. `ext` is empty for
    /// global, and is compared without leading dots and without case.
    pub fn get(&self, reg_id: &str, ext: &str, id: &str) -> (value: Result<Value, SettingsError>)
        ensures
            crate::service::settings::read_result_view(value) == self.lookup(
                reg_id@,
                normalized_ext(ext@),
                id@,
            ),
    {
        let mi = match self.module_index(reg_id) {
            Some(mi) => mi,
            None => return Err(SettingsError::NotFound { reg_id: reg_id.to_owned() }),
        };
        proof {
            lemma_first_match_facts(self.modules@, names_module(reg_id@));
        }
        let module = &self.modules[mi];
        let si = match module.schema_index(id) {
            Some(si) => si,
            None => {
                return Err(
                    SettingsError::UnknownId { reg_id: reg_id.to_owned(), id: id.to_owned() },
                )
            },
        };
        proof {
            lemma_first_match_facts(module.schemas@, names_schema(id@));
        }
        let key = normalize_ext(ext);
        if !key.as_str().is_empty() {
            if let Some(oi) = module.override_index(key.as_str(), id) {
                proof {
                    lemma_first_match_facts(module.overrides@, names_override(key@, id@));
                }
                return Ok(module.overrides[oi].value.duplicate());
            }
        }
        Ok(module.schemas[si].setting.value())
    }

    /// What writing `value` for `id` of `reg_id` under extension key `ext` does: refuse it
    /// (an unknown module, an unknown id, a value of another kind, a string holding a
    /// NUL, in that order of checks), find it already holds (`Ok(false)`), or change it
    /// (`Ok(true)`). Only an equal value at the same scope holds already: pinning an
    /// extension to the global value still has to stop a later global write moving it.
    pub open spec fn set_verdict(
        &self,
        reg_id: Seq<char>,
        ext: Seq<char>,
        id: Seq<char>,
        value: ValueView,
    ) -> Result<bool, ErrorView> {
        match first_match(self.spec_modules(), names_module(reg_id)) {
            None => Err(ErrorView::NotFound { reg_id }),
            Some(mi) => {
                let module = self.spec_modules()[mi];
                match first_match(module.spec_schemas(), names_schema(id)) {
                    None => Err(ErrorView::UnknownId { reg_id, id }),
                    Some(si) => {
                        let setting = module.spec_schemas()[si].setting;
                        if !setting.holds_kind_of(value) {
                            Err(
                                ErrorView::WrongType {
                                    reg_id,
                                    id,
                                    actual: setting.spec_kind_name(),
                                    requested: value_kind_name(value),
                                },
                            )
                        } else if !value_nul_free(value) {
                            Err(ErrorView::InteriorNul { reg_id, id })
                        } else if ext.len() == 0 {
                            Ok(!value_equal(setting.current(), value))
                        } else {
                            Ok(
                                !(exists|k: int|
                                    0 <= k < module.spec_overrides().len()
                                        && names_override(ext, id)(module.spec_overrides()[k])
                                        && value_equal(module.spec_overrides()[k].value@, value)),
                            )
                        }
                    },
                }
            },
        }
    }

    /// A write the registry finds already holding (`Ok(false)`) of a value other than a
    /// float leaves the key reading exactly that value; together with what [`Self::set`]
    /// ensures of a change, every accepted non-float write reads back as written.
    pub proof fn lemma_held_write_reads_back(
        &self,
        reg_id: Seq<char>,
        ext: Seq<char>,
        id: Seq<char>,
        value: ValueView,
    )
        requires
            self.well_formed(),
            self.set_verdict(reg_id, ext, id, value) == Ok::<bool, ErrorView>(false),
            !(value is Float),
        ensures
            self.lookup(reg_id, ext, id) == Ok::<ValueView, ErrorView>(value),
    {
        lemma_first_match_facts(self.spec_modules(), names_module(reg_id));
        let mi = first_match(self.spec_modules(), names_module(reg_id))->0;
        let m = self.spec_modules()[mi];
        assert(m.well_formed());
        lemma_first_match_facts(m.spec_schemas(), names_schema(id));
        let si = first_match(m.spec_schemas(), names_schema(id))->0;
        let ov = m.spec_overrides();
        lemma_first_match_facts(ov, names_override(ext, id));
        if ext.len() == 0 {
            lemma_value_equal_is_sameness(m.spec_schemas()[si].setting.current(), value);
        } else {
            let k = choose|q: int|
                0 <= q < ov.len() && names_override(ext, id)(ov[q]) && value_equal(ov[q].value@, value);
            lemma_least_match(ov, names_override(ext, id), k);
            let f = first_match(ov, names_override(ext, id))->0;
            if f != k {
                assert(f < k);
            }
            lemma_value_equal_is_sameness(ov[k].value@, value);
        }
    }

    /// Whether the module registered under `reg_id` can count one more change.
    pub open spec fn revision_room(&self, reg_id: Seq<char>) -> bool {
        forall|i: int|
            0 <= i < self.spec_modules().len() && self.spec_modules()[i].spec_reg_id() == reg_id
                ==> self.spec_modules()[i].spec_revision() < u64::MAX
    }

    /// Whether the module registered under `reg_id`, if any, can count one more change.
    pub fn has_revision_room(&self, reg_id: &str) -> (room: bool)
        ensures
            room == self.revision_room(reg_id@),
    {
        let mut i: usize = 0;
        while i < self.modules.len()
            invariant
                0 <= i <= self.modules@.len(),
                forall|k: int|
                    0 <= k < i && self.modules@[k].spec_reg_id() == reg_id@
                        ==> self.modules@[k].spec_revision() < u64::MAX,
            decreases self.modules@.len() - i,
        {
            if same_text(self.modules[i].reg_id(), reg_id) && self.modules[i].revision == u64::MAX {
                proof {
                    assert(self.spec_modules()[i as int].spec_revision() == u64::MAX);
                }
                return false;
            }
            i = i + 1;
        }
        true
    }

    /// Writes the value for `ext`, or the global value when `ext` is empty. A real change
    /// marks the module dirty and asks for a restart; a write that changes nothing does
    /// neither.
    pub fn set(&mut self, reg_id: &str, ext: &str, id: &str, value: Value) -> (update: Result<
        SettingsUpdate,
        SettingsError,
    >)
        requires
            old(self).well_formed(),
            old(self).revision_room(reg_id@),
        ensures
            final(self).well_formed(),
            match old(self).set_verdict(reg_id@, normalized_ext(ext@), id@, value@) {
                Err(e) => update matches Err(error) && error@ == e && *final(self) == *old(self),
                Ok(false) => update == Ok::<SettingsUpdate, SettingsError>(SettingsUpdate::Default)
                    && *final(self) == *old(self),
                Ok(true) => {
                    let mi = first_match(old(self).spec_modules(), names_module(reg_id@))->0;
                    let before = old(self).spec_modules()[mi];
                    let after = final(self).spec_modules()[mi];
                    &&& update == Ok::<SettingsUpdate, SettingsError>(
                        SettingsUpdate::RequireRestart,
                    )
                    &&& final(self).spec_modules().len() == old(self).spec_modules().len()
                    &&& forall|j: int|
                        0 <= j < old(self).spec_modules().len() && j != mi
                            ==> final(self).spec_modules()[j] == old(self).spec_modules()[j]
                    &&& final(self).spec_pending() == old(self).spec_pending()
                    &&& final(self).spec_next_order() == old(self).spec_next_order()
                    &&& after.spec_dirty()
                    &&& after.spec_revision() == before.spec_revision() + 1
                    &&& after.spec_saving() == before.spec_saving()
                    &&& after.spec_order() == before.spec_order()
                    &&& after.spec_reg_id() == before.spec_reg_id()
                    &&& exists|written: Module|
                        written.written(before, normalized_ext(ext@), id@, value@)
                            && after.spec_schemas() == written.spec_schemas()
                            && after.spec_overrides() == written.spec_overrides()
                },
            },
            old(self).set_verdict(reg_id@, normalized_ext(ext@), id@, value@) == Ok::<
                bool,
                ErrorView,
            >(true) ==> {
                &&& final(self).lookup(reg_id@, normalized_ext(ext@), id@) == Ok::<
                    ValueView,
                    ErrorView,
                >(value@)
                &&& forall|r: Seq<char>, e: Seq<char>, i: Seq<char>|
                    #[trigger] final(self).lookup(r, e, i) == if r == reg_id@ && i == id@
                        && old(self).write_reaches(reg_id@, normalized_ext(ext@), id@, e) {
                        Ok(value@)
                    } else {
                        old(self).lookup(r, e, i)
                    }
            },
            old(self).set_verdict(reg_id@, normalized_ext(ext@), id@, value@) == Ok::<
                bool,
                ErrorView,
            >(false) ==> (old(self).lookup(reg_id@, normalized_ext(ext@), id@) matches Ok(held)
                && value_equal(held, value@)),
    {
        let mi = match self.module_index(reg_id) {
            Some(mi) => mi,
            None => return Err(SettingsError::NotFound { reg_id: reg_id.to_owned() }),
        };
        proof {
            lemma_first_match_facts(self.modules@, names_module(reg_id@));
        }
        let si = match self.modules[mi].schema_index(id) {
            Some(si) => si,
            None => {
                return Err(
                    SettingsError::UnknownId { reg_id: reg_id.to_owned(), id: id.to_owned() },
                )
            },
        };
        proof {
            lemma_first_match_facts(self.modules@[mi as int].schemas@, names_schema(id@));
        }
        if !self.modules[mi].schemas[si].setting.accepts(&value) {
            return Err(
                SettingsError::WrongType {
                    reg_id: reg_id.to_owned(),
                    id: id.to_owned(),
                    actual: self.modules[mi].schemas[si].setting.kind_name(),
                    requested: value.kind_name(),
                },
            );
        }
        if !nul_free(&value) {
            return Err(SettingsError::InteriorNul { reg_id: reg_id.to_owned(), id: id.to_owned() });
        }
        let key = normalize_ext(ext);
        let unchanged = if key.as_str().is_empty() {
            let global = self.modules[mi].schemas[si].setting.value();
            values_equal(&global, &value)
        } else {
            let module = &self.modules[mi];
            let mut found = false;
            let mut k: usize = 0;
            while k < module.overrides.len()
                invariant
                    0 <= k <= module.overrides@.len(),
                    found == exists|q: int|
                        0 <= q < k && names_override(key@, id@)(module.overrides@[q])
                            && value_equal(module.overrides@[q].value@, value@),
                decreases module.overrides@.len() - k,
            {
                let over = &module.overrides[k];
                if same_text(over.ext.as_str(), key.as_str()) && same_text(over.id.as_str(), id)
                    && values_equal(&over.value, &value) {
                    found = true;
                }
                k = k + 1;
            }
            found
        };
        if unchanged {
            proof {
                let m = self.modules@[mi as int];
                lemma_first_match_facts(m.overrides@, names_override(key@, id@));
                if key@.len() > 0 {
                    let k = choose|q: int|
                        0 <= q < m.overrides@.len() && names_override(key@, id@)(m.overrides@[q])
                            && value_equal(m.overrides@[q].value@, value@);
                    lemma_least_match(m.overrides@, names_override(key@, id@), k);
                    let f = first_match(m.overrides@, names_override(key@, id@))->0;
                    assert(m.well_formed());
                    if f != k {
                        assert(f < k);
                    }
                }
            }
            return Ok(SettingsUpdate::Default);
        }
        let ghost modules_before = self.modules@;
        let mut module = self.modules.remove(mi);
        let ghost before = module;
        assert(modules_before[mi as int] == before);
        assert(before.spec_revision() < u64::MAX) by {
            assert(old(self).revision_room(reg_id@));
        }
        module.write(key.as_str(), id, value);
        proof {
            module.lemma_written_well_formed(before, key@, id@, value@);
        }
        let ghost written = module;
        module.dirty = true;
        module.revision = module.revision + 1;
        self.modules.insert(mi, module);
        proof {
            assert(self.modules@ =~= modules_before.update(mi as int, module));
            assert(module.well_formed());
            assert(written.written(before, key@, id@, value@));
            let after = self.modules@[mi as int];
            assert(after.spec_schemas() == written.spec_schemas());
            assert(after.spec_overrides() == written.spec_overrides());
            assert(exists|w: Module|
                w.written(before, normalized_ext(ext@), id@, value@)
                    && after.spec_schemas() == w.spec_schemas()
                    && after.spec_overrides() == w.spec_overrides());
            assert(module.spec_reg_id() == before.spec_reg_id());
            assert(modules_before == old(self).modules@);
            assert(self.pending_registrations@ == old(self).pending_registrations@);
            assert forall|i: int| 0 <= i < self.modules@.len() implies
                self.modules@[i].spec_reg_id() == modules_before[i].spec_reg_id() by {}
            assert forall|i: int, j: int|
                0 <= i < j < self.spec_modules().len() implies self.spec_modules()[i].spec_reg_id()
                != self.spec_modules()[j].spec_reg_id() by {
                assert(old(self).spec_modules()[i].spec_reg_id() != old(self).spec_modules()[j].spec_reg_id());
            }
            assert forall|i: int, j: int|
                0 <= i < self.spec_modules().len() && 0 <= j < self.spec_pending().len()
                    implies self.spec_modules()[i].spec_reg_id() != self.spec_pending()[j]@ by {
                assert(old(self).spec_modules()[i].spec_reg_id() != old(self).spec_pending()[j]@);
            }
            assert forall|i: int, j: int|
                0 <= i < j < self.spec_pending().len() implies self.spec_pending()[i]@
                != self.spec_pending()[j]@ by {
                assert(old(self).spec_pending()[i]@ != old(self).spec_pending()[j]@);
            }
            assert(self.well_formed());
            self.lemma_set_lookups(*old(self), reg_id@, key@, id@, value@);
        }
        Ok(SettingsUpdate::RequireRestart)
    }

    /// Whether another registration can be given an order.
    pub fn has_order_room(&self) -> (room: bool)
        ensures
            room == (self.spec_next_order() < usize::MAX),
    {
        self.next_registration_order < usize::MAX
    }

    /// What starting a registration of `reg_id` with `schemas` does: refuse an id already
    /// registered or under way, then a registration naming one setting twice (reported at
    /// the first repeat), then one whose first string value holding a NUL could never be
    /// handed to a plugin, else hand out the next registration order.
    pub open spec fn registration_verdict(
        &self,
        reg_id: Seq<char>,
        schemas: Seq<SettingSchema>,
    ) -> Result<usize, ErrorView> {
        if first_match(self.spec_modules(), names_module(reg_id)) is Some || first_match(
            self.spec_pending(),
            names_pending(reg_id),
        ) is Some {
            Err(ErrorView::DuplicateRegId { reg_id })
        } else {
            match first_repeated_id(schemas) {
                Some(i) => Err(ErrorView::DuplicateId { reg_id, id: schemas[i].id@ }),
                None => match first_match(schemas, holds_nul_value()) {
                    Some(i) => Err(ErrorView::InteriorNul { reg_id, id: schemas[i].id@ }),
                    None => Ok(self.spec_next_order()),
                },
            }
        }
    }

    /// Claims `reg_id` for a registration about to load its stored values, and hands out
    /// its registration order. The id stays claimed until the registration finishes or
    /// aborts, so a registration started meanwhile cannot take it.
    pub fn begin_registration(&mut self, reg_id: &str, schemas: &Vec<SettingSchema>) -> (order:
        Result<usize, SettingsError>)
        requires
            old(self).spec_next_order() < usize::MAX,
        ensures
            final(self).spec_modules() == old(self).spec_modules(),
            match old(self).registration_verdict(reg_id@, schemas@) {
                Err(e) => order matches Err(error) && error@ == e && *final(self) == *old(self),
                Ok(n) => {
                    &&& order == Ok::<usize, SettingsError>(n)
                    &&& final(self).spec_next_order() == n + 1
                    &&& final(self).spec_pending().len() == old(self).spec_pending().len() + 1
                    &&& forall|k: int|
                        0 <= k < old(self).spec_pending().len() ==> final(self).spec_pending()[k]
                            == old(self).spec_pending()[k]
                    &&& final(self).spec_pending().last()@ == reg_id@
                },
            },
            old(self).well_formed() ==> final(self).well_formed(),
    {
        let registered = self.module_index(reg_id).is_some();
        let mut pending = false;
        let mut p: usize = 0;
        while p < self.pending_registrations.len()
            invariant
                0 <= p <= self.pending_registrations@.len(),
                pending == exists|q: int|
                    0 <= q < p && names_pending(reg_id@)(self.pending_registrations@[q]),
            decreases self.pending_registrations@.len() - p,
        {
            if same_text(self.pending_registrations[p].as_str(), reg_id) {
                pending = true;
            }
            p = p + 1;
        }
        proof {
            if pending {
                let q = choose|q: int|
                    0 <= q < self.pending_registrations@.len() && names_pending(reg_id@)(
                        self.pending_registrations@[q],
                    );
                lemma_least_match(self.pending_registrations@, names_pending(reg_id@), q);
            } else {
                lemma_first_match_absent(self.pending_registrations@, names_pending(reg_id@));
            }
        }
        if registered || pending {
            return Err(SettingsError::DuplicateRegId { reg_id: reg_id.to_owned() });
        }
        let ghost indices = schema_positions(schemas@);
        let ghost repeated = repeats_earlier(schemas@);
        let mut index: usize = 0;
        while index < schemas.len()
            invariant
                0 <= index <= schemas@.len(),
                indices == schema_positions(schemas@),
                repeated == repeats_earlier(schemas@),
                first_match(self.modules@, names_module(reg_id@)) is None,
                first_match(self.pending_registrations@, names_pending(reg_id@)) is None,
                forall|k: int| 0 <= k < index ==> !repeated(indices[k]),
            decreases schemas@.len() - index,
        {
            let mut prior: usize = 0;
            while prior < index
                invariant
                    0 <= prior <= index < schemas@.len(),
                    indices == schema_positions(schemas@),
                    repeated == repeats_earlier(schemas@),
                    first_match(self.modules@, names_module(reg_id@)) is None,
                    first_match(self.pending_registrations@, names_pending(reg_id@)) is None,
                    forall|k: int| 0 <= k < index ==> !repeated(indices[k]),
                    forall|j: int| 0 <= j < prior ==> schemas@[j].id@ != schemas@[index as int].id@,
                decreases index - prior,
            {
                if same_text(schemas[prior].id.as_str(), schemas[index].id.as_str()) {
                    proof {
                        assert(schemas@[prior as int].id@ == schemas@[index as int].id@);
                        assert(indices[index as int] == index as int);
                        assert(repeated(indices[index as int]));
                        lemma_first_match_found(indices, repeated, index as int);
                    }
                    return Err(
                        SettingsError::DuplicateId {
                            reg_id: reg_id.to_owned(),
                            id: schemas[index].id.clone(),
                        },
                    );
                }
                prior = prior + 1;
            }
            index = index + 1;
        }
        proof {
            lemma_first_match_absent(indices, repeated);
        }
        let mut k: usize = 0;
        while k < schemas.len()
            invariant
                0 <= k <= schemas@.len(),
                first_match(self.modules@, names_module(reg_id@)) is None,
                first_match(self.pending_registrations@, names_pending(reg_id@)) is None,
                first_repeated_id(schemas@) is None,
                forall|j: int| 0 <= j < k ==> !holds_nul_value()(schemas@[j]),
            decreases schemas@.len() - k,
        {
            if !nul_free(&schemas[k].setting.value()) {
                proof {
                    lemma_first_match_found(schemas@, holds_nul_value(), k as int);
                }
                return Err(
                    SettingsError::InteriorNul { reg_id: reg_id.to_owned(), id: schemas[k].id.clone() },
                );
            }
            k = k + 1;
        }
        proof {
            lemma_first_match_absent(schemas@, holds_nul_value());
        }
        let order = self.next_registration_order;
        self.next_registration_order = order + 1;
        self.pending_registrations.push(reg_id.to_owned());
        Ok(order)
    }

    /// Releases a claim on `reg_id` that will not finish.
    pub fn abort_registration(&mut self, reg_id: &str)
        ensures
            final(self).spec_modules() == old(self).spec_modules(),
            final(self).spec_next_order() == old(self).spec_next_order(),
            match first_match(old(self).spec_pending(), names_pending(reg_id@)) {
                Some(p) => final(self).spec_pending() == old(self).spec_pending().remove(p),
                None => final(self).spec_pending() == old(self).spec_pending(),
            },
            old(self).well_formed() ==> final(self).well_formed(),
    {
        let mut p: usize = 0;
        while p < self.pending_registrations.len()
            invariant
                0 <= p <= self.pending_registrations@.len(),
                self.pending_registrations@ == old(self).pending_registrations@,
                self.modules@ == old(self).modules@,
                self.next_registration_order == old(self).next_registration_order,
                forall|j: int| 0 <= j < p ==> !names_pending(reg_id@)(self.pending_registrations@[j]),
            decreases self.pending_registrations@.len() - p,
        {
            if same_text(self.pending_registrations[p].as_str(), reg_id) {
                proof {
                    lemma_first_match_found(self.pending_registrations@, names_pending(reg_id@), p as int);
                }
                self.pending_registrations.remove(p);
                proof {
                    assert(self.spec_modules() == old(self).spec_modules());
                }
                return;
            }
            p = p + 1;
        }
        proof {
            lemma_first_match_absent(self.pending_registrations@, names_pending(reg_id@));
        }
    }

    /// Where a module of registration order `order` goes: before the first module
    /// registered no earlier.
    pub open spec fn insertion_point(&self, order: usize) -> int {
        match first_match(self.spec_modules(), registered_no_earlier(order)) {
            Some(k) => k,
            None => self.spec_modules().len() as int,
        }
    }

    /// Completes a registration: releases its claim on the id and places the module by
    /// its registration order, so enumeration follows the order registrations began in
    /// however they interleaved.
    pub fn finish_registration(&mut self, module: Module)
        requires
            old(self).well_formed(),
            module.well_formed(),
            first_match(old(self).spec_pending(), names_pending(module.spec_reg_id())) is Some,
        ensures
            final(self).well_formed(),
            final(self).spec_next_order() == old(self).spec_next_order(),
            final(self).spec_modules() == old(self).spec_modules().insert(
                old(self).insertion_point(module.spec_order()),
                module,
            ),
            match first_match(old(self).spec_pending(), names_pending(module.spec_reg_id())) {
                Some(p) => final(self).spec_pending() == old(self).spec_pending().remove(p),
                None => final(self).spec_pending() == old(self).spec_pending(),
            },
    {
        let ghost pending_before = self.pending_registrations@;
        let ghost modules_start = self.modules@;
        proof {
            lemma_first_match_facts(pending_before, names_pending(module.spec_reg_id()));
        }
        let ghost p = first_match(pending_before, names_pending(module.spec_reg_id()))->0;
        self.abort_registration(module.reg_id());
        proof {
            assert(self.pending_registrations@ == pending_before.remove(p));
            assert forall|j: int| 0 <= j < self.pending_registrations@.len() implies
                self.pending_registrations@[j]@ != module.spec_reg_id() by {
                if j < p {
                    assert(self.pending_registrations@[j] == pending_before[j]);
                } else {
                    assert(self.pending_registrations@[j] == pending_before[j + 1]);
                }
            }
            assert forall|i: int| 0 <= i < modules_start.len() implies
                modules_start[i].spec_reg_id() != module.spec_reg_id() by {
                assert(pending_before[p]@ == module.spec_reg_id());
            }
        }
        let order = module.registration_order;
        let ghost later = registered_no_earlier(order);
        let mut k: usize = 0;
        while k < self.modules.len() && self.modules[k].registration_order < order
            invariant
                0 <= k <= self.modules@.len(),
                later == registered_no_earlier(order),
                forall|j: int| 0 <= j < k ==> !later(self.modules@[j]),
            decreases self.modules@.len() - k,
        {
            k = k + 1;
        }
        proof {
            if k == self.modules@.len() {
                lemma_first_match_absent(self.modules@, later);
            } else {
                lemma_first_match_found(self.modules@, later, k as int);
            }
        }
        let ghost before = self.modules@;
        self.modules.insert(k, module);
        proof {
            assert forall|i: int, j: int|
                0 <= i <= j < self.modules@.len() implies self.modules@[i].spec_order()
                <= self.modules@[j].spec_order() by {
                if i < k && j > k {
                    assert(before[j - 1].spec_order() >= order) by {
                        assert(later(before[k as int]));
                    }
                } else if i == k && j > k {
                    assert(later(before[k as int]));
                } else if j == k && i < k {
                    assert(!later(before[i]));
                }
            }
            assert forall|i: int, j: int|
                0 <= i < j < self.modules@.len() implies self.modules@[i].spec_reg_id()
                != self.modules@[j].spec_reg_id() by {
                if i < k && j > k {
                    assert(self.modules@[j] == before[j - 1]);
                } else if j > k && i > k {
                    assert(self.modules@[j] == before[j - 1]);
                    assert(self.modules@[i] == before[i - 1]);
                }
            }
            assert forall|i: int, j: int|
                0 <= i < self.modules@.len() && 0 <= j < self.pending_registrations@.len()
                    implies self.modules@[i].spec_reg_id() != self.pending_registrations@[j]@ by {
                if i > k {
                    assert(self.modules@[i] == before[i - 1]);
                }
            }
        }
    }

    /// Whether any module has changed since it was last written to the store.
    pub open spec fn dirty(&self) -> bool {
        exists|i: int| 0 <= i < self.spec_modules().len() && self.spec_modules()[i].spec_dirty()
    }

    /// Whether any module has changed since it was last written to the store.
    pub fn is_dirty(&self) -> (dirty: bool)
        ensures
            dirty == self.dirty(),
    {
        let mut i: usize = 0;
        while i < self.modules.len()
            invariant
                0 <= i <= self.modules@.len(),
                forall|j: int| 0 <= j < i ==> !self.modules@[j].spec_dirty(),
            decreases self.modules@.len() - i,
        {
            if self.modules[i].dirty {
                proof {
                    assert(self.spec_modules()[i as int].spec_dirty());
                }
                return true;
            }
            i = i + 1;
        }
        false
    }

    /// Registered modules, in registration order.
    pub fn reg_ids(&self) -> (ids: Vec<String>)
        ensures
            ids@.len() == self.spec_modules().len(),
            forall|i: int| 0 <= i < ids@.len() ==> ids@[i]@ == self.spec_modules()[i].spec_reg_id(),
    {
        let mut ids: Vec<String> = Vec::new();
        let mut i: usize = 0;
        while i < self.modules.len()
            invariant
                0 <= i <= self.modules@.len(),
                ids@.len() == i,
                forall|j: int| 0 <= j < i ==> ids@[j]@ == self.modules@[j].spec_reg_id(),
            decreases self.modules@.len() - i,
        {
            ids.push(self.modules[i].reg_id.clone());
            i = i + 1;
        }
        ids
    }

    /// A module's schemas with their current global values; `None` when nothing is
    /// registered under `reg_id`.
    pub fn module_schemas(&self, reg_id: &str) -> (schemas: Option<&[SettingSchema]>)
        ensures
            match first_match(self.spec_modules(), names_module(reg_id@)) {
                Some(mi) => schemas matches Some(s) && s@ == self.spec_modules()[mi].spec_schemas(),
                None => schemas is None,
            },
    {
        match self.module_index(reg_id) {
            Some(mi) => {
                proof {
                    lemma_first_match_facts(self.modules@, names_module(reg_id@));
                }
                Some(self.modules[mi].schemas())
            },
            None => None,
        }
    }

    /// Hands every changed module not already being saved to a flush: marks it as being
    /// saved and returns its id, what it holds, and the revision that snapshot is of.
    #[verifier::spinoff_prover]
    pub fn begin_flush(&mut self) -> (saves: Vec<(String, Vec<StoredValue>, u64)>)
        ensures
            final(self).spec_pending() == old(self).spec_pending(),
            final(self).spec_next_order() == old(self).spec_next_order(),
            final(self).spec_modules().len() == old(self).spec_modules().len(),
            forall|i: int|
                #![trigger final(self).spec_modules()[i]]
                0 <= i < old(self).spec_modules().len() ==> {
                    let before = old(self).spec_modules()[i];
                    let after = final(self).spec_modules()[i];
                    &&& after.spec_saving() == (before.spec_saving() || before.spec_dirty())
                    &&& after.spec_dirty() == before.spec_dirty()
                    &&& after.spec_revision() == before.spec_revision()
                    &&& after.spec_order() == before.spec_order()
                    &&& after.spec_reg_id() == before.spec_reg_id()
                    &&& after.spec_schemas() == before.spec_schemas()
                    &&& after.spec_overrides() == before.spec_overrides()
                    &&& after.well_formed() == before.well_formed()
                },
            saves@.len() == old(self).spec_modules().filter(|m: Module| awaits_flush(m)).len(),
            forall|k: int|
                #![trigger saves@[k]]
                0 <= k < saves@.len() ==> {
                    let m = old(self).spec_modules().filter(|m: Module| awaits_flush(m))[k];
                    &&& saves@[k].0@ == m.spec_reg_id()
                    &&& saves@[k].1@.map_values(|v: StoredValue| v@) == m.stored_views()
                    &&& saves@[k].2 == m.spec_revision()
                },
            old(self).well_formed() ==> final(self).well_formed(),
    {
        let ghost originals = self.modules@;
        let ghost flagged = |m: Module| awaits_flush(m);
        let mut saves: Vec<(String, Vec<StoredValue>, u64)> = Vec::new();
        let mut i: usize = 0;
        while i < self.modules.len()
            invariant
                0 <= i <= self.modules@.len(),
                self.modules@.len() == originals.len(),
                flagged == (|m: Module| awaits_flush(m)),
                self.pending_registrations@ == old(self).pending_registrations@,
                self.next_registration_order == old(self).next_registration_order,
                forall|j: int| i <= j < originals.len() ==> self.modules@[j] == originals[j],
                forall|j: int|
                    #![trigger self.modules@[j]]
                    0 <= j < i ==> {
                        let before = originals[j];
                        let after = self.modules@[j];
                        &&& after.saving == (before.saving || before.dirty)
                        &&& after.dirty == before.dirty
                        &&& after.revision == before.revision
                        &&& after.registration_order == before.registration_order
                        &&& after.reg_id == before.reg_id
                        &&& after.schemas == before.schemas
                        &&& after.overrides == before.overrides
                    },
                saves@.len() == originals.subrange(0, i as int).filter(flagged).len(),
                forall|k: int|
                    #![trigger saves@[k]]
                    0 <= k < saves@.len() ==> {
                        let m = originals.subrange(0, i as int).filter(flagged)[k];
                        &&& saves@[k].0@ == m.spec_reg_id()
                        &&& saves@[k].1@.map_values(|v: StoredValue| v@) == m.stored_views()
                        &&& saves@[k].2 == m.spec_revision()
                    },
            decreases self.modules@.len() - i,
        {
            proof {
                reveal_with_fuel(Seq::filter, 1);
                assert(originals.subrange(0, i + 1).drop_last() =~= originals.subrange(0, i as int));
            }
            if self.modules[i].dirty && !self.modules[i].saving {
                let ghost modules_before = self.modules@;
                let mut module = self.modules.remove(i);
                module.saving = true;
                let entry = (module.reg_id.clone(), module.stored_values(), module.revision);
                self.modules.insert(i, module);
                proof {
                    assert(self.modules@ =~= modules_before.update(i as int, module));
                }
                saves.push(entry);
            }
            i = i + 1;
        }
        proof {
            assert(originals.subrange(0, originals.len() as int) =~= originals);
            assert forall|j: int| 0 <= j < originals.len() implies
                self.modules@[j].well_formed() == originals[j].well_formed()
                && self.modules@[j].spec_reg_id() == originals[j].spec_reg_id() by {}
            if old(self).well_formed() {
                assert(self.spec_pending() == old(self).spec_pending());
                assert forall|i: int, j: int|
                    0 <= i <= j < self.spec_modules().len() implies self.spec_modules()[i].spec_order()
                    <= self.spec_modules()[j].spec_order() by {
                    assert(originals[i].spec_order() <= originals[j].spec_order());
                }
                assert forall|i: int| 0 <= i < self.spec_modules().len() implies self.spec_modules()[i].well_formed() by {
                    assert(originals[i].well_formed());
                }
                assert forall|i: int, j: int|
                    0 <= i < j < self.spec_modules().len() implies self.spec_modules()[i].spec_reg_id()
                    != self.spec_modules()[j].spec_reg_id() by {
                    assert(originals[i].spec_reg_id() != originals[j].spec_reg_id());
                }
                assert forall|i: int, j: int|
                    0 <= i < self.spec_modules().len() && 0 <= j < self.spec_pending().len()
                        implies self.spec_modules()[i].spec_reg_id() != self.spec_pending()[j]@ by {
                    assert(originals[i].spec_reg_id() != old(self).spec_pending()[j]@);
                }
            }
        }
        saves
    }

    /// Records what came of saving `reg_id` at `revision`: the module is clean again only
    /// when the save succeeded and nothing changed the module meanwhile.
    pub fn finish_save(&mut self, reg_id: &str, revision: u64, succeeded: bool)
        requires
            first_match(old(self).spec_modules(), names_module(reg_id@)) is Some,
        ensures
            final(self).spec_pending() == old(self).spec_pending(),
            final(self).spec_next_order() == old(self).spec_next_order(),
            final(self).spec_modules().len() == old(self).spec_modules().len(),
            ({
                let mi = first_match(old(self).spec_modules(), names_module(reg_id@))->0;
                let before = old(self).spec_modules()[mi];
                let after = final(self).spec_modules()[mi];
                &&& forall|j: int|
                    0 <= j < old(self).spec_modules().len() && j != mi ==> final(self).spec_modules()[j]
                        == old(self).spec_modules()[j]
                &&& !after.spec_saving()
                &&& after.spec_dirty() == (!succeeded || before.spec_revision() != revision)
                &&& after.spec_revision() == before.spec_revision()
                &&& after.spec_order() == before.spec_order()
                &&& after.spec_reg_id() == before.spec_reg_id()
                &&& after.spec_schemas() == before.spec_schemas()
                &&& after.spec_overrides() == before.spec_overrides()
            }),
            old(self).well_formed() ==> final(self).well_formed(),
    {
        let mi = match self.module_index(reg_id) {
            Some(mi) => mi,
            None => return,
        };
        proof {
            lemma_first_match_facts(self.modules@, names_module(reg_id@));
        }
        let ghost modules_before = self.modules@;
        let mut module = self.modules.remove(mi);
        module.saving = false;
        module.dirty = !succeeded || module.revision != revision;
        self.modules.insert(mi, module);
        proof {
            assert(self.modules@ =~= modules_before.update(mi as int, module));
            assert forall|i: int| 0 <= i < self.modules@.len() implies
                self.modules@[i].spec_reg_id() == modules_before[i].spec_reg_id() by {}
            if old(self).well_formed() {
                assert forall|i: int, j: int|
                    0 <= i < j < self.spec_modules().len() implies self.spec_modules()[i].spec_reg_id()
                    != self.spec_modules()[j].spec_reg_id() by {
                    assert(modules_before[i].spec_reg_id() != modules_before[j].spec_reg_id());
                }
                assert forall|i: int, j: int|
                    0 <= i < self.spec_modules().len() && 0 <= j < self.spec_pending().len()
                        implies self.spec_modules()[i].spec_reg_id() != self.spec_pending()[j]@ by {
                    assert(modules_before[i].spec_reg_id() != old(self).spec_pending()[j]@);
                }
            }
        }
    }
}



/// Whether the module holds an override for `ext` and `id`.
pub open spec fn has_override(m: Module, ext: Seq<char>, id: Seq<char>) -> bool {
    first_match(m.spec_overrides(), names_override(ext, id)) is Some
}

impl Module {
    /// What a read of a written module gives back: the value written wherever the write
    /// reaches, and the value read before everywhere else. A global write reaches every
    /// extension without an override of its own; an extension write reaches that
    /// extension alone.
    pub proof fn lemma_written_reads(
        self,
        before: Module,
        ext: Seq<char>,
        id: Seq<char>,
        value: ValueView,
        e: Seq<char>,
        i: Seq<char>,
    )
        requires
            before.well_formed(),
            first_match(before.spec_schemas(), names_schema(id)) is Some,
            self.written(before, ext, id, value),
        ensures
            self.read(e, i) == if i != id {
                before.read(e, i)
            } else if ext.len() == 0 {
                if e.len() > 0 && has_override(before, e, id) {
                    before.read(e, id)
                } else {
                    Some(value)
                }
            } else if e == ext {
                Some(value)
            } else {
                before.read(e, id)
            },
    {
        let si = first_match(before.schemas@, names_schema(id))->0;
        lemma_first_match_facts(before.schemas@, names_schema(id));
        lemma_first_match_facts(before.schemas@, names_schema(i));
        lemma_first_match_facts(before.overrides@, names_override(e, i));
        lemma_first_match_facts(before.overrides@, names_override(ext, id));
        lemma_first_match_same(self.schemas@, names_schema(i), before.schemas@, names_schema(i));
        if ext.len() == 0 {
            assert(self.overrides@ == before.overrides@);
        } else {
            assert(self.schemas@ == before.schemas@);
            match first_match(before.overrides@, names_override(ext, id)) {
                Some(oi) => {
                    if !(e == ext && i == id) {
                        lemma_first_match_same(
                            self.overrides@,
                            names_override(e, i),
                            before.overrides@,
                            names_override(e, i),
                        );
                        lemma_first_match_facts(self.overrides@, names_override(e, i));
                    } else {
                        lemma_first_match_same(
                            self.overrides@,
                            names_override(e, i),
                            before.overrides@,
                            names_override(e, i),
                        );
                    }
                },
                None => {
                    let last = self.overrides@.last();
                    assert(self.overrides@ =~= before.overrides@.push(last));
                    lemma_first_match_push(before.overrides@, names_override(e, i), last);
                    lemma_first_match_facts(self.overrides@, names_override(e, i));
                },
            }
        }
    }
}

impl Registry {
    /// Whether a write of `id` of `reg_id` under extension key `ext` reaches a read under
    /// extension key `e`: an extension write reaches that extension alone, a global write
    /// every extension that has no override of its own.
    pub open spec fn write_reaches(&self, reg_id: Seq<char>, ext: Seq<char>, id: Seq<char>, e: Seq<char>) -> bool {
        match first_match(self.spec_modules(), names_module(reg_id)) {
            None => false,
            Some(mi) => if ext.len() == 0 {
                !(e.len() > 0 && has_override(self.spec_modules()[mi], e, id))
            } else {
                e == ext
            },
        }
    }

    /// The reads of a registry whose module for `reg_id` was written, against the reads
    /// before: the value written wherever the write reaches, the earlier value elsewhere.
    proof fn lemma_written_lookups(
        self,
        before: Registry,
        reg_id: Seq<char>,
        ext: Seq<char>,
        id: Seq<char>,
        value: ValueView,
        r: Seq<char>,
        e: Seq<char>,
        i: Seq<char>,
    )
        requires
            before.well_formed(),
            first_match(before.modules@, names_module(reg_id)) is Some,
            ({
                let mi = first_match(before.modules@, names_module(reg_id))->0;
                let m0 = before.modules@[mi];
                let m1 = self.modules@[mi];
                &&& first_match(m0.spec_schemas(), names_schema(id)) is Some
                &&& self.modules@.len() == before.modules@.len()
                &&& forall|j: int|
                    0 <= j < before.modules@.len() && j != mi ==> self.modules@[j]
                        == before.modules@[j]
                &&& m1.spec_reg_id() == m0.spec_reg_id()
                &&& exists|w: Module|
                    w.written(m0, ext, id, value) && m1.spec_schemas() == w.spec_schemas()
                        && m1.spec_overrides() == w.spec_overrides()
            }),
        ensures
            self.lookup(r, e, i) == if r == reg_id && i == id && before.write_reaches(
                reg_id,
                ext,
                id,
                e,
            ) {
                Ok(value)
            } else {
                before.lookup(r, e, i)
            },
    {
        let mi = first_match(before.modules@, names_module(reg_id))->0;
        lemma_first_match_facts(before.modules@, names_module(reg_id));
        lemma_first_match_same(self.modules@, names_module(r), before.modules@, names_module(r));
        lemma_first_match_facts(before.modules@, names_module(r));
        let m0 = before.modules@[mi];
        let m1 = self.modules@[mi];
        let w = choose|w: Module|
            w.written(m0, ext, id, value) && m1.spec_schemas() == w.spec_schemas()
                && m1.spec_overrides() == w.spec_overrides();
        assert(m0.well_formed());
        w.lemma_written_reads(m0, ext, id, value, e, i);
        assert(m1.read(e, i) == w.read(e, i));
        if r == reg_id {
            lemma_first_match_facts(m0.schemas@, names_schema(id));
        }
    }

    /// What a write changes, read back: the value written is what a read at the written
    /// scope gives, and no other read changes beyond what the write reaches.
    proof fn lemma_set_lookups(
        self,
        before: Registry,
        reg_id: Seq<char>,
        ext: Seq<char>,
        id: Seq<char>,
        value: ValueView,
    )
        requires
            before.well_formed(),
            first_match(before.modules@, names_module(reg_id)) is Some,
            ({
                let mi = first_match(before.modules@, names_module(reg_id))->0;
                let m0 = before.modules@[mi];
                let m1 = self.modules@[mi];
                &&& first_match(m0.spec_schemas(), names_schema(id)) is Some
                &&& self.modules@.len() == before.modules@.len()
                &&& forall|j: int|
                    0 <= j < before.modules@.len() && j != mi ==> self.modules@[j]
                        == before.modules@[j]
                &&& m1.spec_reg_id() == m0.spec_reg_id()
                &&& exists|w: Module|
                    w.written(m0, ext, id, value) && m1.spec_schemas() == w.spec_schemas()
                        && m1.spec_overrides() == w.spec_overrides()
            }),
        ensures
            self.lookup(reg_id, ext, id) == Ok::<ValueView, ErrorView>(value),
            forall|r: Seq<char>, e: Seq<char>, i: Seq<char>|
                #[trigger] self.lookup(r, e, i) == if r == reg_id && i == id
                    && before.write_reaches(reg_id, ext, id, e) {
                    Ok(value)
                } else {
                    before.lookup(r, e, i)
                },
    {
        assert forall|r: Seq<char>, e: Seq<char>, i: Seq<char>|
            #[trigger] self.lookup(r, e, i) == if r == reg_id && i == id
                && before.write_reaches(reg_id, ext, id, e) {
                Ok(value)
            } else {
                before.lookup(r, e, i)
            } by {
            self.lemma_written_lookups(before, reg_id, ext, id, value, r, e, i);
        }
        self.lemma_written_lookups(before, reg_id, ext, id, value, reg_id, ext, id);
    }
}

/// String values handed to plugins. Append-only and deduplicated, so what was handed out
/// for a string stays valid, and repeated reads of one string do not grow it.
pub struct Interner {
    strings: Vec<String>,
}

impl Interner {
    pub closed spec fn spec_strings(&self) -> Seq<String> {
        self.strings@
    }

    pub fn new() -> (interner: Interner)
        ensures
            interner.spec_strings().len() == 0,
    {
        Interner { strings: Vec::new() }
    }

    /// The slot holding `value`, reusing the first equal string already handed out; a
    /// new string is appended. Returns the slot and whether it was appended.
    pub fn intern(&mut self, value: &str) -> (slot: (usize, bool))
        ensures
            match first_match(old(self).spec_strings(), names_pending(value@)) {
                Some(i) => slot == (i as usize, false) && final(self).spec_strings() == old(
                    self,
                ).spec_strings(),
                None => slot == (old(self).spec_strings().len() as usize, true)
                    && final(self).spec_strings().len() == old(self).spec_strings().len() + 1
                    && final(self).spec_strings().drop_last() == old(self).spec_strings()
                    && final(self).spec_strings().last()@ == value@,
            },
            final(self).spec_strings()[slot.0 as int]@ == value@,
    {
        let mut i: usize = 0;
        while i < self.strings.len()
            invariant
                0 <= i <= self.strings@.len(),
                self.strings@ == old(self).strings@,
                forall|j: int| 0 <= j < i ==> !names_pending(value@)(self.strings@[j]),
            decreases self.strings@.len() - i,
        {
            if same_text(self.strings[i].as_str(), value) {
                proof {
                    lemma_first_match_found(self.strings@, names_pending(value@), i as int);
                }
                return (i, false);
            }
            i = i + 1;
        }
        proof {
            lemma_first_match_absent(self.strings@, names_pending(value@));
        }
        let slot = self.strings.len();
        self.strings.push(value.to_owned());
        proof {
            assert(self.strings@.drop_last() =~= old(self).strings@);
        }
        (slot, true)
    }
}

} // verus!
