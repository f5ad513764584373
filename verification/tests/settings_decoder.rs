use retrovert_host::ffi::settings::{
    RVSettingsResult, RVS_BOOL_TYPE, RVS_FLOAT_TYPE, RVS_INTEGER_RANGE_TYPE, RVS_INTEGER_TYPE,
    RVS_STRING_RANGE_TYPE,
};
use retrovert_host::plugin_string::plugin_str;
use retrovert_host::service::registry::{Module, Registry};
use retrovert_host::service::schema::{
    lookup_keys, registration_id, schemas_from_wire, PluginText, SchemaWarning, WireBody,
    WireIntChoice, WireSetting, WireStrChoice,
};
use retrovert_host::service::settings::{
    checked_array_count, Choice, Setting, SettingSchema, SettingsError, Value,
    SETTINGS_COUNT_LIMIT, SETTING_CHOICE_COUNT_LIMIT, SETTING_DESCRIPTION_LIMIT,
    SETTING_EXTENSION_LIMIT, SETTING_ID_LIMIT, SETTING_LABEL_LIMIT, SETTING_REG_ID_LIMIT,
    SETTING_VALUE_LIMIT,
};

/// An element as wide as one registration entry.
#[allow(dead_code)]
struct Entry([u64; 8]);

/// An element as wide as one choice entry.
#[allow(dead_code)]
struct ChoiceEntry([u64; 2]);

/// A NUL-terminated plugin string read through the window its limit allows.
fn c(text: &str, limit: usize) -> PluginText {
    let mut bytes = text.as_bytes().to_vec();
    bytes.push(0);
    plugin_str(Some(&bytes), limit)
}

/// `length` copies of `byte`, NUL-terminated, read with `limit`.
fn repeated(byte: u8, length: usize, limit: usize) -> PluginText {
    let mut bytes = vec![byte; length];
    bytes.push(0);
    plugin_str(Some(&bytes), limit)
}

/// `limit + 1` bytes with no terminator anywhere in the window.
fn unterminated(byte: u8, limit: usize) -> PluginText {
    plugin_str(Some(&vec![byte; limit + 1]), limit)
}

fn entry(widget_type: u64, id: &str, name: &str, desc: &str, body: WireBody) -> WireSetting {
    WireSetting {
        widget_type,
        id: c(id, SETTING_ID_LIMIT),
        name: c(name, SETTING_LABEL_LIMIT),
        desc: c(desc, SETTING_DESCRIPTION_LIMIT),
        body,
    }
}

fn every_widget_kind(int_choices: Vec<WireIntChoice>, str_choices: Vec<WireStrChoice>) -> Vec<WireSetting> {
    vec![
        entry(
            RVS_FLOAT_TYPE,
            "gain",
            "Master Gain",
            "in percent",
            WireBody::Float {
                value: 100.0_f32.to_bits(),
                start_range: 0.0_f32.to_bits(),
                end_range: 400.0_f32.to_bits(),
            },
        ),
        entry(
            RVS_INTEGER_TYPE,
            "separation",
            "Stereo Separation",
            "",
            WireBody::Int { value: 100, start_range: 0, end_range: 200 },
        ),
        entry(RVS_BOOL_TYPE, "amiga", "Amiga Resampling", "", WireBody::Bool { byte: 1 }),
        entry(
            RVS_INTEGER_RANGE_TYPE,
            "channels",
            "Channels",
            "",
            WireBody::IntChoice { value: 2, choices: Some(int_choices) },
        ),
        entry(
            RVS_STRING_RANGE_TYPE,
            "filter",
            "Amiga Resampler Filter",
            "",
            WireBody::StrChoice {
                value: c("auto", SETTING_VALUE_LIMIT),
                choices: Some(str_choices),
            },
        ),
    ]
}

/// Registers what the entries decode to, the way the host's `reg` does: the code it
/// answers with, and the schemas the registry then holds.
fn register(registry: &mut Registry, reg_id: PluginText, entries: &Vec<WireSetting>) -> RVSettingsResult {
    let Some(reg_id) = registration_id(reg_id) else {
        return RVSettingsResult::NotFound;
    };
    let schemas = match schemas_from_wire(entries).schemas {
        Ok(schemas) => schemas,
        Err(code) => return code,
    };
    let order = match registry.begin_registration(&reg_id, &schemas) {
        Ok(order) => order,
        Err(error) => return error.to_abi(),
    };
    registry.finish_registration(Module::new(order, &reg_id, schemas));
    RVSettingsResult::Success
}

fn schemas(registry: &Registry, reg_id: &str) -> Vec<SettingSchema> {
    registry.module_schemas(reg_id).map(|s| s.to_vec()).unwrap_or_default()
}

fn int_entry(id: PluginText, name: PluginText, desc: PluginText, widget_type: u64) -> WireSetting {
    let body = if widget_type == RVS_INTEGER_TYPE {
        WireBody::Int { value: 7, start_range: 0, end_range: 0 }
    } else {
        WireBody::Unknown
    };
    WireSetting { widget_type, id, name, desc, body }
}

#[test]
fn miri_unsafe_settings_decoder_supports_every_widget_kind() {
    let int_choices = vec![
        WireIntChoice { name: c("Mono", SETTING_LABEL_LIMIT), value: 1 },
        WireIntChoice { name: c("Stereo", SETTING_LABEL_LIMIT), value: 2 },
    ];
    let str_choices = vec![WireStrChoice {
        name: c("A500 Filter", SETTING_LABEL_LIMIT),
        value: c("a500", SETTING_VALUE_LIMIT),
    }];
    let settings = every_widget_kind(int_choices, str_choices);

    let mut registry = Registry::new();
    assert_eq!(
        register(&mut registry, c("libopenmpt", SETTING_REG_ID_LIMIT), &settings),
        RVSettingsResult::Success
    );

    let schemas = schemas(&registry, "libopenmpt");
    assert_eq!(
        schemas.iter().map(|s| s.id.as_str()).collect::<Vec<_>>(),
        ["gain", "separation", "amiga", "channels", "filter"]
    );
    assert_eq!(schemas[0].name, "Master Gain");
    assert_eq!(schemas[0].desc, "in percent");
    assert_eq!(
        schemas[0].setting,
        Setting::Float {
            value: 100.0_f32.to_bits(),
            start_range: 0.0_f32.to_bits(),
            end_range: 400.0_f32.to_bits()
        }
    );
    assert_eq!(
        schemas[1].setting,
        Setting::Int { value: 100, start_range: 0, end_range: 200 }
    );
    assert_eq!(schemas[2].setting, Setting::Bool { value: true });
    assert_eq!(
        schemas[3].setting,
        Setting::IntChoice {
            value: 2,
            choices: vec![
                Choice { name: "Mono".to_string(), value: 1 },
                Choice { name: "Stereo".to_string(), value: 2 },
            ]
        }
    );
    assert_eq!(
        schemas[4].setting,
        Setting::StrChoice {
            value: "auto".to_string(),
            choices: vec![Choice { name: "A500 Filter".to_string(), value: "a500".to_string() }]
        }
    );
}

#[test]
fn a_setting_without_an_id_or_with_an_unknown_widget_type_is_reported_and_skipped() {
    let settings = vec![
        WireSetting {
            widget_type: RVS_INTEGER_TYPE,
            id: Ok(None),
            name: c("Nameless", SETTING_LABEL_LIMIT),
            desc: c("", SETTING_DESCRIPTION_LIMIT),
            body: WireBody::Int { value: 1, start_range: 0, end_range: 0 },
        },
        WireSetting {
            widget_type: 0x2000,
            id: c("strange", SETTING_ID_LIMIT),
            name: c("Strange", SETTING_LABEL_LIMIT),
            desc: c("", SETTING_DESCRIPTION_LIMIT),
            body: WireBody::Unknown,
        },
        entry(RVS_INTEGER_TYPE, "good", "Good", "", WireBody::Int { value: 3, start_range: 0, end_range: 0 }),
    ];

    let read = schemas_from_wire(&settings);
    let schemas = read.schemas.expect("registration");
    assert_eq!(schemas.len(), 1);
    assert_eq!(schemas[0].id, "good");
    assert_eq!(
        read.warnings,
        [
            SchemaWarning::MissingId,
            SchemaWarning::UnknownWidgetType { id: "strange".to_string(), widget_type: 0x2000 },
        ]
    );
}

#[test]
fn miri_unsafe_settings_decoder_rejects_invalid_boolean_storage() {
    let settings = vec![entry(RVS_BOOL_TYPE, "amiga", "Amiga Resampling", "", WireBody::Bool { byte: 2 })];
    let mut registry = Registry::new();
    assert_eq!(
        register(&mut registry, c("openmpt", SETTING_REG_ID_LIMIT), &settings),
        RVSettingsResult::Success
    );
    assert!(schemas(&registry, "openmpt").is_empty());
    assert_eq!(
        schemas_from_wire(&settings).warnings,
        [SchemaWarning::InvalidBool { id: "amiga".to_string(), byte: 2 }]
    );
}

#[test]
fn the_abi_reports_a_duplicate_a_missing_module_an_unknown_id_and_a_wrong_type_apart() {
    let settings = every_widget_kind(Vec::new(), Vec::new());
    let mut registry = Registry::new();
    register(&mut registry, c("libopenmpt", SETTING_REG_ID_LIMIT), &settings);

    assert_eq!(
        register(&mut registry, c("libopenmpt", SETTING_REG_ID_LIMIT), &settings),
        RVSettingsResult::DuplicatedId
    );
    assert_eq!(
        registry.get("nope", "", "separation").map_err(|e| e.to_abi()),
        Err(RVSettingsResult::NotFound)
    );
    assert_eq!(
        registry.get("libopenmpt", "", "nope").map_err(|e| e.to_abi()),
        Err(RVSettingsResult::UnknownId)
    );
    // The integer accessor answers WrongType for anything but an integer.
    assert!(matches!(registry.get("libopenmpt", "", "gain"), Ok(Value::Float(_))));
}

#[test]
fn a_registration_carrying_no_settings_is_accepted_and_stays_empty() {
    let mut registry = Registry::new();
    // A null array reaches the decoder as no entries, whatever count came with it.
    assert_eq!(
        register(&mut registry, c("empty", SETTING_REG_ID_LIMIT), &Vec::new()),
        RVSettingsResult::Success
    );
    assert_eq!(
        register(&mut registry, c("lying", SETTING_REG_ID_LIMIT), &Vec::new()),
        RVSettingsResult::Success
    );
    assert_eq!(registry.reg_ids(), ["empty", "lying"]);
    assert!(schemas(&registry, "empty").is_empty());
    assert!(schemas(&registry, "lying").is_empty());
}

#[test]
fn miri_unsafe_settings_decoder_accepts_boundary_counts() {
    assert_eq!(
        checked_array_count::<Entry>(SETTINGS_COUNT_LIMIT, SETTINGS_COUNT_LIMIT),
        Some(SETTINGS_COUNT_LIMIT as usize)
    );
    let settings: Vec<WireSetting> = (0..SETTINGS_COUNT_LIMIT)
        .map(|_| WireSetting {
            widget_type: RVS_INTEGER_TYPE,
            id: Ok(None),
            name: Ok(None),
            desc: Ok(None),
            body: WireBody::Int { value: 0, start_range: 0, end_range: 0 },
        })
        .collect();
    let mut registry = Registry::new();
    assert_eq!(
        register(&mut registry, c("limit", SETTING_REG_ID_LIMIT), &settings),
        RVSettingsResult::Success
    );
    assert!(schemas(&registry, "limit").is_empty());
}

#[test]
fn miri_unsafe_settings_decoder_rejects_invalid_counts_before_access() {
    assert_eq!(
        checked_array_count::<Entry>(SETTINGS_COUNT_LIMIT.saturating_add(1), SETTINGS_COUNT_LIMIT),
        None
    );
    assert_eq!(checked_array_count::<Entry>(u64::MAX, SETTINGS_COUNT_LIMIT), None);
    assert!(Registry::new().reg_ids().is_empty());
}

#[test]
fn miri_unsafe_settings_decoder_accepts_boundary_choice_counts() {
    assert_eq!(
        checked_array_count::<ChoiceEntry>(SETTING_CHOICE_COUNT_LIMIT, SETTING_CHOICE_COUNT_LIMIT),
        Some(SETTING_CHOICE_COUNT_LIMIT as usize)
    );
    let int_choices = (0..SETTING_CHOICE_COUNT_LIMIT)
        .map(|_| WireIntChoice { name: Ok(None), value: 0 })
        .collect();
    let str_choices = (0..SETTING_CHOICE_COUNT_LIMIT)
        .map(|_| WireStrChoice { name: Ok(None), value: Ok(None) })
        .collect();
    let settings = vec![
        entry(
            RVS_INTEGER_RANGE_TYPE,
            "integer-choice",
            "Integer choice",
            "",
            WireBody::IntChoice { value: 0, choices: Some(int_choices) },
        ),
        entry(
            RVS_STRING_RANGE_TYPE,
            "string-choice",
            "String choice",
            "",
            WireBody::StrChoice { value: c("", SETTING_VALUE_LIMIT), choices: Some(str_choices) },
        ),
    ];
    let mut registry = Registry::new();
    assert_eq!(
        register(&mut registry, c("choice-limits", SETTING_REG_ID_LIMIT), &settings),
        RVSettingsResult::Success
    );
    let schemas = schemas(&registry, "choice-limits");
    assert!(matches!(
        schemas[0].setting,
        Setting::IntChoice { ref choices, .. } if choices.is_empty()
    ));
    assert!(matches!(
        schemas[1].setting,
        Setting::StrChoice { ref choices, .. } if choices.is_empty()
    ));
}

#[test]
fn miri_unsafe_settings_decoder_rejects_invalid_choice_counts() {
    assert_eq!(
        checked_array_count::<ChoiceEntry>(
            SETTING_CHOICE_COUNT_LIMIT.saturating_add(1),
            SETTING_CHOICE_COUNT_LIMIT
        ),
        None
    );
    // A refused count reaches the decoder as no list at all.
    let settings = vec![entry(
        RVS_INTEGER_RANGE_TYPE,
        "choice",
        "Choice",
        "",
        WireBody::IntChoice { value: 0, choices: None },
    )];
    let mut registry = Registry::new();
    assert_eq!(
        register(&mut registry, c("invalid-choice", SETTING_REG_ID_LIMIT), &settings),
        RVSettingsResult::InvalidCount
    );
    assert!(registry.reg_ids().is_empty());
}

#[test]
fn settings_registration_fields_accept_their_limits_and_reject_longer_inputs() {
    let reg_id = repeated(b'r', SETTING_REG_ID_LIMIT, SETTING_REG_ID_LIMIT);
    let setting = vec![int_entry(
        repeated(b'i', SETTING_ID_LIMIT, SETTING_ID_LIMIT),
        repeated(b'n', SETTING_LABEL_LIMIT, SETTING_LABEL_LIMIT),
        repeated(b'd', SETTING_DESCRIPTION_LIMIT, SETTING_DESCRIPTION_LIMIT),
        RVS_INTEGER_TYPE,
    )];
    let mut registry = Registry::new();
    assert_eq!(register(&mut registry, reg_id, &setting), RVSettingsResult::Success);
    let schemas = schemas(&registry, &"r".repeat(SETTING_REG_ID_LIMIT));
    assert_eq!(schemas[0].id.len(), SETTING_ID_LIMIT);
    assert_eq!(schemas[0].name.len(), SETTING_LABEL_LIMIT);
    assert_eq!(schemas[0].desc.len(), SETTING_DESCRIPTION_LIMIT);

    for field in 0..3 {
        let setting = vec![int_entry(
            repeated(b'i', SETTING_ID_LIMIT + usize::from(field == 0), SETTING_ID_LIMIT),
            repeated(b'n', SETTING_LABEL_LIMIT + usize::from(field == 1), SETTING_LABEL_LIMIT),
            repeated(b'd', SETTING_DESCRIPTION_LIMIT + usize::from(field == 2), SETTING_DESCRIPTION_LIMIT),
            RVS_INTEGER_TYPE,
        )];
        assert_eq!(
            register(&mut Registry::new(), c("reg", SETTING_REG_ID_LIMIT), &setting),
            RVSettingsResult::NotFound,
            "field {field}"
        );
    }

    let unknown = vec![int_entry(
        repeated(b'i', SETTING_ID_LIMIT + 1, SETTING_ID_LIMIT),
        c("name", SETTING_LABEL_LIMIT),
        c("desc", SETTING_DESCRIPTION_LIMIT),
        u64::MAX,
    )];
    assert_eq!(
        register(&mut Registry::new(), c("reg", SETTING_REG_ID_LIMIT), &unknown),
        RVSettingsResult::NotFound
    );

    let mut registry = Registry::new();
    let over = repeated(b'r', SETTING_REG_ID_LIMIT + 1, SETTING_REG_ID_LIMIT);
    assert_eq!(register(&mut registry, over, &Vec::new()), RVSettingsResult::NotFound);
    let open = unterminated(b'r', SETTING_REG_ID_LIMIT);
    assert_eq!(register(&mut registry, open, &Vec::new()), RVSettingsResult::NotFound);
}

#[test]
fn setting_choice_strings_obey_label_and_value_limits() {
    fn result(name_len: usize, value_len: usize, choice_value_len: usize) -> RVSettingsResult {
        let choices = vec![WireStrChoice {
            name: repeated(b'n', name_len, SETTING_LABEL_LIMIT),
            value: repeated(b'c', choice_value_len, SETTING_VALUE_LIMIT),
        }];
        let settings = vec![entry(
            RVS_STRING_RANGE_TYPE,
            "choice",
            "Choice",
            "",
            WireBody::StrChoice {
                value: repeated(b'v', value_len, SETTING_VALUE_LIMIT),
                choices: Some(choices),
            },
        )];
        register(&mut Registry::new(), c("reg", SETTING_REG_ID_LIMIT), &settings)
    }

    assert_eq!(
        result(SETTING_LABEL_LIMIT, SETTING_VALUE_LIMIT, SETTING_VALUE_LIMIT),
        RVSettingsResult::Success
    );
    for limits in [
        (SETTING_LABEL_LIMIT + 1, SETTING_VALUE_LIMIT, SETTING_VALUE_LIMIT),
        (SETTING_LABEL_LIMIT, SETTING_VALUE_LIMIT + 1, SETTING_VALUE_LIMIT),
        (SETTING_LABEL_LIMIT, SETTING_VALUE_LIMIT, SETTING_VALUE_LIMIT + 1),
    ] {
        assert_eq!(result(limits.0, limits.1, limits.2), RVSettingsResult::NotFound);
    }

    fn int_result(name_len: usize) -> RVSettingsResult {
        let choices = vec![WireIntChoice { name: repeated(b'n', name_len, SETTING_LABEL_LIMIT), value: 1 }];
        let settings = vec![entry(
            RVS_INTEGER_RANGE_TYPE,
            "choice",
            "Choice",
            "",
            WireBody::IntChoice { value: 1, choices: Some(choices) },
        )];
        register(&mut Registry::new(), c("reg", SETTING_REG_ID_LIMIT), &settings)
    }

    assert_eq!(int_result(SETTING_LABEL_LIMIT), RVSettingsResult::Success);
    assert_eq!(int_result(SETTING_LABEL_LIMIT + 1), RVSettingsResult::NotFound);
}

#[test]
fn settings_lookup_keys_obey_their_individual_limits() {
    let mut registry = Registry::new();
    let setting = vec![entry(RVS_INTEGER_TYPE, "id", "name", "", WireBody::Int { value: 7, start_range: 0, end_range: 0 })];
    assert_eq!(
        register(&mut registry, c("reg", SETTING_REG_ID_LIMIT), &setting),
        RVSettingsResult::Success
    );

    let keys = lookup_keys(
        c("reg", SETTING_REG_ID_LIMIT),
        repeated(b'e', SETTING_EXTENSION_LIMIT, SETTING_EXTENSION_LIMIT),
        c("id", SETTING_ID_LIMIT),
    )
    .expect("keys at their limits");
    assert_eq!(registry.get(&keys.0, &keys.1, &keys.2), Ok(Value::Int(7)));

    for (reg, ext, id) in [
        (
            repeated(b'r', SETTING_REG_ID_LIMIT + 1, SETTING_REG_ID_LIMIT),
            c("", SETTING_EXTENSION_LIMIT),
            c("id", SETTING_ID_LIMIT),
        ),
        (
            c("reg", SETTING_REG_ID_LIMIT),
            repeated(b'e', SETTING_EXTENSION_LIMIT + 1, SETTING_EXTENSION_LIMIT),
            c("id", SETTING_ID_LIMIT),
        ),
        (
            c("reg", SETTING_REG_ID_LIMIT),
            c("", SETTING_EXTENSION_LIMIT),
            repeated(b'i', SETTING_ID_LIMIT + 1, SETTING_ID_LIMIT),
        ),
        (
            c("reg", SETTING_REG_ID_LIMIT),
            unterminated(b'e', SETTING_EXTENSION_LIMIT),
            c("id", SETTING_ID_LIMIT),
        ),
    ] {
        assert_eq!(lookup_keys(reg, ext, id), None);
    }
}

#[test]
fn null_strings_from_a_plugin_are_refused_and_a_null_ext_reads_as_global() {
    let settings = every_widget_kind(Vec::new(), Vec::new());
    let mut registry = Registry::new();
    register(&mut registry, c("libopenmpt", SETTING_REG_ID_LIMIT), &settings);

    assert_eq!(register(&mut registry, Ok(None), &settings), RVSettingsResult::NotFound);
    assert_eq!(
        register(&mut registry, c("", SETTING_REG_ID_LIMIT), &settings),
        RVSettingsResult::NotFound
    );
    assert_eq!(registry.reg_ids(), ["libopenmpt"]);

    assert_eq!(
        lookup_keys(Ok(None), c("", SETTING_EXTENSION_LIMIT), c("separation", SETTING_ID_LIMIT)),
        None
    );
    assert_eq!(
        lookup_keys(c("libopenmpt", SETTING_REG_ID_LIMIT), c("", SETTING_EXTENSION_LIMIT), Ok(None)),
        None
    );

    // A null ext is the same request as an empty one: the global value.
    registry.set("libopenmpt", "mod", "separation", Value::Int(150)).expect("override");
    let keys = lookup_keys(c("libopenmpt", SETTING_REG_ID_LIMIT), Ok(None), c("separation", SETTING_ID_LIMIT))
        .expect("a null ext reads as global");
    assert_eq!(keys.1, "");
    assert_eq!(registry.get(&keys.0, &keys.1, &keys.2), Ok(Value::Int(100)));
}

#[test]
fn duplicate_registration_errors_name_the_module() {
    let settings = every_widget_kind(Vec::new(), Vec::new());
    let schemas = schemas_from_wire(&settings).schemas.expect("schemas");
    let mut registry = Registry::new();
    let order = registry.begin_registration("libopenmpt", &schemas).expect("first");
    registry.finish_registration(Module::new(order, "libopenmpt", schemas.clone()));
    assert_eq!(
        registry.begin_registration("libopenmpt", &schemas),
        Err(SettingsError::DuplicateRegId { reg_id: "libopenmpt".to_string() })
    );
}

#[test]
fn each_accessor_reads_its_own_kind_and_honours_the_extension_override() {
    let int_choices = vec![WireIntChoice { name: c("Stereo", SETTING_LABEL_LIMIT), value: 2 }];
    let str_choices = vec![WireStrChoice {
        name: c("A500", SETTING_LABEL_LIMIT),
        value: c("a500", SETTING_VALUE_LIMIT),
    }];
    let settings = every_widget_kind(int_choices, str_choices);
    let mut registry = Registry::new();
    register(&mut registry, c("libopenmpt", SETTING_REG_ID_LIMIT), &settings);

    registry.set("libopenmpt", "mod", "separation", Value::Int(150)).expect("override");

    assert_eq!(registry.get("libopenmpt", "", "gain"), Ok(Value::Float(100.0_f32.to_bits())));
    assert_eq!(registry.get("libopenmpt", "", "amiga"), Ok(Value::Bool(true)));
    assert_eq!(registry.get("libopenmpt", "", "separation"), Ok(Value::Int(100)));
    assert_eq!(registry.get("libopenmpt", "mod", "separation"), Ok(Value::Int(150)));
    assert_eq!(registry.get("libopenmpt", "ahx", "separation"), Ok(Value::Int(100)));
}
