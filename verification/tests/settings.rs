use retrovert_host::service::settings::normalize_ext;
use retrovert_host::ffi::settings::RVSettingsResult;
use retrovert_host::service::registry::{Module, Registry, RestoreOutcome};
use retrovert_host::service::schema::read_int_choices;
use retrovert_host::service::schema::read_str_choices;
use retrovert_host::service::settings::{
    checked_array_count, Choice, Setting, SettingSchema, SettingsError, SettingsUpdate,
    StoredValue, Value, SETTINGS_COUNT_LIMIT, SETTING_CHOICE_COUNT_LIMIT,
};

/// An element as wide as the largest registration entry the ABI defines.
#[allow(dead_code)]
struct WideEntry([u64; 8]);

/// An element as wide as one choice entry.
#[allow(dead_code)]
struct ChoiceEntry([u64; 2]);

/// The registry with the persistence and logging a host wires around it.
#[derive(Default)]
struct Host {
    registry: Option<Registry>,
    loads: Vec<StoredValue>,
    saves: Vec<(String, Vec<StoredValue>)>,
    dropped: Vec<(String, RestoreOutcome)>,
}

impl Host {
    fn new() -> Self {
        Host {
            registry: Some(Registry::new()),
            ..Host::default()
        }
    }

    fn registry(&mut self) -> &mut Registry {
        self.registry.as_mut().expect("registry")
    }

    fn register(&mut self, reg_id: &str, schemas: Vec<SettingSchema>) -> Result<(), SettingsError> {
        assert!(self.registry().has_order_room());
        let order = self.registry().begin_registration(reg_id, &schemas)?;
        let mut module = Module::new(order, reg_id, schemas);
        for stored in self.loads.clone() {
            let id = stored.id.clone();
            let outcome = module.restore(stored);
            if outcome != RestoreOutcome::Restored {
                self.dropped.push((id, outcome));
            }
        }
        self.registry().finish_registration(module);
        Ok(())
    }

    fn get(&mut self, reg_id: &str, ext: &str, id: &str) -> Result<Value, SettingsError> {
        self.registry().get(reg_id, ext, id)
    }

    fn set(&mut self, reg_id: &str, ext: &str, id: &str, value: Value) -> Result<SettingsUpdate, SettingsError> {
        assert!(self.registry().has_revision_room(reg_id));
        self.registry().set(reg_id, ext, id, value)
    }

    fn is_dirty(&mut self) -> bool {
        self.registry().is_dirty()
    }

    fn flush(&mut self) {
        let saves = self.registry().begin_flush();
        for (reg_id, values, revision) in saves {
            self.saves.push((reg_id.clone(), values));
            self.registry().finish_save(&reg_id, revision, true);
        }
    }

    fn reg_ids(&mut self) -> Vec<String> {
        self.registry().reg_ids()
    }

    fn schemas(&mut self, reg_id: &str) -> Vec<SettingSchema> {
        self.registry()
            .module_schemas(reg_id)
            .map(|schemas| schemas.to_vec())
            .unwrap_or_default()
    }
}

fn schema(id: &str, setting: Setting) -> SettingSchema {
    SettingSchema {
        id: id.to_string(),
        name: id.to_string(),
        desc: String::new(),
        setting,
    }
}

fn int_setting(value: i32) -> Setting {
    Setting::Int {
        value,
        start_range: 0,
        end_range: 0,
    }
}

#[test]
fn array_counts_are_bounded_by_service_platform_and_element_limits() {
    assert_eq!(
        checked_array_count::<WideEntry>(0, SETTINGS_COUNT_LIMIT),
        Some(0)
    );
    assert_eq!(
        checked_array_count::<WideEntry>(SETTINGS_COUNT_LIMIT, SETTINGS_COUNT_LIMIT),
        usize::try_from(SETTINGS_COUNT_LIMIT).ok()
    );
    assert_eq!(
        checked_array_count::<WideEntry>(SETTINGS_COUNT_LIMIT + 1, SETTINGS_COUNT_LIMIT),
        None
    );
    assert_eq!(checked_array_count::<WideEntry>(u64::MAX, u64::MAX), None);
    assert_eq!(
        checked_array_count::<ChoiceEntry>(
            SETTING_CHOICE_COUNT_LIMIT + 1,
            SETTING_CHOICE_COUNT_LIMIT,
        ),
        None
    );
}

#[test]
fn rejected_choice_counts_are_not_traversed_or_allocated() {
    // A refused count reaches the reader as no list at all.
    assert_eq!(
        checked_array_count::<ChoiceEntry>(SETTING_CHOICE_COUNT_LIMIT.saturating_add(1), SETTING_CHOICE_COUNT_LIMIT),
        None
    );
    assert_eq!(read_int_choices(&None), Err(RVSettingsResult::InvalidCount));
    assert_eq!(read_str_choices(&None), Err(RVSettingsResult::InvalidCount));
}

#[test]
fn a_second_registration_under_the_same_id_is_refused() {
    let mut settings = Host::new();
    settings
        .register("uade", vec![schema("filter", int_setting(1))])
        .expect("first registration");

    let error = settings
        .register("uade", vec![schema("other", int_setting(2))])
        .expect_err("second registration");

    assert_eq!(
        error,
        SettingsError::DuplicateRegId {
            reg_id: "uade".to_string()
        }
    );
    assert_eq!(settings.schemas("uade").len(), 1);
}

#[test]
fn one_registration_may_not_name_the_same_setting_twice() {
    let mut settings = Host::new();

    let error = settings
        .register(
            "uade",
            vec![schema("filter", int_setting(1)), schema("filter", int_setting(2))],
        )
        .expect_err("duplicate id");

    assert_eq!(
        error,
        SettingsError::DuplicateId {
            reg_id: "uade".to_string(),
            id: "filter".to_string()
        }
    );
    assert!(settings.reg_ids().is_empty());
}

#[test]
fn stored_values_are_live_the_moment_a_plugin_registers() {
    let mut settings = Host::new();
    settings.loads = vec![
        StoredValue {
            ext: String::new(),
            id: "filter".to_string(),
            value: Value::Int(7),
        },
        StoredValue {
            ext: "mod".to_string(),
            id: "filter".to_string(),
            value: Value::Int(9),
        },
    ];

    settings
        .register("uade", vec![schema("filter", int_setting(1))])
        .expect("registration");

    assert_eq!(settings.get("uade", "", "filter"), Ok(Value::Int(7)));
    assert_eq!(settings.get("uade", "mod", "filter"), Ok(Value::Int(9)));
}

#[test]
fn a_stored_value_the_schema_no_longer_matches_is_reported_and_dropped() {
    let mut settings = Host::new();
    settings.loads = vec![
        StoredValue {
            ext: String::new(),
            id: "gone".to_string(),
            value: Value::Int(7),
        },
        StoredValue {
            ext: String::new(),
            id: "filter".to_string(),
            value: Value::Bool(true),
        },
    ];

    settings
        .register("uade", vec![schema("filter", int_setting(1))])
        .expect("registration");

    assert_eq!(settings.get("uade", "", "filter"), Ok(Value::Int(1)));
    assert_eq!(settings.dropped.len(), 2, "{:?}", settings.dropped);
    assert_eq!(settings.dropped[0], ("gone".to_string(), RestoreOutcome::UnknownId));
    assert_eq!(
        settings.dropped[1],
        (
            "filter".to_string(),
            RestoreOutcome::WrongType {
                actual: "int",
                requested: "bool"
            }
        )
    );
}

#[test]
fn an_extension_override_shadows_the_global_value_only_for_that_extension() {
    let mut settings = Host::new();
    settings
        .register("uade", vec![schema("filter", int_setting(1))])
        .expect("registration");

    settings
        .set("uade", "mod", "filter", Value::Int(5))
        .expect("override");

    assert_eq!(settings.get("uade", "mod", "filter"), Ok(Value::Int(5)));
    assert_eq!(settings.get("uade", "ahx", "filter"), Ok(Value::Int(1)));
    assert_eq!(settings.get("uade", "", "filter"), Ok(Value::Int(1)));
}

#[test]
fn changing_the_global_value_still_shows_through_extensions_without_an_override() {
    let mut settings = Host::new();
    settings
        .register("uade", vec![schema("filter", int_setting(1))])
        .expect("registration");
    settings
        .set("uade", "mod", "filter", Value::Int(5))
        .expect("override");

    settings
        .set("uade", "", "filter", Value::Int(3))
        .expect("global");

    assert_eq!(settings.get("uade", "mod", "filter"), Ok(Value::Int(5)));
    assert_eq!(settings.get("uade", "ahx", "filter"), Ok(Value::Int(3)));
}

#[test]
fn extensions_match_without_a_leading_dot_and_without_case() {
    let mut settings = Host::new();
    settings
        .register("uade", vec![schema("filter", int_setting(1))])
        .expect("registration");

    settings
        .set("uade", ".MOD", "filter", Value::Int(5))
        .expect("override");

    assert_eq!(settings.get("uade", "mod", "filter"), Ok(Value::Int(5)));
    assert_eq!(settings.get("uade", "Mod", "filter"), Ok(Value::Int(5)));
}

#[test]
fn an_unknown_module_a_missing_id_and_a_wrong_type_each_have_their_own_error() {
    let mut settings = Host::new();
    settings
        .register("uade", vec![schema("filter", int_setting(1))])
        .expect("registration");

    assert_eq!(
        settings.get("nope", "", "filter"),
        Err(SettingsError::NotFound {
            reg_id: "nope".to_string()
        })
    );
    assert_eq!(
        settings.get("uade", "", "nope"),
        Err(SettingsError::UnknownId {
            reg_id: "uade".to_string(),
            id: "nope".to_string()
        })
    );
    assert_eq!(
        settings.set("uade", "", "filter", Value::Bool(true)),
        Err(SettingsError::WrongType {
            reg_id: "uade".to_string(),
            id: "filter".to_string(),
            actual: "int",
            requested: "bool"
        })
    );
}

#[test]
fn a_choice_setting_reads_and_writes_through_its_underlying_kind() {
    let mut settings = Host::new();
    settings
        .register(
            "openmpt",
            vec![
                schema(
                    "channels",
                    Setting::IntChoice {
                        value: 2,
                        choices: vec![Choice {
                            name: "Stereo".to_string(),
                            value: 2,
                        }],
                    },
                ),
                schema(
                    "filter",
                    Setting::StrChoice {
                        value: "auto".to_string(),
                        choices: vec![Choice {
                            name: "Auto".to_string(),
                            value: "auto".to_string(),
                        }],
                    },
                ),
            ],
        )
        .expect("registration");

    assert_eq!(settings.get("openmpt", "", "channels"), Ok(Value::Int(2)));
    settings
        .set("openmpt", "", "channels", Value::Int(4))
        .expect("write");
    assert_eq!(settings.get("openmpt", "", "channels"), Ok(Value::Int(4)));

    settings
        .set("openmpt", "", "filter", Value::Str("a500".to_string()))
        .expect("write");
    assert_eq!(
        settings.get("openmpt", "", "filter"),
        Ok(Value::Str("a500".to_string()))
    );
}

#[test]
fn a_write_that_changes_nothing_neither_dirties_nor_asks_for_a_restart() {
    let mut settings = Host::new();
    settings
        .register("uade", vec![schema("filter", int_setting(1))])
        .expect("registration");

    assert_eq!(
        settings.set("uade", "", "filter", Value::Int(1)),
        Ok(SettingsUpdate::Default)
    );
    assert!(!settings.is_dirty());

    assert_eq!(
        settings.set("uade", "", "filter", Value::Int(2)),
        Ok(SettingsUpdate::RequireRestart)
    );
    assert!(settings.is_dirty());

    settings.flush();
    assert_eq!(
        settings.set("uade", "mod", "filter", Value::Int(5)),
        Ok(SettingsUpdate::RequireRestart)
    );
    settings.flush();
    assert_eq!(
        settings.set("uade", "mod", "filter", Value::Int(5)),
        Ok(SettingsUpdate::Default)
    );
    assert!(!settings.is_dirty());
}

#[test]
fn flush_writes_changed_modules_once_and_carries_both_globals_and_overrides() {
    let mut settings = Host::new();
    settings
        .register("uade", vec![schema("filter", int_setting(1))])
        .expect("registration");
    settings
        .register("hively", vec![schema("volume", int_setting(64))])
        .expect("registration");

    settings
        .set("uade", "mod", "filter", Value::Int(5))
        .expect("override");
    settings.flush();
    settings.flush();

    let saves = &settings.saves;
    assert_eq!(saves.len(), 1, "{saves:?}");
    assert_eq!(saves[0].0, "uade");
    assert_eq!(
        saves[0].1,
        vec![
            StoredValue {
                ext: String::new(),
                id: "filter".to_string(),
                value: Value::Int(1)
            },
            StoredValue {
                ext: "mod".to_string(),
                id: "filter".to_string(),
                value: Value::Int(5)
            },
        ]
    );
    assert!(!settings.is_dirty());
}

#[test]
fn a_saved_nan_value_becomes_clean() {
    let mut settings = Host::new();
    settings
        .register(
            "synth",
            vec![schema(
                "gain",
                Setting::Float {
                    value: 0.0_f32.to_bits(),
                    start_range: 0.0_f32.to_bits(),
                    end_range: 0.0_f32.to_bits(),
                },
            )],
        )
        .expect("registration");
    settings
        .set("synth", "", "gain", Value::Float(f32::NAN.to_bits()))
        .expect("write");

    settings.flush();

    assert!(!settings.is_dirty());
}

#[test]
fn pinning_an_extension_to_the_global_value_survives_a_later_global_write() {
    let mut settings = Host::new();
    settings
        .register("uade", vec![schema("filter", int_setting(1))])
        .expect("registration");

    assert_eq!(
        settings.set("uade", "mod", "filter", Value::Int(1)),
        Ok(SettingsUpdate::RequireRestart)
    );
    settings
        .set("uade", "", "filter", Value::Int(3))
        .expect("global");

    assert_eq!(settings.get("uade", "mod", "filter"), Ok(Value::Int(1)));
    assert_eq!(settings.get("uade", "ahx", "filter"), Ok(Value::Int(3)));
}

#[test]
fn a_string_with_an_interior_nul_is_refused_rather_than_handed_to_a_plugin() {
    let mut settings = Host::new();
    settings
        .register(
            "openmpt",
            vec![schema(
                "filter",
                Setting::StrChoice {
                    value: "auto".to_string(),
                    choices: Vec::new(),
                },
            )],
        )
        .expect("registration");

    assert_eq!(
        settings.set("openmpt", "", "filter", Value::Str("a\x00500".to_string())),
        Err(SettingsError::InteriorNul {
            reg_id: "openmpt".to_string(),
            id: "filter".to_string()
        })
    );
    assert_eq!(
        settings.get("openmpt", "", "filter"),
        Ok(Value::Str("auto".to_string()))
    );
    assert!(!settings.is_dirty());
}

#[test]
fn a_stored_string_with_an_interior_nul_is_reported_and_dropped() {
    let mut settings = Host::new();
    settings.loads = vec![StoredValue {
        ext: String::new(),
        id: "filter".to_string(),
        value: Value::Str("a\x00500".to_string()),
    }];

    settings
        .register(
            "openmpt",
            vec![schema(
                "filter",
                Setting::StrChoice {
                    value: "auto".to_string(),
                    choices: Vec::new(),
                },
            )],
        )
        .expect("registration");

    assert_eq!(
        settings.get("openmpt", "", "filter"),
        Ok(Value::Str("auto".to_string()))
    );
    assert_eq!(settings.dropped.len(), 1, "{:?}", settings.dropped);
    assert_eq!(settings.dropped[0].1, RestoreOutcome::InteriorNul);
}

#[test]
fn enumeration_follows_registration_order_and_reports_current_values() {
    let mut settings = Host::new();
    settings
        .register("uade", vec![schema("filter", int_setting(1))])
        .expect("registration");
    settings
        .register("hively", vec![schema("volume", int_setting(64))])
        .expect("registration");
    settings
        .set("uade", "", "filter", Value::Int(3))
        .expect("write");

    assert_eq!(settings.reg_ids(), ["uade", "hively"]);
    assert_eq!(settings.schemas("uade")[0].setting, int_setting(3));
    assert!(settings.schemas("nope").is_empty());
}

#[test]
fn an_aborted_registration_frees_its_id_without_reusing_its_order() {
    let mut settings = Host::new();
    let order = settings
        .registry()
        .begin_registration("during", &vec![schema("filter", int_setting(1))])
        .expect("begin");
    // While it is pending, the id is taken.
    assert_eq!(
        settings.registry().begin_registration("during", &vec![]),
        Err(SettingsError::DuplicateRegId {
            reg_id: "during".to_string()
        })
    );
    settings.registry().abort_registration("during");
    let next = settings
        .registry()
        .begin_registration("after", &vec![])
        .expect("begin");
    assert!(next > order);
    settings.register("during", vec![]).expect("the id is free again");
}

#[test]
fn invalid_direct_string_registration_leaves_plugin_lookup_recoverable() {
    let mut settings = Host::new();
    let invalid = SettingSchema {
        id: "filter".to_string(),
        name: "Filter".to_string(),
        desc: String::new(),
        setting: Setting::StrChoice {
            value: "a\0uto".to_string(),
            choices: Vec::new(),
        },
    };

    assert_eq!(
        settings.register("openmpt", vec![invalid]),
        Err(SettingsError::InteriorNul {
            reg_id: "openmpt".to_string(),
            id: "filter".to_string(),
        })
    );
    assert!(settings.reg_ids().is_empty());
    assert_eq!(
        settings.get("openmpt", "", "filter").map_err(|e| e.to_abi()),
        Err(RVSettingsResult::NotFound)
    );

    settings
        .register(
            "openmpt",
            vec![SettingSchema {
                id: "filter".to_string(),
                name: "Filter".to_string(),
                desc: String::new(),
                setting: Setting::StrChoice {
                    value: "auto".to_string(),
                    choices: Vec::new(),
                },
            }],
        )
        .expect("valid retry");
    assert_eq!(settings.get("openmpt", "", "filter"), Ok(Value::Str("auto".to_string())));
}

#[test]
fn extension_keys_drop_leading_dots_and_ascii_case() {
    assert_eq!(normalize_ext(""), "");
    assert_eq!(normalize_ext(".MOD"), "mod");
    assert_eq!(normalize_ext("Mod"), "mod");
    assert_eq!(normalize_ext("..x.Y"), "x.y");
}
