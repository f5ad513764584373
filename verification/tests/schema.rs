use retrovert_host::service::schema::body_needed;
use retrovert_host::service::schema::SchemaReader;
use retrovert_host::ffi::settings::RVSettingsResult;
use retrovert_host::plugin_string::StringLimitExceeded;
use retrovert_host::service::schema::{
    lookup_keys, registration_id, schemas_from_wire, SchemaWarning, WireBody, WireIntChoice, WireSetting, WireStrChoice,
};
use retrovert_host::service::settings::{Choice, Setting};

fn some(text: &str) -> Result<Option<String>, StringLimitExceeded> {
    Ok(Some(text.to_owned()))
}

fn entry(id: &str, body: WireBody) -> WireSetting {
    WireSetting {
        widget_type: 0x1001,
        id: some(id),
        name: some("Name"),
        desc: Ok(None),
        body,
    }
}

fn int_body(value: i32) -> WireBody {
    WireBody::Int {
        value,
        start_range: 0,
        end_range: 10,
    }
}

#[test]
fn every_widget_kind_becomes_its_setting() {
    let entries = vec![
        entry(
            "gain",
            WireBody::Float {
                value: 0.5_f32.to_bits(),
                start_range: 0,
                end_range: 1.0_f32.to_bits(),
            },
        ),
        entry("volume", int_body(7)),
        entry("loop", WireBody::Bool { byte: 1 }),
        entry(
            "channels",
            WireBody::IntChoice {
                value: 2,
                choices: Some(vec![
                    WireIntChoice { name: some("Mono"), value: 1 },
                    WireIntChoice { name: Ok(None), value: 3 },
                    WireIntChoice { name: some("Stereo"), value: 2 },
                ]),
            },
        ),
        entry(
            "filter",
            WireBody::StrChoice {
                value: Ok(None),
                choices: Some(vec![
                    WireStrChoice { name: some("Auto"), value: some("auto") },
                    WireStrChoice { name: some("Half"), value: Ok(None) },
                ]),
            },
        ),
    ];
    let read = schemas_from_wire(&entries);
    assert!(read.warnings.is_empty());
    let schemas = read.schemas.expect("schemas");
    assert_eq!(schemas.len(), 5);
    assert_eq!(schemas[0].id, "gain");
    assert_eq!(schemas[0].name, "Name");
    assert_eq!(schemas[0].desc, "");
    assert_eq!(
        schemas[0].setting,
        Setting::Float {
            value: 0.5_f32.to_bits(),
            start_range: 0,
            end_range: 1.0_f32.to_bits()
        }
    );
    assert_eq!(schemas[2].setting, Setting::Bool { value: true });
    assert_eq!(
        schemas[3].setting,
        Setting::IntChoice {
            value: 2,
            choices: vec![
                Choice { name: "Mono".to_owned(), value: 1 },
                Choice { name: "Stereo".to_owned(), value: 2 },
            ],
        }
    );
    assert_eq!(
        schemas[4].setting,
        Setting::StrChoice {
            value: String::new(),
            choices: vec![Choice { name: "Auto".to_owned(), value: "auto".to_owned() }],
        }
    );
}

#[test]
fn unusable_entries_are_skipped_and_reported() {
    let mut unknown = entry("mystery", WireBody::Unknown);
    unknown.widget_type = 0x2000;
    let entries = vec![
        unknown,
        entry("", int_body(1)),
        WireSetting { id: Ok(None), ..entry("x", int_body(1)) },
        entry("flag", WireBody::Bool { byte: 2 }),
        entry("kept", int_body(3)),
    ];
    let read = schemas_from_wire(&entries);
    assert_eq!(
        read.warnings,
        [
            SchemaWarning::UnknownWidgetType { id: "mystery".to_owned(), widget_type: 0x2000 },
            SchemaWarning::MissingId,
            SchemaWarning::MissingId,
            SchemaWarning::InvalidBool { id: "flag".to_owned(), byte: 2 },
        ]
    );
    let schemas = read.schemas.expect("schemas");
    assert_eq!(schemas.len(), 1);
    assert_eq!(schemas[0].id, "kept");
}

#[test]
fn an_unreadable_string_or_choice_list_refuses_the_registration() {
    let entries = vec![
        entry("flag", WireBody::Bool { byte: 9 }),
        WireSetting { desc: Err(StringLimitExceeded), ..entry("x", int_body(1)) },
        entry("never", int_body(2)),
    ];
    let read = schemas_from_wire(&entries);
    assert_eq!(read.schemas.unwrap_err(), RVSettingsResult::NotFound);
    // What was skipped before the refusal is still reported.
    assert_eq!(read.warnings.len(), 1);

    let counted = vec![entry("c", WireBody::IntChoice { value: 0, choices: None })];
    assert_eq!(
        schemas_from_wire(&counted).schemas.unwrap_err(),
        RVSettingsResult::InvalidCount
    );

    let bad_choice = vec![entry(
        "s",
        WireBody::StrChoice {
            value: some("a"),
            choices: Some(vec![WireStrChoice { name: Err(StringLimitExceeded), value: some("a") }]),
        },
    )];
    assert_eq!(
        schemas_from_wire(&bad_choice).schemas.unwrap_err(),
        RVSettingsResult::NotFound
    );

    // A null string beside an unreadable one only skips the choice.
    let null_beats_error = vec![entry(
        "s",
        WireBody::StrChoice {
            value: some("a"),
            choices: Some(vec![WireStrChoice { name: Ok(None), value: Err(StringLimitExceeded) }]),
        },
    )];
    assert!(schemas_from_wire(&null_beats_error).schemas.is_ok());

    let mut unknown = entry("x", WireBody::Unknown);
    unknown.id = Err(StringLimitExceeded);
    assert_eq!(
        schemas_from_wire(&vec![unknown]).schemas.unwrap_err(),
        RVSettingsResult::NotFound
    );
}

#[test]
fn a_registration_needs_a_readable_non_empty_name() {
    assert_eq!(registration_id(some("uade")), Some("uade".to_owned()));
    assert_eq!(registration_id(some("")), None);
    assert_eq!(registration_id(Ok(None)), None);
    assert_eq!(registration_id(Err(StringLimitExceeded)), None);
}

#[test]
fn a_null_extension_looks_up_the_global_value() {
    assert_eq!(
        lookup_keys(some("uade"), Ok(None), some("filter")),
        Some(("uade".to_owned(), String::new(), "filter".to_owned()))
    );
    assert_eq!(
        lookup_keys(some("uade"), some("mod"), some("filter")),
        Some(("uade".to_owned(), "mod".to_owned(), "filter".to_owned()))
    );
    assert_eq!(lookup_keys(Ok(None), Ok(None), some("filter")), None);
    assert_eq!(lookup_keys(some("uade"), Err(StringLimitExceeded), some("filter")), None);
    assert_eq!(lookup_keys(some("uade"), Ok(None), Ok(None)), None);
}

#[test]
fn a_reader_stops_at_the_first_refusing_entry_and_keeps_the_warnings_before_it() {
    let mut reader = SchemaReader::new();
    assert_eq!(reader.take(&entry("volume", int_body(7))), None);
    let nameless = WireSetting { widget_type: 0x1001, id: Ok(None), name: Ok(None), desc: Ok(None), body: int_body(1) };
    assert_eq!(reader.take(&nameless), None);
    let refused = entry("channels", WireBody::IntChoice { value: 1, choices: None });
    assert_eq!(reader.take(&refused), Some(RVSettingsResult::InvalidCount));
    assert_eq!(reader.warnings(), &vec![SchemaWarning::MissingId]);
    let read = reader.finish(Some(RVSettingsResult::InvalidCount));
    assert_eq!(read.schemas.err(), Some(RVSettingsResult::InvalidCount));
    assert_eq!(read.warnings, [SchemaWarning::MissingId]);
}

#[test]
fn only_a_known_entry_with_readable_strings_and_an_id_has_its_body_read() {
    assert!(body_needed(true, &some("id"), &Ok(None), &Ok(None)));
    assert!(!body_needed(false, &some("id"), &Ok(None), &Ok(None)));
    assert!(!body_needed(true, &Ok(None), &Ok(None), &Ok(None)));
    assert!(!body_needed(true, &some(""), &Ok(None), &Ok(None)));
    assert!(!body_needed(true, &some("id"), &Err(StringLimitExceeded), &Ok(None)));
}
