use retrovert_host::service::metadata::{
    decode_text, Decoded, MetadataSubsong, MetadataTag, MetadataText, MetadataTruncation,
    MetadataValue, NameKind, RecordId, SubsongCount, TrackMetadata, NAME_COUNT_LIMIT, NAME_LIMIT,
    SUBSONG_COUNT_LIMIT, TAG_COUNT_LIMIT, TAG_KEY_LIMIT, TAG_VALUE_LIMIT, URL_LIMIT,
};

/// Reads a plugin string the way the service does: at most `limit + 1` bytes before its
/// terminator, and nothing for a null pointer.
fn read(value: Option<&[u8]>, limit: usize) -> Decoded {
    let bytes = value.unwrap_or(&[]);
    decode_text(&bytes[..bytes.len().min(limit + 1)], limit)
}

/// Drives the record the way a plugin drives the vtable: one url, then pushes under its id.
struct Plugin {
    id: u64,
}

impl Plugin {
    fn open(record: &mut TrackMetadata, url: &str) -> Self {
        let id = record.create_url(read(Some(url.as_bytes()), URL_LIMIT));
        Plugin { id }
    }

    fn anonymous() -> Self {
        Plugin { id: 0 }
    }

    fn tag(&self, record: &mut TrackMetadata, key: &str, value: &str) {
        record.set_tag(
            self.id,
            read(Some(key.as_bytes()), TAG_KEY_LIMIT),
            read(Some(value.as_bytes()), TAG_VALUE_LIMIT),
        );
    }

    fn number(&self, record: &mut TrackMetadata, key: &str, value: f64) {
        record.set_tag_number(self.id, read(Some(key.as_bytes()), TAG_KEY_LIMIT), value.to_bits());
    }

    fn subsong(&self, record: &mut TrackMetadata, index: u32, name: &str, length: f32) {
        record.add_subsong(self.id, index, read(Some(name.as_bytes()), NAME_LIMIT), length.to_bits());
    }

    fn sample(&self, record: &mut TrackMetadata, text: &str) {
        record.add_name(self.id, read(Some(text.as_bytes()), NAME_LIMIT), NameKind::Sample);
    }

    fn instrument(&self, record: &mut TrackMetadata, text: &str) {
        record.add_name(self.id, read(Some(text.as_bytes()), NAME_LIMIT), NameKind::Instrument);
    }
}

fn store() -> TrackMetadata {
    TrackMetadata::new(RecordId(1))
}

fn text(value: &str) -> MetadataText {
    MetadataText {
        text: value.to_owned(),
        raw: None,
    }
}

#[test]
fn a_whole_record_arrives_through_the_vtable_and_is_taken_once() {
    let mut host = store();
    let plugin = Plugin::open(&mut host, "/songs/enigma.mod");
    plugin.tag(&mut host, "title", "Enigma");
    plugin.number(&mut host, "length", 383.5);
    plugin.subsong(&mut host, 0, "intro", 12.0);
    plugin.subsong(&mut host, 1, "main", 0.0);
    plugin.sample(&mut host, "bassdrum");
    plugin.instrument(&mut host, "lead");

    let record = host.take();
    assert_eq!(record.id, RecordId(1));
    assert_eq!(plugin.id, record.id.0);
    assert_eq!(record.url, text("/songs/enigma.mod"));
    assert_eq!(
        record.tags,
        [
            MetadataTag {
                key: "title".to_owned(),
                raw_key: None,
                value: MetadataValue::Text(text("Enigma")),
            },
            MetadataTag {
                key: "length".to_owned(),
                raw_key: None,
                value: MetadataValue::Number(383.5_f64.to_bits()),
            },
        ]
    );
    assert_eq!(
        record.subsongs,
        [
            MetadataSubsong {
                index: 0,
                name: text("intro"),
                length_seconds: Some(12.0_f32.to_bits()),
            },
            // A length of zero is the plugin saying it does not know.
            MetadataSubsong {
                index: 1,
                name: text("main"),
                length_seconds: None,
            },
        ]
    );
    assert_eq!(record.subsong_count, SubsongCount::Reported);
    assert_eq!(record.samples, [text("bassdrum")]);
    assert_eq!(record.instruments, [text("lead")]);
    assert_eq!(record.truncation, MetadataTruncation::default());
    assert!(!record.invalid_utf8);
    assert!(!record.foreign_record_id);

    // Taking the record leaves an empty one behind, under a new identity.
    let next = host.take();
    assert_eq!(next.id, RecordId(2));
    assert!(next.tags.is_empty());
    assert_eq!(next.url, MetadataText::default());
}

#[test]
fn a_plugin_that_names_no_subsong_still_gets_one() {
    let mut host = store();
    Plugin::open(&mut host, "song.sid").tag(&mut host, "title", "Commando");

    let record = host.take();
    assert_eq!(record.subsong_count, SubsongCount::Assumed);
    assert_eq!(
        record.subsongs,
        [MetadataSubsong {
            index: 0,
            name: MetadataText::default(),
            length_seconds: None,
        }]
    );
}

#[test]
fn every_collection_stops_at_its_cap_without_losing_the_record() {
    let mut host = store();
    let plugin = Plugin::open(&mut host, "song.mod");
    for index in 0..TAG_COUNT_LIMIT + 1 {
        plugin.tag(&mut host, &format!("key-{index}"), "value");
    }
    for index in 0..SUBSONG_COUNT_LIMIT as u32 + 1 {
        plugin.subsong(&mut host, index, "", 0.0);
    }
    for _ in 0..NAME_COUNT_LIMIT + 1 {
        plugin.sample(&mut host, "sample");
        plugin.instrument(&mut host, "instrument");
    }

    let record = host.take();
    assert_eq!(record.tags.len(), TAG_COUNT_LIMIT);
    assert_eq!(record.subsongs.len(), SUBSONG_COUNT_LIMIT);
    assert_eq!(record.samples.len(), NAME_COUNT_LIMIT);
    assert_eq!(record.instruments.len(), NAME_COUNT_LIMIT);
    assert_eq!(
        record.truncation,
        MetadataTruncation {
            tags: true,
            subsongs: true,
            samples: true,
            instruments: true,
            ..MetadataTruncation::default()
        }
    );
    // The first pushes are the ones kept.
    assert_eq!(record.tags[0].key, "key-0");
    assert_eq!(record.subsongs.last().expect("subsong").index, 1023);
}

#[test]
fn numeric_tags_stop_at_the_same_cap_as_text_ones() {
    let mut host = store();
    let plugin = Plugin::open(&mut host, "song.mod");
    for index in 0..TAG_COUNT_LIMIT + 1 {
        plugin.number(&mut host, &format!("key-{index}"), index as f64);
    }

    let record = host.take();
    assert_eq!(record.tags.len(), TAG_COUNT_LIMIT);
    assert!(record.truncation.tags);
}

#[test]
fn a_string_that_exactly_fills_its_cap_is_not_reported_as_cut() {
    let mut host = store();
    let plugin = Plugin::open(&mut host, "song.mod");
    plugin.tag(&mut host, &"k".repeat(TAG_KEY_LIMIT), &"v".repeat(TAG_VALUE_LIMIT));
    plugin.sample(&mut host, &"s".repeat(NAME_LIMIT));

    let record = host.take();
    assert_eq!(record.tags[0].key, "k".repeat(TAG_KEY_LIMIT));
    assert_eq!(record.samples[0].text, "s".repeat(NAME_LIMIT));
    assert_eq!(record.truncation, MetadataTruncation::default());
}

#[test]
fn a_string_past_its_cap_is_cut_to_the_cap_and_reported() {
    let mut host = store();
    let plugin = Plugin::open(&mut host, "song.mod");
    plugin.tag(
        &mut host,
        &"k".repeat(TAG_KEY_LIMIT + 1),
        &"v".repeat(TAG_VALUE_LIMIT + 1),
    );
    plugin.subsong(&mut host, 0, &"n".repeat(NAME_LIMIT + 1), 1.0);

    let record = host.take();
    assert_eq!(record.tags[0].key, "k".repeat(TAG_KEY_LIMIT));
    assert_eq!(
        record.tags[0].value,
        MetadataValue::Text(text(&"v".repeat(TAG_VALUE_LIMIT)))
    );
    assert_eq!(record.subsongs[0].name, text(&"n".repeat(NAME_LIMIT)));
    assert_eq!(
        record.truncation,
        MetadataTruncation {
            tag_key: true,
            tag_value: true,
            name: true,
            ..MetadataTruncation::default()
        }
    );
    assert!(!record.invalid_utf8);
}

#[test]
fn a_cap_landing_inside_a_character_drops_it_rather_than_calling_the_string_invalid() {
    let mut host = store();
    // The last 'é' straddles the cap: two bytes, only the first of which fits.
    let name = format!("{}é", "a".repeat(NAME_LIMIT - 1));
    Plugin::open(&mut host, "song.mod").sample(&mut host, &name);

    let record = host.take();
    assert_eq!(record.samples[0], text(&"a".repeat(NAME_LIMIT - 1)));
    assert!(record.truncation.name);
    assert!(!record.invalid_utf8);
}

#[test]
fn bytes_that_are_not_utf8_are_replaced_flagged_and_kept_raw() {
    let mut host = store();
    host.set_tag(
        0,
        read(Some(&[b't', 0xff]), TAG_KEY_LIMIT),
        read(Some(&[b'a', 0xfe, b'b']), TAG_VALUE_LIMIT),
    );

    let record = host.take();
    assert!(record.invalid_utf8);
    assert_eq!(record.tags[0].key, "t\u{fffd}");
    assert_eq!(record.tags[0].raw_key, Some(vec![b't', 0xff]));
    assert_eq!(
        record.tags[0].value,
        MetadataValue::Text(MetadataText {
            text: "a\u{fffd}b".to_owned(),
            raw: Some(vec![b'a', 0xfe, b'b']),
        })
    );
    assert_eq!(record.truncation, MetadataTruncation::default());
}

#[test]
fn null_strings_from_a_plugin_read_as_empty_and_a_keyless_tag_is_dropped() {
    let mut host = store();
    host.create_url(read(None, URL_LIMIT));
    host.set_tag(1, read(None, TAG_KEY_LIMIT), read(None, TAG_VALUE_LIMIT));
    host.set_tag_number(1, read(None, TAG_KEY_LIMIT), 1.0_f64.to_bits());
    host.add_subsong(1, 3, read(None, NAME_LIMIT), 0.0_f32.to_bits());
    host.add_name(1, read(None, NAME_LIMIT), NameKind::Sample);
    host.add_name(1, read(None, NAME_LIMIT), NameKind::Instrument);

    let record = host.take();
    assert_eq!(record.url, MetadataText::default());
    assert!(record.tags.is_empty());
    assert!(record.empty_tag_key);
    // A nameless subsong or sample is still a subsong or sample.
    assert_eq!(
        record.subsongs,
        [MetadataSubsong {
            index: 3,
            name: MetadataText::default(),
            length_seconds: None,
        }]
    );
    assert_eq!(record.samples, [MetadataText::default()]);
    assert_eq!(record.instruments, [MetadataText::default()]);
    assert!(!record.invalid_utf8);
    assert_eq!(record.truncation, MetadataTruncation::default());
}

#[test]
fn an_empty_key_is_dropped_and_a_number_that_is_not_finite_is_too() {
    let mut host = store();
    let plugin = Plugin::open(&mut host, "song.mod");
    plugin.tag(&mut host, "", "orphan");
    plugin.number(&mut host, "", 1.0);
    plugin.number(&mut host, "length", f64::NAN);
    plugin.number(&mut host, "gain", f64::INFINITY);
    plugin.number(&mut host, "real", 2.0);

    let record = host.take();
    assert_eq!(record.tags.len(), 1);
    assert_eq!(record.tags[0].key, "real");
    assert!(record.empty_tag_key);
    assert!(record.non_finite_number);
}

#[test]
fn a_push_that_is_dropped_still_reports_what_it_carried() {
    let mut host = store();
    let plugin = Plugin::open(&mut host, "song.mod");
    // A second url is not the record's, but it was still over the cap.
    Plugin::open(&mut host, &"u".repeat(URL_LIMIT + 1));

    for index in 0..TAG_COUNT_LIMIT {
        plugin.tag(&mut host, &format!("key-{index}"), "value");
    }
    plugin.tag(&mut host, &"k".repeat(TAG_KEY_LIMIT + 1), "past the cap");

    for _ in 0..NAME_COUNT_LIMIT {
        plugin.sample(&mut host, "sample");
    }
    plugin.sample(&mut host, &"s".repeat(NAME_LIMIT + 1));

    for index in 0..SUBSONG_COUNT_LIMIT as u32 {
        plugin.subsong(&mut host, index, "subsong", 1.0);
    }
    plugin.subsong(&mut host, 0, "", f32::NAN);

    let record = host.take();
    assert_eq!(record.url, text("song.mod"));
    assert_eq!(record.tags.len(), TAG_COUNT_LIMIT);
    assert_eq!(record.samples.len(), NAME_COUNT_LIMIT);
    assert_eq!(record.subsongs.len(), SUBSONG_COUNT_LIMIT);
    assert_eq!(
        record.truncation,
        MetadataTruncation {
            url: true,
            tag_key: true,
            name: true,
            tags: true,
            samples: true,
            subsongs: true,
            ..MetadataTruncation::default()
        }
    );
    assert!(record.non_finite_number);
}

#[test]
fn a_tag_that_is_both_keyless_and_not_finite_reports_both() {
    let mut host = store();
    Plugin::open(&mut host, "song.mod").number(&mut host, "", f64::NAN);

    let record = host.take();
    assert!(record.tags.is_empty());
    assert!(record.empty_tag_key);
    assert!(record.non_finite_number);
}

#[test]
fn a_subsong_length_that_is_not_usable_is_dropped_and_only_a_wild_one_is_reported() {
    let mut host = store();
    let plugin = Plugin::open(&mut host, "song.mod");
    plugin.subsong(&mut host, 0, "negative", -1.0);
    plugin.subsong(&mut host, 1, "unknown", 0.0);

    let record = host.take();
    assert!(record.subsongs.iter().all(|s| s.length_seconds.is_none()));
    // A length the plugin simply does not know is not a plugin misbehaving.
    assert!(!record.non_finite_number);

    for wild in [f32::NAN, f32::INFINITY, f32::NEG_INFINITY] {
        let mut host = store();
        Plugin::open(&mut host, "song.mod").subsong(&mut host, 0, "wild", wild);

        let record = host.take();
        assert_eq!(record.subsongs[0].length_seconds, None, "{wild}");
        assert!(record.non_finite_number, "{wild}");
    }
}

#[test]
fn a_string_that_is_both_past_its_cap_and_not_utf8_is_reported_as_both() {
    let mut host = store();
    // The invalid byte sits well inside the cap, so the char-boundary trim cannot apply.
    let mut name = vec![b'a', 0xff];
    name.extend(std::iter::repeat_n(b'b', NAME_LIMIT));

    host.add_name(1, read(Some(&name), NAME_LIMIT), NameKind::Sample);

    let record = host.take();
    assert!(record.invalid_utf8);
    assert!(record.truncation.name);
    assert_eq!(record.samples[0].raw.as_ref().expect("raw").len(), NAME_LIMIT);
    assert_eq!(
        record.samples[0].text,
        format!("a\u{fffd}{}", "b".repeat(NAME_LIMIT - 2))
    );
}

#[test]
fn a_push_under_an_id_the_store_never_minted_is_kept_and_reported() {
    let mut host = store();
    Plugin::anonymous().tag(&mut host, "title", "No url was ever created");

    let record = host.take();
    assert!(record.foreign_record_id);
    assert_eq!(record.tags.len(), 1);
}

#[test]
fn the_first_url_a_plugin_names_is_the_records_and_later_ones_do_not_replace_it() {
    let mut host = store();
    let first = Plugin::open(&mut host, "song.mod");
    let second = Plugin::open(&mut host, "song.mod.instruments");

    assert_eq!(first.id, second.id);
    assert_eq!(host.take().url, text("song.mod"));
}

#[test]
fn a_url_past_its_cap_is_cut_and_reported() {
    let mut host = store();
    Plugin::open(&mut host, &"u".repeat(URL_LIMIT + 1));

    let record = host.take();
    assert_eq!(record.url.text.len(), URL_LIMIT);
    assert!(record.truncation.url);
}

#[test]
fn record_ids_wrap_after_the_last() {
    let mut host = TrackMetadata::new(RecordId(u64::MAX));
    let taken = host.take();
    assert_eq!(taken.id, RecordId(u64::MAX));
    assert_eq!(host.id, RecordId(0));
}

#[test]
fn a_truncated_string_ending_in_an_invalid_byte_is_still_invalid() {
    // The cap cuts inside the string, but the byte before it can never start a character.
    let decoded = read(Some(b"ab\xff"), 2);
    assert!(decoded.truncated);
    assert!(!decoded.invalid);
    assert_eq!(decoded.text, text("ab"));

    let decoded = read(Some(b"a\xffbc"), 3);
    assert!(decoded.truncated);
    assert!(decoded.invalid);
    assert_eq!(decoded.text.raw, Some(b"a\xffb".to_vec()));
}
