use std::collections::HashMap;

use chrono::{Local, TimeZone, Utc};

use scan_metadata::camera_profiles::CameraProfileMap;
use scan_metadata::exif::{ExifTag, ExifTagTrait, FloatValue, TagValue};
use scan_metadata::models::{
    check_export_version, frame_count_is_ok, tags_are_processable, parse_frame_count, DayOneExport, DayOneExportEntry,
    DayOneExportMetadata, DayOneLocation, DayOneRegion, DayOneWeather, FrameEntry, LeaderEntry,
    LongLat, MetadataEntry, MetadataEntryType, MetadataReadError, Roll,
};
use scan_metadata::time::Timestamp;

fn date(text: &str) -> Timestamp {
    Timestamp::parse_from_rfc3339(text).unwrap()
}

fn float_of(v: &FloatValue) -> f64 {
    match v {
        FloatValue::Bits(b) => f64::from_bits(*b),
        FloatValue::WidenedBits(b) => f32::from_bits(*b) as f64,
        FloatValue::ParsedSingle(s) => s.parse::<f32>().unwrap() as f64,
        FloatValue::ParsedDouble(s) => s.parse::<f64>().unwrap(),
    }
}

fn float_value(v: &TagValue) -> f64 {
    match v {
        TagValue::Float(f) => float_of(f),
        _ => panic!("not a float"),
    }
}

fn f64_tag(value: f64, name: &str) -> ExifTag {
    FloatValue::Bits(value.to_bits()).to_exif_tag(name)
}

fn location(zone: &str) -> DayOneLocation {
    DayOneLocation {
        region: Some(DayOneRegion {
            center: LongLat {
                longitude: (-12.34f64).to_bits(),
                latitude: (-56.78f64).to_bits(),
            },
            radius: 0.0f32.to_bits(),
        }),
        country: Some("Country".to_string()),
        administrative_area: Some("AdminArea".to_string()),
        time_zone_name: Some(zone.to_string()),
        other: "{}".to_string(),
    }
}

fn entry_with(text: &str, when: &str, loc: Option<DayOneLocation>, tags: Vec<String>) -> MetadataEntry {
    MetadataEntry {
        entry: DayOneExportEntry::default(),
        text: text.to_string(),
        entry_date: date(when),
        location: loc,
        tags,
    }
}

fn frame_with(entry: MetadataEntry) -> FrameEntry {
    FrameEntry {
        entry,
        frame_count: "59".to_string(),
        exif_tags: Vec::new(),
    }
}

fn weather() -> DayOneWeather {
    DayOneWeather {
        sunrise_date: date("2025-01-01T19:00:00Z"),
        sunset_date: date("2025-01-02T07:30:00Z"),
        other: String::new(),
    }
}

fn tag_map(tags: &[ExifTag]) -> HashMap<String, &ExifTag> {
    tags.iter().map(|t| (t.name.clone(), t)).collect()
}

fn strings(v: &[&str]) -> Vec<String> {
    v.iter().map(|s| s.to_string()).collect()
}

#[test]
fn should_munge_datetime_from_export() {
    let metadata = frame_with(entry_with(
        "# 1 // Some raw text\nSome body",
        "2025-01-02T03:04:56Z",
        Some(location("UTC")),
        Vec::new(),
    ));
    assert_eq!("2025:01:02 03:04:59", metadata.munge_date_with_framecount());
}

#[test]
fn should_munge_datetime_from_export_with_given_timezone() {
    let metadata = frame_with(entry_with(
        "# 1 // Some raw text\nSome body",
        "2025-01-02T03:04:56Z",
        Some(location("Australia/Sydney")),
        Vec::new(),
    ));
    assert_eq!("2025:01:02 14:04:59", metadata.munge_date_with_framecount());
}

#[test]
fn should_munge_datetime_from_export_falling_back_to_local() {
    let metadata = frame_with(entry_with(
        "# 1 // Some raw text\nSome body",
        "2025-01-02T03:04:56Z",
        Some(location("Australia/Foo")),
        Vec::new(),
    ));
    let local_tz = *Local::now().offset();
    let expected_munged_entry_date = Utc
        .with_ymd_and_hms(2025, 1, 2, 3, 4, 59)
        .unwrap()
        .with_timezone(&local_tz);
    assert_eq!(
        format!("{}", expected_munged_entry_date.format("%Y:%m:%d %H:%M:%S")),
        metadata.munge_date_with_framecount()
    );
}

#[test]
fn munged_datetime_uses_the_offset_given() {
    let metadata = frame_with(entry_with(
        "# 7 // text",
        "2025-01-02T03:04:56Z",
        None,
        Vec::new(),
    ));
    assert_eq!(
        "2025:01:02 05:04:59",
        metadata.munge_date_with_framecount_at(7200)
    );
    assert_eq!(
        "2025:01:01 22:04:59",
        metadata.munge_date_with_framecount_at(-5 * 3600)
    );
}

#[test]
fn munged_datetime_keeps_seconds_without_frame_number() {
    let mut metadata = frame_with(entry_with(
        "# HP5",
        "2025-01-02T03:04:56+01:00",
        None,
        Vec::new(),
    ));
    metadata.frame_count = String::new();
    assert_eq!(
        "2025:01:02 02:04:56",
        metadata.munge_date_with_framecount_at(0)
    );
}

#[test]
fn should_populate_location_tags() {
    let mut metadata = frame_with(entry_with(
        "# 1 // Some raw text\nSome body",
        "2025-01-02T03:04:56Z",
        Some(location("Australia/Foo")),
        Vec::new(),
    ));
    metadata.populate_location_tags();

    assert!(metadata.exif_tags.contains(&f64_tag(-56.78, "GPSLatitude")));
    assert!(metadata.exif_tags.contains(&f64_tag(-12.34, "GPSLongitude")));
    assert!(metadata.exif_tags.contains(&"Country".to_exif_tag("Country")));
    assert!(metadata.exif_tags.contains(&"AdminArea".to_exif_tag("State")));
}

#[test]
fn should_populate_from_entry_tags() {
    let tags = strings(&["lens:35mm", "camera:canonp", "f/2", "1/500s", "unindexed", "scanned"]);
    let profiles = CameraProfileMap::default();
    let mut metadata = frame_with(entry_with(
        "# 1 // Some raw text\nSome body",
        "2025-01-02T03:04:56Z",
        None,
        tags,
    ));
    metadata.populate_from_entry_tags(&profiles);
    assert!(!metadata.entry.tags.contains(&"unindexed".to_string()));
    assert!(!metadata.entry.tags.contains(&"scanned".to_string()));
    assert!(!metadata.entry.tags.contains(&"f/2".to_string()));
    assert!(!metadata.entry.tags.contains(&"1/500s".to_string()));

    let tag_map = tag_map(&metadata.exif_tags);

    assert!(tag_map.contains_key("ExposureTime"));
    assert_eq!(
        TagValue::String("1/500".to_string()),
        tag_map.get("ExposureTime").unwrap().value
    );
    assert!(tag_map.contains_key("FNumber"));
    assert_eq!(2.0, float_value(&tag_map.get("FNumber").unwrap().value));
    assert!(tag_map.contains_key("FocalLength"));
    assert_eq!(35.0, float_value(&tag_map.get("FocalLength").unwrap().value));
}

fn weather_tags_at(when: &str) -> Vec<String> {
    let mut entry = entry_with("# 1 // Some raw text\nSome body", when, None, Vec::new());
    entry.populate_weather_info_tags(&weather());
    entry.tags
}

#[test]
fn should_populate_weather_info_tags_dawn() {
    let tags = weather_tags_at("2025-01-01T18:34:56Z");
    assert_eq!(1, tags.len());
    assert!(tags.contains(&"dawn".to_string()))
}

#[test]
fn should_populate_weather_info_tags_dusk() {
    let tags = weather_tags_at("2025-01-02T07:34:56Z");
    assert_eq!(1, tags.len());
    assert!(tags.contains(&"dusk".to_string()))
}

#[test]
fn should_populate_weather_info_tags_sunrise() {
    let tags = weather_tags_at("2025-01-01T19:29:00Z");
    assert_eq!(1, tags.len());
    assert!(tags.contains(&"sunrise".to_string()))
}

#[test]
fn should_populate_weather_info_tags_sunset() {
    let tags = weather_tags_at("2025-01-02T07:00:56Z");
    assert_eq!(1, tags.len());
    assert!(tags.contains(&"sunset".to_string()))
}

#[test]
fn should_populate_weather_info_tags_night_after_sunset() {
    let tags = weather_tags_at("2025-01-02T08:01:00Z");
    assert_eq!(1, tags.len());
    assert!(tags.contains(&"night".to_string()))
}

#[test]
fn should_populate_weather_info_tags_night_before_sunrise() {
    let tags = weather_tags_at("2025-01-01T18:00:00Z");
    assert_eq!(1, tags.len());
    assert!(tags.contains(&"night".to_string()))
}

#[test]
fn weather_tags_at_the_thirty_minute_edges() {
    // up to 30 whole minutes after sunset is still dusk, 31 is night
    assert_eq!(vec!["dusk".to_string()], weather_tags_at("2025-01-02T08:00:00Z"));
    assert_eq!(vec!["dusk".to_string()], weather_tags_at("2025-01-02T08:00:59.999Z"));
    assert_eq!(vec!["night".to_string()], weather_tags_at("2025-01-02T08:01:00Z"));
    // a short day is both sunrise and sunset
    let mut entry = entry_with("# 1", "2025-01-01T19:10:00Z", None, Vec::new());
    entry.populate_weather_info_tags(&DayOneWeather {
        sunrise_date: date("2025-01-01T19:00:00Z"),
        sunset_date: date("2025-01-01T19:20:00Z"),
        other: String::new(),
    });
    assert_eq!(strings(&["sunset", "sunrise"]), entry.tags);
    // neither, in the middle of the day
    assert!(weather_tags_at("2025-01-02T01:00:00Z").is_empty());
}

#[test]
fn should_include_day_keywords_implied_from_weather() {
    let tags = strings(&["lens:35mm", "camera:canonp", "f/2", "1/500s", "unindexed", "scanned"]);
    let mut entry = entry_with(
        "# 1 // Some raw text\nSome body",
        "2025-01-02T07:34:56Z",
        None,
        tags,
    );
    entry.populate_weather_info_tags(&weather());
    assert!(entry.tags.contains(&"unindexed".to_string()));
    assert!(entry.tags.contains(&"scanned".to_string()));
    assert!(entry.tags.contains(&"f/2".to_string()));
    assert!(entry.tags.contains(&"1/500s".to_string()));

    assert!(entry.tags.contains(&"dusk".to_string()));
}

#[test]
fn when_populate_from_entry_tags_should_ignore_invalid_aperture() {
    let tags = strings(&["lens:35mm", "camera:canonp", "f/a", "1/500s", "unindexed", "scanned"]);
    let profiles = CameraProfileMap::default();
    let mut metadata = frame_with(entry_with(
        "# 1 // Some raw text\nSome body",
        "2025-01-02T03:04:56Z",
        None,
        tags,
    ));
    metadata.populate_from_entry_tags(&profiles);
    assert!(!metadata.entry.tags.contains(&"unindexed".to_string()));
    assert!(!metadata.entry.tags.contains(&"scanned".to_string()));
    assert!(!metadata.entry.tags.contains(&"f/2".to_string()));
    assert!(!metadata.entry.tags.contains(&"1/500s".to_string()));

    let tag_map = tag_map(&metadata.exif_tags);

    assert!(tag_map.contains_key("ExposureTime"));
    assert_eq!(
        TagValue::String("1/500".to_string()),
        tag_map.get("ExposureTime").unwrap().value
    );
    assert!(!tag_map.contains_key("FNumber"));

    assert!(tag_map.contains_key("FocalLength"));
    assert_eq!(35.0, float_value(&tag_map.get("FocalLength").unwrap().value));
}

#[test]
fn when_populate_from_entry_tags_should_handle_unconventional_lens_tag() {
    let tags = strings(&[
        "lens:50mm1.4-AiS",
        "camera:canonp",
        "f/2",
        "1/500s",
        "unindexed",
        "scanned",
    ]);
    let profiles = CameraProfileMap::default();
    let mut metadata = frame_with(entry_with(
        "# 1 // Some raw text\nSome body",
        "2025-01-02T03:04:56Z",
        None,
        tags,
    ));
    metadata.populate_from_entry_tags(&profiles);
    assert!(!metadata.entry.tags.contains(&"unindexed".to_string()));
    assert!(!metadata.entry.tags.contains(&"scanned".to_string()));
    assert!(!metadata.entry.tags.contains(&"f/2".to_string()));
    assert!(!metadata.entry.tags.contains(&"1/500s".to_string()));

    let tag_map = tag_map(&metadata.exif_tags);

    assert!(tag_map.contains_key("ExposureTime"));
    assert_eq!(
        TagValue::String("1/500".to_string()),
        tag_map.get("ExposureTime").unwrap().value
    );
    assert!(tag_map.contains_key("FNumber"));
    assert_eq!(2.0, float_value(&tag_map.get("FNumber").unwrap().value));
    assert!(tag_map.contains_key("FocalLength"));
    assert_eq!(50.0, float_value(&tag_map.get("FocalLength").unwrap().value));
}

#[test]
fn when_populate_from_entry_tags_should_transform_film_type_tags() {
    let tags = strings(&["120", "35mm"]);
    let profiles = CameraProfileMap::default();
    let mut metadata = frame_with(entry_with(
        "# 1 // Some raw text\nSome body",
        "2025-01-02T03:04:56Z",
        None,
        tags,
    ));
    metadata.populate_from_entry_tags(&profiles);
    assert!(!metadata.entry.tags.contains(&"35mm".to_string()));
    assert!(metadata.entry.tags.contains(&"film:135".to_string()));

    assert!(!metadata.entry.tags.contains(&"120".to_string()));
    assert!(metadata.entry.tags.contains(&"film:120".to_string()));
}

#[test]
fn keywords_tag_is_last_and_lists_kept_tags() {
    let tags = strings(&["bw", "1/60s", "120", "unindexed"]);
    let mut metadata = frame_with(entry_with("# 3", "2025-01-02T03:04:56Z", None, tags));
    metadata.populate_from_entry_tags(&CameraProfileMap::default());
    let last = metadata.exif_tags.last().unwrap();
    assert_eq!("Keywords", last.name);
    assert_eq!(TagValue::List(strings(&["bw", "film:120"])), last.value);
    assert_eq!(strings(&["bw", "film:120"]), metadata.entry.tags);
}

fn export_entry(text: &str, tags: Vec<String>, loc: Option<DayOneLocation>) -> DayOneExportEntry {
    DayOneExportEntry {
        location: loc,
        tags,
        creation_date: date("2025-01-02T03:04:56Z"),
        text: text.to_string(),
        weather: None,
        other: "{}".to_string(),
    }
}

#[test]
fn should_create_metadata_entry_given_entry_from_export() {
    let profiles = CameraProfileMap::default();
    let entry = export_entry(
        "# 1 // Some raw text\nSome body",
        strings(&["APs", "f/8", "lens:50mm", "camera:fm3a"]),
        Some(location("UTC")),
    );
    let metadata = MetadataEntryType::new(&entry, &profiles);

    assert!(matches!(metadata, MetadataEntryType::Frame(_)));
    if let MetadataEntryType::Frame(metadata) = metadata {
        let tag_map = tag_map(metadata.exif_tags());

        assert!(tag_map.contains_key("DateTimeOriginal"));
        assert_eq!(
            TagValue::String("2025:01:02 03:04:01".to_string()),
            tag_map.get("DateTimeOriginal").unwrap().value
        );
    }
}

#[test]
fn should_handle_creating_metadata_entry_on_leader_entry() {
    let profiles = CameraProfileMap::default();
    let entry = export_entry(
        "# HP5 Plus @ 1600 - 35mm (Canon P)",
        Vec::new(),
        Some(location("UTC")),
    );
    let metadata = MetadataEntryType::new(&entry, &profiles);

    assert!(matches!(metadata, MetadataEntryType::Leader(_)));
}

#[test]
fn should_capture_emulsion_name_on_new_leader_entry() {
    let entry = export_entry(
        "# HP5 Plus @ 1600 - 35mm (Canon P)",
        Vec::new(),
        Some(location("UTC")),
    );
    let leader = LeaderEntry::new(&entry);

    assert_eq!("HP5 Plus @ 1600".to_owned(), leader.emulsion_name);
}

#[test]
fn leader_text_is_unescaped_and_emulsion_found() {
    let entry = export_entry("# HP5 Plus @ 1600 \\- 120 \\(Mamiya\\)", Vec::new(), None);
    let leader = LeaderEntry::new(&entry);
    assert_eq!("# HP5 Plus @ 1600 - 120 (Mamiya)", leader.entry.text);
    assert_eq!("HP5 Plus @ 1600", leader.emulsion());
    let plain = export_entry("# Just a note", Vec::new(), None);
    assert_eq!("", LeaderEntry::new(&plain).emulsion());
}

#[test]
fn should_generate_acceptable_filename_from_roll_info() {
    let roll = Roll::new(
        date("2025-01-02T03:04:56Z"),
        "camera:canonp".to_string(),
        "HP5 Plus @ 1600".to_string(),
        Vec::new(),
    );

    assert_eq!("hp5_plus_-_1600_canonp_20250102_1.zip", roll.cons_filename(1));
}

#[test]
fn roll_filename_uses_start_date_in_its_own_offset() {
    let roll = Roll::new(
        date("2025-01-02T23:30:00-05:00"),
        "camera:Yashica Mat".to_string(),
        "Portra 400".to_string(),
        Vec::new(),
    );
    assert_eq!("portra_400_yashica mat_20250102_12.zip", roll.cons_filename(12));
}

#[test]
fn parse_frame_count_reads_second_word_of_headline() {
    assert_eq!("12", parse_frame_count("# 12 // Some raw text\nSome body"));
    assert_eq!("", parse_frame_count("# HP5 Plus @ 1600 - 35mm (Canon P)"));
    assert_eq!("0", parse_frame_count(""));
    assert_eq!("0", parse_frame_count("#"));
    assert_eq!("+7", parse_frame_count("# +7"));
    assert_eq!("", parse_frame_count("# 99999999999"));
    assert_eq!("3", parse_frame_count("\t#   3  \r\nrest"));
}

#[test]
fn entries_are_leaders_or_frames_with_sorted_tags() {
    let profiles = CameraProfileMap::default();
    let entry = export_entry(
        "# 2 // x",
        strings(&["zeta", "camera:fm3a", "alpha"]),
        None,
    );
    let made = MetadataEntryType::new_at(&entry, &profiles, 0);
    assert_eq!(
        &strings(&["alpha", "camera:fm3a", "zeta"]),
        made.entry().tags()
    );
    assert_eq!(Some(&"camera:fm3a".to_string()), made.entry().camera_tag());
    if let MetadataEntryType::Frame(frame) = &made {
        assert_eq!("2", frame.frame_count());
        assert_eq!(Some(&"camera:fm3a".to_string()), frame.associated_camera());
    } else {
        panic!("expected a frame");
    }
}

#[test]
fn unprocessable_entries_are_reported() {
    let too_high = export_entry("# 60", Vec::new(), None);
    assert!(!scan_metadata::models::entry_is_processable(&too_high));
    let bad_shutter = export_entry("# 5", strings(&["1/500sx"]), None);
    assert!(!scan_metadata::models::entry_is_processable(&bad_shutter));
    let fine = export_entry("# 59", strings(&["1/500s", "lens:50mm"]), None);
    assert!(scan_metadata::models::entry_is_processable(&fine));
    let leader = export_entry("# HP5", strings(&["1/500sx"]), None);
    assert!(scan_metadata::models::entry_is_processable(&leader));
}

#[test]
fn export_version_is_checked() {
    let good = DayOneExport {
        metadata: DayOneExportMetadata { version: "1.0".to_string() },
        entries: Vec::new(),
    };
    assert!(check_export_version(good).is_ok());
    let bad = DayOneExport {
        metadata: DayOneExportMetadata { version: "2.0".to_string() },
        entries: Vec::new(),
    };
    match check_export_version(bad) {
        Err(MetadataReadError::InvalidVersionError(v)) => assert_eq!("2.0", v),
        _ => panic!("expected a version error"),
    }
}

#[test]
fn roll_export_holds_the_entries() {
    let profiles = CameraProfileMap::default();
    let a = MetadataEntryType::new_at(&export_entry("# HP5", Vec::new(), None), &profiles, 0);
    let b = MetadataEntryType::new_at(&export_entry("# 1 // x", Vec::new(), None), &profiles, 0);
    let roll = Roll::new(date("2025-01-02T03:04:56Z"), "camera:x".to_string(), "HP5".to_string(), vec![&a, &b]);
    let export = roll.to_dayone_export();
    assert_eq!("1.0", export.metadata.version);
    assert_eq!(2, export.entries.len());
    assert_eq!("# HP5", export.entries[0].text);
    assert_eq!("# 1 // x", export.entries[1].text);
    assert_eq!(2, roll.entries().len());
}

#[test]
fn fake_entries_hold_what_they_are_given() {
    let leader = LeaderEntry::fake("# L".to_string(), date("2025-01-02T03:04:56Z"), "E".to_string());
    assert_eq!("E", leader.emulsion());
    assert_eq!(date("2025-01-02T03:04:56Z"), leader.entry_date());
    let frame = FrameEntry::fake("4".to_string(), "T".to_string(), date("2025-01-02T03:04:56Z"));
    assert_eq!("4", frame.frame_count());
    assert!(frame.exif_tags().is_empty());
    assert_eq!("T", frame.entry.text());
    assert_eq!(&date("2025-01-02T03:04:56Z"), frame.entry.entry_date());
    let entry = MetadataEntry::fake("x".to_string(), date("2025-01-02T03:04:56Z"));
    assert!(entry.tags().is_empty());
    assert_eq!(None, entry.camera_tag());
}

#[test]
fn munged_datetime_follows_the_zone_at_that_date() {
    let mut metadata = frame_with(entry_with(
        "# 5",
        "2025-07-01T00:00:00Z",
        Some(location("Australia/Sydney")),
        Vec::new(),
    ));
    metadata.frame_count = "5".to_string();
    assert_eq!("2025:07:01 10:00:05", metadata.munge_date_with_framecount());
}

#[test]
fn populated_frame_tags_come_in_order() {
    let mut metadata = frame_with(entry_with(
        "# 59 // headline\nline one\nline two",
        "2025-01-02T03:04:56Z",
        Some(location("UTC")),
        strings(&["1/125s", "lens:35mm", "night"]),
    ));
    metadata.populate_tags(&CameraProfileMap::default());
    let names: Vec<&str> = metadata.exif_tags.iter().map(|t| t.name.as_str()).collect();
    assert_eq!(
        vec![
            "DateTimeOriginal",
            "UserComment",
            "GPSLatitude",
            "GPSLongitude",
            "GPSHPositioningError",
            "Country",
            "State",
            "ExposureTime",
            "FocalLength",
            "Keywords"
        ],
        names
    );
    assert_eq!(
        TagValue::String("\nline one\nline two".to_string()),
        metadata.exif_tags[1].value
    );
    assert_eq!(
        TagValue::String("2025:01:02 03:04:59".to_string()),
        metadata.exif_tags[0].value
    );
}

#[test]
fn frame_numbers_and_keywords_are_checked() {
    assert!(frame_count_is_ok(&"59".to_string()));
    assert!(!frame_count_is_ok(&"60".to_string()));
    assert!(frame_count_is_ok(&"x".to_string()));
    assert!(tags_are_processable(&strings(&["1/500s", "lens:50mm", "f/2"])));
    assert!(!tags_are_processable(&strings(&["lens:٥٠mm"])));
    assert!(!tags_are_processable(&strings(&["30s-ish"])));
}

#[test]
fn leap_second_prints_as_sixty() {
    let mut metadata = frame_with(entry_with(
        "# 59",
        "2016-12-31T23:59:60Z",
        Some(location("UTC")),
        Vec::new(),
    ));
    assert_eq!("2016:12:31 23:59:60", metadata.munge_date_with_framecount());
    metadata.frame_count = "5".to_string();
    assert_eq!("2016:12:31 23:59:06", metadata.munge_date_with_framecount());
}

#[test]
fn dates_far_from_the_epoch_print_in_full() {
    let metadata = frame_with(entry_with(
        "# 59",
        "0001-03-01T00:00:00+01:00",
        Some(location("UTC")),
        Vec::new(),
    ));
    assert_eq!("0001:02:28 23:00:59", metadata.munge_date_with_framecount());
    let roll = Roll::new(date("9999-12-31T23:59:59-01:00"), "camera:x".to_string(), "E".to_string(), Vec::new());
    assert_eq!("e_x_99991231_0.zip", roll.cons_filename(0));
}

#[test]
fn munged_datetime_at_the_ends_of_the_calendar() {
    let mut early = frame_with(entry_with(
        "# 7 // Some raw text\nSome body",
        "0000-01-01T00:30:10Z",
        None,
        Vec::new(),
    ));
    early.frame_count = "7".to_string();
    assert_eq!("-0001:12:31 23:30:07", early.munge_date_with_framecount_at(-3600));
    let leap = frame_with(entry_with(
        "# HP5",
        "2016-12-31T23:59:60Z",
        None,
        Vec::new(),
    ));
    let mut leap = leap;
    leap.frame_count = String::new();
    assert_eq!("2016:12:31 23:59:60", leap.munge_date_with_framecount_at(0));
}
