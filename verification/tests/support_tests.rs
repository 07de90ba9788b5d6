use scan_metadata::camera_profiles::{CameraLensProfile, CameraProfileMap, LensProfile};
use scan_metadata::exif::{ExifTag, TagValue};
use scan_metadata::journal::{
    extract_emulsion_name_from_leader_text, focal_length_digits, lowercase_chars, replace_chars,
    scan_frame_suffix, shutter_tag,
};
use scan_metadata::models::{DayOneExportEntry, FrameEntry, MetadataEntry};
use scan_metadata::text::{chars_parse_as_float, lines_of, parse_u32_chars, sort_strings};
use scan_metadata::time::Timestamp;
use scan_metadata::util::{
    get_log_level, is_log_level, is_not_quiet, set_log_level, LevelFilter, LogSettings,
};

fn chars(s: &str) -> Vec<char> {
    s.chars().collect()
}

fn text(v: &[char]) -> String {
    v.iter().collect()
}

fn strings(v: &[&str]) -> Vec<String> {
    v.iter().map(|s| s.to_string()).collect()
}

#[test]
fn log_level_set_is_read_back() {
    let mut settings = LogSettings::new();
    assert_eq!(LevelFilter::Info, get_log_level(&settings));
    assert!(is_not_quiet(&settings));
    set_log_level(&mut settings, LevelFilter::Debug);
    set_log_level(&mut settings, LevelFilter::Off);
    assert_eq!(LevelFilter::Off, get_log_level(&settings));
    assert!(is_log_level(&settings, LevelFilter::Off));
    assert!(!is_not_quiet(&settings));
}

#[test]
fn strings_sort_by_code_point() {
    let mut v = strings(&["b", "B", "a", "", "ab", "é", "a"]);
    sort_strings(&mut v);
    assert_eq!(strings(&["", "B", "a", "a", "ab", "b", "é"]), v);
}

#[test]
fn lines_split_like_str_lines() {
    let ls: Vec<String> = lines_of(&chars("a\r\nb\n\nc\n")).iter().map(|l| text(l)).collect();
    assert_eq!(strings(&["a", "b", "", "c"]), ls);
    assert!(lines_of(&chars("")).is_empty());
}

#[test]
fn numbers_parse_like_str_parse() {
    assert_eq!(Some(4294967295), parse_u32_chars(&chars("4294967295")));
    assert_eq!(None, parse_u32_chars(&chars("4294967296")));
    assert_eq!(Some(7), parse_u32_chars(&chars("+7")));
    assert_eq!(None, parse_u32_chars(&chars("-7")));
    assert_eq!(None, parse_u32_chars(&chars("+")));
    for ok in ["2", "1.4", ".5", "5.", "1e3", "inf", "-NaN", "+Infinity", "2E-2"] {
        assert!(chars_parse_as_float(&chars(ok)), "{ok}");
        assert!(ok.parse::<f32>().is_ok());
    }
    for bad in ["a", "", ".", "1e", "e3", "1.4-AiS", "0x10"] {
        assert!(!chars_parse_as_float(&chars(bad)), "{bad}");
        assert!(bad.parse::<f32>().is_err());
    }
}

#[test]
fn text_shapes() {
    assert_eq!(chars("a_b_c"), replace_chars(&chars("a b c"), &chars(" "), &chars("_")));
    assert_eq!(chars("canonp"), replace_chars(&chars("camera:canonp"), &chars("camera:"), &Vec::new()));
    assert_eq!(chars("hp5 plus"), lowercase_chars(&chars("HP5 Plus")));
    assert!(shutter_tag(&chars("1/500s")));
    assert!(shutter_tag(&chars("2s")));
    assert!(!shutter_tag(&chars("s")));
    assert!(!shutter_tag(&chars("1/500")));
    assert_eq!(Some(chars("50")), focal_length_digits(&chars("lens:50mm1.4-AiS")));
    assert_eq!(Some(chars("28")), focal_length_digits(&chars("lens:mm28mm-35mm")));
    assert_eq!(None, focal_length_digits(&chars("lens:normal")));
    assert_eq!(Some(chars("12")), scan_frame_suffix(&chars("000001912")));
    assert_eq!(Some(chars("1")), scan_frame_suffix(&chars("hp5cp160_001")));
    assert_eq!(None, scan_frame_suffix(&chars("hp5cp160_100")));
}

#[test]
fn leader_headlines() {
    assert_eq!(
        chars("HP5 Plus @ 1600"),
        extract_emulsion_name_from_leader_text(&chars("# HP5 Plus @ 1600 - 35mm (Canon P)"))
    );
    assert_eq!(
        chars("A - 120 (x) B"),
        extract_emulsion_name_from_leader_text(&chars("# A - 120 (x) B - 35mm (y)"))
    );
    assert_eq!(
        chars("Tri-X"),
        extract_emulsion_name_from_leader_text(&chars("intro\n# Tri-X - 120 (Mamiya)\nrest"))
    );
    assert!(extract_emulsion_name_from_leader_text(&chars("# Tri-X - 220 (Mamiya)")).is_empty());
}

#[test]
fn instants_parse_from_rfc3339() {
    let leap = Timestamp::parse_from_rfc3339("2016-12-31T23:59:60Z").unwrap();
    assert_eq!(1483228799, leap.utc_seconds());
    assert_eq!(1_000_000_000, leap.nanoseconds());
    let t = Timestamp::parse_from_rfc3339("2025-01-02T03:04:56+11:00").unwrap();
    assert_eq!(39600, t.offset_seconds());
    assert_eq!(1735747496, t.utc_seconds());
    assert!(Timestamp::parse_from_rfc3339("2025-13-02T03:04:56Z").is_none());
    assert!(Timestamp::new(0, 2_000_000_000, 0).is_none());
    assert!(Timestamp::new(0, 0, 86400).is_none());
    assert_eq!(Timestamp::epoch(), Timestamp::new(0, 0, 0).unwrap());
}

#[test]
fn minutes_between_instants() {
    let a = Timestamp::parse_from_rfc3339("2025-01-02T07:30:00Z").unwrap();
    let b = Timestamp::parse_from_rfc3339("2025-01-02T08:00:59.5Z").unwrap();
    assert_eq!(30, b.minutes_since(&a));
    assert_eq!(-30, a.minutes_since(&b));
    assert!(b.is_after(&a));
    assert!(!a.is_after(&a));
}

fn lens(tag: &str, short: &str, apex: i8) -> LensProfile {
    LensProfile {
        name: format!("Lens {tag}"),
        tag: tag.to_string(),
        min_focal_length_mm: 50,
        max_focal_length_mm: 50,
        max_aperture_at_short: short.to_string(),
        max_aperture_at_long: short.to_string(),
        max_aperture_apex: apex,
        exif_tags: Some(vec![("LensMake".to_string(), "Nikon".to_string())]),
    }
}

fn value_of(tags: &[ExifTag], name: &str) -> TagValue {
    match &tags.iter().find(|t| t.name == name).unwrap().value {
        TagValue::String(s) => TagValue::String(s.clone()),
        TagValue::Numeric(n) => TagValue::Numeric(*n),
        _ => panic!("unexpected value for {name}"),
    }
}

fn profiles() -> CameraProfileMap {
    CameraProfileMap::new(Some(vec![CameraLensProfile {
        name: "Nikon FM3a".to_string(),
        tag: "camera:fm3a".to_string(),
        exif_tags: Some(vec![("Make".to_string(), "Nikon".to_string())]),
        lens_profiles: vec![lens("lens:50mm", "1.4", 1), lens("lens:50mm", "1.8", 2)],
    }]))
}

#[test]
fn profiles_are_found_by_camera_and_lens_tag() {
    let map = profiles();
    let (camera, lens) = map
        .get_profile(Some("camera:fm3a".to_string()), Some("lens:50mm".to_string()))
        .unwrap();
    assert_eq!("Nikon FM3a", camera.name);
    assert_eq!("1.8", lens.max_aperture_at_short);
    assert!(map.get_profile(Some("camera:fm3a".to_string()), None).is_none());
    assert!(map
        .get_profile(Some("camera:fm2".to_string()), Some("lens:50mm".to_string()))
        .is_none());
    assert!(CameraProfileMap::new(None)
        .get_profile(Some("camera:fm3a".to_string()), Some("lens:50mm".to_string()))
        .is_none());
}

#[test]
fn profile_tags_are_added_for_the_last_camera_and_lens() {
    let mut frame = FrameEntry {
        entry: MetadataEntry {
            entry: DayOneExportEntry::default(),
            text: "# 3".to_string(),
            entry_date: Timestamp::epoch(),
            location: None,
            tags: strings(&["camera:fm2", "lens:50mm", "camera:fm3a"]),
        },
        frame_count: "3".to_string(),
        exif_tags: Vec::new(),
    };
    frame.populate_from_entry_tags(&profiles());
    let names: Vec<&str> = frame.exif_tags.iter().map(|t| t.name.as_str()).collect();
    assert_eq!(
        vec![
            "FocalLength",
            "LensModel",
            "CameraLabel",
            "MinFocalLength",
            "MaxFocalLength",
            "MaxAperture",
            "MaxApertureAtMinFocal",
            "MaxApertureAtMaxFocal",
            "LensMake",
            "Make",
            "Keywords"
        ],
        names
    );
    let value = |name: &str| value_of(&frame.exif_tags, name);
    assert_eq!(TagValue::String("50mm".to_string()), value("MinFocalLength"));
    assert_eq!(TagValue::Numeric(2), value("MaxAperture"));
    assert_eq!(TagValue::String("f/1.8".to_string()), value("MaxApertureAtMinFocal"));
    assert_eq!(TagValue::String("Nikon FM3a".to_string()), value("CameraLabel"));
}

#[test]
fn unicode_digits_agree_with_regex() {
    let digit = regex::Regex::new(r"^\d$").unwrap();
    for u in 0u32..=0x10FFFF {
        if let Some(c) = char::from_u32(u) {
            assert_eq!(
                scan_metadata::text::unicode_decimal_char(c),
                digit.is_match(&c.to_string()),
                "U+{u:04X}"
            );
        }
    }
}

#[test]
fn minutes_across_a_leap_second() {
    let leap = Timestamp::parse_from_rfc3339("2016-12-31T23:59:60Z").unwrap();
    let before = Timestamp::parse_from_rfc3339("2016-12-31T23:58:59Z").unwrap();
    let after = Timestamp::parse_from_rfc3339("2017-01-01T00:00:59Z").unwrap();
    let later = Timestamp::parse_from_rfc3339("2017-01-01T00:01:00Z").unwrap();
    assert_eq!(leap.minutes_since(&before), 1);
    assert_eq!(before.minutes_since(&leap), -1);
    assert_eq!(after.minutes_since(&leap), 0);
    assert_eq!(later.minutes_since(&leap), 1);
    assert_eq!(leap.minutes_since(&later), -1);
}
