use scan_metadata::exif::{
    apply_exif_tag, get_default_processor, get_legacy_processor, handle_special_case_tags,
    special_cased_tag, to_exiftool_cmd_line, translate_tag_to_exiv, write_out_exif_ops,
    ExifProcessorKind, ExifProcessorOptions, ExifTag, ExifTagTrait, FloatValue, MetadataOp,
    Rational, TagValue,
};
use scan_metadata::util::{set_log_level, LevelFilter, LogSettings};

fn fake_exif_tags() -> Vec<ExifTag> {
    let mut exif_tags = Vec::new();
    exif_tags.push("bar".to_exif_tag("Foo"));
    exif_tags.push("hey".to_exif_tag("Hey"));
    exif_tags.push(42i32.to_exif_tag("SomeInt"));

    exif_tags
}

fn f64_tag(value: f64, name: &str) -> ExifTag {
    FloatValue::Bits(value.to_bits()).to_exif_tag(name)
}

fn float_of(v: &FloatValue) -> f64 {
    match v {
        FloatValue::Bits(b) => f64::from_bits(*b),
        FloatValue::WidenedBits(b) => f32::from_bits(*b) as f64,
        FloatValue::ParsedSingle(s) => s.parse::<f32>().unwrap() as f64,
        FloatValue::ParsedDouble(s) => s.parse::<f64>().unwrap(),
    }
}

/// How each tag's value prints when it is a float, as `format!("{}")` does.
fn float_texts(tags: &[ExifTag]) -> Vec<String> {
    tags.iter()
        .map(|t| match &t.value {
            TagValue::Float(f) => format!("{}", float_of(f)),
            _ => String::new(),
        })
        .collect()
}

fn debug_settings() -> LogSettings {
    let mut settings = LogSettings::new();
    set_log_level(&mut settings, LevelFilter::Debug);
    settings
}

fn cmd_line(tags: &Vec<ExifTag>, inplace: bool, dryrun: bool, settings: &LogSettings) -> Vec<String> {
    to_exiftool_cmd_line(
        "/test/path",
        tags,
        &ExifProcessorOptions { inplace, dryrun },
        settings,
        &float_texts(tags),
    )
}

#[test]
fn exiftool_processor_should_yield_correct_cmd_line() {
    let exif_tags = fake_exif_tags();
    let settings = debug_settings();

    assert_eq!(
        Vec::from([
            "-v4",
            "-overwrite_original_in_place",
            "-Foo=bar",
            "-Hey=hey",
            "-SomeInt=42",
            "/test/path"
        ]),
        cmd_line(&exif_tags, true, true, &settings)
    );

    assert_eq!(
        Vec::from([
            "-v4",
            "-overwrite_original_in_place",
            "-Foo=bar",
            "-Hey=hey",
            "-SomeInt=42",
            "/test/path"
        ]),
        cmd_line(&exif_tags, true, false, &settings)
    );

    assert_eq!(
        Vec::from(["-v4", "-Foo=bar", "-Hey=hey", "-SomeInt=42", "/test/path"]),
        cmd_line(&exif_tags, false, false, &settings)
    );
}

#[test]
fn exiftool_processor_should_handle_various_value_types() {
    let mut exif_tags = Vec::new();
    exif_tags.push("bar".to_exif_tag("Foo"));
    exif_tags.push("hey".to_string().to_exif_tag("Hey"));
    exif_tags.push(42i32.to_exif_tag("SomeInt"));
    exif_tags.push(f64_tag(42.42, "SomeFloat"));
    let ratio = Rational::from_parts(3, 7);
    exif_tags.push(ratio.to_exif_tag("SomeRatio"));

    assert_eq!(
        Vec::from([
            "-v4",
            "-Foo=bar",
            "-Hey=hey",
            "-SomeInt=42",
            "-SomeFloat=42.42",
            "-SomeRatio=3/7",
            "/test/path"
        ]),
        cmd_line(&exif_tags, false, true, &debug_settings())
    );
}

#[test]
fn exiftool_is_quiet_unless_debugging_and_lists_every_keyword() {
    let mut exif_tags = Vec::new();
    exif_tags.push(vec!["a".to_string(), "b".to_string()].to_exif_tag("Keywords"));
    exif_tags.push((-3i8).to_exif_tag("MaxAperture"));
    exif_tags.push(Rational::from_parts(-4, 1).to_exif_tag("Whole"));
    let settings = LogSettings::new();
    assert_eq!(
        Vec::from([
            "-q",
            "-Keywords=a",
            "-Keywords=b",
            "-MaxAperture=-3",
            "-Whole=-4",
            "/test/path"
        ]),
        cmd_line(&exif_tags, false, false, &settings)
    );
}

#[test]
fn rexiv2_processor_apply_exif_tag_base_case() {
    let tag = "TestTagValue".to_exif_tag("TestTag");

    assert_eq!(
        MetadataOp::SetTagString {
            tag: "TestTag".to_string(),
            value: "TestTagValue".to_string()
        },
        apply_exif_tag(&tag)
    );
}

#[test]
fn rexiv2_processor_apply_exif_tag_on_translated_string_tag() {
    let tag = "TestTagValue".to_exif_tag("DateTimeOriginal");

    assert_eq!(
        MetadataOp::SetTagString {
            tag: "Exif.Photo.DateTimeOriginal".to_string(),
            value: "TestTagValue".to_string()
        },
        apply_exif_tag(&tag)
    );
}

#[test]
fn rexiv2_processor_ignore_regular_tags_in_handle_special_case_tags() {
    let foo_tag = f64_tag(-1.234, "Foo");
    let bar_tag = f64_tag(-5.6789, "Bar");

    assert!(handle_special_case_tags(&vec![foo_tag, bar_tag]).is_empty());
}

#[test]
fn rexiv2_processor_special_casing_ignore_gps_tags_if_either_missing() {
    let lon = f64_tag(-1.234, "GPSLongitude");
    let lat = f64_tag(-5.6789, "GPSLatitude");

    assert!(handle_special_case_tags(&vec![lon]).is_empty());

    assert!(handle_special_case_tags(&vec![lat]).is_empty());
}

#[test]
fn rexiv2_processor_handle_special_cased_gps_tags() {
    let lon = f64_tag(-1.234, "GPSLongitude");
    let lat = f64_tag(-5.6789, "GPSLatitude");

    let ops = handle_special_case_tags(&vec![lon, lat]);
    assert_eq!(1, ops.len());
    match &ops[0] {
        MetadataOp::SetGpsInfo { latitude, longitude } => {
            assert_eq!(-1.234, float_of(longitude));
            assert_eq!(-5.6789, float_of(latitude));
        }
        other => panic!("unexpected call {:?}", other),
    }
}

#[test]
fn rexiv2_processor_special_casing_ignore_lens_info_tag_when_missing_some() {
    let min_len = "a".to_exif_tag("MinFocalLength");
    let max_aperture_min = "c".to_exif_tag("MaxApertureAtMinFocal");
    let max_aperture_max = "d".to_exif_tag("MaxApertureAtMaxFocal");

    assert!(handle_special_case_tags(&vec![min_len, max_aperture_min, max_aperture_max]).is_empty());
}

#[test]
fn rexiv2_processor_handle_special_cased_lens_info_tags() {
    let min_len = "a".to_exif_tag("MinFocalLength");
    let max_len = "b".to_exif_tag("MaxFocalLength");
    let max_aperture_min = "c".to_exif_tag("MaxApertureAtMinFocal");
    let max_aperture_max = "d".to_exif_tag("MaxApertureAtMaxFocal");

    let ops = handle_special_case_tags(&vec![min_len, max_len, max_aperture_min, max_aperture_max]);
    assert_eq!(
        vec![MetadataOp::SetTagMultipleStrings {
            tag: "Exif.Photo.LensSpecification".to_string(),
            values: vec!["a".to_string(), "b".to_string(), "c".to_string(), "d".to_string()],
        }],
        ops
    );
}

#[test]
fn write_out_ops_combine_special_tags_then_write_the_rest() {
    let tags = vec![
        "2025:01:02 03:04:59".to_exif_tag("DateTimeOriginal"),
        f64_tag(1.5, "GPSLatitude"),
        f64_tag(2.5, "GPSLongitude"),
        "10mm".to_exif_tag("MinFocalLength"),
        7i32.to_exif_tag("MaxAperture"),
        f64_tag(0.5, "FNumber"),
        Rational::from_parts(1, 3).to_exif_tag("Ratio"),
        vec!["k".to_string()].to_exif_tag("Keywords"),
    ];
    let ops = write_out_exif_ops(&tags);
    assert_eq!(6, ops.len());
    assert!(matches!(&ops[0], MetadataOp::SetGpsInfo { .. }));
    assert_eq!(
        MetadataOp::SetTagString {
            tag: "Exif.Photo.DateTimeOriginal".to_string(),
            value: "2025:01:02 03:04:59".to_string()
        },
        ops[1]
    );
    assert_eq!(
        MetadataOp::SetTagNumeric { tag: "Exif.Image.MaxApertureValue".to_string(), value: 7 },
        ops[2]
    );
    assert!(matches!(&ops[3], MetadataOp::SetTagRationalFromFloat { tag, .. } if tag == "Exif.Photo.FNumber"));
    assert_eq!(
        MetadataOp::SetTagRational { tag: "Ratio".to_string(), value: Rational::from_parts(1, 3) },
        ops[4]
    );
    assert_eq!(
        MetadataOp::SetTagMultipleStrings {
            tag: "Iptc.Application2.Keywords".to_string(),
            values: vec!["k".to_string()]
        },
        ops[5]
    );
}

#[test]
fn tag_names_translate_to_exiv_keys() {
    assert_eq!("Exif.Photo.DateTimeOriginal", translate_tag_to_exiv("DateTimeOriginal"));
    assert_eq!("Xmp.photoshop.State", translate_tag_to_exiv("State"));
    assert_eq!("Iptc.Application2.Keywords", translate_tag_to_exiv("Keywords"));
    assert_eq!("Xmp.xmpDM.cameraLabel", translate_tag_to_exiv("CameraLabel"));
    assert_eq!("Unknown", translate_tag_to_exiv("Unknown"));
    assert!(special_cased_tag("GPSLatitude"));
    assert!(special_cased_tag("MaxApertureAtMaxFocal"));
    assert!(!special_cased_tag("MaxAperture"));
}

#[test]
fn processors_are_exiv2_by_default_and_exiftool_for_legacy() {
    assert_eq!(ExifProcessorKind::Rexiv2, get_default_processor());
    assert_eq!(ExifProcessorKind::ExifTool, get_legacy_processor());
}
