//! EXIF tags as the tools produce them, and the two ways of writing them
//! out: the argument list of an `exiftool` run, and the sequence of
//! operations on an exiv2 metadata object.

use vstd::prelude::*;

use crate::text::{
    append_chars, append_str, chars_of, clone_strings, push_signed, signed_text, str_eq,
    string_from_str, string_of, strings_view,
};
use crate::util::{is_log_level, LevelFilter, LogSettings};

verus! {

// ---------------------------------------------------------------------------
// Values
// ---------------------------------------------------------------------------

/// A binary64 number. Either its bit pattern (`Bits`), the bit pattern of a
/// binary32 number widened to binary64 (`WidenedBits`), or the number that
/// Rust's `str::parse` yields for a text: as `f32`, then widened to `f64`
/// (`ParsedSingle`), or as `f64` (`ParsedDouble`). The texts held are ones
/// that the parse accepts.
#[derive(Debug, PartialEq)]
pub enum FloatValue {
    Bits(u64),
    WidenedBits(u32),
    ParsedSingle(String),
    ParsedDouble(String),
}

/// A fraction `numer/denom`, as `num::rational::Ratio<i32>` holds it.
#[derive(Debug, PartialEq, Clone, Copy)]
pub struct Rational {
    pub numer: i32,
    pub denom: i32,
}

impl Rational {
    pub fn from_parts(numer: i32, denom: i32) -> (r: Rational)
        ensures
            r.numer == numer,
            r.denom == denom,
    {
        Rational { numer, denom }
    }
}

#[derive(Debug, PartialEq)]
pub enum TagValue {
    Numeric(i32),
    Rational(Rational),
    Float(FloatValue),
    String(String),
    List(Vec<String>),
}

#[derive(Debug, PartialEq)]
pub struct ExifTag {
    pub name: String,
    pub value: TagValue,
}

pub enum FloatView {
    Bits(u64),
    WidenedBits(u32),
    ParsedSingle(Seq<char>),
    ParsedDouble(Seq<char>),
}

pub enum TagValueView {
    Numeric(i32),
    Rational(i32, i32),
    Float(FloatView),
    Str(Seq<char>),
    List(Seq<Seq<char>>),
}

pub struct ExifTagView {
    pub name: Seq<char>,
    pub value: TagValueView,
}

impl View for FloatValue {
    type V = FloatView;

    open spec fn view(&self) -> FloatView {
        match self {
            FloatValue::Bits(b) => FloatView::Bits(*b),
            FloatValue::WidenedBits(b) => FloatView::WidenedBits(*b),
            FloatValue::ParsedSingle(s) => FloatView::ParsedSingle(s@),
            FloatValue::ParsedDouble(s) => FloatView::ParsedDouble(s@),
        }
    }
}

impl View for TagValue {
    type V = TagValueView;

    open spec fn view(&self) -> TagValueView {
        match self {
            TagValue::Numeric(n) => TagValueView::Numeric(*n),
            TagValue::Rational(r) => TagValueView::Rational(r.numer, r.denom),
            TagValue::Float(f) => TagValueView::Float(f@),
            TagValue::String(s) => TagValueView::Str(s@),
            TagValue::List(l) => TagValueView::List(strings_view(l@)),
        }
    }
}

impl View for ExifTag {
    type V = ExifTagView;

    open spec fn view(&self) -> ExifTagView {
        ExifTagView { name: self.name@, value: self.value@ }
    }
}

/// The views of a list of tags.
pub open spec fn tags_view(v: Seq<ExifTag>) -> Seq<ExifTagView> {
    v.map_values(|t: ExifTag| t@)
}

pub fn clone_float(f: &FloatValue) -> (r: FloatValue)
    ensures
        r@ == f@,
{
    match f {
        FloatValue::Bits(b) => FloatValue::Bits(*b),
        FloatValue::WidenedBits(b) => FloatValue::WidenedBits(*b),
        FloatValue::ParsedSingle(s) => FloatValue::ParsedSingle(s.clone()),
        FloatValue::ParsedDouble(s) => FloatValue::ParsedDouble(s.clone()),
    }
}

pub fn clone_tag(t: &ExifTag) -> (r: ExifTag)
    ensures
        r@ == t@,
{
    let value = match &t.value {
        TagValue::Numeric(n) => TagValue::Numeric(*n),
        TagValue::Rational(q) => TagValue::Rational(*q),
        TagValue::Float(f) => TagValue::Float(clone_float(f)),
        TagValue::String(s) => TagValue::String(s.clone()),
        TagValue::List(l) => TagValue::List(clone_strings(l)),
    };
    ExifTag { name: t.name.clone(), value }
}

// ---------------------------------------------------------------------------
// Making tags from values
// ---------------------------------------------------------------------------

/// Values that can be written as the value of an EXIF tag.
pub trait ExifTagTrait {
    spec fn tag_value(&self) -> TagValueView;

    fn to_exif_tag(&self, name: &str) -> (r: ExifTag)
        ensures
            r@ == (ExifTagView { name: name@, value: self.tag_value() }),
    ;
}

impl ExifTagTrait for i32 {
    open spec fn tag_value(&self) -> TagValueView {
        TagValueView::Numeric(*self)
    }

    fn to_exif_tag(&self, name: &str) -> (r: ExifTag) {
        ExifTag { name: string_from_str(name), value: TagValue::Numeric(*self) }
    }
}

impl ExifTagTrait for i8 {
    open spec fn tag_value(&self) -> TagValueView {
        TagValueView::Numeric(*self as i32)
    }

    fn to_exif_tag(&self, name: &str) -> (r: ExifTag) {
        ExifTag { name: string_from_str(name), value: TagValue::Numeric(*self as i32) }
    }
}

impl ExifTagTrait for Rational {
    open spec fn tag_value(&self) -> TagValueView {
        TagValueView::Rational(self.numer, self.denom)
    }

    fn to_exif_tag(&self, name: &str) -> (r: ExifTag) {
        ExifTag { name: string_from_str(name), value: TagValue::Rational(*self) }
    }
}

impl ExifTagTrait for FloatValue {
    open spec fn tag_value(&self) -> TagValueView {
        TagValueView::Float(self@)
    }

    fn to_exif_tag(&self, name: &str) -> (r: ExifTag) {
        ExifTag { name: string_from_str(name), value: TagValue::Float(clone_float(self)) }
    }
}

impl ExifTagTrait for str {
    open spec fn tag_value(&self) -> TagValueView {
        TagValueView::Str(self@)
    }

    fn to_exif_tag(&self, name: &str) -> (r: ExifTag) {
        ExifTag { name: string_from_str(name), value: TagValue::String(string_from_str(self)) }
    }
}

impl ExifTagTrait for String {
    open spec fn tag_value(&self) -> TagValueView {
        TagValueView::Str(self@)
    }

    fn to_exif_tag(&self, name: &str) -> (r: ExifTag) {
        ExifTag { name: string_from_str(name), value: TagValue::String(self.clone()) }
    }
}

impl ExifTagTrait for Vec<String> {
    open spec fn tag_value(&self) -> TagValueView {
        TagValueView::List(strings_view(self@))
    }

    fn to_exif_tag(&self, name: &str) -> (r: ExifTag) {
        ExifTag { name: string_from_str(name), value: TagValue::List(clone_strings(self)) }
    }
}

/// A tag named `name` holding the text `value`.
pub fn string_tag(name: &str, value: &Vec<char>) -> (r: ExifTag)
    ensures
        r@ == (ExifTagView { name: name@, value: TagValueView::Str(value@) }),
{
    ExifTag { name: string_from_str(name), value: TagValue::String(string_of(value)) }
}

// ---------------------------------------------------------------------------
// Options and processors
// ---------------------------------------------------------------------------

/// How scans are updated: in place or keeping the original; for real or
/// only reporting what would be done.
pub struct ExifProcessorOptions {
    pub inplace: bool,
    pub dryrun: bool,
}

/// The two ways of writing tags to a scan.
#[derive(Clone, Copy, Debug, PartialEq, Eq, Structural)]
pub enum ExifProcessorKind {
    /// Through the exiv2 library, in this process.
    Rexiv2,
    /// Through a run of the `exiftool` program.
    ExifTool,
}

pub fn get_default_processor() -> (r: ExifProcessorKind)
    ensures
        r == ExifProcessorKind::Rexiv2,
{
    ExifProcessorKind::Rexiv2
}

pub fn get_legacy_processor() -> (r: ExifProcessorKind)
    ensures
        r == ExifProcessorKind::ExifTool,
{
    ExifProcessorKind::ExifTool
}

// ---------------------------------------------------------------------------
// Tag names as exiv2 knows them
// ---------------------------------------------------------------------------

/// The exiv2 key for a tag name; names without a key of their own are used
/// as they are.
pub open spec fn exiv_name(n: Seq<char>) -> Seq<char> {
    if n == "DateTimeOriginal"@ {
        "Exif.Photo.DateTimeOriginal"@
    } else if n == "GPSLatitude"@ {
        "Exif.GPSInfo.GPSLatitude"@
    } else if n == "GPSLongitude"@ {
        "Exif.GPSInfo.GPSLongitude"@
    } else if n == "GPSHPositioningError"@ {
        "Exif.GPSInfo.GPSHPositioningError"@
    } else if n == "Country"@ {
        "Xmp.photoshop.Country"@
    } else if n == "State"@ {
        "Xmp.photoshop.State"@
    } else if n == "FNumber"@ {
        "Exif.Photo.FNumber"@
    } else if n == "ExposureTime"@ {
        "Exif.Photo.ExposureTime"@
    } else if n == "MaxAperture"@ {
        "Exif.Image.MaxApertureValue"@
    } else if n == "FocalLength"@ {
        "Exif.Photo.FocalLength"@
    } else if n == "LensMake"@ {
        "Xmp.exifEX.LensMake"@
    } else if n == "LensModel"@ {
        "Xmp.exifEX.LensModel"@
    } else if n == "CameraLabel"@ {
        "Xmp.xmpDM.cameraLabel"@
    } else if n == "UserComment"@ {
        "Exif.Photo.UserComment"@
    } else if n == "Keywords"@ {
        "Iptc.Application2.Keywords"@
    } else {
        n
    }
}

pub fn translate_tag_to_exiv(tag_name: &str) -> (r: &str)
    ensures
        r@ == exiv_name(tag_name@),
{
    if str_eq(tag_name, "DateTimeOriginal") {
        "Exif.Photo.DateTimeOriginal"
    } else if str_eq(tag_name, "GPSLatitude") {
        "Exif.GPSInfo.GPSLatitude"
    } else if str_eq(tag_name, "GPSLongitude") {
        "Exif.GPSInfo.GPSLongitude"
    } else if str_eq(tag_name, "GPSHPositioningError") {
        "Exif.GPSInfo.GPSHPositioningError"
    } else if str_eq(tag_name, "Country") {
        "Xmp.photoshop.Country"
    } else if str_eq(tag_name, "State") {
        "Xmp.photoshop.State"
    } else if str_eq(tag_name, "FNumber") {
        "Exif.Photo.FNumber"
    } else if str_eq(tag_name, "ExposureTime") {
        "Exif.Photo.ExposureTime"
    } else if str_eq(tag_name, "MaxAperture") {
        "Exif.Image.MaxApertureValue"
    } else if str_eq(tag_name, "FocalLength") {
        "Exif.Photo.FocalLength"
    } else if str_eq(tag_name, "LensMake") {
        "Xmp.exifEX.LensMake"
    } else if str_eq(tag_name, "LensModel") {
        "Xmp.exifEX.LensModel"
    } else if str_eq(tag_name, "CameraLabel") {
        "Xmp.xmpDM.cameraLabel"
    } else if str_eq(tag_name, "UserComment") {
        "Exif.Photo.UserComment"
    } else if str_eq(tag_name, "Keywords") {
        "Iptc.Application2.Keywords"
    } else {
        tag_name
    }
}

/// The tag names that exiv2 knows under a key of their own.
pub open spec fn has_exiv_key(n: Seq<char>) -> bool {
    ||| n == "DateTimeOriginal"@
    ||| n == "GPSLatitude"@
    ||| n == "GPSLongitude"@
    ||| n == "GPSHPositioningError"@
    ||| n == "Country"@
    ||| n == "State"@
    ||| n == "FNumber"@
    ||| n == "ExposureTime"@
    ||| n == "MaxAperture"@
    ||| n == "FocalLength"@
    ||| n == "LensMake"@
    ||| n == "LensModel"@
    ||| n == "CameraLabel"@
    ||| n == "UserComment"@
    ||| n == "Keywords"@
}

/// Each tag name that has a key of its own is written under its fixed
/// exiv2 key, no two of them under the same key; any other name is written
/// under itself.
pub proof fn lemma_exiv_keys()
    ensures
        exiv_name("DateTimeOriginal"@) == "Exif.Photo.DateTimeOriginal"@,
        exiv_name("GPSLatitude"@) == "Exif.GPSInfo.GPSLatitude"@,
        exiv_name("GPSLongitude"@) == "Exif.GPSInfo.GPSLongitude"@,
        exiv_name("GPSHPositioningError"@) == "Exif.GPSInfo.GPSHPositioningError"@,
        exiv_name("Country"@) == "Xmp.photoshop.Country"@,
        exiv_name("State"@) == "Xmp.photoshop.State"@,
        exiv_name("FNumber"@) == "Exif.Photo.FNumber"@,
        exiv_name("ExposureTime"@) == "Exif.Photo.ExposureTime"@,
        exiv_name("MaxAperture"@) == "Exif.Image.MaxApertureValue"@,
        exiv_name("FocalLength"@) == "Exif.Photo.FocalLength"@,
        exiv_name("LensMake"@) == "Xmp.exifEX.LensMake"@,
        exiv_name("LensModel"@) == "Xmp.exifEX.LensModel"@,
        exiv_name("CameraLabel"@) == "Xmp.xmpDM.cameraLabel"@,
        exiv_name("UserComment"@) == "Exif.Photo.UserComment"@,
        exiv_name("Keywords"@) == "Iptc.Application2.Keywords"@,
        forall|a: Seq<char>, b: Seq<char>|
            has_exiv_key(a) && has_exiv_key(b) && a != b ==> #[trigger] exiv_name(a) != #[trigger] exiv_name(b),
        forall|n: Seq<char>| !has_exiv_key(n) ==> #[trigger] exiv_name(n) == n,
{
    reveal_strlit("DateTimeOriginal");
    reveal_strlit("Exif.Photo.DateTimeOriginal");
    reveal_strlit("GPSLatitude");
    reveal_strlit("Exif.GPSInfo.GPSLatitude");
    reveal_strlit("GPSLongitude");
    reveal_strlit("Exif.GPSInfo.GPSLongitude");
    reveal_strlit("GPSHPositioningError");
    reveal_strlit("Exif.GPSInfo.GPSHPositioningError");
    reveal_strlit("Country");
    reveal_strlit("Xmp.photoshop.Country");
    reveal_strlit("State");
    reveal_strlit("Xmp.photoshop.State");
    reveal_strlit("FNumber");
    reveal_strlit("Exif.Photo.FNumber");
    reveal_strlit("ExposureTime");
    reveal_strlit("Exif.Photo.ExposureTime");
    reveal_strlit("MaxAperture");
    reveal_strlit("Exif.Image.MaxApertureValue");
    reveal_strlit("FocalLength");
    reveal_strlit("Exif.Photo.FocalLength");
    reveal_strlit("LensMake");
    reveal_strlit("Xmp.exifEX.LensMake");
    reveal_strlit("LensModel");
    reveal_strlit("Xmp.exifEX.LensModel");
    reveal_strlit("CameraLabel");
    reveal_strlit("Xmp.xmpDM.cameraLabel");
    reveal_strlit("UserComment");
    reveal_strlit("Exif.Photo.UserComment");
    reveal_strlit("Keywords");
    reveal_strlit("Iptc.Application2.Keywords");
    assert("DateTimeOriginal"@.len() != "GPSLatitude"@.len());
    assert("DateTimeOriginal"@.len() != "GPSLongitude"@.len());
    assert("DateTimeOriginal"@.len() != "GPSHPositioningError"@.len());
    assert("DateTimeOriginal"@.len() != "Country"@.len());
    assert("DateTimeOriginal"@.len() != "State"@.len());
    assert("DateTimeOriginal"@.len() != "FNumber"@.len());
    assert("DateTimeOriginal"@.len() != "ExposureTime"@.len());
    assert("DateTimeOriginal"@.len() != "MaxAperture"@.len());
    assert("DateTimeOriginal"@.len() != "FocalLength"@.len());
    assert("DateTimeOriginal"@.len() != "LensMake"@.len());
    assert("DateTimeOriginal"@.len() != "LensModel"@.len());
    assert("DateTimeOriginal"@.len() != "CameraLabel"@.len());
    assert("DateTimeOriginal"@.len() != "UserComment"@.len());
    assert("DateTimeOriginal"@.len() != "Keywords"@.len());
    assert("GPSLatitude"@.len() != "GPSLongitude"@.len());
    assert("GPSLatitude"@.len() != "GPSHPositioningError"@.len());
    assert("GPSLatitude"@.len() != "Country"@.len());
    assert("GPSLatitude"@.len() != "State"@.len());
    assert("GPSLatitude"@.len() != "FNumber"@.len());
    assert("GPSLatitude"@.len() != "ExposureTime"@.len());
    assert("GPSLatitude"@[0] != "MaxAperture"@[0]);
    assert("GPSLatitude"@[0] != "FocalLength"@[0]);
    assert("GPSLatitude"@.len() != "LensMake"@.len());
    assert("GPSLatitude"@.len() != "LensModel"@.len());
    assert("GPSLatitude"@[0] != "CameraLabel"@[0]);
    assert("GPSLatitude"@[0] != "UserComment"@[0]);
    assert("GPSLatitude"@.len() != "Keywords"@.len());
    assert("GPSLongitude"@.len() != "GPSHPositioningError"@.len());
    assert("GPSLongitude"@.len() != "Country"@.len());
    assert("GPSLongitude"@.len() != "State"@.len());
    assert("GPSLongitude"@.len() != "FNumber"@.len());
    assert("GPSLongitude"@[0] != "ExposureTime"@[0]);
    assert("GPSLongitude"@.len() != "MaxAperture"@.len());
    assert("GPSLongitude"@.len() != "FocalLength"@.len());
    assert("GPSLongitude"@.len() != "LensMake"@.len());
    assert("GPSLongitude"@.len() != "LensModel"@.len());
    assert("GPSLongitude"@.len() != "CameraLabel"@.len());
    assert("GPSLongitude"@.len() != "UserComment"@.len());
    assert("GPSLongitude"@.len() != "Keywords"@.len());
    assert("GPSHPositioningError"@.len() != "Country"@.len());
    assert("GPSHPositioningError"@.len() != "State"@.len());
    assert("GPSHPositioningError"@.len() != "FNumber"@.len());
    assert("GPSHPositioningError"@.len() != "ExposureTime"@.len());
    assert("GPSHPositioningError"@.len() != "MaxAperture"@.len());
    assert("GPSHPositioningError"@.len() != "FocalLength"@.len());
    assert("GPSHPositioningError"@.len() != "LensMake"@.len());
    assert("GPSHPositioningError"@.len() != "LensModel"@.len());
    assert("GPSHPositioningError"@.len() != "CameraLabel"@.len());
    assert("GPSHPositioningError"@.len() != "UserComment"@.len());
    assert("GPSHPositioningError"@.len() != "Keywords"@.len());
    assert("Country"@.len() != "State"@.len());
    assert("Country"@[0] != "FNumber"@[0]);
    assert("Country"@.len() != "ExposureTime"@.len());
    assert("Country"@.len() != "MaxAperture"@.len());
    assert("Country"@.len() != "FocalLength"@.len());
    assert("Country"@.len() != "LensMake"@.len());
    assert("Country"@.len() != "LensModel"@.len());
    assert("Country"@.len() != "CameraLabel"@.len());
    assert("Country"@.len() != "UserComment"@.len());
    assert("Country"@.len() != "Keywords"@.len());
    assert("State"@.len() != "FNumber"@.len());
    assert("State"@.len() != "ExposureTime"@.len());
    assert("State"@.len() != "MaxAperture"@.len());
    assert("State"@.len() != "FocalLength"@.len());
    assert("State"@.len() != "LensMake"@.len());
    assert("State"@.len() != "LensModel"@.len());
    assert("State"@.len() != "CameraLabel"@.len());
    assert("State"@.len() != "UserComment"@.len());
    assert("State"@.len() != "Keywords"@.len());
    assert("FNumber"@.len() != "ExposureTime"@.len());
    assert("FNumber"@.len() != "MaxAperture"@.len());
    assert("FNumber"@.len() != "FocalLength"@.len());
    assert("FNumber"@.len() != "LensMake"@.len());
    assert("FNumber"@.len() != "LensModel"@.len());
    assert("FNumber"@.len() != "CameraLabel"@.len());
    assert("FNumber"@.len() != "UserComment"@.len());
    assert("FNumber"@.len() != "Keywords"@.len());
    assert("ExposureTime"@.len() != "MaxAperture"@.len());
    assert("ExposureTime"@.len() != "FocalLength"@.len());
    assert("ExposureTime"@.len() != "LensMake"@.len());
    assert("ExposureTime"@.len() != "LensModel"@.len());
    assert("ExposureTime"@.len() != "CameraLabel"@.len());
    assert("ExposureTime"@.len() != "UserComment"@.len());
    assert("ExposureTime"@.len() != "Keywords"@.len());
    assert("MaxAperture"@[0] != "FocalLength"@[0]);
    assert("MaxAperture"@.len() != "LensMake"@.len());
    assert("MaxAperture"@.len() != "LensModel"@.len());
    assert("MaxAperture"@[0] != "CameraLabel"@[0]);
    assert("MaxAperture"@[0] != "UserComment"@[0]);
    assert("MaxAperture"@.len() != "Keywords"@.len());
    assert("FocalLength"@.len() != "LensMake"@.len());
    assert("FocalLength"@.len() != "LensModel"@.len());
    assert("FocalLength"@[0] != "CameraLabel"@[0]);
    assert("FocalLength"@[0] != "UserComment"@[0]);
    assert("FocalLength"@.len() != "Keywords"@.len());
    assert("LensMake"@.len() != "LensModel"@.len());
    assert("LensMake"@.len() != "CameraLabel"@.len());
    assert("LensMake"@.len() != "UserComment"@.len());
    assert("LensMake"@[0] != "Keywords"@[0]);
    assert("LensModel"@.len() != "CameraLabel"@.len());
    assert("LensModel"@.len() != "UserComment"@.len());
    assert("LensModel"@.len() != "Keywords"@.len());
    assert("CameraLabel"@[0] != "UserComment"@[0]);
    assert("CameraLabel"@.len() != "Keywords"@.len());
    assert("UserComment"@.len() != "Keywords"@.len());
    assert("Exif.Photo.DateTimeOriginal"@.len() != "Exif.GPSInfo.GPSLatitude"@.len());
    assert("Exif.Photo.DateTimeOriginal"@.len() != "Exif.GPSInfo.GPSLongitude"@.len());
    assert("Exif.Photo.DateTimeOriginal"@.len() != "Exif.GPSInfo.GPSHPositioningError"@.len());
    assert("Exif.Photo.DateTimeOriginal"@.len() != "Xmp.photoshop.Country"@.len());
    assert("Exif.Photo.DateTimeOriginal"@.len() != "Xmp.photoshop.State"@.len());
    assert("Exif.Photo.DateTimeOriginal"@.len() != "Exif.Photo.FNumber"@.len());
    assert("Exif.Photo.DateTimeOriginal"@.len() != "Exif.Photo.ExposureTime"@.len());
    assert("Exif.Photo.DateTimeOriginal"@[5] != "Exif.Image.MaxApertureValue"@[5]);
    assert("Exif.Photo.DateTimeOriginal"@.len() != "Exif.Photo.FocalLength"@.len());
    assert("Exif.Photo.DateTimeOriginal"@.len() != "Xmp.exifEX.LensMake"@.len());
    assert("Exif.Photo.DateTimeOriginal"@.len() != "Xmp.exifEX.LensModel"@.len());
    assert("Exif.Photo.DateTimeOriginal"@.len() != "Xmp.xmpDM.cameraLabel"@.len());
    assert("Exif.Photo.DateTimeOriginal"@.len() != "Exif.Photo.UserComment"@.len());
    assert("Exif.Photo.DateTimeOriginal"@.len() != "Iptc.Application2.Keywords"@.len());
    assert("Exif.GPSInfo.GPSLatitude"@.len() != "Exif.GPSInfo.GPSLongitude"@.len());
    assert("Exif.GPSInfo.GPSLatitude"@.len() != "Exif.GPSInfo.GPSHPositioningError"@.len());
    assert("Exif.GPSInfo.GPSLatitude"@.len() != "Xmp.photoshop.Country"@.len());
    assert("Exif.GPSInfo.GPSLatitude"@.len() != "Xmp.photoshop.State"@.len());
    assert("Exif.GPSInfo.GPSLatitude"@.len() != "Exif.Photo.FNumber"@.len());
    assert("Exif.GPSInfo.GPSLatitude"@.len() != "Exif.Photo.ExposureTime"@.len());
    assert("Exif.GPSInfo.GPSLatitude"@.len() != "Exif.Image.MaxApertureValue"@.len());
    assert("Exif.GPSInfo.GPSLatitude"@.len() != "Exif.Photo.FocalLength"@.len());
    assert("Exif.GPSInfo.GPSLatitude"@.len() != "Xmp.exifEX.LensMake"@.len());
    assert("Exif.GPSInfo.GPSLatitude"@.len() != "Xmp.exifEX.LensModel"@.len());
    assert("Exif.GPSInfo.GPSLatitude"@.len() != "Xmp.xmpDM.cameraLabel"@.len());
    assert("Exif.GPSInfo.GPSLatitude"@.len() != "Exif.Photo.UserComment"@.len());
    assert("Exif.GPSInfo.GPSLatitude"@.len() != "Iptc.Application2.Keywords"@.len());
    assert("Exif.GPSInfo.GPSLongitude"@.len() != "Exif.GPSInfo.GPSHPositioningError"@.len());
    assert("Exif.GPSInfo.GPSLongitude"@.len() != "Xmp.photoshop.Country"@.len());
    assert("Exif.GPSInfo.GPSLongitude"@.len() != "Xmp.photoshop.State"@.len());
    assert("Exif.GPSInfo.GPSLongitude"@.len() != "Exif.Photo.FNumber"@.len());
    assert("Exif.GPSInfo.GPSLongitude"@.len() != "Exif.Photo.ExposureTime"@.len());
    assert("Exif.GPSInfo.GPSLongitude"@.len() != "Exif.Image.MaxApertureValue"@.len());
    assert("Exif.GPSInfo.GPSLongitude"@.len() != "Exif.Photo.FocalLength"@.len());
    assert("Exif.GPSInfo.GPSLongitude"@.len() != "Xmp.exifEX.LensMake"@.len());
    assert("Exif.GPSInfo.GPSLongitude"@.len() != "Xmp.exifEX.LensModel"@.len());
    assert("Exif.GPSInfo.GPSLongitude"@.len() != "Xmp.xmpDM.cameraLabel"@.len());
    assert("Exif.GPSInfo.GPSLongitude"@.len() != "Exif.Photo.UserComment"@.len());
    assert("Exif.GPSInfo.GPSLongitude"@.len() != "Iptc.Application2.Keywords"@.len());
    assert("Exif.GPSInfo.GPSHPositioningError"@.len() != "Xmp.photoshop.Country"@.len());
    assert("Exif.GPSInfo.GPSHPositioningError"@.len() != "Xmp.photoshop.State"@.len());
    assert("Exif.GPSInfo.GPSHPositioningError"@.len() != "Exif.Photo.FNumber"@.len());
    assert("Exif.GPSInfo.GPSHPositioningError"@.len() != "Exif.Photo.ExposureTime"@.len());
    assert("Exif.GPSInfo.GPSHPositioningError"@.len() != "Exif.Image.MaxApertureValue"@.len());
    assert("Exif.GPSInfo.GPSHPositioningError"@.len() != "Exif.Photo.FocalLength"@.len());
    assert("Exif.GPSInfo.GPSHPositioningError"@.len() != "Xmp.exifEX.LensMake"@.len());
    assert("Exif.GPSInfo.GPSHPositioningError"@.len() != "Xmp.exifEX.LensModel"@.len());
    assert("Exif.GPSInfo.GPSHPositioningError"@.len() != "Xmp.xmpDM.cameraLabel"@.len());
    assert("Exif.GPSInfo.GPSHPositioningError"@.len() != "Exif.Photo.UserComment"@.len());
    assert("Exif.GPSInfo.GPSHPositioningError"@.len() != "Iptc.Application2.Keywords"@.len());
    assert("Xmp.photoshop.Country"@.len() != "Xmp.photoshop.State"@.len());
    assert("Xmp.photoshop.Country"@.len() != "Exif.Photo.FNumber"@.len());
    assert("Xmp.photoshop.Country"@.len() != "Exif.Photo.ExposureTime"@.len());
    assert("Xmp.photoshop.Country"@.len() != "Exif.Image.MaxApertureValue"@.len());
    assert("Xmp.photoshop.Country"@.len() != "Exif.Photo.FocalLength"@.len());
    assert("Xmp.photoshop.Country"@.len() != "Xmp.exifEX.LensMake"@.len());
    assert("Xmp.photoshop.Country"@.len() != "Xmp.exifEX.LensModel"@.len());
    assert("Xmp.photoshop.Country"@[4] != "Xmp.xmpDM.cameraLabel"@[4]);
    assert("Xmp.photoshop.Country"@.len() != "Exif.Photo.UserComment"@.len());
    assert("Xmp.photoshop.Country"@.len() != "Iptc.Application2.Keywords"@.len());
    assert("Xmp.photoshop.State"@.len() != "Exif.Photo.FNumber"@.len());
    assert("Xmp.photoshop.State"@.len() != "Exif.Photo.ExposureTime"@.len());
    assert("Xmp.photoshop.State"@.len() != "Exif.Image.MaxApertureValue"@.len());
    assert("Xmp.photoshop.State"@.len() != "Exif.Photo.FocalLength"@.len());
    assert("Xmp.photoshop.State"@[4] != "Xmp.exifEX.LensMake"@[4]);
    assert("Xmp.photoshop.State"@.len() != "Xmp.exifEX.LensModel"@.len());
    assert("Xmp.photoshop.State"@.len() != "Xmp.xmpDM.cameraLabel"@.len());
    assert("Xmp.photoshop.State"@.len() != "Exif.Photo.UserComment"@.len());
    assert("Xmp.photoshop.State"@.len() != "Iptc.Application2.Keywords"@.len());
    assert("Exif.Photo.FNumber"@.len() != "Exif.Photo.ExposureTime"@.len());
    assert("Exif.Photo.FNumber"@.len() != "Exif.Image.MaxApertureValue"@.len());
    assert("Exif.Photo.FNumber"@.len() != "Exif.Photo.FocalLength"@.len());
    assert("Exif.Photo.FNumber"@.len() != "Xmp.exifEX.LensMake"@.len());
    assert("Exif.Photo.FNumber"@.len() != "Xmp.exifEX.LensModel"@.len());
    assert("Exif.Photo.FNumber"@.len() != "Xmp.xmpDM.cameraLabel"@.len());
    assert("Exif.Photo.FNumber"@.len() != "Exif.Photo.UserComment"@.len());
    assert("Exif.Photo.FNumber"@.len() != "Iptc.Application2.Keywords"@.len());
    assert("Exif.Photo.ExposureTime"@.len() != "Exif.Image.MaxApertureValue"@.len());
    assert("Exif.Photo.ExposureTime"@.len() != "Exif.Photo.FocalLength"@.len());
    assert("Exif.Photo.ExposureTime"@.len() != "Xmp.exifEX.LensMake"@.len());
    assert("Exif.Photo.ExposureTime"@.len() != "Xmp.exifEX.LensModel"@.len());
    assert("Exif.Photo.ExposureTime"@.len() != "Xmp.xmpDM.cameraLabel"@.len());
    assert("Exif.Photo.ExposureTime"@.len() != "Exif.Photo.UserComment"@.len());
    assert("Exif.Photo.ExposureTime"@.len() != "Iptc.Application2.Keywords"@.len());
    assert("Exif.Image.MaxApertureValue"@.len() != "Exif.Photo.FocalLength"@.len());
    assert("Exif.Image.MaxApertureValue"@.len() != "Xmp.exifEX.LensMake"@.len());
    assert("Exif.Image.MaxApertureValue"@.len() != "Xmp.exifEX.LensModel"@.len());
    assert("Exif.Image.MaxApertureValue"@.len() != "Xmp.xmpDM.cameraLabel"@.len());
    assert("Exif.Image.MaxApertureValue"@.len() != "Exif.Photo.UserComment"@.len());
    assert("Exif.Image.MaxApertureValue"@.len() != "Iptc.Application2.Keywords"@.len());
    assert("Exif.Photo.FocalLength"@.len() != "Xmp.exifEX.LensMake"@.len());
    assert("Exif.Photo.FocalLength"@.len() != "Xmp.exifEX.LensModel"@.len());
    assert("Exif.Photo.FocalLength"@.len() != "Xmp.xmpDM.cameraLabel"@.len());
    assert("Exif.Photo.FocalLength"@[11] != "Exif.Photo.UserComment"@[11]);
    assert("Exif.Photo.FocalLength"@.len() != "Iptc.Application2.Keywords"@.len());
    assert("Xmp.exifEX.LensMake"@.len() != "Xmp.exifEX.LensModel"@.len());
    assert("Xmp.exifEX.LensMake"@.len() != "Xmp.xmpDM.cameraLabel"@.len());
    assert("Xmp.exifEX.LensMake"@.len() != "Exif.Photo.UserComment"@.len());
    assert("Xmp.exifEX.LensMake"@.len() != "Iptc.Application2.Keywords"@.len());
    assert("Xmp.exifEX.LensModel"@.len() != "Xmp.xmpDM.cameraLabel"@.len());
    assert("Xmp.exifEX.LensModel"@.len() != "Exif.Photo.UserComment"@.len());
    assert("Xmp.exifEX.LensModel"@.len() != "Iptc.Application2.Keywords"@.len());
    assert("Xmp.xmpDM.cameraLabel"@.len() != "Exif.Photo.UserComment"@.len());
    assert("Xmp.xmpDM.cameraLabel"@.len() != "Iptc.Application2.Keywords"@.len());
    assert("Exif.Photo.UserComment"@.len() != "Iptc.Application2.Keywords"@.len());
}

/// Tags that are not written one by one but combined into other tags.
pub open spec fn is_special_cased(n: Seq<char>) -> bool {
    ||| n == "MinFocalLength"@
    ||| n == "MaxFocalLength"@
    ||| n == "MaxApertureAtMinFocal"@
    ||| n == "MaxApertureAtMaxFocal"@
    ||| n == "GPSLatitude"@
    ||| n == "GPSLongitude"@
}

pub fn special_cased_tag(name: &str) -> (r: bool)
    ensures
        r == is_special_cased(name@),
{
    str_eq(name, "MinFocalLength") || str_eq(name, "MaxFocalLength") || str_eq(
        name,
        "MaxApertureAtMinFocal",
    ) || str_eq(name, "MaxApertureAtMaxFocal") || str_eq(name, "GPSLatitude") || str_eq(
        name,
        "GPSLongitude",
    )
}

// ---------------------------------------------------------------------------
// The argument list of an `exiftool` run
// ---------------------------------------------------------------------------

/// `-NAME=VALUE`.
pub open spec fn arg_text(name: Seq<char>, v: Seq<char>) -> Seq<char> {
    seq!['-'] + name + seq!['='] + v
}

/// How `num::rational::Ratio` prints: the numerator alone when the
/// denominator is one, else `numer/denom`.
pub open spec fn ratio_text(n: i32, d: i32) -> Seq<char> {
    if d == 1 {
        signed_text(n as int)
    } else {
        signed_text(n as int) + seq!['/'] + signed_text(d as int)
    }
}

/// The arguments for one tag; `float_text` is how its value prints when the
/// value is a float.
pub open spec fn tag_args(t: ExifTagView, float_text: Seq<char>) -> Seq<Seq<char>> {
    match t.value {
        TagValueView::Str(v) => seq![arg_text(t.name, v)],
        TagValueView::Numeric(n) => seq![arg_text(t.name, signed_text(n as int))],
        TagValueView::Rational(n, d) => seq![arg_text(t.name, ratio_text(n, d))],
        TagValueView::Float(_) => seq![arg_text(t.name, float_text)],
        TagValueView::List(l) => l.map_values(|e: Seq<char>| arg_text(t.name, e)),
    }
}

pub open spec fn all_tag_args(tags: Seq<ExifTagView>, floats: Seq<Seq<char>>) -> Seq<Seq<char>>
    decreases tags.len(),
{
    if tags.len() == 0 {
        seq![]
    } else {
        all_tag_args(tags.drop_last(), floats.take(tags.len() - 1)) + tag_args(
            tags.last(),
            floats[tags.len() - 1],
        )
    }
}

/// The arguments of an `exiftool` run: verbosity, in-place flag, one
/// argument per tag value, and the file.
pub open spec fn exiftool_args(
    tags: Seq<ExifTagView>,
    floats: Seq<Seq<char>>,
    inplace: bool,
    debug: bool,
    path: Seq<char>,
) -> Seq<Seq<char>> {
    seq![if debug { "-v4"@ } else { "-q"@ }] + (if inplace {
        seq!["-overwrite_original_in_place"@]
    } else {
        Seq::<Seq<char>>::empty()
    }) + all_tag_args(tags, floats) + seq![path]
}

fn arg_chars(name: &String, v: &Vec<char>) -> (r: Vec<char>)
    ensures
        r@ == arg_text(name@, v@),
{
    let mut r: Vec<char> = Vec::new();
    r.push('-');
    let n = chars_of(name.as_str());
    append_chars(&mut r, &n);
    r.push('=');
    append_chars(&mut r, v);
    assert(r@ =~= arg_text(name@, v@));
    r
}

fn ratio_chars(q: &Rational) -> (r: Vec<char>)
    ensures
        r@ == ratio_text(q.numer, q.denom),
{
    let mut r: Vec<char> = Vec::new();
    push_signed(&mut r, q.numer as i64);
    if q.denom != 1 {
        r.push('/');
        push_signed(&mut r, q.denom as i64);
    }
    assert(r@ =~= ratio_text(q.numer, q.denom));
    r
}

fn push_tag_args(args: &mut Vec<String>, t: &ExifTag, float_text: &String)
    ensures
        strings_view(final(args)@) == strings_view(old(args)@) + tag_args(t@, float_text@),
{
    let ghost start = strings_view(args@);
    match &t.value {
        TagValue::String(v) => {
            let a = arg_chars(&t.name, &chars_of(v.as_str()));
            args.push(string_of(&a));
        },
        TagValue::Numeric(n) => {
            let mut d: Vec<char> = Vec::new();
            push_signed(&mut d, *n as i64);
            let a = arg_chars(&t.name, &d);
            args.push(string_of(&a));
        },
        TagValue::Rational(q) => {
            let a = arg_chars(&t.name, &ratio_chars(q));
            args.push(string_of(&a));
        },
        TagValue::Float(_) => {
            let a = arg_chars(&t.name, &chars_of(float_text.as_str()));
            args.push(string_of(&a));
        },
        TagValue::List(l) => {
            let mut i: usize = 0;
            while i < l.len()
                invariant
                    i <= l.len(),
                    t.value == TagValue::List(*l),
                    strings_view(args@) == start + strings_view(l@).take(i as int).map_values(
                        |e: Seq<char>| arg_text(t.name@, e),
                    ),
                decreases l.len() - i,
            {
                let a = arg_chars(&t.name, &chars_of(l[i].as_str()));
                let ghost before = strings_view(args@);
                args.push(string_of(&a));
                i = i + 1;
                assert(strings_view(args@) =~= before.push(a@));
                assert(strings_view(l@).take(i as int).map_values(
                    |e: Seq<char>| arg_text(t.name@, e),
                ) =~= strings_view(l@).take(i - 1).map_values(
                    |e: Seq<char>| arg_text(t.name@, e),
                ).push(arg_text(t.name@, l@[i - 1]@)));
            }
            assert(strings_view(l@).take(l.len() as int) =~= strings_view(l@));
        },
    }
    assert(strings_view(args@) =~= start + tag_args(t@, float_text@));
}

/// The argument list for writing `exif_tags` to the file at `filepath` with
/// `exiftool`. `float_texts[i]` is how the value of the `i`-th tag prints
/// when that value is a float.
pub fn to_exiftool_cmd_line(
    filepath: &str,
    exif_tags: &Vec<ExifTag>,
    options: &ExifProcessorOptions,
    settings: &LogSettings,
    float_texts: &Vec<String>,
) -> (r: Vec<String>)
    requires
        float_texts.len() == exif_tags.len(),
    ensures
        strings_view(r@) == exiftool_args(
            tags_view(exif_tags@),
            strings_view(float_texts@),
            options.inplace,
            settings.level == LevelFilter::Debug,
            filepath@,
        ),
{
    let mut args: Vec<String> = Vec::new();
    if !is_log_level(settings, LevelFilter::Debug) {
        args.push(string_from_str("-q"));
    } else {
        args.push(string_from_str("-v4"));
    }
    if options.inplace {
        args.push(string_from_str("-overwrite_original_in_place"));
    }
    let ghost head = strings_view(args@);
    assert(head =~= seq![
        if settings.level == LevelFilter::Debug {
            "-v4"@
        } else {
            "-q"@
        },
    ] + (if options.inplace {
        seq!["-overwrite_original_in_place"@]
    } else {
        Seq::<Seq<char>>::empty()
    }));
    let mut i: usize = 0;
    while i < exif_tags.len()
        invariant
            i <= exif_tags.len(),
            float_texts.len() == exif_tags.len(),
            strings_view(args@) == head + all_tag_args(
                tags_view(exif_tags@).take(i as int),
                strings_view(float_texts@).take(i as int),
            ),
        decreases exif_tags.len() - i,
    {
        push_tag_args(&mut args, &exif_tags[i], &float_texts[i]);
        i = i + 1;
        proof {
            let tv = tags_view(exif_tags@).take(i as int);
            let fv = strings_view(float_texts@).take(i as int);
            assert(tv.drop_last() =~= tags_view(exif_tags@).take(i - 1));
            assert(fv.take(tv.len() - 1) =~= strings_view(float_texts@).take(i - 1));
            assert(tv.last() == exif_tags@[i - 1]@);
            assert(fv[tv.len() - 1] == float_texts@[i - 1]@);
        }
    }
    args.push(string_from_str(filepath));
    proof {
        assert(tags_view(exif_tags@).take(exif_tags.len() as int) =~= tags_view(exif_tags@));
        assert(strings_view(float_texts@).take(exif_tags.len() as int) =~= strings_view(
            float_texts@,
        ));
    }
    assert(strings_view(args@) =~= exiftool_args(
        tags_view(exif_tags@),
        strings_view(float_texts@),
        options.inplace,
        settings.level == LevelFilter::Debug,
        filepath@,
    ));
    args
}

// ---------------------------------------------------------------------------
// Operations on an exiv2 metadata object
// ---------------------------------------------------------------------------

/// One call on an exiv2 metadata object. A float is turned into the closest
/// fraction (`Ratio::approximate_float`) when the call is made.
#[derive(Debug, PartialEq)]
#[allow(inconsistent_fields)]
pub enum MetadataOp {
    SetTagString { tag: String, value: String },
    SetTagMultipleStrings { tag: String, values: Vec<String> },
    SetTagNumeric { tag: String, value: i32 },
    SetTagRational { tag: String, value: Rational },
    SetTagRationalFromFloat { tag: String, value: FloatValue },
    SetGpsInfo { latitude: FloatValue, longitude: FloatValue },
}

pub enum MetadataOpView {
    SetTagString(Seq<char>, Seq<char>),
    SetTagMultipleStrings(Seq<char>, Seq<Seq<char>>),
    SetTagNumeric(Seq<char>, i32),
    SetTagRational(Seq<char>, i32, i32),
    SetTagRationalFromFloat(Seq<char>, FloatView),
    SetGpsInfo(FloatView, FloatView),
}

impl View for MetadataOp {
    type V = MetadataOpView;

    open spec fn view(&self) -> MetadataOpView {
        match self {
            MetadataOp::SetTagString { tag, value } => MetadataOpView::SetTagString(tag@, value@),
            MetadataOp::SetTagMultipleStrings { tag, values } => MetadataOpView::SetTagMultipleStrings(
                tag@,
                strings_view(values@),
            ),
            MetadataOp::SetTagNumeric { tag, value } => MetadataOpView::SetTagNumeric(tag@, *value),
            MetadataOp::SetTagRational { tag, value } => MetadataOpView::SetTagRational(
                tag@,
                value.numer,
                value.denom,
            ),
            MetadataOp::SetTagRationalFromFloat { tag, value } =>
                MetadataOpView::SetTagRationalFromFloat(tag@, value@),
            MetadataOp::SetGpsInfo { latitude, longitude } => MetadataOpView::SetGpsInfo(
                latitude@,
                longitude@,
            ),
        }
    }
}

pub open spec fn ops_view(v: Seq<MetadataOp>) -> Seq<MetadataOpView> {
    v.map_values(|o: MetadataOp| o@)
}

/// The call that writes one tag, under its exiv2 name.
pub open spec fn op_for_tag(t: ExifTagView) -> MetadataOpView {
    let key = exiv_name(t.name);
    match t.value {
        TagValueView::Str(v) => MetadataOpView::SetTagString(key, v),
        TagValueView::Numeric(n) => MetadataOpView::SetTagNumeric(key, n),
        TagValueView::Rational(n, d) => MetadataOpView::SetTagRational(key, n, d),
        TagValueView::Float(f) => MetadataOpView::SetTagRationalFromFloat(key, f),
        TagValueView::List(l) => MetadataOpView::SetTagMultipleStrings(key, l),
    }
}

pub fn apply_exif_tag(tag: &ExifTag) -> (r: MetadataOp)
    ensures
        r@ == op_for_tag(tag@),
{
    let key = string_from_str(translate_tag_to_exiv(tag.name.as_str()));
    match &tag.value {
        TagValue::String(v) => MetadataOp::SetTagString { tag: key, value: v.clone() },
        TagValue::Numeric(n) => MetadataOp::SetTagNumeric { tag: key, value: *n },
        TagValue::Rational(q) => MetadataOp::SetTagRational { tag: key, value: *q },
        TagValue::Float(f) => MetadataOp::SetTagRationalFromFloat {
            tag: key,
            value: clone_float(f),
        },
        TagValue::List(l) => MetadataOp::SetTagMultipleStrings {
            tag: key,
            values: clone_strings(l),
        },
    }
}

/// The value of the last tag named `name`.
pub open spec fn last_value(tags: Seq<ExifTagView>, name: Seq<char>) -> Option<TagValueView>
    decreases tags.len(),
{
    if tags.len() == 0 {
        None
    } else if tags.last().name == name {
        Some(tags.last().value)
    } else {
        last_value(tags.drop_last(), name)
    }
}

pub open spec fn is_lens_part(n: Seq<char>) -> bool {
    ||| n == "MinFocalLength"@
    ||| n == "MaxFocalLength"@
    ||| n == "MaxApertureAtMinFocal"@
    ||| n == "MaxApertureAtMaxFocal"@
}

pub open spec fn is_gps_part(n: Seq<char>) -> bool {
    n == "GPSLatitude"@ || n == "GPSLongitude"@
}

/// The lens parts hold texts and the coordinates hold floats: the
/// combining step stops on any other value.
pub open spec fn special_tags_well_typed(tags: Seq<ExifTagView>) -> bool {
    forall|i: int|
        0 <= i < tags.len() ==> {
            &&& is_lens_part(#[trigger] tags[i].name) ==> tags[i].value is Str
            &&& is_gps_part(tags[i].name) ==> tags[i].value is Float
        }
}

/// Whether the lens parts hold texts and the coordinates hold floats.
pub fn special_tags_checked(exif_tags: &Vec<ExifTag>) -> (r: bool)
    ensures
        r == special_tags_well_typed(tags_view(exif_tags@)),
{
    let ghost tv = tags_view(exif_tags@);
    let mut i: usize = 0;
    while i < exif_tags.len()
        invariant
            i <= exif_tags.len(),
            tv == tags_view(exif_tags@),
            forall|k: int|
                0 <= k < i ==> {
                    &&& is_lens_part(#[trigger] tv[k].name) ==> tv[k].value is Str
                    &&& is_gps_part(tv[k].name) ==> tv[k].value is Float
                },
        decreases exif_tags.len() - i,
    {
        let t = &exif_tags[i];
        assert(tv[i as int] == t@);
        let name = t.name.as_str();
        let lens_part = str_eq(name, "MinFocalLength") || str_eq(name, "MaxFocalLength") || str_eq(
            name,
            "MaxApertureAtMinFocal",
        ) || str_eq(name, "MaxApertureAtMaxFocal");
        let gps_part = str_eq(name, "GPSLatitude") || str_eq(name, "GPSLongitude");
        let is_text = match &t.value {
            TagValue::String(_) => true,
            _ => false,
        };
        let is_float = match &t.value {
            TagValue::Float(_) => true,
            _ => false,
        };
        assert(lens_part == is_lens_part(tv[i as int].name));
        assert(gps_part == is_gps_part(tv[i as int].name));
        assert(is_text == tv[i as int].value is Str);
        assert(is_float == tv[i as int].value is Float);
        if (lens_part && !is_text) || (gps_part && !is_float) {
            assert(!special_tags_well_typed(tv));
            return false;
        }
        i = i + 1;
    }
    true
}

/// The calls for the combined tags: the lens specification when all four
/// lens parts are present, then the position when both coordinates are.
pub open spec fn special_ops(tags: Seq<ExifTagView>) -> Seq<MetadataOpView> {
    let lens = match (
        last_value(tags, "MinFocalLength"@),
        last_value(tags, "MaxFocalLength"@),
        last_value(tags, "MaxApertureAtMinFocal"@),
        last_value(tags, "MaxApertureAtMaxFocal"@),
    ) {
        (
            Some(TagValueView::Str(a)),
            Some(TagValueView::Str(b)),
            Some(TagValueView::Str(c)),
            Some(TagValueView::Str(d)),
        ) => seq![
            op_for_tag(
                ExifTagView {
                    name: "Exif.Photo.LensSpecification"@,
                    value: TagValueView::List(seq![a, b, c, d]),
                },
            ),
        ],
        _ => Seq::<MetadataOpView>::empty(),
    };
    let gps = match (last_value(tags, "GPSLatitude"@), last_value(tags, "GPSLongitude"@)) {
        (Some(TagValueView::Float(lat)), Some(TagValueView::Float(lon))) => seq![
            MetadataOpView::SetGpsInfo(lat, lon),
        ],
        _ => Seq::<MetadataOpView>::empty(),
    };
    lens + gps
}

spec fn as_index(o: Option<int>) -> Option<usize> {
    match o {
        None => None,
        Some(k) => Some(k as usize),
    }
}

/// Index of the last tag named `name` among the first `n` tags.
spec fn last_index(tags: Seq<ExifTagView>, name: Seq<char>, n: int) -> Option<int>
    decreases n,
{
    if n <= 0 {
        None
    } else if tags[n - 1].name == name {
        Some(n - 1)
    } else {
        last_index(tags, name, n - 1)
    }
}

proof fn lemma_last_index(tags: Seq<ExifTagView>, name: Seq<char>, n: int)
    requires
        0 <= n <= tags.len(),
    ensures
        match last_index(tags, name, n) {
            None => last_value(tags.take(n), name) is None,
            Some(k) => 0 <= k < n && tags[k].name == name && last_value(tags.take(n), name) == Some(
                tags[k].value,
            ),
        },
    decreases n,
{
    if n > 0 {
        assert(tags.take(n).drop_last() =~= tags.take(n - 1));
        lemma_last_index(tags, name, n - 1);
    }
}

fn update_last(
    found: Option<usize>,
    tags: &Vec<ExifTag>,
    i: usize,
    name: &str,
) -> (r: Option<usize>)
    requires
        i < tags.len(),
        found == as_index(last_index(tags_view(tags@), name@, i as int)),
    ensures
        r == as_index(last_index(tags_view(tags@), name@, i + 1)),
{
    if str_eq(tags[i].name.as_str(), name) {
        Some(i)
    } else {
        found
    }
}

fn string_at(tags: &Vec<ExifTag>, k: Option<usize>) -> (r: Option<String>)
    requires
        k matches Some(j) ==> j < tags.len() && tags@[j as int].value is String,
    ensures
        k is None ==> r is None,
        k matches Some(j) ==> r matches Some(s) && TagValueView::Str(s@) == tags@[j as int].value@,
{
    match k {
        None => None,
        Some(j) => match &tags[j].value {
            TagValue::String(s) => Some(s.clone()),
            _ => None,
        },
    }
}

fn float_at(tags: &Vec<ExifTag>, k: Option<usize>) -> (r: Option<FloatValue>)
    requires
        k matches Some(j) ==> j < tags.len() && tags@[j as int].value is Float,
    ensures
        k is None ==> r is None,
        k matches Some(j) ==> r matches Some(f) && TagValueView::Float(f@)
            == tags@[j as int].value@,
{
    match k {
        None => None,
        Some(j) => match &tags[j].value {
            TagValue::Float(f) => Some(clone_float(f)),
            _ => None,
        },
    }
}

/// The calls that combine the lens parts into a lens specification and the
/// coordinates into a position.
pub fn handle_special_case_tags(exif_tags: &Vec<ExifTag>) -> (r: Vec<MetadataOp>)
    requires
        special_tags_well_typed(tags_view(exif_tags@)),
    ensures
        ops_view(r@) == special_ops(tags_view(exif_tags@)),
{
    let ghost tv = tags_view(exif_tags@);
    let mut min_focal: Option<usize> = None;
    let mut max_focal: Option<usize> = None;
    let mut aperture_min: Option<usize> = None;
    let mut aperture_max: Option<usize> = None;
    let mut latitude: Option<usize> = None;
    let mut longitude: Option<usize> = None;
    let mut i: usize = 0;
    while i < exif_tags.len()
        invariant
            i <= exif_tags.len(),
            tv == tags_view(exif_tags@),
            min_focal == as_index(last_index(tv, "MinFocalLength"@, i as int)),
            max_focal == as_index(last_index(tv, "MaxFocalLength"@, i as int)),
            aperture_min == as_index(last_index(tv, "MaxApertureAtMinFocal"@, i as int)),
            aperture_max == as_index(last_index(tv, "MaxApertureAtMaxFocal"@, i as int)),
            latitude == as_index(last_index(tv, "GPSLatitude"@, i as int)),
            longitude == as_index(last_index(tv, "GPSLongitude"@, i as int)),
        decreases exif_tags.len() - i,
    {
        min_focal = update_last(min_focal, exif_tags, i, "MinFocalLength");
        max_focal = update_last(max_focal, exif_tags, i, "MaxFocalLength");
        aperture_min = update_last(aperture_min, exif_tags, i, "MaxApertureAtMinFocal");
        aperture_max = update_last(aperture_max, exif_tags, i, "MaxApertureAtMaxFocal");
        latitude = update_last(latitude, exif_tags, i, "GPSLatitude");
        longitude = update_last(longitude, exif_tags, i, "GPSLongitude");
        i = i + 1;
    }
    let ghost n = exif_tags.len() as int;
    proof {
        assert(tv.take(n) =~= tv);
        lemma_last_index(tv, "MinFocalLength"@, n);
        lemma_last_index(tv, "MaxFocalLength"@, n);
        lemma_last_index(tv, "MaxApertureAtMinFocal"@, n);
        lemma_last_index(tv, "MaxApertureAtMaxFocal"@, n);
        lemma_last_index(tv, "GPSLatitude"@, n);
        lemma_last_index(tv, "GPSLongitude"@, n);
        reveal_last_index_types(tv, n);
    }
    let mut ops: Vec<MetadataOp> = Vec::new();
    let a = string_at(exif_tags, min_focal);
    let b = string_at(exif_tags, max_focal);
    let c = string_at(exif_tags, aperture_min);
    let d = string_at(exif_tags, aperture_max);
    match (a, b, c, d) {
        (Some(a), Some(b), Some(c), Some(d)) => {
            let mut parts: Vec<String> = Vec::new();
            parts.push(a);
            parts.push(b);
            parts.push(c);
            parts.push(d);
            let lens_spec_tag = parts.to_exif_tag("Exif.Photo.LensSpecification");
            assert(strings_view(parts@) =~= seq![a@, b@, c@, d@]);
            ops.push(apply_exif_tag(&lens_spec_tag));
        },
        _ => {},
    }
    let lat = float_at(exif_tags, latitude);
    let lon = float_at(exif_tags, longitude);
    match (lat, lon) {
        (Some(lat), Some(lon)) => {
            ops.push(MetadataOp::SetGpsInfo { latitude: lat, longitude: lon });
        },
        _ => {},
    }
    assert(ops_view(ops@) =~= special_ops(tv));
    ops
}

proof fn reveal_last_index_types(tv: Seq<ExifTagView>, n: int)
    requires
        special_tags_well_typed(tv),
        n == tv.len(),
    ensures
        last_index(tv, "MinFocalLength"@, n) matches Some(k) ==> tv[k].value is Str,
        last_index(tv, "MaxFocalLength"@, n) matches Some(k) ==> tv[k].value is Str,
        last_index(tv, "MaxApertureAtMinFocal"@, n) matches Some(k) ==> tv[k].value is Str,
        last_index(tv, "MaxApertureAtMaxFocal"@, n) matches Some(k) ==> tv[k].value is Str,
        last_index(tv, "GPSLatitude"@, n) matches Some(k) ==> tv[k].value is Float,
        last_index(tv, "GPSLongitude"@, n) matches Some(k) ==> tv[k].value is Float,
{
    lemma_last_index(tv, "MinFocalLength"@, n);
    lemma_last_index(tv, "MaxFocalLength"@, n);
    lemma_last_index(tv, "MaxApertureAtMinFocal"@, n);
    lemma_last_index(tv, "MaxApertureAtMaxFocal"@, n);
    lemma_last_index(tv, "GPSLatitude"@, n);
    lemma_last_index(tv, "GPSLongitude"@, n);
}

/// The calls for the tags that are written one by one.
pub open spec fn regular_ops(tags: Seq<ExifTagView>) -> Seq<MetadataOpView>
    decreases tags.len(),
{
    if tags.len() == 0 {
        seq![]
    } else if is_special_cased(tags.last().name) {
        regular_ops(tags.drop_last())
    } else {
        regular_ops(tags.drop_last()).push(op_for_tag(tags.last()))
    }
}

/// The calls that write `exif_tags` to a scan: the combined tags first,
/// then every tag that is not part of a combined one, in order.
pub fn write_out_exif_ops(exif_tags: &Vec<ExifTag>) -> (r: Vec<MetadataOp>)
    requires
        special_tags_well_typed(tags_view(exif_tags@)),
    ensures
        ops_view(r@) == special_ops(tags_view(exif_tags@)) + regular_ops(tags_view(exif_tags@)),
{
    let mut ops = handle_special_case_tags(exif_tags);
    let ghost head = ops_view(ops@);
    let mut i: usize = 0;
    while i < exif_tags.len()
        invariant
            i <= exif_tags.len(),
            ops_view(ops@) == head + regular_ops(tags_view(exif_tags@).take(i as int)),
        decreases exif_tags.len() - i,
    {
        let ghost before = ops_view(ops@);
        if !special_cased_tag(exif_tags[i].name.as_str()) {
            ops.push(apply_exif_tag(&exif_tags[i]));
            assert(ops_view(ops@) =~= before.push(op_for_tag(exif_tags@[i as int]@)));
        }
        i = i + 1;
        assert(tags_view(exif_tags@).take(i as int).drop_last() =~= tags_view(exif_tags@).take(
            i - 1,
        ));
    }
    assert(tags_view(exif_tags@).take(exif_tags.len() as int) =~= tags_view(exif_tags@));
    ops
}

} // verus!
