//! The journal export and the entries made of it: leaders that start a roll
//! of film and frames that describe one exposure, with the EXIF tags that a
//! frame's scan receives.

use vstd::prelude::*;

use crate::camera_profiles::{
    camera_map, pairs_view, CameraEntryView, CameraLensProfile, CameraProfileMap, CameraProfileMapEntry, LensProfile, LensView,
};
use crate::exif::{
    clone_tag, string_tag, tags_view, ExifTag, ExifTagTrait, ExifTagView, FloatValue, FloatView,
    TagValue, TagValueView,
};
use crate::journal::{
    extract_emulsion_name_from_leader_text, focal_digits, focal_length_digits, is_shutter_tag,
    leader_emulsion, lowercase, lowercase_chars, replace_all, replace_chars, shutter_tag,
};
use crate::text::{
    all_ascii_digits, append_chars, append_str, chars_eq, chars_of, chars_parse_as_float,
    clone_strings, decimal_text, decimal_value, lines, lines_of, nth_word, nth_word_span,
    parse_u32_chars, parses_as_float, parses_as_u32, push_decimal, sort_strings, starts_with_str,
    str_eq, str_order, string_from_str, string_of, strings_view, sub_chars, unsigned_digits,
};
use crate::time::{
    format_date, local_compact_date, local_exif_datetime, instant_after, instant_max, instant_min, local_offset_now,
    minutes_between, named_zone_offset, zone_offset_at, InstantView, Timestamp,
};

verus! {

// ---------------------------------------------------------------------------
// Errors
// ---------------------------------------------------------------------------

#[verifier::external_type_specification]
#[verifier::external_body]
pub struct ExIoError(std::io::Error);

#[verifier::external_type_specification]
#[verifier::external_body]
pub struct ExZipError(zip::result::ZipError);

#[verifier::external_type_specification]
#[verifier::external_body]
pub struct ExJsonError(serde_json::Error);

#[verifier::external_type_specification]
#[verifier::external_body]
pub struct ExYamlError(serde_yaml::Error);

/// Why an export or a profile file could not be read.
#[derive(Debug)]
pub enum MetadataReadError {
    FileError(std::io::Error),
    ZipFileError(zip::result::ZipError),
    JsonError(serde_json::Error),
    YamlError(serde_yaml::Error),
    InvalidVersionError(String),
}

/// Why a roll's archive could not be written.
#[derive(Debug)]
pub enum MetadataWriteError {
    FileError(std::io::Error),
    ZipFileError(zip::result::ZipError),
    JsonError(serde_json::Error),
    YamlError(serde_yaml::Error),
    InvalidVersionError(String),
}

// ---------------------------------------------------------------------------
// The export
// ---------------------------------------------------------------------------

pub open spec fn opt_view(o: Option<String>) -> Option<Seq<char>> {
    match o {
        None => None,
        Some(s) => Some(s@),
    }
}

pub fn clone_opt_string(o: &Option<String>) -> (r: Option<String>)
    ensures
        opt_view(r) == opt_view(*o),
{
    match o {
        None => None,
        Some(s) => Some(s.clone()),
    }
}

pub struct DayOneExportMetadata {
    pub version: String,
}

/// A position; each coordinate as the bit pattern of an `f64`.
#[derive(Clone, Copy, Debug, PartialEq, Eq, Structural)]
pub struct LongLat {
    pub longitude: u64,
    pub latitude: u64,
}

/// Where an entry was written: a centre and the radius (the bit pattern of
/// an `f32`) of the uncertainty around it.
#[derive(Clone, Copy, Debug, PartialEq, Eq, Structural)]
pub struct DayOneRegion {
    pub center: LongLat,
    pub radius: u32,
}

/// The weather of an entry: sunrise and sunset of its day, and the other
/// fields of the export as JSON text.
#[derive(Debug)]
pub struct DayOneWeather {
    pub sunrise_date: Timestamp,
    pub sunset_date: Timestamp,
    pub other: String,
}

pub struct WeatherView {
    pub sunrise: InstantView,
    pub sunset: InstantView,
    pub other: Seq<char>,
}

impl View for DayOneWeather {
    type V = WeatherView;

    open spec fn view(&self) -> WeatherView {
        WeatherView {
            sunrise: self.sunrise_date@,
            sunset: self.sunset_date@,
            other: self.other@,
        }
    }
}

/// The place of an entry; the other fields of the export as JSON text.
#[derive(Debug)]
pub struct DayOneLocation {
    pub region: Option<DayOneRegion>,
    pub country: Option<String>,
    pub administrative_area: Option<String>,
    pub time_zone_name: Option<String>,
    pub other: String,
}

pub struct LocationView {
    pub region: Option<DayOneRegion>,
    pub country: Option<Seq<char>>,
    pub administrative_area: Option<Seq<char>>,
    pub time_zone_name: Option<Seq<char>>,
    pub other: Seq<char>,
}

impl View for DayOneLocation {
    type V = LocationView;

    open spec fn view(&self) -> LocationView {
        LocationView {
            region: self.region,
            country: opt_view(self.country),
            administrative_area: opt_view(self.administrative_area),
            time_zone_name: opt_view(self.time_zone_name),
            other: self.other@,
        }
    }
}

/// One journal entry of the export; the other fields as JSON text.
#[derive(Debug)]
pub struct DayOneExportEntry {
    pub location: Option<DayOneLocation>,
    pub tags: Vec<String>,
    pub creation_date: Timestamp,
    pub text: String,
    pub weather: Option<DayOneWeather>,
    pub other: String,
}

pub struct ExportEntryView {
    pub location: Option<LocationView>,
    pub tags: Seq<Seq<char>>,
    pub creation_date: InstantView,
    pub text: Seq<char>,
    pub weather: Option<WeatherView>,
    pub other: Seq<char>,
}

pub open spec fn opt_location_view(o: Option<DayOneLocation>) -> Option<LocationView> {
    match o {
        None => None,
        Some(l) => Some(l@),
    }
}

pub open spec fn opt_weather_view(o: Option<DayOneWeather>) -> Option<WeatherView> {
    match o {
        None => None,
        Some(w) => Some(w@),
    }
}

impl View for DayOneExportEntry {
    type V = ExportEntryView;

    open spec fn view(&self) -> ExportEntryView {
        ExportEntryView {
            location: opt_location_view(self.location),
            tags: strings_view(self.tags@),
            creation_date: self.creation_date@,
            text: self.text@,
            weather: opt_weather_view(self.weather),
            other: self.other@,
        }
    }
}

/// A Day One journal export.
pub struct DayOneExport {
    pub metadata: DayOneExportMetadata,
    pub entries: Vec<DayOneExportEntry>,
}

impl DayOneLocation {
    pub fn clone_location(&self) -> (r: DayOneLocation)
        ensures
            r@ == self@,
    {
        DayOneLocation {
            region: self.region,
            country: clone_opt_string(&self.country),
            administrative_area: clone_opt_string(&self.administrative_area),
            time_zone_name: clone_opt_string(&self.time_zone_name),
            other: self.other.clone(),
        }
    }
}

impl DayOneWeather {
    pub fn clone_weather(&self) -> (r: DayOneWeather)
        ensures
            r@ == self@,
    {
        DayOneWeather {
            sunrise_date: self.sunrise_date,
            sunset_date: self.sunset_date,
            other: self.other.clone(),
        }
    }
}

pub fn clone_opt_location(o: &Option<DayOneLocation>) -> (r: Option<DayOneLocation>)
    ensures
        opt_location_view(r) == opt_location_view(*o),
{
    match o {
        None => None,
        Some(l) => Some(l.clone_location()),
    }
}

impl DayOneExportEntry {
    pub fn clone_entry(&self) -> (r: DayOneExportEntry)
        ensures
            r@ == self@,
    {
        DayOneExportEntry {
            location: clone_opt_location(&self.location),
            tags: clone_strings(&self.tags),
            creation_date: self.creation_date,
            text: self.text.clone(),
            weather: match &self.weather {
                None => None,
                Some(w) => Some(w.clone_weather()),
            },
            other: self.other.clone(),
        }
    }
}

/// An export entry with no text, tags, place or weather, written at the
/// epoch in UTC, with no other fields (JSON `null`).
pub open spec fn empty_export_entry() -> ExportEntryView {
    ExportEntryView {
        location: None,
        tags: Seq::empty(),
        creation_date: InstantView { secs: 0, nanos: 0, offset: 0 },
        text: Seq::empty(),
        weather: None,
        other: "null"@,
    }
}

impl Default for DayOneExportEntry {
    fn default() -> (r: DayOneExportEntry)
        ensures
            r@ == empty_export_entry(),
    {
        let r = DayOneExportEntry {
            location: None,
            tags: Vec::new(),
            creation_date: Timestamp::epoch(),
            text: String::new(),
            weather: None,
            other: string_from_str("null"),
        };
        assert(r@.tags =~= Seq::<Seq<char>>::empty());
        r
    }
}

/// The export as read, when its format version is the one understood: "1.0".
pub fn check_export_version(json: DayOneExport) -> (r: Result<DayOneExport, MetadataReadError>)
    ensures
        json.metadata.version@ == "1.0"@ <==> r is Ok,
        r matches Ok(j) ==> j == json,
        r matches Err(e) ==> e matches MetadataReadError::InvalidVersionError(v) && v@
            == json.metadata.version@,
{
    if crate::text::str_eq(json.metadata.version.as_str(), "1.0") {
        Ok(json)
    } else {
        let v = json.metadata.version.clone();
        Err(MetadataReadError::InvalidVersionError(v))
    }
}

// ---------------------------------------------------------------------------
// Entries
// ---------------------------------------------------------------------------

/// An export entry with its text unescaped and its tags sorted and
/// completed with the time of day.
#[derive(Debug)]
pub struct MetadataEntry {
    pub entry: DayOneExportEntry,
    pub text: String,
    pub entry_date: Timestamp,
    pub location: Option<DayOneLocation>,
    pub tags: Vec<String>,
}

pub struct MetadataEntryView {
    pub entry: ExportEntryView,
    pub text: Seq<char>,
    pub entry_date: InstantView,
    pub location: Option<LocationView>,
    pub tags: Seq<Seq<char>>,
}

impl View for MetadataEntry {
    type V = MetadataEntryView;

    open spec fn view(&self) -> MetadataEntryView {
        MetadataEntryView {
            entry: self.entry@,
            text: self.text@,
            entry_date: self.entry_date@,
            location: opt_location_view(self.location),
            tags: strings_view(self.tags@),
        }
    }
}

/// The text without its backslashes (the export escapes Markdown).
pub open spec fn unescaped(t: Seq<char>) -> Seq<char> {
    replace_all(t, seq!['\\'], Seq::<char>::empty())
}

/// The time-of-day tags of an entry written at `date` on a day with the
/// given sunrise and sunset: "night" more than 30 minutes after sunset or
/// before sunrise, "dusk" and "dawn" within 30 minutes of them on the dark
/// side, "sunset" and "sunrise" within 30 minutes of them on the light side.
pub open spec fn weather_tags(date: InstantView, w: WeatherView) -> Seq<Seq<char>> {
    if instant_after(date, w.sunset) {
        if minutes_between(date, w.sunset) > 30 {
            seq!["night"@]
        } else {
            seq!["dusk"@]
        }
    } else if instant_after(date, w.sunrise) {
        (if minutes_between(w.sunset, date) <= 30 {
            seq!["sunset"@]
        } else {
            Seq::<Seq<char>>::empty()
        }) + (if minutes_between(date, w.sunrise) <= 30 {
            seq!["sunrise"@]
        } else {
            Seq::<Seq<char>>::empty()
        })
    } else {
        if minutes_between(w.sunrise, date) > 30 {
            seq!["night"@]
        } else {
            seq!["dawn"@]
        }
    }
}

/// An entry gets one time-of-day tag on the dark side of sunrise or sunset
/// (`night`, `dusk` or `dawn`), and on the light side at most `sunset` and
/// `sunrise`, in that order.
pub proof fn lemma_weather_tags_shape(date: InstantView, w: WeatherView)
    ensures
        weather_tags(date, w).len() <= 2,
        !instant_after(date, w.sunrise) || instant_after(date, w.sunset) ==> weather_tags(
            date,
            w,
        ).len() == 1 && (weather_tags(date, w)[0] == "night"@ || weather_tags(date, w)[0]
            == "dusk"@ || weather_tags(date, w)[0] == "dawn"@),
        instant_after(date, w.sunrise) && !instant_after(date, w.sunset) ==> forall|i: int|
            0 <= i < weather_tags(date, w).len() ==> #[trigger] weather_tags(date, w)[i]
                == "sunset"@ || weather_tags(date, w)[i] == "sunrise"@,
{
}

/// The entry made of an export entry.
pub open spec fn metadata_entry_of(e: ExportEntryView) -> MetadataEntryView {
    MetadataEntryView {
        entry: e,
        text: unescaped(e.text),
        entry_date: e.creation_date,
        location: e.location,
        tags: e.tags.sort_by(str_order()) + match e.weather {
            None => Seq::<Seq<char>>::empty(),
            Some(w) => weather_tags(e.creation_date, w),
        },
    }
}

/// An entry made of an export entry holds the export's tags, sorted, and
/// nothing more when the export has no weather. With weather, the sorted
/// tags are followed by the time-of-day tags of the entry's creation date
/// against that day's sunrise and sunset: later than sunset, "dusk" when
/// at most 30 minutes later and "night" after that; later than neither,
/// "dawn" when at most 30 minutes before sunrise and "night" before that;
/// later than sunrise but not than sunset, "sunset" exactly when sunset is
/// at most 30 minutes away and "sunrise" exactly when sunrise is at most 30
/// minutes past, and no other tag.
pub proof fn lemma_entry_time_of_day_tags(e: ExportEntryView)
    ensures
        ({
            let s = e.tags.sort_by(str_order());
            let t = metadata_entry_of(e).tags;
            let x = t.skip(s.len() as int);
            &&& t.take(s.len() as int) == s
            &&& e.weather is None ==> t == s
            &&& e.weather matches Some(w) ==> {
                let d = e.creation_date;
                &&& instant_after(d, w.sunset) ==> x == seq![
                    if minutes_between(d, w.sunset) <= 30 {
                        "dusk"@
                    } else {
                        "night"@
                    },
                ]
                &&& !instant_after(d, w.sunset) && !instant_after(d, w.sunrise) ==> x == seq![
                    if minutes_between(w.sunrise, d) <= 30 {
                        "dawn"@
                    } else {
                        "night"@
                    },
                ]
                &&& !instant_after(d, w.sunset) && instant_after(d, w.sunrise) ==> {
                    &&& x.len() <= 2
                    &&& forall|i: int|
                        0 <= i < x.len() ==> #[trigger] x[i] == "sunset"@ || x[i] == "sunrise"@
                    &&& x.contains("sunset"@) <==> minutes_between(w.sunset, d) <= 30
                    &&& x.contains("sunrise"@) <==> minutes_between(d, w.sunrise) <= 30
                }
            }
        }),
{
    let s = e.tags.sort_by(str_order());
    let t = metadata_entry_of(e).tags;
    assert(t.take(s.len() as int) =~= s);
    match e.weather {
        None => {
            assert(t =~= s);
        },
        Some(w) => {
            let x = t.skip(s.len() as int);
            assert(x =~= weather_tags(e.creation_date, w));
            reveal_strlit("sunset");
            reveal_strlit("sunrise");
            let d = e.creation_date;
            if !instant_after(d, w.sunset) && instant_after(d, w.sunrise) {
                if minutes_between(w.sunset, d) <= 30 {
                    assert(x[0] == "sunset"@);
                }
                if minutes_between(d, w.sunrise) <= 30 {
                    assert(x[x.len() - 1] == "sunrise"@);
                }
                assert("sunset"@[3] != "sunrise"@[3]);
            }
        },
    }
}

/// The first tag that starts with `camera:`.
pub open spec fn first_camera_tag(tags: Seq<Seq<char>>) -> Option<Seq<char>>
    decreases tags.len(),
{
    if tags.len() == 0 {
        None
    } else if "camera:"@.is_prefix_of(tags[0]) {
        Some(tags[0])
    } else {
        first_camera_tag(tags.drop_first())
    }
}

pub fn first_camera(tags: &Vec<String>) -> (r: Option<&String>)
    ensures
        match first_camera_tag(strings_view(tags@)) {
            None => r is None,
            Some(t) => r matches Some(s) && s@ == t,
        },
{
    let mut i: usize = 0;
    assert(strings_view(tags@).skip(0) =~= strings_view(tags@));
    while i < tags.len()
        invariant
            i <= tags.len(),
            first_camera_tag(strings_view(tags@)) == first_camera_tag(
                strings_view(tags@).skip(i as int),
            ),
        decreases tags.len() - i,
    {
        let ghost rest = strings_view(tags@).skip(i as int);
        assert(rest.drop_first() =~= strings_view(tags@).skip(i + 1));
        if crate::text::starts_with_str(tags[i].as_str(), "camera:") {
            return Some(&tags[i]);
        }
        i = i + 1;
    }
    assert(strings_view(tags@).skip(i as int).len() == 0);
    None
}

impl MetadataEntry {
    pub fn new(entry: &DayOneExportEntry) -> (r: MetadataEntry)
        ensures
            r@ == metadata_entry_of(entry@),
    {
        let mut backslash: Vec<char> = Vec::new();
        backslash.push('\\');
        assert(backslash@ =~= seq!['\\']);
        let text = string_of(
            &crate::journal::replace_chars(&chars_of(entry.text.as_str()), &backslash, &Vec::new()),
        );
        let mut tags = clone_strings(&entry.tags);
        sort_strings(&mut tags);
        let mut result = MetadataEntry {
            entry: entry.clone_entry(),
            text,
            entry_date: entry.creation_date,
            location: clone_opt_location(&entry.location),
            tags,
        };
        match &entry.weather {
            None => {
                assert(strings_view(result.tags@) =~= strings_view(result.tags@) + Seq::<
                    Seq<char>,
                >::empty());
            },
            Some(w) => {
                result.populate_weather_info_tags(w);
            },
        }
        result
    }

    /// An entry with the given text and date and nothing else.
    pub fn fake(text: String, entry_date: Timestamp) -> (r: MetadataEntry)
        ensures
            r@ == (MetadataEntryView {
                entry: empty_export_entry(),
                text: text@,
                entry_date: entry_date@,
                location: None,
                tags: Seq::empty(),
            }),
            r.entry_date == entry_date,
    {
        let r = MetadataEntry {
            entry: DayOneExportEntry::default(),
            text,
            entry_date,
            location: None,
            tags: Vec::new(),
        };
        assert(r@.tags =~= Seq::<Seq<char>>::empty());
        r
    }

    pub fn camera_tag(&self) -> (r: Option<&String>)
        ensures
            match first_camera_tag(self@.tags) {
                None => r is None,
                Some(t) => r matches Some(s) && s@ == t,
            },
    {
        first_camera(&self.tags)
    }

    pub fn text(&self) -> (r: &String)
        ensures
            r == &self.text,
    {
        &self.text
    }

    pub fn entry_date(&self) -> (r: &Timestamp)
        ensures
            *r == self.entry_date,
    {
        &self.entry_date
    }

    pub fn tags(&self) -> (r: &Vec<String>)
        ensures
            r == &self.tags,
    {
        &self.tags
    }

    /// Adds the time-of-day tags of the entry's date.
    pub fn populate_weather_info_tags(&mut self, weather_info: &DayOneWeather)
        ensures
            final(self)@ == (MetadataEntryView {
                tags: old(self)@.tags + weather_tags(old(self)@.entry_date, weather_info@),
                ..old(self)@
            }),
    {
        let ghost start = strings_view(self.tags@);
        if self.entry_date.is_after(&weather_info.sunset_date) {
            let timedelta_in_mins = self.entry_date.minutes_since(&weather_info.sunset_date);
            if timedelta_in_mins > 30 {
                self.tags.push(string_from_str("night"));
            } else {
                self.tags.push(string_from_str("dusk"));
            }
        } else if self.entry_date.is_after(&weather_info.sunrise_date) {
            let sunset_timedelta_in_mins = weather_info.sunset_date.minutes_since(&self.entry_date);
            if sunset_timedelta_in_mins <= 30 {
                self.tags.push(string_from_str("sunset"));
            }
            let sunrise_timedelta_in_mins = self.entry_date.minutes_since(
                &weather_info.sunrise_date,
            );
            if sunrise_timedelta_in_mins <= 30 {
                self.tags.push(string_from_str("sunrise"));
            }
        } else {
            let sunrise_timedelta_in_mins = weather_info.sunrise_date.minutes_since(
                &self.entry_date,
            );
            if sunrise_timedelta_in_mins > 30 {
                self.tags.push(string_from_str("night"));
            } else {
                self.tags.push(string_from_str("dawn"));
            }
        }
        assert(strings_view(self.tags@) =~= start + weather_tags(
            self.entry_date@,
            weather_info@,
        ));
    }
}

// ---------------------------------------------------------------------------
// The frame count in an entry's headline
// ---------------------------------------------------------------------------

/// The second word of the first line, or "0" when there is none.
pub open spec fn frame_count_token(text: Seq<char>) -> Seq<char> {
    let ls = lines(text);
    if ls.len() == 0 {
        "0"@
    } else {
        match nth_word(ls[0], 1) {
            Some(w) => w,
            None => "0"@,
        }
    }
}

/// The frame count an entry's text gives: the second word of its first line
/// when that word is an unsigned 32-bit number; empty otherwise (a leader).
pub open spec fn frame_count_of(text: Seq<char>) -> Seq<char> {
    let c = frame_count_token(text);
    if parses_as_u32(c) {
        c
    } else {
        Seq::empty()
    }
}

pub fn parse_frame_count(text: &str) -> (r: String)
    ensures
        r@ == frame_count_of(text@),
{
    let cs = chars_of(text);
    let ls = lines_of(&cs);
    let candidate: Vec<char> = if ls.len() == 0 {
        chars_of("0")
    } else {
        assert(ls@.map_values(|l: Vec<char>| l@)[0] == ls@[0]@);
        assert(ls[0]@.skip(0) =~= ls[0]@);
        match nth_word_span(&ls[0], 0, 1) {
            Some((a, b)) => sub_chars(&ls[0], a, b),
            None => chars_of("0"),
        }
    };
    if crate::text::chars_parse_as_u32(&candidate) {
        string_of(&candidate)
    } else {
        String::new()
    }
}

// ---------------------------------------------------------------------------
// Leaders
// ---------------------------------------------------------------------------

/// The entry that starts a roll, with the emulsion named in its headline.
#[derive(Debug)]
pub struct LeaderEntry {
    pub entry: MetadataEntry,
    pub emulsion_name: String,
    pub entry_date: Timestamp,
}

pub struct LeaderView {
    pub entry: MetadataEntryView,
    pub emulsion_name: Seq<char>,
    pub entry_date: InstantView,
}

impl View for LeaderEntry {
    type V = LeaderView;

    open spec fn view(&self) -> LeaderView {
        LeaderView {
            entry: self.entry@,
            emulsion_name: self.emulsion_name@,
            entry_date: self.entry_date@,
        }
    }
}

pub open spec fn leader_of(e: ExportEntryView) -> LeaderView {
    let m = metadata_entry_of(e);
    LeaderView { entry: m, emulsion_name: leader_emulsion(m.text), entry_date: m.entry_date }
}

impl LeaderEntry {
    pub fn fake(text: String, entry_date: Timestamp, emulsion_name: String) -> (r: LeaderEntry)
        ensures
            r@ == (LeaderView {
                entry: MetadataEntryView {
                    entry: empty_export_entry(),
                    text: text@,
                    entry_date: entry_date@,
                    location: None,
                    tags: Seq::empty(),
                },
                emulsion_name: emulsion_name@,
                entry_date: entry_date@,
            }),
            r.entry_date == entry_date,
    {
        let entry = MetadataEntry::fake(text, entry_date);
        LeaderEntry { entry, emulsion_name, entry_date }
    }

    pub fn new(entry: &DayOneExportEntry) -> (r: LeaderEntry)
        ensures
            r@ == leader_of(entry@),
    {
        let entry = MetadataEntry::new(entry);
        let emulsion = extract_emulsion_name_from_leader_text(&chars_of(entry.text.as_str()));
        let emulsion_name = string_of(&emulsion);
        let entry_date = entry.entry_date;
        LeaderEntry { entry, emulsion_name, entry_date }
    }

    pub fn emulsion(&self) -> (r: String)
        ensures
            r@ == self.emulsion_name@,
    {
        self.emulsion_name.clone()
    }

    pub fn entry_date(&self) -> (r: Timestamp)
        ensures
            r == self.entry_date,
    {
        self.entry_date
    }
}

// ---------------------------------------------------------------------------
// Frames: the tags of one exposure
// ---------------------------------------------------------------------------

pub open spec fn str_tag(name: Seq<char>, v: Seq<char>) -> ExifTagView {
    ExifTagView { name, value: TagValueView::Str(v) }
}

pub open spec fn float_tag(name: Seq<char>, f: FloatView) -> ExifTagView {
    ExifTagView { name, value: TagValueView::Float(f) }
}

/// The lines after the headline, each preceded by a newline.
pub open spec fn joined_with_newlines(ls: Seq<Seq<char>>) -> Seq<char>
    decreases ls.len(),
{
    if ls.len() == 0 {
        seq![]
    } else {
        joined_with_newlines(ls.drop_last()) + seq!['\n'] + ls.last()
    }
}

pub open spec fn caption_of(text: Seq<char>) -> Seq<char> {
    let ls = lines(text);
    if ls.len() == 0 {
        seq![]
    } else {
        joined_with_newlines(ls.drop_first())
    }
}

/// The caption of a frame: its text without the headline, when there is any.
pub open spec fn caption_tags(text: Seq<char>) -> Seq<ExifTagView> {
    let c = caption_of(text);
    if c.len() == 0 {
        seq![]
    } else {
        seq![str_tag("UserComment"@, c)]
    }
}

/// Position, its uncertainty, country and state of a frame's place.
pub open spec fn location_tags(loc: Option<LocationView>) -> Seq<ExifTagView> {
    match loc {
        None => seq![],
        Some(l) => (match l.region {
            None => Seq::<ExifTagView>::empty(),
            Some(r) => seq![
                float_tag("GPSLatitude"@, FloatView::Bits(r.center.latitude)),
                float_tag("GPSLongitude"@, FloatView::Bits(r.center.longitude)),
                float_tag("GPSHPositioningError"@, FloatView::WidenedBits(r.radius)),
            ],
        }) + (match l.country {
            None => Seq::<ExifTagView>::empty(),
            Some(c) => seq![str_tag("Country"@, c)],
        }) + (match l.administrative_area {
            None => Seq::<ExifTagView>::empty(),
            Some(a) => seq![str_tag("State"@, a)],
        }),
    }
}

/// `f/NUMBER` where the number parses as a float.
pub open spec fn is_aperture_tag(t: Seq<char>) -> bool {
    "f/"@.is_prefix_of(t) && parses_as_float(t.skip("f/"@.len() as int))
}

/// Shutter-speed and aperture tags become EXIF tags and leave the keywords.
pub open spec fn tag_consumed(t: Seq<char>) -> bool {
    is_shutter_tag(t) || is_aperture_tag(t)
}

/// The EXIF tags one keyword yields.
pub open spec fn tag_exif(t: Seq<char>) -> Seq<ExifTagView> {
    if is_shutter_tag(t) {
        seq![str_tag("ExposureTime"@, t.drop_last())]
    } else if is_aperture_tag(t) {
        seq![float_tag("FNumber"@, FloatView::ParsedSingle(t.skip("f/"@.len() as int)))]
    } else if "lens:"@.is_prefix_of(t) {
        match focal_digits(t) {
            Some(d) => seq![float_tag("FocalLength"@, FloatView::ParsedDouble(d))],
            None => seq![],
        }
    } else {
        seq![]
    }
}

pub open spec fn all_tag_exif(ts: Seq<Seq<char>>) -> Seq<ExifTagView>
    decreases ts.len(),
{
    if ts.len() == 0 {
        seq![]
    } else {
        all_tag_exif(ts.drop_last()) + tag_exif(ts.last())
    }
}

/// The last keyword with the given prefix that is not consumed.
pub open spec fn last_tag_with(ts: Seq<Seq<char>>, prefix: Seq<char>) -> Option<Seq<char>>
    decreases ts.len(),
{
    if ts.len() == 0 {
        None
    } else if !tag_consumed(ts.last()) && prefix.is_prefix_of(ts.last()) {
        Some(ts.last())
    } else {
        last_tag_with(ts.drop_last(), prefix)
    }
}

pub open spec fn tag_kept(t: Seq<char>) -> bool {
    !tag_consumed(t) && t != "unindexed"@ && t != "scanned"@
}

/// Film formats as keywords: `120` and `35mm` become `film:120` and `film:135`.
pub open spec fn film_name(t: Seq<char>) -> Seq<char> {
    if t == "120"@ {
        "film:120"@
    } else if t == "35mm"@ {
        "film:135"@
    } else {
        t
    }
}

/// The keywords a frame keeps.
pub open spec fn keyword_tags(ts: Seq<Seq<char>>) -> Seq<Seq<char>>
    decreases ts.len(),
{
    if ts.len() == 0 {
        seq![]
    } else if tag_kept(ts.last()) {
        keyword_tags(ts.drop_last()).push(film_name(ts.last()))
    } else {
        keyword_tags(ts.drop_last())
    }
}

proof fn lemma_film_names_clean()
    ensures
        !tag_consumed("film:120"@),
        !tag_consumed("film:135"@),
        "film:120"@ != "unindexed"@ && "film:120"@ != "scanned"@,
        "film:135"@ != "unindexed"@ && "film:135"@ != "scanned"@,
        "film:120"@ != "120"@ && "film:120"@ != "35mm"@,
        "film:135"@ != "120"@ && "film:135"@ != "35mm"@,
{
    reveal_strlit("film:120");
    reveal_strlit("film:135");
    reveal_strlit("unindexed");
    reveal_strlit("scanned");
    reveal_strlit("120");
    reveal_strlit("35mm");
    reveal_strlit("f/");
    let a = "film:120"@;
    let b = "film:135"@;
    assert(!is_shutter_tag(a)) by {
        assert forall|i: int| 0 <= i < a.len() implies #[trigger] a[i] != 's' by {}
    }
    assert(!is_shutter_tag(b)) by {
        assert forall|i: int| 0 <= i < b.len() implies #[trigger] b[i] != 's' by {}
    }
    assert(!"f/"@.is_prefix_of(a)) by {
        assert(a[1] != "f/"@[1]);
    }
    assert(!"f/"@.is_prefix_of(b)) by {
        assert(b[1] != "f/"@[1]);
    }
}

/// The keywords a frame keeps hold no shutter speed or aperture, no
/// workflow marker (`unindexed`, `scanned`) and no bare film format (`120`,
/// `35mm`): those become tags, are dropped or are renamed. There are no
/// more keywords than tags.
pub proof fn lemma_keywords_clean(ts: Seq<Seq<char>>)
    ensures
        keyword_tags(ts).len() <= ts.len(),
        forall|i: int|
            0 <= i < keyword_tags(ts).len() ==> {
                let k = #[trigger] keyword_tags(ts)[i];
                &&& !tag_consumed(k)
                &&& k != "unindexed"@
                &&& k != "scanned"@
                &&& k != "120"@
                &&& k != "35mm"@
            },
    decreases ts.len(),
{
    if ts.len() > 0 {
        lemma_keywords_clean(ts.drop_last());
        lemma_film_names_clean();
        let prev = keyword_tags(ts.drop_last());
        if tag_kept(ts.last()) {
            let k = film_name(ts.last());
            assert forall|i: int| 0 <= i < keyword_tags(ts).len() implies {
                let k = #[trigger] keyword_tags(ts)[i];
                &&& !tag_consumed(k)
                &&& k != "unindexed"@
                &&& k != "scanned"@
                &&& k != "120"@
                &&& k != "35mm"@
            } by {
                if i < prev.len() {
                    assert(keyword_tags(ts)[i] == prev[i]);
                }
            }
        }
    }
}

/// Keywords that the tag processing can take: a shutter speed ends in `s`,
/// and the focal length of a lens is written in ASCII digits.
pub open spec fn tag_processable(t: Seq<char>) -> bool {
    &&& is_shutter_tag(t) ==> t.len() > 0 && t.last() == 's'
    &&& (!tag_consumed(t) && "lens:"@.is_prefix_of(t)) ==> match focal_digits(t) {
        Some(d) => all_ascii_digits(d),
        None => true,
    }
}

pub open spec fn tags_processable(ts: Seq<Seq<char>>) -> bool {
    forall|i: int| 0 <= i < ts.len() ==> tag_processable(#[trigger] ts[i])
}

/// `{n}mm`.
pub open spec fn focal_text(mm: u16) -> Seq<char> {
    decimal_text(mm as nat) + "mm"@
}

pub open spec fn pair_tags(o: Option<Seq<(Seq<char>, Seq<char>)>>) -> Seq<ExifTagView> {
    match o {
        None => seq![],
        Some(ps) => ps.map_values(|p: (Seq<char>, Seq<char>)| str_tag(p.0, p.1)),
    }
}

/// The tags from the profiles of the camera and lens a frame names.
pub open spec fn profile_tags(
    profiles: Map<Seq<char>, CameraEntryView>,
    camera: Option<Seq<char>>,
    lens: Option<Seq<char>>,
) -> Seq<ExifTagView> {
    match (camera, lens) {
        (Some(c), Some(l)) => if profiles.contains_key(c) && profiles[c].lenses.contains_key(l) {
            let cp = profiles[c];
            let lp = cp.lenses[l];
            seq![
                str_tag("LensModel"@, lp.name),
                str_tag("CameraLabel"@, cp.name),
                str_tag("MinFocalLength"@, focal_text(lp.min_focal_length_mm)),
                str_tag("MaxFocalLength"@, focal_text(lp.max_focal_length_mm)),
                ExifTagView {
                    name: "MaxAperture"@,
                    value: TagValueView::Numeric(lp.max_aperture_apex as i32),
                },
                str_tag("MaxApertureAtMinFocal"@, "f/"@ + lp.max_aperture_at_short),
                str_tag("MaxApertureAtMaxFocal"@, "f/"@ + lp.max_aperture_at_long),
            ] + pair_tags(lp.exif_tags) + pair_tags(cp.exif_tags)
        } else {
            seq![]
        },
        _ => seq![],
    }
}

/// The profile tags of a camera and lens that both have profiles start
/// with the lens specification, written from the profiles' own fields: the
/// lens's name, the camera's name, the shortest and the longest focal
/// length in millimetres, the lens's largest aperture as an APEX number,
/// and its largest apertures at the short and the long end. Without both
/// tags, or without both profiles, there are no profile tags.
pub proof fn lemma_profile_lens_specification(
    profiles: Map<Seq<char>, CameraEntryView>,
    camera: Option<Seq<char>>,
    lens: Option<Seq<char>>,
)
    ensures
        match (camera, lens) {
            (Some(c), Some(l)) => if profiles.contains_key(c) && profiles[c].lenses.contains_key(l) {
                let t = profile_tags(profiles, camera, lens);
                let lp = profiles[c].lenses[l];
                &&& t.len() >= 7
                &&& t[0] == str_tag("LensModel"@, lp.name)
                &&& t[1] == str_tag("CameraLabel"@, profiles[c].name)
                &&& t[2] == str_tag(
                    "MinFocalLength"@,
                    decimal_text(lp.min_focal_length_mm as nat) + "mm"@,
                )
                &&& t[3] == str_tag(
                    "MaxFocalLength"@,
                    decimal_text(lp.max_focal_length_mm as nat) + "mm"@,
                )
                &&& t[4] == (ExifTagView {
                    name: "MaxAperture"@,
                    value: TagValueView::Numeric(lp.max_aperture_apex as i32),
                })
                &&& t[5] == str_tag("MaxApertureAtMinFocal"@, "f/"@ + lp.max_aperture_at_short)
                &&& t[6] == str_tag("MaxApertureAtMaxFocal"@, "f/"@ + lp.max_aperture_at_long)
            } else {
                profile_tags(profiles, camera, lens).len() == 0
            },
            _ => profile_tags(profiles, camera, lens).len() == 0,
        },
{
}

/// Whether the frame number of a frame can be put in the seconds of its
/// date: a number must be below 60.
pub open spec fn frame_count_ok(fc: Seq<char>) -> bool {
    parses_as_u32(fc) ==> decimal_value(unsigned_digits(fc)) < 60
}

/// The UTC second of a frame: its date with the seconds, read in the
/// date's own offset, replaced by the frame number when there is one.
pub open spec fn munged_secs(fc: Seq<char>, d: InstantView) -> int {
    if parses_as_u32(fc) {
        d.secs - (d.secs + d.offset) % 60 + decimal_value(unsigned_digits(fc))
    } else {
        d.secs
    }
}

/// Numbering a frame keeps the minute of its date, read in the date's own
/// offset, and puts the frame number in the seconds.
pub proof fn lemma_munged_seconds(fc: Seq<char>, d: InstantView)
    requires
        parses_as_u32(fc),
        frame_count_ok(fc),
    ensures
        (munged_secs(fc, d) + d.offset) % 60 == decimal_value(unsigned_digits(fc)),
        (munged_secs(fc, d) + d.offset) / 60 == (d.secs + d.offset) / 60,
{
    let n = decimal_value(unsigned_digits(fc)) as int;
    let local = d.secs + d.offset;
    assert(munged_secs(fc, d) + d.offset == local - local % 60 + n);
    assert(local - local % 60 == (local / 60) * 60) by (nonlinear_arith);
    assert((local / 60 * 60 + n) % 60 == n && (local / 60 * 60 + n) / 60 == local / 60) by (nonlinear_arith)
        requires
            0 <= n < 60,
    ;
}

/// The offset a frame's date is written in: that of its place's zone at
/// that instant when the zone is known, else `local`.
pub open spec fn frame_offset(secs: int, loc: Option<LocationView>, local: int) -> int {
    match loc {
        Some(l) => match l.time_zone_name {
            Some(n) => match zone_offset_at(n, secs) {
                Some(z) => z as int,
                None => local,
            },
            None => local,
        },
        None => local,
    }
}

/// The `DateTimeOriginal` of a frame: its date, seconds set to the frame
/// number, written in its zone.
pub open spec fn munged_datetime(
    fc: Seq<char>,
    d: InstantView,
    loc: Option<LocationView>,
    local: int,
) -> Seq<char> {
    let secs = munged_secs(fc, d);
    local_exif_datetime(secs, d.nanos, frame_offset(secs, loc, local))
}

/// One exposure of a roll, with the tags its scan receives.
#[derive(Debug)]
pub struct FrameEntry {
    pub entry: MetadataEntry,
    pub frame_count: String,
    pub exif_tags: Vec<ExifTag>,
}

pub struct FrameView {
    pub entry: MetadataEntryView,
    pub frame_count: Seq<char>,
    pub exif_tags: Seq<ExifTagView>,
}

impl View for FrameEntry {
    type V = FrameView;

    open spec fn view(&self) -> FrameView {
        FrameView {
            entry: self.entry@,
            frame_count: self.frame_count@,
            exif_tags: tags_view(self.exif_tags@),
        }
    }
}

/// A float written as text holds a text that `str::parse` accepts.
pub open spec fn float_readable(f: FloatView) -> bool {
    match f {
        FloatView::ParsedSingle(t) => parses_as_float(t),
        FloatView::ParsedDouble(t) => parses_as_float(t),
        _ => true,
    }
}

pub open spec fn tag_float_readable(t: ExifTagView) -> bool {
    match t.value {
        TagValueView::Float(f) => float_readable(f),
        _ => true,
    }
}

proof fn lemma_tag_exif_readable(t: Seq<char>)
    requires
        tag_processable(t),
    ensures
        forall|i: int| 0 <= i < tag_exif(t).len() ==> tag_float_readable(#[trigger] tag_exif(t)[i]),
{
    if !is_shutter_tag(t) && !is_aperture_tag(t) && "lens:"@.is_prefix_of(t) {
        crate::journal::lemma_focal_digits_nonempty(t);
        match focal_digits(t) {
            Some(d) => {
                crate::text::lemma_digits_parse_as_float(d);
            },
            None => {},
        }
    }
}

proof fn lemma_all_tag_exif_readable(ts: Seq<Seq<char>>)
    requires
        tags_processable(ts),
    ensures
        forall|i: int|
            0 <= i < all_tag_exif(ts).len() ==> tag_float_readable(#[trigger] all_tag_exif(ts)[i]),
    decreases ts.len(),
{
    if ts.len() > 0 {
        let p = ts.drop_last();
        assert forall|i: int| 0 <= i < p.len() implies tag_processable(#[trigger] p[i]) by {
            assert(p[i] == ts[i]);
        }
        lemma_all_tag_exif_readable(p);
        assert(tag_processable(ts[ts.len() - 1]));
        lemma_tag_exif_readable(ts.last());
        let a = all_tag_exif(p);
        let b = tag_exif(ts.last());
        assert forall|i: int| 0 <= i < all_tag_exif(ts).len() implies tag_float_readable(
            #[trigger] all_tag_exif(ts)[i],
        ) by {
            if i < a.len() {
                assert(all_tag_exif(ts)[i] == a[i]);
            } else {
                assert(all_tag_exif(ts)[i] == b[i - a.len()]);
            }
        }
    }
}

/// A frame with every tag added, with `local` as the machine's offset: its
/// `DateTimeOriginal`, its caption, its place, the tags its entry's tags
/// stand for, its camera and lens profiles and its keywords, after the tags
/// it had; its entry keeps only the keywords among its tags.
pub open spec fn populated_frame(
    f: FrameView,
    profiles: Map<Seq<char>, CameraEntryView>,
    local: int,
) -> FrameView {
    FrameView {
        entry: MetadataEntryView { tags: keyword_tags(f.entry.tags), ..f.entry },
        exif_tags: f.exif_tags + seq![
            str_tag(
                "DateTimeOriginal"@,
                munged_datetime(f.frame_count, f.entry.entry_date, f.entry.location, local),
            ),
        ] + caption_tags(f.entry.text) + location_tags(f.entry.location) + all_tag_exif(
            f.entry.tags,
        ) + profile_tags(
            profiles,
            last_tag_with(f.entry.tags, "camera:"@),
            last_tag_with(f.entry.tags, "lens:"@),
        ) + seq![
            ExifTagView {
                name: "Keywords"@,
                value: TagValueView::List(keyword_tags(f.entry.tags)),
            },
        ],
        ..f
    }
}

/// The frame made of an export entry, with `local` as the machine's offset.
pub open spec fn frame_of(
    fc: Seq<char>,
    e: ExportEntryView,
    profiles: Map<Seq<char>, CameraEntryView>,
    local: int,
) -> FrameView {
    let m = metadata_entry_of(e);
    FrameView {
        entry: MetadataEntryView { tags: keyword_tags(m.tags), ..m },
        frame_count: fc,
        exif_tags: seq![
            str_tag("DateTimeOriginal"@, munged_datetime(fc, m.entry_date, m.location, local)),
        ] + caption_tags(m.text) + location_tags(m.location) + all_tag_exif(m.tags) + profile_tags(
            profiles,
            last_tag_with(m.tags, "camera:"@),
            last_tag_with(m.tags, "lens:"@),
        ) + seq![
            ExifTagView { name: "Keywords"@, value: TagValueView::List(keyword_tags(m.tags)) },
        ],
    }
}

/// Making a frame of an export entry is adding every tag to a frame of
/// that entry's metadata that has no tags yet.
pub proof fn lemma_frame_of_is_populated(
    fc: Seq<char>,
    e: ExportEntryView,
    profiles: Map<Seq<char>, CameraEntryView>,
    local: int,
)
    ensures
        frame_of(fc, e, profiles, local) == populated_frame(
            FrameView { entry: metadata_entry_of(e), frame_count: fc, exif_tags: seq![] },
            profiles,
            local,
        ),
{
    let f = FrameView { entry: metadata_entry_of(e), frame_count: fc, exif_tags: seq![] };
    assert(frame_of(fc, e, profiles, local).exif_tags =~= populated_frame(f, profiles, local).exif_tags);
}

/// A frame's tags start with its `DateTimeOriginal`; when its entry's text
/// has lines after the headline, the next tag is the `UserComment` that
/// holds them, each after a newline.
pub proof fn lemma_frame_caption(
    fc: Seq<char>,
    e: ExportEntryView,
    profiles: Map<Seq<char>, CameraEntryView>,
    local: int,
)
    ensures
        frame_of(fc, e, profiles, local).exif_tags[0] == str_tag(
            "DateTimeOriginal"@,
            munged_datetime(fc, e.creation_date, e.location, local),
        ),
        lines(unescaped(e.text)).len() > 1 ==> frame_of(fc, e, profiles, local).exif_tags[1]
            == str_tag(
            "UserComment"@,
            joined_with_newlines(lines(unescaped(e.text)).drop_first()),
        ),
{
    let ls = lines(unescaped(e.text));
    if ls.len() > 1 {
        let rest = ls.drop_first();
        assert(joined_with_newlines(rest) == joined_with_newlines(rest.drop_last()) + seq!['\n']
            + rest.last());
        assert(joined_with_newlines(rest).len() > 0);
    }
}

/// Every float among a frame's tags that is held as text is a text that
/// `str::parse` accepts, so that the number can be read back.
pub proof fn lemma_frame_floats_readable(
    fc: Seq<char>,
    e: ExportEntryView,
    profiles: Map<Seq<char>, CameraEntryView>,
    local: int,
)
    requires
        tags_processable(metadata_entry_of(e).tags),
    ensures
        forall|i: int|
            0 <= i < frame_of(fc, e, profiles, local).exif_tags.len() ==> tag_float_readable(
                #[trigger] frame_of(fc, e, profiles, local).exif_tags[i],
            ),
{
    let m = metadata_entry_of(e);
    lemma_all_tag_exif_readable(m.tags);
    let head = seq![str_tag("DateTimeOriginal"@, munged_datetime(fc, m.entry_date, m.location, local))]
        + caption_tags(m.text) + location_tags(m.location);
    let mid = all_tag_exif(m.tags);
    let pt = profile_tags(profiles, last_tag_with(m.tags, "camera:"@), last_tag_with(m.tags, "lens:"@));
    let tail = seq![ExifTagView { name: "Keywords"@, value: TagValueView::List(keyword_tags(m.tags)) }];
    let all = frame_of(fc, e, profiles, local).exif_tags;
    assert(all == head + mid + pt + tail);
    assert forall|i: int| 0 <= i < head.len() implies tag_float_readable(#[trigger] head[i]) by {
        let h1 = seq![str_tag("DateTimeOriginal"@, munged_datetime(fc, m.entry_date, m.location, local))]
            + caption_tags(m.text);
        if i >= h1.len() {
            assert(head[i] == location_tags(m.location)[i - h1.len()]);
        }
    }
    assert forall|i: int| 0 <= i < pt.len() implies tag_float_readable(#[trigger] pt[i]) by {
        match (last_tag_with(m.tags, "camera:"@), last_tag_with(m.tags, "lens:"@)) {
            (Some(c), Some(l)) => {
                if profiles.contains_key(c) && profiles[c].lenses.contains_key(l) {
                    let cp = profiles[c];
                    let lp = cp.lenses[l];
                    let fixed = seq![
                        str_tag("LensModel"@, lp.name),
                        str_tag("CameraLabel"@, cp.name),
                        str_tag("MinFocalLength"@, focal_text(lp.min_focal_length_mm)),
                        str_tag("MaxFocalLength"@, focal_text(lp.max_focal_length_mm)),
                        ExifTagView {
                            name: "MaxAperture"@,
                            value: TagValueView::Numeric(lp.max_aperture_apex as i32),
                        },
                        str_tag("MaxApertureAtMinFocal"@, "f/"@ + lp.max_aperture_at_short),
                        str_tag("MaxApertureAtMaxFocal"@, "f/"@ + lp.max_aperture_at_long),
                    ];
                    let lt = pair_tags(lp.exif_tags);
                    let ct = pair_tags(cp.exif_tags);
                    assert(pt == fixed + lt + ct);
                    if i < fixed.len() {
                        assert(pt[i] == fixed[i]);
                    } else if i < fixed.len() + lt.len() {
                        assert(pt[i] == lt[i - fixed.len()]);
                        match lp.exif_tags {
                            Some(ps) => {
                                assert(lt[i - fixed.len()] == str_tag(ps[i - fixed.len()].0, ps[i - fixed.len()].1));
                            },
                            None => {},
                        }
                    } else {
                        assert(pt[i] == ct[i - fixed.len() - lt.len()]);
                        match cp.exif_tags {
                            Some(ps) => {
                                let k = i - fixed.len() - lt.len();
                                assert(ct[k] == str_tag(ps[k].0, ps[k].1));
                            },
                            None => {},
                        }
                    }
                }
            },
            _ => {},
        }
    }
    assert forall|i: int| 0 <= i < all.len() implies tag_float_readable(#[trigger] all[i]) by {
        if i < head.len() {
            assert(all[i] == head[i]);
        } else if i < head.len() + mid.len() {
            assert(all[i] == mid[i - head.len()]);
        } else if i < head.len() + mid.len() + pt.len() {
            assert(all[i] == pt[i - head.len() - mid.len()]);
        } else {
            assert(all[i] == tail[i - head.len() - mid.len() - pt.len()]);
        }
    }
}

fn film_renamed(t: &String) -> (r: String)
    ensures
        r@ == film_name(t@),
{
    if str_eq(t.as_str(), "120") {
        string_from_str("film:120")
    } else if str_eq(t.as_str(), "35mm") {
        string_from_str("film:135")
    } else {
        t.clone()
    }
}

fn focal_chars(mm: u16) -> (r: Vec<char>)
    ensures
        r@ == focal_text(mm),
{
    let mut out: Vec<char> = Vec::new();
    push_decimal(&mut out, mm as u64);
    append_str(&mut out, "mm");
    out
}

fn aperture_chars(a: &String) -> (r: Vec<char>)
    ensures
        r@ == "f/"@ + a@,
{
    let mut out = chars_of("f/");
    append_str(&mut out, a.as_str());
    out
}

impl FrameEntry {
    /// A frame with the given number, text and date and nothing else.
    pub fn fake(frame_count: String, text: String, entry_date: Timestamp) -> (r: FrameEntry)
        ensures
            r@ == (FrameView {
                entry: MetadataEntryView {
                    entry: empty_export_entry(),
                    text: text@,
                    entry_date: entry_date@,
                    location: None,
                    tags: Seq::empty(),
                },
                frame_count: frame_count@,
                exif_tags: Seq::empty(),
            }),
            r.entry.entry_date == entry_date,
    {
        let entry = MetadataEntry::fake(text, entry_date);
        let r = FrameEntry { entry, frame_count, exif_tags: Vec::new() };
        assert(r@.exif_tags =~= Seq::<ExifTagView>::empty());
        r
    }

    /// The frame made of an export entry, with `local_offset` as the
    /// machine's offset from UTC.
    pub fn new_at(
        frame_count: String,
        entry: &DayOneExportEntry,
        profiles: &CameraProfileMap,
        local_offset: i32,
    ) -> (r: FrameEntry)
        requires
            frame_count_ok(frame_count@),
            tags_processable(metadata_entry_of(entry@).tags),
            -86400 < local_offset < 86400,
        ensures
            r@ == frame_of(frame_count@, entry@, profiles@, local_offset as int),
    {
        let entry = MetadataEntry::new(entry);
        let mut frame_entry = FrameEntry { entry, frame_count, exif_tags: Vec::new() };
        frame_entry.populate_tags_at(profiles, local_offset);
        frame_entry
    }

    /// The frame made of an export entry; dates without a known zone are
    /// written in the machine's offset at the time of the call.
    pub fn new(frame_count: String, entry: &DayOneExportEntry, profiles: &CameraProfileMap) -> (r:
        FrameEntry)
        requires
            frame_count_ok(frame_count@),
            tags_processable(metadata_entry_of(entry@).tags),
        ensures
            exists|o: int|
                -86400 < o < 86400 && r@ == #[trigger] frame_of(frame_count@, entry@, profiles@, o),
    {
        let local_offset = local_offset_now();
        let r = FrameEntry::new_at(frame_count, entry, profiles, local_offset);
        assert(r@ == frame_of(frame_count@, entry@, profiles@, local_offset as int));
        r
    }

    pub fn frame_count(&self) -> (r: &String)
        ensures
            r == &self.frame_count,
    {
        &self.frame_count
    }

    pub fn exif_tags(&self) -> (r: &Vec<ExifTag>)
        ensures
            r == &self.exif_tags,
    {
        &self.exif_tags
    }

    pub fn associated_camera(&self) -> (r: Option<&String>)
        ensures
            match first_camera_tag(self@.entry.tags) {
                None => r is None,
                Some(t) => r matches Some(s) && s@ == t,
            },
    {
        first_camera(&self.entry.tags)
    }

    /// Adds every tag of the frame, with `local_offset` as the machine's
    /// offset from UTC.
    pub fn populate_tags_at(&mut self, profiles: &CameraProfileMap, local_offset: i32)
        requires
            frame_count_ok(old(self).frame_count@),
            tags_processable(old(self)@.entry.tags),
            -86400 < local_offset < 86400,
        ensures
            final(self)@ == populated_frame(old(self)@, profiles@, local_offset as int),
    {
        let munged = self.munge_date_with_framecount_at(local_offset);
        let munged_datetime_tag = munged.to_exif_tag("DateTimeOriginal");
        self.exif_tags.push(munged_datetime_tag);
        self.populate_caption_from_text();
        self.populate_location_tags();
        self.populate_from_entry_tags(profiles);
        assert(final(self)@.exif_tags =~= old(self)@.exif_tags + seq![
            str_tag(
                "DateTimeOriginal"@,
                munged_datetime(
                    old(self)@.frame_count,
                    old(self)@.entry.entry_date,
                    old(self)@.entry.location,
                    local_offset as int,
                ),
            ),
        ] + caption_tags(old(self)@.entry.text) + location_tags(old(self)@.entry.location)
            + all_tag_exif(old(self)@.entry.tags) + profile_tags(
            profiles@,
            last_tag_with(old(self)@.entry.tags, "camera:"@),
            last_tag_with(old(self)@.entry.tags, "lens:"@),
        ) + seq![
            ExifTagView {
                name: "Keywords"@,
                value: TagValueView::List(keyword_tags(old(self)@.entry.tags)),
            },
        ]);
    }

    /// Adds every tag of the frame; a date without a known zone is written
    /// in the machine's offset at the time of the call.
    pub fn populate_tags(&mut self, profiles: &CameraProfileMap)
        requires
            frame_count_ok(old(self).frame_count@),
            tags_processable(old(self)@.entry.tags),
        ensures
            exists|o: int|
                -86400 < o < 86400 && final(self)@ == (FrameView {
                    entry: MetadataEntryView {
                        tags: keyword_tags(old(self)@.entry.tags),
                        ..old(self)@.entry
                    },
                    exif_tags: old(self)@.exif_tags + seq![
                        str_tag(
                            "DateTimeOriginal"@,
                            #[trigger] munged_datetime(
                                old(self)@.frame_count,
                                old(self)@.entry.entry_date,
                                old(self)@.entry.location,
                                o,
                            ),
                        ),
                    ] + caption_tags(old(self)@.entry.text) + location_tags(old(self)@.entry.location)
                        + all_tag_exif(old(self)@.entry.tags) + profile_tags(
                        profiles@,
                        last_tag_with(old(self)@.entry.tags, "camera:"@),
                        last_tag_with(old(self)@.entry.tags, "lens:"@),
                    ) + seq![
                        ExifTagView {
                            name: "Keywords"@,
                            value: TagValueView::List(keyword_tags(old(self)@.entry.tags)),
                        },
                    ],
                    ..old(self)@
                }),
    {
        let local_offset = local_offset_now();
        self.populate_tags_at(profiles, local_offset);
    }

    /// Adds the caption: the text after the headline, when there is any.
    pub fn populate_caption_from_text(&mut self)
        ensures
            final(self)@ == (FrameView {
                exif_tags: old(self)@.exif_tags + caption_tags(old(self)@.entry.text),
                ..old(self)@
            }),
    {
        let cs = chars_of(self.entry.text.as_str());
        let ls = lines_of(&cs);
        let ghost lv = ls@.map_values(|l: Vec<char>| l@);
        let mut caption: Vec<char> = Vec::new();
        if ls.len() > 0 {
            let mut i: usize = 1;
            assert(lv.subrange(1, 1) =~= Seq::<Seq<char>>::empty());
            while i < ls.len()
                invariant
                    1 <= i <= ls.len(),
                    lv == ls@.map_values(|l: Vec<char>| l@),
                    caption@ == joined_with_newlines(lv.subrange(1, i as int)),
                decreases ls.len() - i,
            {
                caption.push('\n');
                append_chars(&mut caption, &ls[i]);
                i = i + 1;
                assert(lv.subrange(1, i as int).drop_last() =~= lv.subrange(1, i - 1));
                assert(lv[i - 1] == ls@[i - 1]@);
            }
            assert(lv.subrange(1, ls.len() as int) =~= lv.drop_first());
        }
        if caption.len() > 0 {
            let text_tag = string_tag("UserComment", &caption);
            self.exif_tags.push(text_tag);
        }
        assert(tags_view(self.exif_tags@) =~= old(self)@.exif_tags + caption_tags(
            old(self)@.entry.text,
        ));
    }

    /// Adds position, country and state from the frame's place.
    pub fn populate_location_tags(&mut self)
        ensures
            final(self)@ == (FrameView {
                exif_tags: old(self)@.exif_tags + location_tags(old(self)@.entry.location),
                ..old(self)@
            }),
    {
        match &self.entry.location {
            None => {},
            Some(location) => {
                match &location.region {
                    None => {},
                    Some(region) => {
                        let lat = FloatValue::Bits(region.center.latitude);
                        let lon = FloatValue::Bits(region.center.longitude);
                        let radius = FloatValue::WidenedBits(region.radius);
                        let gps_lat_tag = lat.to_exif_tag("GPSLatitude");
                        let gps_lon_tag = lon.to_exif_tag("GPSLongitude");
                        let gps_hpos_error_tag = radius.to_exif_tag("GPSHPositioningError");
                        self.exif_tags.push(gps_lat_tag);
                        self.exif_tags.push(gps_lon_tag);
                        self.exif_tags.push(gps_hpos_error_tag);
                    },
                }
                match &location.country {
                    None => {},
                    Some(country) => {
                        let country_tag = country.to_exif_tag("Country");
                        self.exif_tags.push(country_tag);
                    },
                }
                match &location.administrative_area {
                    None => {},
                    Some(admin_area) => {
                        let admin_area_tag = admin_area.to_exif_tag("State");
                        self.exif_tags.push(admin_area_tag);
                    },
                }
            },
        }
        assert(tags_view(self.exif_tags@) =~= old(self)@.exif_tags + location_tags(
            old(self)@.entry.location,
        ));
    }
}

impl FrameEntry {
    /// The frame's `DateTimeOriginal`, with `local_offset` as the machine's
    /// offset from UTC.
    pub fn munge_date_with_framecount_at(&self, local_offset: i32) -> (r: String)
        requires
            frame_count_ok(self.frame_count@),
            -86400 < local_offset < 86400,
        ensures
            r@ == munged_datetime(
                self@.frame_count,
                self@.entry.entry_date,
                self@.entry.location,
                local_offset as int,
            ),
    {
        let secs = self.entry.entry_date.utc_seconds();
        let offset = self.entry.entry_date.offset_seconds();
        let nanos = self.entry.entry_date.nanoseconds();
        let fc = chars_of(self.frame_count.as_str());
        let munged: i64 = match parse_u32_chars(&fc) {
            Some(n) => {
                let local = secs + offset as i64;
                let second = ((local % 60) + 60) % 60;
                assert(second == (secs + offset) % 60) by (nonlinear_arith)
                    requires
                        local == secs + offset,
                        second == ((local % 60) + 60) % 60,
                ;
                secs - second + n as i64
            },
            None => secs,
        };
        let zone: i32 = match &self.entry.location {
            Some(location) => match &location.time_zone_name {
                Some(name) => match named_zone_offset(name.as_str(), munged) {
                    Some(z) => z,
                    None => local_offset,
                },
                None => local_offset,
            },
            None => local_offset,
        };
        format_date(munged, nanos, zone, "%Y:%m:%d %H:%M:%S")
    }

    /// The frame's `DateTimeOriginal`: its date with the seconds set to the
    /// frame number, written in its place's zone or else in the machine's
    /// offset at the time of the call.
    pub fn munge_date_with_framecount(&self) -> (r: String)
        requires
            frame_count_ok(self.frame_count@),
        ensures
            exists|o: int|
                -86400 < o < 86400 && r@ == #[trigger] munged_datetime(
                    self@.frame_count,
                    self@.entry.entry_date,
                    self@.entry.location,
                    o,
                ),
    {
        let local_offset = local_offset_now();
        self.munge_date_with_framecount_at(local_offset)
    }

    /// Turns shutter-speed, aperture and lens keywords into tags, adds the
    /// profile tags of the camera and lens named, drops the keywords that
    /// were turned into tags or that only mark the workflow, renames film
    /// formats, and adds the remaining keywords as a tag.
    pub fn populate_from_entry_tags(&mut self, profiles: &CameraProfileMap)
        requires
            tags_processable(old(self)@.entry.tags),
        ensures
            final(self)@ == (FrameView {
                entry: MetadataEntryView { tags: keyword_tags(old(self)@.entry.tags), ..old(self)@.entry },
                exif_tags: old(self)@.exif_tags + all_tag_exif(old(self)@.entry.tags) + profile_tags(
                    profiles@,
                    last_tag_with(old(self)@.entry.tags, "camera:"@),
                    last_tag_with(old(self)@.entry.tags, "lens:"@),
                ) + seq![
                    ExifTagView {
                        name: "Keywords"@,
                        value: TagValueView::List(keyword_tags(old(self)@.entry.tags)),
                    },
                ],
                ..old(self)@
            }),
    {
        let mut tags: Vec<String> = Vec::new();
        std::mem::swap(&mut tags, &mut self.entry.tags);
        let ghost tv = strings_view(tags@);
        assert(tv == old(self)@.entry.tags);
        let ghost start = tags_view(self.exif_tags@);
        let ghost ent = self@.entry;
        let ghost fc = self@.frame_count;
        let mut kept: Vec<String> = Vec::new();
        let mut found_camera_tag: Option<String> = None;
        let mut found_lens_tag: Option<String> = None;
        let mut i: usize = 0;
        while i < tags.len()
            invariant
                i <= tags.len(),
                tv == strings_view(tags@),
                tags_processable(tv),
                self@.entry == ent,
                self@.frame_count == fc,
                tags_view(self.exif_tags@) == start + all_tag_exif(tv.take(i as int)),
                strings_view(kept@) == keyword_tags(tv.take(i as int)),
                opt_view(found_camera_tag) == last_tag_with(tv.take(i as int), "camera:"@),
                opt_view(found_lens_tag) == last_tag_with(tv.take(i as int), "lens:"@),
            decreases tags.len() - i,
        {
            let tag = &tags[i];
            let ghost t = tv[i as int];
            assert(tag_processable(t));
            assert(tv.take(i + 1).drop_last() =~= tv.take(i as int));
            assert(tv.take(i + 1).last() == t);
            let tc = chars_of(tag.as_str());
            assert(tag@ == t);
            assert(tc@ == t);
            proof {
                reveal_strlit("f/");
            }
            let ghost before = tags_view(self.exif_tags@);
            if shutter_tag(&tc) {
                let shutter_speed = sub_chars(&tc, 0, tc.len() - 1);
                assert(shutter_speed@ =~= t.drop_last());
                self.exif_tags.push(string_tag("ExposureTime", &shutter_speed));
                assert(tags_view(self.exif_tags@) =~= before + tag_exif(t));
            } else {
                let is_aperture = if starts_with_str(tag.as_str(), "f/") {
                    let rest = sub_chars(&tc, 2, tc.len());
                    assert(rest@ =~= t.skip(2));
                    if chars_parse_as_float(&rest) {
                        let f_number = FloatValue::ParsedSingle(string_of(&rest));
                        self.exif_tags.push(f_number.to_exif_tag("FNumber"));
                        true
                    } else {
                        false
                    }
                } else {
                    false
                };
                assert(is_aperture == is_aperture_tag(t));
                if !is_aperture {
                    if starts_with_str(tag.as_str(), "lens:") {
                        found_lens_tag = Some(tag.clone());
                        match focal_length_digits(&tc) {
                            Some(d) => {
                                let focal_length = FloatValue::ParsedDouble(string_of(&d));
                                self.exif_tags.push(focal_length.to_exif_tag("FocalLength"));
                            },
                            None => {},
                        }
                    }
                    if starts_with_str(tag.as_str(), "camera:") {
                        found_camera_tag = Some(tag.clone());
                    }
                    if !(str_eq(tag.as_str(), "unindexed") || str_eq(tag.as_str(), "scanned")) {
                        kept.push(film_renamed(tag));
                    }
                }
                assert(tags_view(self.exif_tags@) =~= before + tag_exif(t));
            }
            i = i + 1;
        }
        assert(tv.take(tags.len() as int) =~= tv);
        self.populate_from_camera_profile(profiles, found_camera_tag, found_lens_tag);
        let keyword_tag = kept.to_exif_tag("Keywords");
        self.exif_tags.push(keyword_tag);
        self.entry.tags = kept;
        assert(final(self)@.exif_tags =~= old(self)@.exif_tags + all_tag_exif(
            old(self)@.entry.tags,
        ) + profile_tags(
            profiles@,
            last_tag_with(old(self)@.entry.tags, "camera:"@),
            last_tag_with(old(self)@.entry.tags, "lens:"@),
        ) + seq![
            ExifTagView {
                name: "Keywords"@,
                value: TagValueView::List(keyword_tags(old(self)@.entry.tags)),
            },
        ]);
    }

    /// Adds the tags of the camera and lens profiles, when both tags are
    /// given and both profiles exist.
    pub fn populate_from_camera_profile(
        &mut self,
        profiles: &CameraProfileMap,
        camera_tag: Option<String>,
        lens_tag: Option<String>,
    )
        ensures
            final(self)@ == (FrameView {
                exif_tags: old(self)@.exif_tags + profile_tags(
                    profiles@,
                    opt_view(camera_tag),
                    opt_view(lens_tag),
                ),
                ..old(self)@
            }),
    {
        let ghost start = tags_view(self.exif_tags@);
        match profiles.get_profile(camera_tag, lens_tag) {
            None => {
                assert(tags_view(self.exif_tags@) =~= start + profile_tags(
                    profiles@,
                    opt_view(camera_tag),
                    opt_view(lens_tag),
                ));
            },
            Some((camera_profile, lens_profile)) => {
                let min_focal_length = string_tag(
                    "MinFocalLength",
                    &focal_chars(lens_profile.min_focal_length_mm),
                );
                let max_focal_length = string_tag(
                    "MaxFocalLength",
                    &focal_chars(lens_profile.max_focal_length_mm),
                );
                let max_aperture = lens_profile.max_aperture_apex.to_exif_tag("MaxAperture");
                let max_aperture_at_short = string_tag(
                    "MaxApertureAtMinFocal",
                    &aperture_chars(&lens_profile.max_aperture_at_short),
                );
                let max_aperture_at_long = string_tag(
                    "MaxApertureAtMaxFocal",
                    &aperture_chars(&lens_profile.max_aperture_at_long),
                );
                let lens_model = lens_profile.name.to_exif_tag("LensModel");
                let camera_label = camera_profile.name.to_exif_tag("CameraLabel");
                self.exif_tags.push(lens_model);
                self.exif_tags.push(camera_label);
                self.exif_tags.push(min_focal_length);
                self.exif_tags.push(max_focal_length);
                self.exif_tags.push(max_aperture);
                self.exif_tags.push(max_aperture_at_short);
                self.exif_tags.push(max_aperture_at_long);
                let ghost mid = tags_view(self.exif_tags@);
                push_pair_tags(&mut self.exif_tags, &lens_profile.exif_tags);
                push_pair_tags(&mut self.exif_tags, &camera_profile.exif_tags);
                assert(tags_view(self.exif_tags@) =~= start + profile_tags(
                    profiles@,
                    opt_view(camera_tag),
                    opt_view(lens_tag),
                ));
            },
        }
    }
}

fn push_pair_tags(tags: &mut Vec<ExifTag>, pairs: &Option<Vec<(String, String)>>)
    ensures
        tags_view(final(tags)@) == tags_view(old(tags)@) + pair_tags(
            crate::camera_profiles::opt_pairs_view(*pairs),
        ),
{
    let ghost start = tags_view(tags@);
    match pairs {
        None => {
            assert(tags_view(tags@) =~= start + pair_tags(
                crate::camera_profiles::opt_pairs_view(*pairs),
            ));
        },
        Some(ps) => {
            let ghost pv = pairs_view(ps@);
            let mut i: usize = 0;
            while i < ps.len()
                invariant
                    i <= ps.len(),
                    pv == pairs_view(ps@),
                    tags_view(tags@) == start + pv.take(i as int).map_values(
                        |p: (Seq<char>, Seq<char>)| str_tag(p.0, p.1),
                    ),
                decreases ps.len() - i,
            {
                let (tag, value) = &ps[i];
                let exif_tag = value.to_exif_tag(tag.as_str());
                let ghost before = tags_view(tags@);
                tags.push(exif_tag);
                i = i + 1;
                assert(tags_view(tags@) =~= before.push(str_tag(pv[i - 1].0, pv[i - 1].1)));
                assert(pv.take(i as int).map_values(|p: (Seq<char>, Seq<char>)| str_tag(p.0, p.1))
                    =~= pv.take(i - 1).map_values(|p: (Seq<char>, Seq<char>)| str_tag(p.0, p.1)).push(
                    str_tag(pv[i - 1].0, pv[i - 1].1),
                ));
            }
            assert(pv.take(ps.len() as int) =~= pv);
        },
    }
}


// ---------------------------------------------------------------------------
// Leaders and frames together
// ---------------------------------------------------------------------------

/// An entry of the journal: a leader, which starts a roll, or a frame.
#[derive(Debug)]
pub enum MetadataEntryType {
    Leader(LeaderEntry),
    Frame(FrameEntry),
}

pub enum EntryTypeView {
    Leader(LeaderView),
    Frame(FrameView),
}

impl View for MetadataEntryType {
    type V = EntryTypeView;

    open spec fn view(&self) -> EntryTypeView {
        match self {
            MetadataEntryType::Leader(l) => EntryTypeView::Leader(l@),
            MetadataEntryType::Frame(f) => EntryTypeView::Frame(f@),
        }
    }
}

impl EntryTypeView {
    /// The entry of a leader or a frame.
    pub open spec fn entry(self) -> MetadataEntryView {
        match self {
            EntryTypeView::Leader(l) => l.entry,
            EntryTypeView::Frame(f) => f.entry,
        }
    }

    /// The same leader or frame with one more tag.
    pub open spec fn with_tag(self, t: Seq<char>) -> EntryTypeView {
        match self {
            EntryTypeView::Leader(l) => EntryTypeView::Leader(
                LeaderView { entry: MetadataEntryView { tags: l.entry.tags.push(t), ..l.entry }, ..l },
            ),
            EntryTypeView::Frame(f) => EntryTypeView::Frame(
                FrameView { entry: MetadataEntryView { tags: f.entry.tags.push(t), ..f.entry }, ..f },
            ),
        }
    }
}

/// Whether an entry can be read: a frame's number is below 60 and its
/// keywords are ones the tag processing can take.
pub open spec fn entry_processable(e: ExportEntryView) -> bool {
    let fc = frame_count_of(e.text);
    fc.len() > 0 ==> frame_count_ok(fc) && tags_processable(metadata_entry_of(e).tags)
}

/// A leader when the headline gives no frame number, else a frame.
pub open spec fn entry_type_of(
    e: ExportEntryView,
    profiles: Map<Seq<char>, CameraEntryView>,
    local: int,
) -> EntryTypeView {
    let fc = frame_count_of(e.text);
    if fc.len() == 0 {
        EntryTypeView::Leader(leader_of(e))
    } else {
        EntryTypeView::Frame(frame_of(fc, e, profiles, local))
    }
}

/// Whether the tag processing can take a keyword.
pub fn tag_is_processable(t: &String) -> (r: bool)
    ensures
        r == tag_processable(t@),
{
    let tc = chars_of(t.as_str());
    proof {
        reveal_strlit("f/");
    }
    let shutter = shutter_tag(&tc);
    if shutter && !(tc.len() > 0 && tc[tc.len() - 1] == 's') {
        return false;
    }
    let aperture = if starts_with_str(t.as_str(), "f/") {
        let rest = sub_chars(&tc, 2, tc.len());
        assert(rest@ =~= t@.skip(2));
        chars_parse_as_float(&rest)
    } else {
        false
    };
    if !shutter && !aperture && starts_with_str(t.as_str(), "lens:") {
        match focal_length_digits(&tc) {
            Some(d) => crate::text::chars_all_ascii_digits(&d),
            None => true,
        }
    } else {
        true
    }
}

/// Whether a frame number can be put in the seconds of a date.
pub fn frame_count_is_ok(frame_count: &String) -> (r: bool)
    ensures
        r == frame_count_ok(frame_count@),
{
    match parse_u32_chars(&chars_of(frame_count.as_str())) {
        Some(n) => n < 60,
        None => true,
    }
}

/// Whether the tag processing can take every keyword.
pub fn tags_are_processable(tags: &Vec<String>) -> (r: bool)
    ensures
        r == tags_processable(strings_view(tags@)),
{
    let ghost tv = strings_view(tags@);
    let mut i: usize = 0;
    while i < tags.len()
        invariant
            i <= tags.len(),
            tv == strings_view(tags@),
            forall|k: int| 0 <= k < i ==> tag_processable(#[trigger] tv[k]),
        decreases tags.len() - i,
    {
        if !tag_is_processable(&tags[i]) {
            assert(tv[i as int] == tags@[i as int]@);
            return false;
        }
        i = i + 1;
    }
    true
}

/// Whether an entry can be read (see `entry_processable`).
pub fn entry_is_processable(entry: &DayOneExportEntry) -> (r: bool)
    ensures
        r == entry_processable(entry@),
{
    let fc = parse_frame_count(entry.text.as_str());
    if chars_of(fc.as_str()).len() == 0 {
        return true;
    }
    if !frame_count_is_ok(&fc) {
        return false;
    }
    let m = MetadataEntry::new(entry);
    tags_are_processable(&m.tags)
}

/// The profiles looked up by camera tag, as `CameraProfileMap::new` makes them.
pub open spec fn profiles_of(o: Option<Vec<CameraLensProfile>>) -> Map<Seq<char>, CameraEntryView> {
    match o {
        None => Map::<Seq<char>, CameraEntryView>::empty(),
        Some(v) => camera_map(v@),
    }
}

impl MetadataEntryType {
    /// The leader or frame made of an export entry, with `local_offset` as
    /// the machine's offset from UTC.
    pub fn new_at(entry: &DayOneExportEntry, profiles: &CameraProfileMap, local_offset: i32) -> (r:
        MetadataEntryType)
        requires
            entry_processable(entry@),
            -86400 < local_offset < 86400,
        ensures
            r@ == entry_type_of(entry@, profiles@, local_offset as int),
    {
        let frame_count = parse_frame_count(entry.text.as_str());
        let fcc = chars_of(frame_count.as_str());
        if fcc.len() == 0 {
            MetadataEntryType::Leader(LeaderEntry::new(entry))
        } else {
            MetadataEntryType::Frame(FrameEntry::new_at(frame_count, entry, profiles, local_offset))
        }
    }

    /// The leader or frame made of an export entry; dates without a known
    /// zone are written in the machine's offset at the time of the call.
    pub fn new(entry: &DayOneExportEntry, profiles: &CameraProfileMap) -> (r: MetadataEntryType)
        requires
            entry_processable(entry@),
        ensures
            exists|o: int| -86400 < o < 86400 && r@ == #[trigger] entry_type_of(entry@, profiles@, o),
    {
        let local_offset = local_offset_now();
        let r = MetadataEntryType::new_at(entry, profiles, local_offset);
        assert(r@ == entry_type_of(entry@, profiles@, local_offset as int));
        r
    }

    pub fn entry(&self) -> (r: &MetadataEntry)
        ensures
            r@ == self@.entry(),
    {
        match self {
            MetadataEntryType::Leader(leader) => &leader.entry,
            MetadataEntryType::Frame(frame) => &frame.entry,
        }
    }

    /// Adds a tag to the entry.
    pub fn push_tag(&mut self, tag: String)
        ensures
            final(self)@ == old(self)@.with_tag(tag@),
    {
        match self {
            MetadataEntryType::Leader(leader) => {
                leader.entry.tags.push(tag);
                assert(strings_view(leader.entry.tags@) =~= old(self)@.entry().tags.push(tag@));
            },
            MetadataEntryType::Frame(frame) => {
                frame.entry.tags.push(tag);
                assert(strings_view(frame.entry.tags@) =~= old(self)@.entry().tags.push(tag@));
            },
        }
    }
}

pub open spec fn entry_types_view(v: Seq<MetadataEntryType>) -> Seq<EntryTypeView> {
    v.map_values(|e: MetadataEntryType| e@)
}

/// The entries of an export, with `local_offset` as the machine's offset
/// from UTC.
pub fn to_metadata_entries_at(
    json: &DayOneExport,
    camera_profiles: Option<Vec<CameraLensProfile>>,
    local_offset: i32,
) -> (r: Vec<MetadataEntryType>)
    requires
        forall|i: int| 0 <= i < json.entries@.len() ==> entry_processable(#[trigger] json.entries@[i]@),
        -86400 < local_offset < 86400,
    ensures
        r@.len() == json.entries@.len(),
        forall|i: int|
            0 <= i < r@.len() ==> #[trigger] r@[i]@ == entry_type_of(
                json.entries@[i]@,
                profiles_of(camera_profiles),
                local_offset as int,
            ),
{
    let ghost pm = profiles_of(camera_profiles);
    let profiles = CameraProfileMap::new(camera_profiles);
    let mut out: Vec<MetadataEntryType> = Vec::new();
    let mut i: usize = 0;
    while i < json.entries.len()
        invariant
            i <= json.entries.len(),
            profiles@ == pm,
            -86400 < local_offset < 86400,
            forall|k: int| 0 <= k < json.entries@.len() ==> entry_processable(#[trigger] json.entries@[k]@),
            out@.len() == i,
            forall|k: int|
                0 <= k < i ==> #[trigger] out@[k]@ == entry_type_of(
                    json.entries@[k]@,
                    pm,
                    local_offset as int,
                ),
        decreases json.entries.len() - i,
    {
        out.push(MetadataEntryType::new_at(&json.entries[i], &profiles, local_offset));
        i = i + 1;
    }
    out
}

pub open spec fn export_entries_view(v: Seq<DayOneExportEntry>) -> Seq<ExportEntryView> {
    v.map_values(|e: DayOneExportEntry| e@)
}

/// The leaders and frames made of export entries, with `local` as the
/// machine's offset.
pub open spec fn entry_types_of(
    es: Seq<ExportEntryView>,
    profiles: Map<Seq<char>, CameraEntryView>,
    local: int,
) -> Seq<EntryTypeView> {
    es.map_values(|e: ExportEntryView| entry_type_of(e, profiles, local))
}

/// The entries of an export; dates without a known zone are written in
/// the machine's offset at the time of the call.
pub fn to_metadata_entries(json: &DayOneExport, camera_profiles: Option<Vec<CameraLensProfile>>) -> (r:
    Vec<MetadataEntryType>)
    requires
        forall|i: int| 0 <= i < json.entries@.len() ==> entry_processable(#[trigger] json.entries@[i]@),
    ensures
        exists|o: int|
            -86400 < o < 86400 && entry_types_view(r@) == #[trigger] entry_types_of(
                export_entries_view(json.entries@),
                profiles_of(camera_profiles),
                o,
            ),
{
    let local_offset = local_offset_now();
    let ghost pm = profiles_of(camera_profiles);
    let r = to_metadata_entries_at(json, camera_profiles, local_offset);
    assert(entry_types_view(r@) =~= entry_types_of(
        export_entries_view(json.entries@),
        pm,
        local_offset as int,
    ));
    r
}

// ---------------------------------------------------------------------------
// Rolls
// ---------------------------------------------------------------------------

/// The entries of one roll of film: its camera tag, its emulsion, its
/// frames and the date it was started.
#[derive(Debug)]
pub struct Roll<'a> {
    camera: String,
    emulsion: String,
    entries: Vec<&'a MetadataEntryType>,
    start_date: Timestamp,
}

pub struct RollView {
    pub camera: Seq<char>,
    pub emulsion: Seq<char>,
    pub entries: Seq<EntryTypeView>,
    pub start_date: InstantView,
}

pub open spec fn entry_refs_view<'a>(v: Seq<&'a MetadataEntryType>) -> Seq<EntryTypeView> {
    v.map_values(|e: &'a MetadataEntryType| e@)
}

impl<'a> View for Roll<'a> {
    type V = RollView;

    closed spec fn view(&self) -> RollView {
        RollView {
            camera: self.camera@,
            emulsion: self.emulsion@,
            entries: entry_refs_view(self.entries@),
            start_date: self.start_date@,
        }
    }
}

/// `{emulsion}_{camera}_{YYYYMMDD}_{idx}.zip`: the emulsion with spaces
/// made `_` and `@` made `-`, the camera tag without `camera:`, both in
/// lower case, and the start date in its own offset.
pub open spec fn roll_filename(r: RollView, idx: nat) -> Seq<char> {
    lowercase(replace_all(replace_all(r.emulsion, seq![' '], seq!['_']), seq!['@'], seq!['-']))
        + seq!['_'] + lowercase(replace_all(r.camera, "camera:"@, Seq::<char>::empty())) + seq!['_']
        + local_compact_date(r.start_date.secs, r.start_date.offset)
        + seq!['_']
        + decimal_text(idx) + ".zip"@
}

impl<'a> Roll<'a> {
    pub fn new(
        start_date: Timestamp,
        camera: String,
        emulsion: String,
        entries: Vec<&'a MetadataEntryType>,
    ) -> (r: Roll<'a>)
        ensures
            r@ == (RollView {
                camera: camera@,
                emulsion: emulsion@,
                entries: entry_refs_view(entries@),
                start_date: start_date@,
            }),
    {
        Roll { camera, emulsion, entries, start_date }
    }

    pub fn entries(&self) -> (r: &Vec<&'a MetadataEntryType>)
        ensures
            entry_refs_view(r@) == self@.entries,
    {
        &self.entries
    }

    /// The roll as an export of its own, in format version 1.0.
    pub fn to_dayone_export(&self) -> (r: DayOneExport)
        ensures
            r.metadata.version@ == "1.0"@,
            r.entries@.len() == self@.entries.len(),
            forall|i: int|
                0 <= i < r.entries@.len() ==> #[trigger] r.entries@[i]@ == self@.entries[i].entry().entry,
    {
        let mut entries: Vec<DayOneExportEntry> = Vec::new();
        let mut i: usize = 0;
        while i < self.entries.len()
            invariant
                i <= self.entries.len(),
                entries@.len() == i,
                forall|k: int|
                    0 <= k < i ==> #[trigger] entries@[k]@ == self@.entries[k].entry().entry,
            decreases self.entries.len() - i,
        {
            let e: &MetadataEntryType = self.entries[i];
            entries.push(e.entry().entry.clone_entry());
            i = i + 1;
        }
        DayOneExport {
            metadata: DayOneExportMetadata { version: string_from_str("1.0") },
            entries,
        }
    }

    /// The name of the roll's archive with number `idx`.
    pub fn cons_filename(&self, idx: usize) -> (r: String)
        ensures
            r@ == roll_filename(self@, idx as nat),
    {
        let mut space: Vec<char> = Vec::new();
        space.push(' ');
        let mut underscore: Vec<char> = Vec::new();
        underscore.push('_');
        let mut at: Vec<char> = Vec::new();
        at.push('@');
        let mut dash: Vec<char> = Vec::new();
        dash.push('-');
        assert(space@ =~= seq![' ']);
        assert(underscore@ =~= seq!['_']);
        assert(at@ =~= seq!['@']);
        assert(dash@ =~= seq!['-']);
        let spaced = replace_chars(&chars_of(self.emulsion.as_str()), &space, &underscore);
        let emulsion = lowercase_chars(&replace_chars(&spaced, &at, &dash));
        let prefix = chars_of("camera:");
        proof {
            reveal_strlit("camera:");
        }
        let camera = lowercase_chars(&replace_chars(&chars_of(self.camera.as_str()), &prefix, &Vec::new()));
        let secs = self.start_date.utc_seconds();
        let nanos = self.start_date.nanoseconds();
        let offset = self.start_date.offset_seconds();
        let date = chars_of(format_date(secs, nanos, offset, "%Y%m%d").as_str());
        let mut out = emulsion;
        out.push('_');
        append_chars(&mut out, &camera);
        out.push('_');
        append_chars(&mut out, &date);
        out.push('_');
        push_decimal(&mut out, idx as u64);
        append_str(&mut out, ".zip");
        assert(out@ =~= roll_filename(self@, idx as nat));
        string_of(&out)
    }
}

} // verus!
