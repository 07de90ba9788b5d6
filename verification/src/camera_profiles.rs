//! Camera and lens profiles: names and extra tags for the cameras and lenses
//! that journal entries mention by tag.

use vstd::prelude::*;

use crate::text::strings_view;

verus! {

/// Extra EXIF tags of a profile, as `(name, value)` pairs.
pub open spec fn pairs_view(v: Seq<(String, String)>) -> Seq<(Seq<char>, Seq<char>)> {
    v.map_values(|p: (String, String)| (p.0@, p.1@))
}

pub open spec fn opt_pairs_view(o: Option<Vec<(String, String)>>) -> Option<
    Seq<(Seq<char>, Seq<char>)>,
> {
    match o {
        None => None,
        Some(v) => Some(pairs_view(v@)),
    }
}

/// A lens as a profile describes it. The apertures are held as they print
/// (`format!("{}", f32)`) together with the APEX value of the widest
/// aperture at the short end, which is what the tags are made of.
#[derive(Debug)]
pub struct LensProfile {
    pub name: String,
    pub tag: String,
    pub min_focal_length_mm: u16,
    pub max_focal_length_mm: u16,
    pub max_aperture_at_short: String,
    pub max_aperture_at_long: String,
    pub max_aperture_apex: i8,
    pub exif_tags: Option<Vec<(String, String)>>,
}

pub struct LensView {
    pub name: Seq<char>,
    pub tag: Seq<char>,
    pub min_focal_length_mm: u16,
    pub max_focal_length_mm: u16,
    pub max_aperture_at_short: Seq<char>,
    pub max_aperture_at_long: Seq<char>,
    pub max_aperture_apex: i8,
    pub exif_tags: Option<Seq<(Seq<char>, Seq<char>)>>,
}

impl View for LensProfile {
    type V = LensView;

    open spec fn view(&self) -> LensView {
        LensView {
            name: self.name@,
            tag: self.tag@,
            min_focal_length_mm: self.min_focal_length_mm,
            max_focal_length_mm: self.max_focal_length_mm,
            max_aperture_at_short: self.max_aperture_at_short@,
            max_aperture_at_long: self.max_aperture_at_long@,
            max_aperture_apex: self.max_aperture_apex,
            exif_tags: opt_pairs_view(self.exif_tags),
        }
    }
}

/// A camera with the lenses used on it.
#[derive(Debug)]
pub struct CameraLensProfile {
    pub name: String,
    pub tag: String,
    pub exif_tags: Option<Vec<(String, String)>>,
    pub lens_profiles: Vec<LensProfile>,
}

/// Lenses keyed by tag; a later lens with the same tag replaces an earlier one.
pub open spec fn lens_map(v: Seq<LensProfile>) -> Map<Seq<char>, LensView>
    decreases v.len(),
{
    if v.len() == 0 {
        Map::empty()
    } else {
        lens_map(v.drop_last()).insert(v.last().tag@, v.last()@)
    }
}

pub struct CameraEntryView {
    pub name: Seq<char>,
    pub lenses: Map<Seq<char>, LensView>,
    pub exif_tags: Option<Seq<(Seq<char>, Seq<char>)>>,
}

/// What a camera profile is looked up as.
pub open spec fn camera_entry_of(p: CameraLensProfile) -> CameraEntryView {
    CameraEntryView {
        name: p.name@,
        lenses: lens_map(p.lens_profiles@),
        exif_tags: opt_pairs_view(p.exif_tags),
    }
}

/// A camera profile ready for lookups.
#[derive(Debug)]
pub struct CameraProfileMapEntry {
    pub name: String,
    pub lens_profiles: Vec<LensProfile>,
    pub exif_tags: Option<Vec<(String, String)>>,
}

impl View for CameraProfileMapEntry {
    type V = CameraEntryView;

    open spec fn view(&self) -> CameraEntryView {
        CameraEntryView {
            name: self.name@,
            lenses: lens_map(self.lens_profiles@),
            exif_tags: opt_pairs_view(self.exif_tags),
        }
    }
}

impl CameraProfileMapEntry {
    pub fn from(item: CameraLensProfile) -> (r: CameraProfileMapEntry)
        ensures
            r@ == camera_entry_of(item),
    {
        CameraProfileMapEntry {
            name: item.name,
            lens_profiles: item.lens_profiles,
            exif_tags: item.exif_tags,
        }
    }

    /// The lens with tag `tag`.
    pub fn get_lens(&self, tag: &String) -> (r: Option<&LensProfile>)
        ensures
            match r {
                None => !self@.lenses.contains_key(tag@),
                Some(l) => self@.lenses.contains_key(tag@) && self@.lenses[tag@] == l@,
            },
    {
        let mut i = self.lens_profiles.len();
        while i > 0
            invariant
                i <= self.lens_profiles.len(),
                forall|j: int|
                    i <= j < self.lens_profiles.len() ==> (#[trigger] self.lens_profiles@[j]).tag@
                        != tag@,
            decreases i,
        {
            i = i - 1;
            if self.lens_profiles[i].tag == *tag {
                proof {
                    lemma_lens_map_last(self.lens_profiles@, tag@, i as int);
                }
                return Some(&self.lens_profiles[i]);
            }
        }
        proof {
            lemma_lens_map_absent(self.lens_profiles@, tag@);
        }
        None
    }
}

proof fn lemma_lens_map_last(v: Seq<LensProfile>, k: Seq<char>, i: int)
    requires
        0 <= i < v.len(),
        v[i].tag@ == k,
        forall|j: int| i < j < v.len() ==> (#[trigger] v[j]).tag@ != k,
    ensures
        lens_map(v).contains_key(k),
        lens_map(v)[k] == v[i]@,
    decreases v.len(),
{
    if i < v.len() - 1 {
        lemma_lens_map_last(v.drop_last(), k, i);
    }
}

proof fn lemma_lens_map_absent(v: Seq<LensProfile>, k: Seq<char>)
    requires
        forall|j: int| 0 <= j < v.len() ==> (#[trigger] v[j]).tag@ != k,
    ensures
        !lens_map(v).contains_key(k),
    decreases v.len(),
{
    if v.len() > 0 {
        lemma_lens_map_absent(v.drop_last(), k);
    }
}

/// Cameras keyed by tag; a later camera with the same tag replaces an
/// earlier one.
pub open spec fn camera_map(v: Seq<CameraLensProfile>) -> Map<Seq<char>, CameraEntryView>
    decreases v.len(),
{
    if v.len() == 0 {
        Map::empty()
    } else {
        camera_map(v.drop_last()).insert(v.last().tag@, camera_entry_of(v.last()))
    }
}

/// The camera profiles in use, looked up by camera tag and lens tag.
pub struct CameraProfileMap {
    tags: Vec<String>,
    cameras: Vec<CameraProfileMapEntry>,
}

pub open spec fn entries_map(tags: Seq<String>, entries: Seq<CameraProfileMapEntry>) -> Map<
    Seq<char>,
    CameraEntryView,
>
    decreases tags.len(),
{
    if tags.len() == 0 || entries.len() == 0 {
        Map::empty()
    } else {
        entries_map(tags.drop_last(), entries.drop_last()).insert(tags.last()@, entries.last()@)
    }
}

impl View for CameraProfileMap {
    type V = Map<Seq<char>, CameraEntryView>;

    closed spec fn view(&self) -> Map<Seq<char>, CameraEntryView> {
        entries_map(self.tags@, self.cameras@)
    }
}

impl CameraProfileMap {
    #[verifier::type_invariant]
    spec fn inv(self) -> bool {
        self.tags.len() == self.cameras.len()
    }

    /// No profiles.
    pub fn empty() -> (r: CameraProfileMap)
        ensures
            r@ == Map::<Seq<char>, CameraEntryView>::empty(),
    {
        CameraProfileMap { tags: Vec::new(), cameras: Vec::new() }
    }

    /// The profiles, keyed by camera tag; none when there are no profiles.
    pub fn new(maybe_camera_profiles: Option<Vec<CameraLensProfile>>) -> (r: CameraProfileMap)
        ensures
            r@ == match maybe_camera_profiles {
                None => Map::<Seq<char>, CameraEntryView>::empty(),
                Some(v) => camera_map(v@),
            },
    {
        match maybe_camera_profiles {
            None => CameraProfileMap::empty(),
            Some(camera_profiles) => {
                let ghost all = camera_profiles@;
                let mut rest = camera_profiles;
                let mut taken: Vec<CameraLensProfile> = Vec::new();
                // Reverse the list, so that the profiles can be moved out in order.
                while rest.len() > 0
                    invariant
                        all == rest@ + taken@.reverse(),
                    decreases rest.len(),
                {
                    let p = rest.pop().unwrap();
                    taken.push(p);
                    assert(all =~= rest@ + taken@.reverse());
                }
                let mut tags: Vec<String> = Vec::new();
                let mut cameras: Vec<CameraProfileMapEntry> = Vec::new();
                let ghost n = all.len();
                assert(all.skip(0) =~= taken@.reverse());
                while taken.len() > 0
                    invariant
                        tags.len() == cameras.len(),
                        tags.len() + taken.len() == n,
                        n == all.len(),
                        taken@.reverse() == all.skip(tags.len() as int),
                        entries_map(tags@, cameras@) == camera_map(all.take(tags.len() as int)),
                    decreases taken.len(),
                {
                    let ghost k = tags.len() as int;
                    let ghost before = taken@;
                    let p = taken.pop().unwrap();
                    assert(p == before.reverse()[0]);
                    assert(all.skip(k)[0] == all[k]);
                    assert(taken@.reverse() =~= all.skip(k + 1)) by {
                        assert(before =~= taken@.push(p));
                        assert forall|j: int| 0 <= j < taken@.len() implies taken@.reverse()[j]
                            == all.skip(k + 1)[j] by {
                            assert(before.reverse()[j + 1] == all.skip(k)[j + 1]);
                        }
                    }
                    let ghost tags_before = tags@;
                    let ghost cameras_before = cameras@;
                    tags.push(p.tag.clone());
                    cameras.push(CameraProfileMapEntry::from(p));
                    assert(all.take(k + 1).drop_last() =~= all.take(k));
                    assert(tags@.drop_last() =~= tags_before);
                    assert(cameras@.drop_last() =~= cameras_before);
                }
                assert(all.take(n as int) =~= all);
                CameraProfileMap { tags, cameras }
            },
        }
    }

    /// The camera entry for `tag`.
    fn get_camera(&self, tag: &String) -> (r: Option<&CameraProfileMapEntry>)
        ensures
            match r {
                None => !self@.contains_key(tag@),
                Some(e) => self@.contains_key(tag@) && self@[tag@] == e@,
            },
    {
        proof {
            use_type_invariant(self);
        }
        let mut i = self.tags.len();
        while i > 0
            invariant
                i <= self.tags.len(),
                self.tags.len() == self.cameras.len(),
                forall|j: int| i <= j < self.tags.len() ==> (#[trigger] self.tags@[j])@ != tag@,
            decreases i,
        {
            i = i - 1;
            if self.tags[i] == *tag {
                proof {
                    lemma_entries_map_last(self.tags@, self.cameras@, tag@, i as int);
                }
                return Some(&self.cameras[i]);
            }
        }
        proof {
            lemma_entries_map_absent(self.tags@, self.cameras@, tag@);
        }
        None
    }

    /// The camera and lens profiles for a camera tag and a lens tag, when
    /// both tags are given and both profiles exist.
    pub fn get_profile(
        &self,
        maybe_camera_tag: Option<String>,
        maybe_lens_tag: Option<String>,
    ) -> (r: Option<(&CameraProfileMapEntry, &LensProfile)>)
        ensures
            match (maybe_camera_tag, maybe_lens_tag) {
                (Some(c), Some(l)) => if self@.contains_key(c@) && self@[c@].lenses.contains_key(
                    l@,
                ) {
                    r matches Some((e, p)) && e@ == self@[c@] && p@ == self@[c@].lenses[l@]
                } else {
                    r is None
                },
                _ => r is None,
            },
    {
        match (maybe_camera_tag, maybe_lens_tag) {
            (Some(camera_tag), Some(lens_tag)) => match self.get_camera(&camera_tag) {
                Some(camera_profile) => match camera_profile.get_lens(&lens_tag) {
                    Some(lens_profile) => Some((camera_profile, lens_profile)),
                    None => None,
                },
                None => None,
            },
            _ => None,
        }
    }
}

impl Default for CameraProfileMap {
    /// No profiles.
    fn default() -> (r: CameraProfileMap)
        ensures
            r@ == Map::<Seq<char>, CameraEntryView>::empty(),
    {
        CameraProfileMap::empty()
    }
}

proof fn lemma_entries_map_last(
    tags: Seq<String>,
    entries: Seq<CameraProfileMapEntry>,
    k: Seq<char>,
    i: int,
)
    requires
        tags.len() == entries.len(),
        0 <= i < tags.len(),
        tags[i]@ == k,
        forall|j: int| i < j < tags.len() ==> (#[trigger] tags[j])@ != k,
    ensures
        entries_map(tags, entries).contains_key(k),
        entries_map(tags, entries)[k] == entries[i]@,
    decreases tags.len(),
{
    if i < tags.len() - 1 {
        lemma_entries_map_last(tags.drop_last(), entries.drop_last(), k, i);
    }
}

proof fn lemma_entries_map_absent(tags: Seq<String>, entries: Seq<CameraProfileMapEntry>, k: Seq<char>)
    requires
        tags.len() == entries.len(),
        forall|j: int| 0 <= j < tags.len() ==> (#[trigger] tags[j])@ != k,
    ensures
        !entries_map(tags, entries).contains_key(k),
    decreases tags.len(),
{
    if tags.len() > 0 {
        lemma_entries_map_absent(tags.drop_last(), entries.drop_last(), k);
    }
}

} // verus!
