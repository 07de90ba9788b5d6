//! The journal as rolls of film: splitting a camera's entries into rolls,
//! grouping entries by camera, and matching scan files to frames.

use vstd::prelude::*;

use crate::models::{
    clone_opt_string, entry_refs_view, entry_types_view, first_camera_tag, opt_view,
    EntryTypeView, MetadataEntryType, Roll, RollView,
};
use crate::journal::{frame_suffix, scan_frame_suffix};
use crate::text::{chars_eq, chars_of, str_eq, strings_view};
use crate::time::InstantView;

verus! {

// ---------------------------------------------------------------------------
// Rolls
// ---------------------------------------------------------------------------

/// The camera tag of an entry: its first tag that starts with `camera:`.
pub open spec fn camera_key(e: EntryTypeView) -> Option<Seq<char>> {
    first_camera_tag(e.entry().tags)
}

/// The position of the last leader in `s`; 0 when there is none.
pub open spec fn last_leader(s: Seq<EntryTypeView>) -> int
    decreases s.len(),
{
    if s.len() == 0 {
        0
    } else if s.last() is Leader {
        s.len() - 1
    } else {
        last_leader(s.drop_last())
    }
}

pub open spec fn leader_emulsion_of(e: EntryTypeView) -> Seq<char> {
    match e {
        EntryTypeView::Leader(l) => l.emulsion_name,
        EntryTypeView::Frame(_) => Seq::empty(),
    }
}

pub open spec fn leader_date_of(e: EntryTypeView) -> InstantView {
    match e {
        EntryTypeView::Leader(l) => l.entry_date,
        EntryTypeView::Frame(f) => f.entry.entry_date,
    }
}

pub proof fn lemma_last_leader_bounds(s: Seq<EntryTypeView>)
    requires
        s.len() > 0,
    ensures
        0 <= last_leader(s) < s.len(),
    decreases s.len(),
{
    if !(s.last() is Leader) {
        if s.len() > 1 {
            lemma_last_leader_bounds(s.drop_last());
        } else {
            assert(last_leader(s.drop_last()) == 0);
        }
    }
}

/// The rolls of one camera's entries `s`: each leader starts a roll that
/// holds it and the frames up to the next leader, named after the
/// leader's emulsion and dated by it.
pub open spec fn rolls_of(s: Seq<EntryTypeView>, camera: Seq<char>) -> Seq<RollView>
    decreases s.len(),
{
    if s.len() == 0 {
        seq![]
    } else {
        let k = last_leader(s);
        proof {
            lemma_last_leader_bounds(s);
        }
        rolls_of(s.take(k), camera).push(
            RollView {
                camera,
                emulsion: leader_emulsion_of(s[k]),
                entries: s.skip(k),
                start_date: leader_date_of(s[k]),
            },
        )
    }
}

pub open spec fn rolls_view<'a>(v: Seq<Roll<'a>>) -> Seq<RollView> {
    v.map_values(|r: Roll<'a>| r@)
}

/// The last leader of `s` is at `k` when `s[k]` is a leader and only
/// frames follow it.
proof fn lemma_last_leader_is(s: Seq<EntryTypeView>, k: int)
    requires
        0 <= k < s.len(),
        s[k] is Leader,
        forall|j: int| k < j < s.len() ==> !(#[trigger] s[j] is Leader),
    ensures
        last_leader(s) == k,
    decreases s.len(),
{
    if !(s.last() is Leader) {
        lemma_last_leader_is(s.drop_last(), k);
    }
}

/// The entries split into rolls. The first entry must be a leader with a
/// camera tag: its camera names every roll.
pub fn split_metadata_rolls<'a>(metadata_entries: &Vec<&'a MetadataEntryType>) -> (r: Vec<Roll<'a>>)
    requires
        metadata_entries@.len() > 0,
        entry_refs_view(metadata_entries@)[0] is Leader,
        camera_key(entry_refs_view(metadata_entries@)[0]) is Some,
    ensures
        rolls_view(r@) == rolls_of(
            entry_refs_view(metadata_entries@),
            camera_key(entry_refs_view(metadata_entries@)[0])->0,
        ),
{
    let ghost s = entry_refs_view(metadata_entries@);
    let first: &MetadataEntryType = metadata_entries[0];
    let camera = match first.entry().camera_tag() {
        Some(c) => c.clone(),
        None => String::new(),
    };
    let ghost cam = camera_key(s[0])->0;
    assert(camera@ == cam);
    let mut rolls: Vec<Roll<'a>> = Vec::new();
    let mut current_emulsion: String = String::new();
    let mut current_date = match first {
        MetadataEntryType::Leader(leader) => leader.entry_date(),
        MetadataEntryType::Frame(frame) => frame.entry.entry_date,
    };
    let mut current_roll: Vec<&'a MetadataEntryType> = Vec::new();
    let ghost mut start: int = 0;
    let mut i: usize = 0;
    while i < metadata_entries.len()
        invariant
            0 <= i <= metadata_entries.len(),
            s == entry_refs_view(metadata_entries@),
            s[0] is Leader,
            camera@ == cam,
            i == 0 ==> start == 0 && current_roll@.len() == 0,
            i > 0 ==> {
                &&& 0 <= start < i
                &&& s[start] is Leader
                &&& forall|j: int| start < j < i ==> !(#[trigger] s[j] is Leader)
                &&& current_emulsion@ == leader_emulsion_of(s[start])
                &&& current_date@ == leader_date_of(s[start])
                &&& entry_refs_view(current_roll@) == s.subrange(start, i as int)
            },
            rolls_view(rolls@) == rolls_of(s.take(start), cam),
        decreases metadata_entries.len() - i,
    {
        let entry: &'a MetadataEntryType = metadata_entries[i];
        assert(entry@ == s[i as int]);
        match entry {
            MetadataEntryType::Leader(leader) => {
                if current_roll.len() > 0 {
                    let mut taken: Vec<&'a MetadataEntryType> = Vec::new();
                    std::mem::swap(&mut taken, &mut current_roll);
                    let emulsion = current_emulsion.clone();
                    let roll = Roll::new(current_date, camera.clone(), emulsion, taken);
                    proof {
                        let t = s.take(i as int);
                        lemma_last_leader_is(t, start);
                        assert(t.take(start) =~= s.take(start));
                        assert(t.skip(start) =~= s.subrange(start, i as int));
                    }
                    rolls.push(roll);
                    assert(rolls_view(rolls@) =~= rolls_of(s.take(i as int), cam));
                }
                current_emulsion = leader.emulsion();
                current_date = leader.entry_date();
                proof {
                    start = i as int;
                }
                current_roll.push(entry);
                assert(entry_refs_view(current_roll@) =~= s.subrange(start, i + 1));
            },
            MetadataEntryType::Frame(_) => {
                let ghost before = entry_refs_view(current_roll@);
                current_roll.push(entry);
                assert(entry_refs_view(current_roll@) =~= s.subrange(start, i + 1));
            },
        }
        i = i + 1;
    }
    proof {
        lemma_last_leader_is(s, start);
        assert(s.take(s.len() as int) =~= s);
        assert(s.skip(start) =~= s.subrange(start, s.len() as int));
    }
    let roll = Roll::new(current_date, camera.clone(), current_emulsion, current_roll);
    rolls.push(roll);
    assert(rolls_view(rolls@) =~= rolls_of(s, cam));
    rolls
}


/// When `s` starts with a leader, its last leader is one, and only frames
/// follow it.
proof fn lemma_last_leader_shape(s: Seq<EntryTypeView>)
    requires
        s.len() > 0,
        s[0] is Leader,
    ensures
        0 <= last_leader(s) < s.len(),
        s[last_leader(s)] is Leader,
        forall|j: int| last_leader(s) < j < s.len() ==> !(#[trigger] s[j] is Leader),
    decreases s.len(),
{
    lemma_last_leader_bounds(s);
    if !(s.last() is Leader) {
        lemma_last_leader_shape(s.drop_last());
        assert forall|j: int| last_leader(s) < j < s.len() implies !(#[trigger] s[j] is Leader) by {
            if j < s.len() - 1 {
                assert(s[j] == s.drop_last()[j]);
            }
        }
    }
}

/// The number of leaders in `s`.
pub open spec fn leader_count(s: Seq<EntryTypeView>) -> nat
    decreases s.len(),
{
    if s.len() == 0 {
        0
    } else if s.last() is Leader {
        leader_count(s.drop_last()) + 1
    } else {
        leader_count(s.drop_last())
    }
}

proof fn lemma_leader_count_split(s: Seq<EntryTypeView>, k: int)
    requires
        0 <= k < s.len(),
        s[k] is Leader,
        forall|j: int| k < j < s.len() ==> !(#[trigger] s[j] is Leader),
    ensures
        leader_count(s) == leader_count(s.take(k)) + 1,
    decreases s.len(),
{
    if k == s.len() - 1 {
        assert(s.drop_last() =~= s.take(k));
    } else {
        lemma_leader_count_split(s.drop_last(), k);
        assert(s.drop_last().take(k) =~= s.take(k));
    }
}

/// The entries of the rolls, one roll after the other.
pub open spec fn roll_entries(rs: Seq<RollView>) -> Seq<EntryTypeView>
    decreases rs.len(),
{
    if rs.len() == 0 {
        seq![]
    } else {
        roll_entries(rs.drop_last()) + rs.last().entries
    }
}

/// A roll as splitting makes it: a leader first and no other leader, named
/// and dated by that leader, under the camera given.
pub open spec fn roll_well_formed(r: RollView, camera: Seq<char>) -> bool {
    &&& r.entries.len() > 0
    &&& r.entries[0] is Leader
    &&& forall|m: int| 0 < m < r.entries.len() ==> !(#[trigger] r.entries[m] is Leader)
    &&& r.camera == camera
    &&& r.emulsion == leader_emulsion_of(r.entries[0])
    &&& r.start_date == leader_date_of(r.entries[0])
}

/// Splitting entries that start with a leader into rolls loses, adds and
/// reorders no entry: the rolls' entries, one roll after the other, are the
/// entries. There is one roll per leader; every roll starts with its
/// leader, holds no other leader, and is named and dated by that leader.
pub proof fn lemma_rolls_partition(s: Seq<EntryTypeView>, camera: Seq<char>)
    requires
        s.len() > 0,
        s[0] is Leader,
    ensures
        roll_entries(rolls_of(s, camera)) == s,
        rolls_of(s, camera).len() == leader_count(s),
        forall|j: int|
            0 <= j < rolls_of(s, camera).len() ==> roll_well_formed(
                #[trigger] rolls_of(s, camera)[j],
                camera,
            ),
    decreases s.len(),
{
    let k = last_leader(s);
    lemma_last_leader_shape(s);
    lemma_leader_count_split(s, k);
    let rs = rolls_of(s, camera);
    let prev = rolls_of(s.take(k), camera);
    assert(rs.drop_last() =~= prev);
    let last = rs.last();
    assert(last.entries =~= s.skip(k));
    assert(last.entries[0] == s[k]);
    assert forall|m: int| 0 < m < last.entries.len() implies !(#[trigger] last.entries[m] is Leader) by {
        assert(last.entries[m] == s[k + m]);
    }
    if k > 0 {
        lemma_rolls_partition(s.take(k), camera);
        assert(roll_entries(rs) == roll_entries(prev) + s.skip(k));
        assert(s.take(k) + s.skip(k) =~= s);
    } else {
        assert(prev =~= Seq::<RollView>::empty());
        assert(roll_entries(prev) =~= Seq::<EntryTypeView>::empty());
        assert(roll_entries(rs) =~= s);
    }
    assert forall|j: int| 0 <= j < rs.len() implies roll_well_formed(#[trigger] rs[j], camera) by {
        if j < rs.len() - 1 {
            assert(rs[j] == prev[j]);
        }
    }
}


// ---------------------------------------------------------------------------
// Grouping by camera
// ---------------------------------------------------------------------------

/// The camera tags of `s`, each once, in the order they first appear.
pub open spec fn camera_keys(s: Seq<EntryTypeView>) -> Seq<Option<Seq<char>>>
    decreases s.len(),
{
    if s.len() == 0 {
        seq![]
    } else {
        let ks = camera_keys(s.drop_last());
        if ks.contains(camera_key(s.last())) {
            ks
        } else {
            ks.push(camera_key(s.last()))
        }
    }
}

/// The entries of `s` with camera tag `k`, in their order.
pub open spec fn camera_members(s: Seq<EntryTypeView>, k: Option<Seq<char>>) -> Seq<EntryTypeView>
    decreases s.len(),
{
    if s.len() == 0 {
        seq![]
    } else if camera_key(s.last()) == k {
        camera_members(s.drop_last(), k).push(s.last())
    } else {
        camera_members(s.drop_last(), k)
    }
}

pub open spec fn keys_view(v: Seq<Option<String>>) -> Seq<Option<Seq<char>>> {
    v.map_values(|o: Option<String>| opt_view(o))
}

pub open spec fn group_view<'a>(g: (Option<String>, Vec<&'a MetadataEntryType>)) -> (
    Option<Seq<char>>,
    Seq<EntryTypeView>,
) {
    (opt_view(g.0), entry_refs_view(g.1@))
}

fn camera_key_of(e: &MetadataEntryType) -> (r: Option<String>)
    ensures
        opt_view(r) == camera_key(e@),
{
    match e.entry().camera_tag() {
        Some(c) => Some(c.clone()),
        None => None,
    }
}

fn same_key(a: &Option<String>, b: &Option<String>) -> (r: bool)
    ensures
        r == (opt_view(*a) == opt_view(*b)),
{
    match (a, b) {
        (None, None) => true,
        (Some(x), Some(y)) => str_eq(x.as_str(), y.as_str()),
        _ => false,
    }
}

fn camera_keys_of(metadata_entries: &[MetadataEntryType]) -> (r: Vec<Option<String>>)
    ensures
        keys_view(r@) == camera_keys(entry_types_view(metadata_entries@)),
{
    let ghost s = entry_types_view(metadata_entries@);
    let mut keys: Vec<Option<String>> = Vec::new();
    let mut i: usize = 0;
    assert(s.take(0) =~= Seq::<EntryTypeView>::empty());
    while i < metadata_entries.len()
        invariant
            i <= metadata_entries@.len(),
            s == entry_types_view(metadata_entries@),
            keys_view(keys@) == camera_keys(s.take(i as int)),
        decreases metadata_entries.len() - i,
    {
        let k = camera_key_of(&metadata_entries[i]);
        assert(opt_view(k) == camera_key(s[i as int]));
        let ghost kv = keys_view(keys@);
        let mut found = false;
        let mut j: usize = 0;
        while j < keys.len()
            invariant
                j <= keys@.len(),
                kv == keys_view(keys@),
                found <==> exists|m: int| 0 <= m < j && kv[m] == opt_view(k),
            decreases keys.len() - j,
        {
            if same_key(&keys[j], &k) {
                found = true;
            }
            assert(kv[j as int] == opt_view(keys@[j as int]));
            j = j + 1;
        }
        assert(s.take(i + 1).drop_last() =~= s.take(i as int));
        assert(s.take(i + 1).last() == s[i as int]);
        if !found {
            keys.push(k);
            assert(keys_view(keys@) =~= kv.push(opt_view(k)));
        } else {
            assert(kv.contains(opt_view(k)));
        }
        i = i + 1;
    }
    assert(s.take(metadata_entries@.len() as int) =~= s);
    keys
}

fn camera_members_of<'a>(metadata_entries: &'a [MetadataEntryType], key: &Option<String>) -> (r: Vec<
    &'a MetadataEntryType,
>)
    ensures
        entry_refs_view(r@) == camera_members(entry_types_view(metadata_entries@), opt_view(*key)),
{
    let ghost s = entry_types_view(metadata_entries@);
    let mut members: Vec<&'a MetadataEntryType> = Vec::new();
    let mut i: usize = 0;
    assert(s.take(0) =~= Seq::<EntryTypeView>::empty());
    while i < metadata_entries.len()
        invariant
            i <= metadata_entries@.len(),
            s == entry_types_view(metadata_entries@),
            entry_refs_view(members@) == camera_members(s.take(i as int), opt_view(*key)),
        decreases metadata_entries.len() - i,
    {
        let e: &'a MetadataEntryType = &metadata_entries[i];
        let k = camera_key_of(e);
        assert(e@ == s[i as int]);
        assert(s.take(i + 1).drop_last() =~= s.take(i as int));
        assert(s.take(i + 1).last() == s[i as int]);
        if same_key(&k, key) {
            members.push(e);
            assert(entry_refs_view(members@) =~= camera_members(s.take(i as int), opt_view(*key)).push(
                s[i as int],
            ));
        }
        i = i + 1;
    }
    assert(s.take(metadata_entries@.len() as int) =~= s);
    members
}

/// The entries grouped by camera tag: one group per tag (entries without
/// one form a group too), in the order the tags first appear, each with
/// its entries in their order.
pub fn group_entries_by_camera<'a>(metadata_entries: &'a [MetadataEntryType]) -> (r: Vec<
    (Option<String>, Vec<&'a MetadataEntryType>),
>)
    ensures
        r@.len() == camera_keys(entry_types_view(metadata_entries@)).len(),
        forall|j: int|
            0 <= j < r@.len() ==> #[trigger] group_view(r@[j]) == (
                camera_keys(entry_types_view(metadata_entries@))[j],
                camera_members(
                    entry_types_view(metadata_entries@),
                    camera_keys(entry_types_view(metadata_entries@))[j],
                ),
            ),
{
    let ghost s = entry_types_view(metadata_entries@);
    let keys = camera_keys_of(metadata_entries);
    let ghost ks = keys_view(keys@);
    let mut groups: Vec<(Option<String>, Vec<&'a MetadataEntryType>)> = Vec::new();
    let mut j: usize = 0;
    while j < keys.len()
        invariant
            j <= keys@.len(),
            s == entry_types_view(metadata_entries@),
            ks == keys_view(keys@),
            ks == camera_keys(s),
            groups@.len() == j,
            forall|m: int|
                0 <= m < j ==> #[trigger] group_view(groups@[m]) == (ks[m], camera_members(s, ks[m])),
        decreases keys.len() - j,
    {
        let members = camera_members_of(metadata_entries, &keys[j]);
        let key = clone_opt_string(&keys[j]);
        assert(ks[j as int] == opt_view(keys@[j as int]));
        groups.push((key, members));
        j = j + 1;
    }
    groups
}


/// The number of entries in the groups of the keys `ks`.
pub open spec fn members_total(ks: Seq<Option<Seq<char>>>, s: Seq<EntryTypeView>) -> nat
    decreases ks.len(),
{
    if ks.len() == 0 {
        0
    } else {
        members_total(ks.drop_last(), s) + camera_members(s, ks.last()).len()
    }
}

proof fn lemma_keys_shape(s: Seq<EntryTypeView>)
    ensures
        forall|a: int, b: int|
            0 <= a < b < camera_keys(s).len() ==> camera_keys(s)[a] != camera_keys(s)[b],
        forall|i: int| 0 <= i < s.len() ==> camera_keys(s).contains(camera_key(#[trigger] s[i])),
        forall|k: Option<Seq<char>>|
            !camera_keys(s).contains(k) ==> #[trigger] camera_members(s, k).len() == 0,
    decreases s.len(),
{
    if s.len() > 0 {
        let p = s.drop_last();
        lemma_keys_shape(p);
        let ks = camera_keys(s);
        let kp = camera_keys(p);
        assert forall|i: int| 0 <= i < s.len() implies ks.contains(camera_key(#[trigger] s[i])) by {
            if i < s.len() - 1 {
                assert(s[i] == p[i]);
                let w = choose|w: int| 0 <= w < kp.len() && kp[w] == camera_key(p[i]);
                assert(ks[w] == kp[w]);
            } else if kp.contains(camera_key(s.last())) {
            } else {
                assert(ks[ks.len() - 1] == camera_key(s.last()));
            }
        }
        assert forall|k: Option<Seq<char>>| !ks.contains(k) implies #[trigger] camera_members(
            s,
            k,
        ).len() == 0 by {
            if kp.contains(k) {
                let w = choose|w: int| 0 <= w < kp.len() && kp[w] == k;
                assert(ks[w] == kp[w]);
            }
            assert(!kp.contains(k));
            assert(camera_members(p, k).len() == 0);
            if camera_key(s.last()) == k {
                assert(ks.contains(camera_key(s[s.len() - 1])));
            }
            assert(camera_members(s, k) == camera_members(p, k));
        }
    }
}

proof fn lemma_total_step(ks: Seq<Option<Seq<char>>>, s: Seq<EntryTypeView>)
    requires
        s.len() > 0,
        forall|a: int, b: int| 0 <= a < b < ks.len() ==> ks[a] != ks[b],
    ensures
        members_total(ks, s) == members_total(ks, s.drop_last()) + if ks.contains(
            camera_key(s.last()),
        ) {
            1int
        } else {
            0int
        },
    decreases ks.len(),
{
    if ks.len() > 0 {
        let kd = ks.drop_last();
        lemma_total_step(kd, s);
        let x = camera_key(s.last());
        if ks.last() == x {
            assert(!kd.contains(x)) by {
                if kd.contains(x) {
                    let w = choose|w: int| 0 <= w < kd.len() && kd[w] == x;
                    assert(ks[w] == ks[ks.len() - 1]);
                }
            }
        } else {
            if kd.contains(x) {
                let w = choose|w: int| 0 <= w < kd.len() && kd[w] == x;
                assert(ks[w] == x);
            }
            if ks.contains(x) {
                let w = choose|w: int| 0 <= w < ks.len() && ks[w] == x;
                assert(kd[w] == x);
            }
        }
    }
}

/// Grouping by camera is a partition: the camera tags are each listed
/// once, every entry's tag is listed, every group holds only entries with
/// its tag, and the groups hold as many entries as there are.
pub proof fn lemma_camera_groups_partition(s: Seq<EntryTypeView>)
    ensures
        forall|a: int, b: int|
            0 <= a < b < camera_keys(s).len() ==> camera_keys(s)[a] != camera_keys(s)[b],
        forall|i: int| 0 <= i < s.len() ==> camera_keys(s).contains(camera_key(#[trigger] s[i])),
        forall|k: Option<Seq<char>>, m: int|
            0 <= m < camera_members(s, k).len() ==> camera_key(#[trigger] camera_members(s, k)[m])
                == k,
        members_total(camera_keys(s), s) == s.len(),
    decreases s.len(),
{
    lemma_keys_shape(s);
    lemma_members_keyed(s);
    if s.len() > 0 {
        let p = s.drop_last();
        lemma_camera_groups_partition(p);
        lemma_keys_shape(p);
        let x = camera_key(s.last());
        let kp = camera_keys(p);
        lemma_total_step(kp, s);
        if !kp.contains(x) {
            let ks = camera_keys(s);
            assert(ks.drop_last() =~= kp);
            lemma_total_step(ks, s);
            assert(camera_members(p, x).len() == 0);
            assert(ks.contains(x)) by {
                assert(ks[ks.len() - 1] == x);
            }
            assert(members_total(ks, p) == members_total(kp, p) + camera_members(p, x).len());
        }
    }
}

proof fn lemma_members_keyed(s: Seq<EntryTypeView>)
    ensures
        forall|k: Option<Seq<char>>, m: int|
            0 <= m < camera_members(s, k).len() ==> camera_key(#[trigger] camera_members(s, k)[m])
                == k,
    decreases s.len(),
{
    if s.len() > 0 {
        lemma_members_keyed(s.drop_last());
        assert forall|k: Option<Seq<char>>, m: int|
            0 <= m < camera_members(s, k).len() implies camera_key(
            #[trigger] camera_members(s, k)[m],
        ) == k by {
            let p = camera_members(s.drop_last(), k);
            if camera_key(s.last()) == k && m == p.len() {
            } else {
                assert(camera_members(s, k)[m] == p[m]);
            }
        }
    }
}


proof fn lemma_keys_have_members(s: Seq<EntryTypeView>)
    ensures
        forall|j: int|
            0 <= j < camera_keys(s).len() ==> #[trigger] camera_members(s, camera_keys(s)[j]).len()
                > 0,
    decreases s.len(),
{
    if s.len() > 0 {
        let p = s.drop_last();
        lemma_keys_have_members(p);
        let ks = camera_keys(s);
        let kp = camera_keys(p);
        assert forall|j: int| 0 <= j < ks.len() implies #[trigger] camera_members(s, ks[j]).len()
            > 0 by {
            if j < kp.len() {
                assert(ks[j] == kp[j]);
                assert(camera_members(p, kp[j]).len() > 0);
            }
        }
    }
}

// ---------------------------------------------------------------------------
// Rolls by camera
// ---------------------------------------------------------------------------

/// Whether every camera's entries start with a leader (entries without a
/// camera tag aside).
pub open spec fn camera_groups_start_with_leaders(s: Seq<EntryTypeView>) -> bool {
    forall|j: int|
        0 <= j < camera_keys(s).len() && camera_keys(s)[j] is Some ==> (#[trigger] camera_members(
            s,
            camera_keys(s)[j],
        )).len() > 0 && camera_members(s, camera_keys(s)[j])[0] is Leader
}

/// For each camera tag of `ks` in turn, the camera and the rolls of its
/// entries; entries without a camera tag are left out.
pub open spec fn camera_rolls_of(ks: Seq<Option<Seq<char>>>, s: Seq<EntryTypeView>) -> Seq<
    (Seq<char>, Seq<RollView>),
>
    decreases ks.len(),
{
    if ks.len() == 0 {
        seq![]
    } else {
        let r = camera_rolls_of(ks.drop_last(), s);
        match ks.last() {
            None => r,
            Some(c) => r.push((c, rolls_of(camera_members(s, Some(c)), c))),
        }
    }
}

pub open spec fn camera_rolls_view<'a>(v: Seq<(String, Vec<Roll<'a>>)>) -> Seq<
    (Seq<char>, Seq<RollView>),
> {
    v.map_values(|p: (String, Vec<Roll<'a>>)| (p.0@, rolls_view(p.1@)))
}

/// Whether every camera's entries start with a leader.
pub fn check_camera_groups_start_with_leaders(metadata_entries: &[MetadataEntryType]) -> (r: bool)
    ensures
        r == camera_groups_start_with_leaders(entry_types_view(metadata_entries@)),
{
    let ghost s = entry_types_view(metadata_entries@);
    let groups = group_entries_by_camera(metadata_entries);
    proof {
        lemma_keys_have_members(s);
    }
    let mut j: usize = 0;
    while j < groups.len()
        invariant
            j <= groups@.len(),
            s == entry_types_view(metadata_entries@),
            groups@.len() == camera_keys(s).len(),
            forall|m: int|
                0 <= m < groups@.len() ==> #[trigger] group_view(groups@[m]) == (
                    camera_keys(s)[m],
                    camera_members(s, camera_keys(s)[m]),
                ),
            forall|m: int|
                0 <= m < camera_keys(s).len() ==> #[trigger] camera_members(s, camera_keys(s)[m]).len()
                    > 0,
            forall|m: int|
                0 <= m < j && camera_keys(s)[m] is Some ==> (#[trigger] camera_members(
                    s,
                    camera_keys(s)[m],
                ))[0] is Leader,
        decreases groups.len() - j,
    {
        assert(group_view(groups@[j as int]) == (
            camera_keys(s)[j as int],
            camera_members(s, camera_keys(s)[j as int]),
        ));
        assert(camera_members(s, camera_keys(s)[j as int]).len() > 0);
        assert(entry_refs_view(groups@[j as int].1@).len() == groups@[j as int].1@.len());
        if groups[j].0.is_some() {
            let first: &MetadataEntryType = groups[j].1[0];
            assert(entry_refs_view(groups@[j as int].1@)[0] == first@);
            assert(first@ == camera_members(s, camera_keys(s)[j as int])[0]);
            match first {
                MetadataEntryType::Leader(_) => {},
                MetadataEntryType::Frame(_) => {
                    return false;
                },
            }
        }
        j = j + 1;
    }
    true
}

/// For each camera tag in the order they first appear, the camera and the
/// rolls of its entries; entries without a camera tag are left out. Every
/// camera's entries must start with a leader.
pub fn camera_rolls<'a>(metadata_entries: &'a [MetadataEntryType]) -> (r: Vec<(String, Vec<Roll<'a>>)>)
    requires
        camera_groups_start_with_leaders(entry_types_view(metadata_entries@)),
    ensures
        camera_rolls_view(r@) == camera_rolls_of(
            camera_keys(entry_types_view(metadata_entries@)),
            entry_types_view(metadata_entries@),
        ),
{
    let ghost s = entry_types_view(metadata_entries@);
    let ghost ks = camera_keys(s);
    let groups = group_entries_by_camera(metadata_entries);
    proof {
        lemma_members_keyed(s);
    }
    let mut out: Vec<(String, Vec<Roll<'a>>)> = Vec::new();
    let mut j: usize = 0;
    while j < groups.len()
        invariant
            j <= groups@.len(),
            s == entry_types_view(metadata_entries@),
            ks == camera_keys(s),
            camera_groups_start_with_leaders(s),
            groups@.len() == ks.len(),
            forall|m: int|
                0 <= m < groups@.len() ==> #[trigger] group_view(groups@[m]) == (
                    ks[m],
                    camera_members(s, ks[m]),
                ),
            forall|k: Option<Seq<char>>, m: int|
                0 <= m < camera_members(s, k).len() ==> camera_key(
                    #[trigger] camera_members(s, k)[m],
                ) == k,
            camera_rolls_view(out@) == camera_rolls_of(ks.take(j as int), s),
        decreases groups.len() - j,
    {
        assert(group_view(groups@[j as int]) == (ks[j as int], camera_members(s, ks[j as int])));
        assert(ks.take(j + 1).drop_last() =~= ks.take(j as int));
        assert(ks.take(j + 1).last() == ks[j as int]);
        match &groups[j].0 {
            None => {},
            Some(c) => {
                let members = &groups[j].1;
                assert(camera_members(s, ks[j as int]).len() > 0);
                assert(entry_refs_view(members@)[0] == camera_members(s, ks[j as int])[0]);
                assert(camera_key(camera_members(s, ks[j as int])[0]) == ks[j as int]);
                let rolls = split_metadata_rolls(members);
                let ghost before = camera_rolls_view(out@);
                out.push((c.clone(), rolls));
                assert(camera_rolls_view(out@) =~= before.push(
                    (c@, rolls_of(camera_members(s, Some(c@)), c@)),
                ));
            },
        }
        j = j + 1;
    }
    assert(ks.take(groups@.len() as int) =~= ks);
    out
}

/// The number of rolls in the cameras' roll lists, together.
pub open spec fn rolls_total(v: Seq<(Seq<char>, Seq<RollView>)>) -> nat
    decreases v.len(),
{
    if v.len() == 0 {
        0
    } else {
        rolls_total(v.drop_last()) + v.last().1.len()
    }
}

proof fn lemma_rolls_of_len(s: Seq<EntryTypeView>, camera: Seq<char>)
    ensures
        rolls_of(s, camera).len() <= s.len(),
    decreases s.len(),
{
    if s.len() > 0 {
        let k = last_leader(s);
        lemma_last_leader_bounds(s);
        lemma_rolls_of_len(s.take(k), camera);
    }
}

proof fn lemma_rolls_total_bound(ks: Seq<Option<Seq<char>>>, s: Seq<EntryTypeView>)
    ensures
        rolls_total(camera_rolls_of(ks, s)) <= members_total(ks, s),
    decreases ks.len(),
{
    if ks.len() > 0 {
        lemma_rolls_total_bound(ks.drop_last(), s);
        match ks.last() {
            None => {},
            Some(c) => {
                lemma_rolls_of_len(camera_members(s, Some(c)), c);
                assert(camera_rolls_of(ks, s).drop_last() =~= camera_rolls_of(ks.drop_last(), s));
            },
        }
    }
}

proof fn lemma_rolls_total_prefix(v: Seq<(Seq<char>, Seq<RollView>)>, j: int)
    requires
        0 <= j <= v.len(),
    ensures
        rolls_total(v.take(j)) <= rolls_total(v),
    decreases v.len(),
{
    if j < v.len() {
        assert(v.drop_last().take(j) =~= v.take(j));
        lemma_rolls_total_prefix(v.drop_last(), j);
    } else {
        assert(v.take(j) =~= v);
    }
}

/// The counts a split reports, for the rolls `camera_rolls` made of
/// `metadata_entries`: how many rolls there are over all cameras, and how
/// many entries.
pub fn roll_counts<'a>(
    metadata_entries: &'a [MetadataEntryType],
    rolls: &Vec<(String, Vec<Roll<'a>>)>,
) -> (r: (usize, usize))
    requires
        camera_rolls_view(rolls@) == camera_rolls_of(
            camera_keys(entry_types_view(metadata_entries@)),
            entry_types_view(metadata_entries@),
        ),
    ensures
        r.0 == rolls_total(camera_rolls_view(rolls@)),
        r.1 == metadata_entries@.len(),
{
    let ghost s = entry_types_view(metadata_entries@);
    let ghost v = camera_rolls_view(rolls@);
    proof {
        lemma_rolls_total_bound(camera_keys(s), s);
        lemma_camera_groups_partition(s);
    }
    let total = metadata_entries.len();
    let mut n: usize = 0;
    let mut j: usize = 0;
    while j < rolls.len()
        invariant
            total == metadata_entries@.len(),
            j <= rolls@.len(),
            v == camera_rolls_view(rolls@),
            rolls_total(v) <= metadata_entries@.len(),
            n == rolls_total(v.take(j as int)),
        decreases rolls.len() - j,
    {
        proof {
            lemma_rolls_total_prefix(v, j + 1);
            assert(v.take(j + 1).drop_last() =~= v.take(j as int));
            assert(v[j as int].1.len() == rolls@[j as int].1@.len());
            assert(v.take(j + 1).last() == v[j as int]);
            assert(rolls_total(v.take(j + 1)) == n + v[j as int].1.len());
        }
        n = n + rolls[j].1.len();
        j = j + 1;
    }
    assert(v.take(j as int) =~= v);
    (n, total)
}


// ---------------------------------------------------------------------------
// Scans and frames
// ---------------------------------------------------------------------------

/// The frame number of a frame; none for a leader.
pub open spec fn frame_count_view(e: EntryTypeView) -> Option<Seq<char>> {
    match e {
        EntryTypeView::Frame(f) => Some(f.frame_count),
        EntryTypeView::Leader(_) => None,
    }
}

/// The position of the last frame of `s` with frame number `fc`.
pub open spec fn last_frame_with(s: Seq<EntryTypeView>, fc: Seq<char>) -> Option<int>
    decreases s.len(),
{
    if s.len() == 0 {
        None
    } else if frame_count_view(s.last()) == Some(fc) {
        Some(s.len() - 1)
    } else {
        last_frame_with(s.drop_last(), fc)
    }
}

/// The frame a scan file name (without directory and extension) belongs
/// to: the last frame whose number ends the name.
pub open spec fn scan_entry(stem: Seq<char>, s: Seq<EntryTypeView>) -> Option<int> {
    match frame_suffix(stem) {
        None => None,
        Some(fc) => last_frame_with(s, fc),
    }
}

/// The pairs (scan, frame) of the scans that belong to a frame, in the
/// order of the scans.
pub open spec fn scan_matches(stems: Seq<Seq<char>>, s: Seq<EntryTypeView>) -> Seq<(int, int)>
    decreases stems.len(),
{
    if stems.len() == 0 {
        seq![]
    } else {
        let m = scan_matches(stems.drop_last(), s);
        match scan_entry(stems.last(), s) {
            None => m,
            Some(j) => m.push((stems.len() - 1, j)),
        }
    }
}

pub open spec fn pairs_of(v: Seq<(usize, usize)>) -> Seq<(int, int)> {
    v.map_values(|p: (usize, usize)| (p.0 as int, p.1 as int))
}

fn last_frame_index(metadata_entries: &Vec<MetadataEntryType>, fc: &Vec<char>) -> (r: Option<usize>)
    ensures
        match last_frame_with(entry_types_view(metadata_entries@), fc@) {
            None => r is None,
            Some(j) => r matches Some(x) && x as int == j,
        },
{
    let ghost s = entry_types_view(metadata_entries@);
    let mut found: Option<usize> = None;
    let mut i: usize = 0;
    assert(s.take(0) =~= Seq::<EntryTypeView>::empty());
    while i < metadata_entries.len()
        invariant
            i <= metadata_entries@.len(),
            s == entry_types_view(metadata_entries@),
            match last_frame_with(s.take(i as int), fc@) {
                None => found is None,
                Some(j) => found matches Some(x) && x as int == j,
            },
        decreases metadata_entries.len() - i,
    {
        assert(s.take(i + 1).drop_last() =~= s.take(i as int));
        assert(s.take(i + 1).last() == s[i as int]);
        assert(metadata_entries@[i as int]@ == s[i as int]);
        match &metadata_entries[i] {
            MetadataEntryType::Frame(frame) => {
                if chars_eq(&chars_of(frame.frame_count.as_str()), fc) {
                    found = Some(i);
                }
            },
            MetadataEntryType::Leader(_) => {},
        }
        i = i + 1;
    }
    assert(s.take(metadata_entries@.len() as int) =~= s);
    found
}

/// Which scan receives which frame's tags: for each scan file name
/// (without directory and extension) that ends in a frame number, in
/// order, the pair of its position and that of the last frame with that
/// number, if there is one.
pub fn match_files_to_entries(stems: &Vec<String>, metadata_entries: &Vec<MetadataEntryType>) -> (r:
    Vec<(usize, usize)>)
    ensures
        pairs_of(r@) == scan_matches(strings_view(stems@), entry_types_view(metadata_entries@)),
{
    let ghost sv = strings_view(stems@);
    let ghost s = entry_types_view(metadata_entries@);
    let mut out: Vec<(usize, usize)> = Vec::new();
    let mut i: usize = 0;
    assert(sv.take(0) =~= Seq::<Seq<char>>::empty());
    while i < stems.len()
        invariant
            i <= stems@.len(),
            sv == strings_view(stems@),
            s == entry_types_view(metadata_entries@),
            pairs_of(out@) == scan_matches(sv.take(i as int), s),
        decreases stems.len() - i,
    {
        let ghost t = sv.take(i + 1);
        assert(t.drop_last() =~= sv.take(i as int));
        assert(t.last() == stems@[i as int]@);
        let stem = chars_of(stems[i].as_str());
        assert(stem@ == t.last());
        assert(scan_matches(t, s) == match scan_entry(t.last(), s) {
            None => scan_matches(sv.take(i as int), s),
            Some(j) => scan_matches(sv.take(i as int), s).push((i as int, j)),
        });
        match scan_frame_suffix(&stem) {
            None => {},
            Some(fc) => {
                match last_frame_index(metadata_entries, &fc) {
                    None => {},
                    Some(j) => {
                        out.push((i, j));
                        assert(pairs_of(out@) =~= scan_matches(sv.take(i as int), s).push(
                            (i as int, j as int),
                        ));
                    },
                }
            },
        }
        i = i + 1;
    }
    assert(sv.take(stems@.len() as int) =~= sv);
    out
}

proof fn lemma_last_frame_with(s: Seq<EntryTypeView>, fc: Seq<char>)
    ensures
        match last_frame_with(s, fc) {
            None => forall|k: int| 0 <= k < s.len() ==> frame_count_view(#[trigger] s[k]) != Some(fc),
            Some(j) => {
                &&& 0 <= j < s.len()
                &&& frame_count_view(s[j]) == Some(fc)
                &&& forall|k: int| j < k < s.len() ==> frame_count_view(#[trigger] s[k]) != Some(fc)
            },
        },
    decreases s.len(),
{
    if s.len() > 0 {
        let p = s.drop_last();
        lemma_last_frame_with(p, fc);
        assert forall|k: int| 0 <= k < p.len() implies #[trigger] s[k] == p[k] by {}
    }
}

/// A scan is matched with a frame exactly when its name ends in a frame
/// number that some frame has; it is matched with the last frame that has
/// that number; and the scans are listed once each, in their order.
pub proof fn lemma_scan_matches_sound(stems: Seq<Seq<char>>, s: Seq<EntryTypeView>)
    ensures
        forall|m: int|
            0 <= m < scan_matches(stems, s).len() ==> {
                let p = #[trigger] scan_matches(stems, s)[m];
                &&& 0 <= p.0 < stems.len()
                &&& 0 <= p.1 < s.len()
                &&& frame_suffix(stems[p.0]) is Some
                &&& frame_count_view(s[p.1]) == frame_suffix(stems[p.0])
                &&& forall|k: int|
                    p.1 < k < s.len() ==> frame_count_view(#[trigger] s[k]) != frame_suffix(
                        stems[p.0],
                    )
            },
        forall|a: int, b: int|
            0 <= a < b < scan_matches(stems, s).len() ==> (#[trigger] scan_matches(stems, s)[a]).0
                < (#[trigger] scan_matches(stems, s)[b]).0,
        forall|i: int|
            0 <= i < stems.len() && #[trigger] scan_entry(stems[i], s) is Some ==> exists|m: int|
                0 <= m < scan_matches(stems, s).len() && scan_matches(stems, s)[m] == (
                    i,
                    scan_entry(stems[i], s)->0,
                ),
    decreases stems.len(),
{
    if stems.len() > 0 {
        let p = stems.drop_last();
        lemma_scan_matches_sound(p, s);
        let prev = scan_matches(p, s);
        let cur = scan_matches(stems, s);
        let last = stems.last();
        assert forall|i: int| 0 <= i < p.len() implies #[trigger] stems[i] == p[i] by {}
        match frame_suffix(last) {
            None => {},
            Some(fc) => {
                lemma_last_frame_with(s, fc);
            },
        }
        assert forall|m: int| 0 <= m < prev.len() implies #[trigger] cur[m] == prev[m] by {}
        assert forall|i: int|
            0 <= i < stems.len() && #[trigger] scan_entry(stems[i], s) is Some implies exists|m: int|
                0 <= m < cur.len() && cur[m] == (i, scan_entry(stems[i], s)->0) by {
            if i < p.len() {
                assert(scan_entry(p[i], s) is Some);
                let m = choose|m: int| 0 <= m < prev.len() && prev[m] == (i, scan_entry(p[i], s)->0);
                assert(cur[m] == prev[m]);
            } else {
                assert(cur[cur.len() - 1] == (i, scan_entry(stems[i], s)->0));
            }
        }
    }
}

/// How many of `written` are `true`.
pub open spec fn count_true(written: Seq<bool>) -> nat
    decreases written.len(),
{
    if written.len() == 0 {
        0
    } else {
        count_true(written.drop_last()) + if written.last() {
            1nat
        } else {
            0nat
        }
    }
}

/// The number of scans processed: of the processor's answers, one per
/// matched scan, those that report the scan written.
pub fn processed_count(written: &Vec<bool>) -> (r: usize)
    ensures
        r == count_true(written@),
        r <= written@.len(),
{
    let mut n: usize = 0;
    let mut j: usize = 0;
    while j < written.len()
        invariant
            j <= written@.len(),
            n == count_true(written@.take(j as int)),
            n <= j,
        decreases written.len() - j,
    {
        assert(written@.take(j + 1).drop_last() =~= written@.take(j as int));
        if written[j] {
            n = n + 1;
        }
        j = j + 1;
    }
    assert(written@.take(j as int) =~= written@);
    n
}

} // verus!
