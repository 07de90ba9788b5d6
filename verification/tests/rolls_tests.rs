use std::path::{Path, PathBuf};

use scan_metadata::models::{FrameEntry, LeaderEntry, MetadataEntryType};
use scan_metadata::rolls::{
    camera_rolls, check_camera_groups_start_with_leaders, group_entries_by_camera,
    match_files_to_entries, processed_count, roll_counts, split_metadata_rolls,
};
use scan_metadata::time::Timestamp;

fn date(text: &str) -> Timestamp {
    Timestamp::parse_from_rfc3339(text).unwrap()
}

fn leader(when: &str) -> MetadataEntryType {
    MetadataEntryType::Leader(LeaderEntry::fake(
        "# HP5 Plus @ 1600 \\- 35mm \\(Canon P\\)".to_string(),
        date(when),
        "HP5 Plus @ 1600".to_string(),
    ))
}

fn frame(count: &str, when: &str) -> MetadataEntryType {
    MetadataEntryType::Frame(FrameEntry::fake(count.to_string(), "Text".to_string(), date(when)))
}

fn one_roll(start: &str, first: &str, second: &str) -> Vec<MetadataEntryType> {
    vec![leader(start), frame("1", first), frame("2", second)]
}

fn two_cameras(first_camera: Option<&str>) -> Vec<MetadataEntryType> {
    let mut camera_1_entries = one_roll(
        "2025-01-02T03:04:56Z",
        "2025-01-02T04:01:56Z",
        "2025-01-02T04:02:56Z",
    );
    let mut camera_2_entries = one_roll(
        "2025-01-02T05:04:56Z",
        "2025-01-02T06:01:56Z",
        "2025-01-02T06:02:56Z",
    );
    if let Some(camera) = first_camera {
        for entry in camera_1_entries.iter_mut() {
            entry.push_tag(camera.to_string());
        }
    }
    for entry in camera_2_entries.iter_mut() {
        entry.push_tag("camera:yashicamat".to_string());
    }
    let mut entries = Vec::new();
    entries.append(&mut camera_1_entries);
    entries.append(&mut camera_2_entries);
    entries
}

#[test]
fn should_split_metadata_rolls_single_leader() {
    let mut entries = one_roll(
        "2025-01-02T03:04:56Z",
        "2025-01-02T04:01:56Z",
        "2025-01-02T04:02:56Z",
    );

    for entry in entries.iter_mut() {
        entry.push_tag("camera:canonp".to_string());
    }

    let borrowed_entries: Vec<&MetadataEntryType> = entries.iter().collect();
    let rolls = split_metadata_rolls(&borrowed_entries);

    assert_eq!(1, rolls.len());
    let roll = rolls.get(0).unwrap();
    assert_eq!(3, roll.entries().len());
}

#[test]
fn should_split_metadata_rolls_multiple_leaders() {
    let mut entries = one_roll(
        "2025-01-02T03:04:56Z",
        "2025-01-02T04:01:56Z",
        "2025-01-02T04:02:56Z",
    );
    entries.append(&mut one_roll(
        "2025-01-02T05:04:56Z",
        "2025-01-02T06:01:56Z",
        "2025-01-02T06:02:56Z",
    ));

    for entry in entries.iter_mut() {
        entry.push_tag("camera:canonp".to_string());
    }

    let borrowed_entries: Vec<&MetadataEntryType> = entries.iter().collect();
    let rolls = split_metadata_rolls(&borrowed_entries);

    assert_eq!(2, rolls.len());
    for roll in rolls {
        assert_eq!(3, roll.entries().len());
    }
}

#[test]
fn should_group_metadata_rolls_based_on_camera() {
    let entries = two_cameras(Some("camera:canonp"));

    assert_eq!(6, entries.len());

    let entry_groups = group_entries_by_camera(&entries);

    assert_eq!(2, entry_groups.len());
    assert!(entry_groups
        .iter()
        .any(|(k, _)| k == &Some("camera:canonp".to_string())));
    assert!(entry_groups
        .iter()
        .any(|(k, _)| k == &Some("camera:yashicamat".to_string())));

    for (_, entries) in entry_groups {
        assert_eq!(3, entries.len());
    }
}

#[test]
fn groups_follow_first_appearance_and_keep_untagged_entries() {
    let entries = two_cameras(None);
    let groups = group_entries_by_camera(&entries);
    assert_eq!(2, groups.len());
    assert_eq!(None, groups[0].0);
    assert_eq!(Some("camera:yashicamat".to_string()), groups[1].0);
    assert_eq!(3, groups[0].1.len());
    assert_eq!(3, groups[1].1.len());
}

#[test]
fn rolls_by_camera_leave_out_untagged_entries() {
    let entries = two_cameras(None);
    assert!(check_camera_groups_start_with_leaders(&entries));
    let by_camera = camera_rolls(&entries);
    assert_eq!(1, by_camera.len());
    assert_eq!("camera:yashicamat", by_camera[0].0);
    assert_eq!(1, by_camera[0].1.len());
    assert_eq!(
        "hp5_plus_-_1600_yashicamat_20250102_0.zip",
        by_camera[0].1[0].cons_filename(0)
    );
}

#[test]
fn rolls_by_camera_for_each_camera() {
    let entries = two_cameras(Some("camera:canonp"));
    let by_camera = camera_rolls(&entries);
    assert_eq!(2, by_camera.len());
    assert_eq!("camera:canonp", by_camera[0].0);
    assert_eq!(
        "hp5_plus_-_1600_canonp_20250102_0.zip",
        by_camera[0].1[0].cons_filename(0)
    );
    assert_eq!("camera:yashicamat", by_camera[1].0);
}

#[test]
fn camera_groups_must_start_with_a_leader() {
    let mut entries = vec![frame("1", "2025-01-02T04:01:56Z"), leader("2025-01-02T05:04:56Z")];
    for entry in entries.iter_mut() {
        entry.push_tag("camera:canonp".to_string());
    }
    assert!(!check_camera_groups_start_with_leaders(&entries));
}

#[test]
fn rolls_keep_every_entry_in_order() {
    let mut entries = vec![
        leader("2025-01-02T03:04:56Z"),
        leader("2025-01-03T03:04:56Z"),
        frame("1", "2025-01-03T04:01:56Z"),
        frame("2", "2025-01-03T04:02:56Z"),
        leader("2025-01-04T03:04:56Z"),
        frame("1", "2025-01-04T04:01:56Z"),
    ];
    for entry in entries.iter_mut() {
        entry.push_tag("camera:canonp".to_string());
    }
    let borrowed: Vec<&MetadataEntryType> = entries.iter().collect();
    let rolls = split_metadata_rolls(&borrowed);
    let sizes: Vec<usize> = rolls.iter().map(|r| r.entries().len()).collect();
    assert_eq!(vec![1, 3, 2], sizes);
    assert_eq!("hp5_plus_-_1600_canonp_20250103_1.zip", rolls[1].cons_filename(1));
    let flattened: Vec<&MetadataEntryType> =
        rolls.iter().flat_map(|r| r.entries().iter().copied()).collect();
    assert_eq!(entries.len(), flattened.len());
    for (original, split) in entries.iter().zip(flattened.iter()) {
        assert!(std::ptr::eq(original, *split));
    }
}

fn stems_of(files: &[PathBuf]) -> Vec<String> {
    let mut sorted = files.to_vec();
    sorted.sort();
    sorted
        .iter()
        .map(|f| f.file_stem().unwrap().to_str().unwrap().to_string())
        .collect()
}

fn match_counts(frame_count: &str, text: &str, file: &str) -> (usize, usize, usize) {
    let metadata = MetadataEntryType::Frame(FrameEntry::fake(
        frame_count.to_string(),
        text.to_string(),
        date("2025-01-02T07:34:56Z"),
    ));
    let filelist = vec![Path::new(file).to_path_buf()];
    let metadata_entries = vec![metadata];
    let matches = match_files_to_entries(&stems_of(&filelist), &metadata_entries);
    // A processor that writes every scan it is given.
    let written: Vec<bool> = matches.iter().map(|_| true).collect();
    (processed_count(&written), filelist.len(), metadata_entries.len())
}

#[test]
fn update_scan_exif_should_match_base_case_filenames() {
    let (process_count, file_count, metadata_count) =
        match_counts("1", "# 1 // Some raw text\nSome body", "/tmp/test/hp5cp160_001.tif");
    assert_eq!(1, process_count, "Should have matched against 1 file");
    assert_eq!(1, file_count, "Should have seen 1 file to process");
    assert_eq!(1, metadata_count, "Should have 1 metadata entry");
}

#[test]
fn update_scan_exif_should_match_two_digit_framecount_filenames() {
    let (process_count, file_count, metadata_count) =
        match_counts("12", "# 12 // Some raw text\nSome body", "/tmp/test/hp5cp160_012.tif");
    assert_eq!(1, process_count, "Should have matched against 1 file");
    assert_eq!(1, file_count, "Should have seen 1 file to process");
    assert_eq!(1, metadata_count, "Should have 1 metadata entry");
}

#[test]
fn update_scan_exif_should_match_filenames_with_noise_digits_in_middle() {
    let (process_count, file_count, metadata_count) = match_counts(
        "12",
        "# 12 // Some raw text\nSome body",
        "/tmp/test/hp5cp160_001_012.tif",
    );
    assert_eq!(1, process_count, "Should have matched against 1 file");
    assert_eq!(1, file_count, "Should have seen 1 file to process");
    assert_eq!(1, metadata_count, "Should have 1 metadata entry");
}

#[test]
fn update_scan_exif_should_match_filenames_with_only_digits() {
    let (process_count, file_count, metadata_count) =
        match_counts("12", "# 12 // Some raw text\nSome body", "/tmp/test/000001012.tif");
    assert_eq!(1, process_count, "Should have matched against 1 file");
    assert_eq!(1, file_count, "Should have seen 1 file to process");
    assert_eq!(1, metadata_count, "Should have 1 metadata entry");
}

#[test]
fn update_scan_exif_should_match_filenames_digits_only_consider_last_two_digits() {
    let (process_count, file_count, metadata_count) =
        match_counts("12", "# 12 // Some raw text\nSome body", "/tmp/test/000001912.tif");
    assert_eq!(1, process_count, "Should have matched against 1 file");
    assert_eq!(1, file_count, "Should have seen 1 file to process");
    assert_eq!(1, metadata_count, "Should have 1 metadata entry");
}

#[test]
fn scan_metadata_should_match_base_case_filenames() {
    let (process_count, file_count, metadata_count) =
        match_counts("1", "# 1 // Some raw text\nSome body", "/tmp/test/hp5cp160_001.tif");
    assert_eq!(1, process_count, "Should have matched against 1 file");
    assert_eq!(1, file_count, "Should have seen 1 file to process");
    assert_eq!(1, metadata_count, "Should have 1 metadata entry");
}

#[test]
fn scan_metadata_should_match_two_digit_framecount_filenames() {
    let (process_count, file_count, metadata_count) =
        match_counts("12", "# 12 // Some raw text\nSome body", "/tmp/test/hp5cp160_012.tif");
    assert_eq!(1, process_count, "Should have matched against 1 file");
    assert_eq!(1, file_count, "Should have seen 1 file to process");
    assert_eq!(1, metadata_count, "Should have 1 metadata entry");
}

#[test]
fn scan_metadata_should_match_filenames_with_noise_digits_in_middle() {
    let (process_count, file_count, metadata_count) = match_counts(
        "12",
        "# 12 // Some raw text\nSome body",
        "/tmp/test/hp5cp160_001_012.tif",
    );
    assert_eq!(1, process_count, "Should have matched against 1 file");
    assert_eq!(1, file_count, "Should have seen 1 file to process");
    assert_eq!(1, metadata_count, "Should have 1 metadata entry");
}

#[test]
fn scan_metadata_should_match_filenames_with_only_digits() {
    let (process_count, file_count, metadata_count) =
        match_counts("12", "# 12 // Some raw text\nSome body", "/tmp/test/000001012.tif");
    assert_eq!(1, process_count, "Should have matched against 1 file");
    assert_eq!(1, file_count, "Should have seen 1 file to process");
    assert_eq!(1, metadata_count, "Should have 1 metadata entry");
}

#[test]
fn scan_metadata_should_match_filenames_digits_only_consider_last_two_digits() {
    let (process_count, file_count, metadata_count) =
        match_counts("12", "# 12 // Some raw text\nSome body", "/tmp/test/000001912.tif");
    assert_eq!(1, process_count, "Should have matched against 1 file");
    assert_eq!(1, file_count, "Should have seen 1 file to process");
    assert_eq!(1, metadata_count, "Should have 1 metadata entry");
}

#[test]
fn scans_match_the_last_frame_with_their_number() {
    let entries = vec![
        leader("2025-01-02T03:04:56Z"),
        frame("10", "2025-01-02T04:01:56Z"),
        frame("1", "2025-01-02T04:02:56Z"),
        frame("10", "2025-01-02T04:03:56Z"),
    ];
    let stems: Vec<String> = ["scan_010", "scan_100", "scan_001", "scan_007", "scan"]
        .iter()
        .map(|s| s.to_string())
        .collect();
    assert_eq!(vec![(0, 3), (2, 2)], match_files_to_entries(&stems, &entries));
}

#[test]
fn split_counts_rolls_over_cameras_and_all_entries() {
    let entries = two_cameras(Some("camera:canonp"));
    let by_camera = camera_rolls(&entries);
    assert_eq!((2, 6), roll_counts(&entries, &by_camera));
    let untagged = two_cameras(None);
    let by_camera = camera_rolls(&untagged);
    assert_eq!((1, 6), roll_counts(&untagged, &by_camera));
    let mut two_rolls = one_roll(
        "2025-01-02T03:04:56Z",
        "2025-01-02T04:01:56Z",
        "2025-01-02T04:02:56Z",
    );
    two_rolls.append(&mut one_roll(
        "2025-01-03T03:04:56Z",
        "2025-01-03T04:01:56Z",
        "2025-01-03T04:02:56Z",
    ));
    for entry in two_rolls.iter_mut() {
        entry.push_tag("camera:canonp".to_string());
    }
    let by_camera = camera_rolls(&two_rolls);
    assert_eq!((2, 6), roll_counts(&two_rolls, &by_camera));
}

#[test]
fn processed_count_counts_written_scans() {
    assert_eq!(0, processed_count(&Vec::new()));
    assert_eq!(2, processed_count(&vec![true, false, true, false]));
    assert_eq!(0, processed_count(&vec![false, false]));
}
