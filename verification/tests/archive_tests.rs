use std::io::{Cursor, Write};

use scan_metadata::archive::{journal_archive, journal_json_of};
use scan_metadata::models::MetadataReadError;

fn archive_with(name: &str, data: &[u8]) -> Vec<u8> {
    let mut zip = zip::ZipWriter::new(Cursor::new(Vec::new()));
    zip.start_file(name, zip::write::SimpleFileOptions::default()).unwrap();
    zip.write_all(data).unwrap();
    zip.finish().unwrap().into_inner()
}

#[test]
fn journal_is_read_from_an_export_archive() {
    let json = br#"{"metadata":{"version":"1.0"},"entries":[]}"#;
    let archive = archive_with("Journal.json", json);
    assert_eq!(json.to_vec(), journal_json_of(&archive).unwrap());
}

#[test]
fn archive_without_journal_is_refused() {
    let archive = archive_with("Other.json", b"{}");
    assert!(matches!(
        journal_json_of(&archive),
        Err(MetadataReadError::ZipFileError(_))
    ));
    assert!(matches!(
        journal_json_of(b"not a zip archive"),
        Err(MetadataReadError::ZipFileError(_))
    ));
}

#[test]
fn roll_archive_reads_back_its_journal() {
    let json = b"{\n  \"metadata\": {\n    \"version\": \"1.0\"\n  },\n  \"entries\": []\n}";
    let archive = journal_archive(json).unwrap();
    assert_ne!(json.to_vec(), archive);
    assert_eq!(b"PK", &archive[0..2]);
    assert_eq!(json.to_vec(), journal_json_of(&archive).unwrap());
    let empty = journal_archive(b"").unwrap();
    assert_eq!(Vec::<u8>::new(), journal_json_of(&empty).unwrap());
}
