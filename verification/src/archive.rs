//! The ZIP archives the journal travels in: the export as Day One writes
//! it, and the per-roll archives the tools write, each holding the journal
//! as `Journal.json`.

use vstd::prelude::*;

use std::io::{Read, Write};

use crate::models::{MetadataReadError, MetadataWriteError};

verus! {

/// The bytes of the member named `name` of the ZIP archive `archive`, as
/// the `zip` crate reads them; `None` when the archive cannot be read or
/// holds no such member.
pub uninterp spec fn zip_member(archive: Seq<u8>, name: Seq<char>) -> Option<Seq<u8>>;

/// The ZIP archive that the `zip` crate writes holding one member `name`
/// with the bytes `data`, with the default file options; `None` when the
/// writer reports an error.
pub uninterp spec fn zip_written(name: Seq<char>, data: Seq<u8>) -> Option<Seq<u8>>;

/// `zip::ZipArchive::new` over the bytes, then `ZipArchive::by_name` and
/// `Read::read_to_end` on the member. An error reading the member's data
/// comes back as the `zip` crate's I/O error.
#[verifier::external_body]
fn read_zip_member(archive: &[u8], name: &str) -> (r: Result<Vec<u8>, zip::result::ZipError>)
    ensures
        match zip_member(archive@, name@) {
            Some(data) => r matches Ok(v) && v@ == data,
            None => r is Err,
        },
{
    let mut zip = zip::ZipArchive::new(std::io::Cursor::new(archive))?;
    let mut member = zip.by_name(name)?;
    let mut data = Vec::new();
    member.read_to_end(&mut data)?;
    Ok(data)
}

/// `zip::ZipWriter` over an in-memory buffer: `start_file` with the default
/// options (deflated, dated 1980-01-01 as no clock is read, no
/// encryption), `write_all` of the data, then `finish`. Reading the member
/// back from the archive gives the data that was written.
#[verifier::external_body]
fn write_zip_member(name: &str, data: &[u8]) -> (r: Result<Vec<u8>, zip::result::ZipError>)
    ensures
        match zip_written(name@, data@) {
            Some(archive) => r matches Ok(v) && v@ == archive,
            None => r is Err,
        },
        r matches Ok(v) ==> zip_member(v@, name@) == Some(data@),
{
    let mut zip = zip::ZipWriter::new(std::io::Cursor::new(Vec::new()));
    zip.start_file(name, zip::write::SimpleFileOptions::default())?;
    zip.write_all(data)?;
    Ok(zip.finish()?.into_inner())
}

/// The journal of an export archive: its `Journal.json` member.
pub fn journal_json_of(archive: &[u8]) -> (r: Result<Vec<u8>, MetadataReadError>)
    ensures
        match zip_member(archive@, "Journal.json"@) {
            Some(json) => r matches Ok(v) && v@ == json,
            None => r matches Err(MetadataReadError::ZipFileError(_)),
        },
{
    match read_zip_member(archive, "Journal.json") {
        Ok(json) => Ok(json),
        Err(e) => Err(MetadataReadError::ZipFileError(e)),
    }
}

/// The archive of a roll: its journal as the `Journal.json` member. What
/// is written is what `journal_json_of` reads back.
pub fn journal_archive(json: &[u8]) -> (r: Result<Vec<u8>, MetadataWriteError>)
    ensures
        match zip_written("Journal.json"@, json@) {
            Some(archive) => r matches Ok(v) && v@ == archive,
            None => r matches Err(MetadataWriteError::ZipFileError(_)),
        },
        r matches Ok(v) ==> zip_member(v@, "Journal.json"@) == Some(json@),
{
    match write_zip_member("Journal.json", json) {
        Ok(archive) => Ok(archive),
        Err(e) => Err(MetadataWriteError::ZipFileError(e)),
    }
}

} // verus!
