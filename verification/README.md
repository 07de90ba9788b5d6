# scan_metadata

Tooling for film-scan metadata, verified with Verus.

A Day One journal export describes rolls of film: a *leader* entry starts a
roll and names its emulsion, and each *frame* entry (its headline starts with
the frame number) carries the keywords, place and weather of one exposure.
The library turns each frame into the EXIF tags its scan should receive,
decides which scan file belongs to which frame, and splits a journal into
one archive per roll and camera.

Layout:

- `src/text.rs`, `src/journal.rs`: text, and the shapes of headlines, tags
  and file names, each with the specification it meets.
- `src/calendar.rs`: the proleptic Gregorian calendar and the date texts
  written from it.
- `src/time.rs`: instants with their offsets, and the `chrono` and
  `chrono-tz` calls that read, subtract and print them.
- `src/exif.rs`: tags, the `exiftool` argument list and the exiv2 calls
  that write tags.
- `src/camera_profiles.rs`: camera and lens profiles.
- `src/models.rs`: the export, leaders, frames and rolls.
- `src/rolls.rs`: splitting into rolls, grouping by camera and matching
  scans to frames, with the laws that tie them together.
- `src/archive.rs`: reading the journal out of an export archive and
  writing a roll's archive, through the `zip` crate.
- `src/util.rs`: the reporting level.
- `app/`: the command-line tools (`scan_metadata`, `update_scan_exif`,
  `split_rolls`):
  reading and writing the files, the serde forms of the export and profile
  file, running exiv2 and `exiftool`.
