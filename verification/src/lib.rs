//! Metadata tooling for film scans: turns a Day One journal export into
//! per-frame EXIF tag lists, splits an export into per-roll archives, and
//! decides which scan file receives which frame's metadata.

pub mod util;
pub mod text;
pub mod exif;
pub mod calendar;
pub mod time;
pub mod camera_profiles;
pub mod journal;
pub mod models;
pub mod rolls;
pub mod archive;
