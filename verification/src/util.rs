//! The reporting level of a run of the tools.

use vstd::prelude::*;

verus! {

/// How much the tools report; the same scale as the `log` crate's filter.
#[derive(Clone, Copy, Debug, PartialEq, Eq, Structural)]
pub enum LevelFilter {
    Off,
    Error,
    Warn,
    Info,
    Debug,
    Trace,
}

/// The reporting level in effect for a run of one of the tools.
pub struct LogSettings {
    pub level: LevelFilter,
}

impl LogSettings {
    /// The level a run starts with: `Info`.
    pub fn new() -> (r: LogSettings)
        ensures
            level_of(r) == LevelFilter::Info,
    {
        LogSettings { level: LevelFilter::Info }
    }
}

/// The settings with the reporting level changed to `level`.
pub open spec fn with_level(s: LogSettings, level: LevelFilter) -> LogSettings {
    LogSettings { level, ..s }
}

/// The reporting level of the settings.
pub open spec fn level_of(s: LogSettings) -> LevelFilter {
    s.level
}

/// Whether messages for the user are printed: at every level but `Off`.
pub open spec fn not_quiet(s: LogSettings) -> bool {
    level_of(s) != LevelFilter::Off
}

/// Changes the reporting level.
pub fn set_log_level(settings: &mut LogSettings, level: LevelFilter)
    ensures
        *final(settings) == with_level(*old(settings), level),
{
    settings.level = level;
}

/// The reporting level in effect.
pub fn get_log_level(settings: &LogSettings) -> (r: LevelFilter)
    ensures
        r == level_of(*settings),
{
    settings.level
}

/// Whether the reporting level in effect is `level`.
pub fn is_log_level(settings: &LogSettings, level: LevelFilter) -> (r: bool)
    ensures
        r == (level_of(*settings) == level),
{
    get_log_level(settings) == level
}

/// Whether messages for the user are printed.
pub fn is_not_quiet(settings: &LogSettings) -> (r: bool)
    ensures
        r == not_quiet(*settings),
{
    !is_log_level(settings, LevelFilter::Off)
}

/// The level read back is the level last set, and the tools are quiet
/// exactly when that level is `Off`.
pub proof fn lemma_set_then_get(s: LogSettings, first: LevelFilter, level: LevelFilter)
    ensures
        level_of(with_level(s, level)) == level,
        level_of(with_level(with_level(s, first), level)) == level,
        not_quiet(with_level(s, level)) <==> level != LevelFilter::Off,
{
}

} // verus!
