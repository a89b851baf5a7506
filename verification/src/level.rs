//! Severity levels of log events and the threshold that filters them.

use crate::error::CoreError;
use crate::text::{ascii_lowercase, lowercase_is};
use vstd::prelude::*;

verus! {

/// Severity of one log event, the most severe first.
#[derive(Clone, Copy, Debug, PartialEq, Eq, Hash, Structural)]
pub enum Level {
    Error,
    Warn,
    Info,
    Debug,
    Trace,
}

/// Threshold of a log sink: the least severe level that it still accepts.
/// `Off` accepts nothing.
#[derive(Clone, Copy, Debug, PartialEq, Eq, Hash, Structural)]
pub enum LevelFilter {
    Off,
    Error,
    Warn,
    Info,
    Debug,
    Trace,
}

impl Level {
    /// Place on the verbosity scale: 1 for `Error` up to 5 for `Trace`.
    pub open spec fn rank(self) -> int {
        match self {
            Level::Error => 1,
            Level::Warn => 2,
            Level::Info => 3,
            Level::Debug => 4,
            Level::Trace => 5,
        }
    }

    /// The threshold that accepts this level and nothing more verbose.
    pub open spec fn filter(self) -> LevelFilter {
        match self {
            Level::Error => LevelFilter::Error,
            Level::Warn => LevelFilter::Warn,
            Level::Info => LevelFilter::Info,
            Level::Debug => LevelFilter::Debug,
            Level::Trace => LevelFilter::Trace,
        }
    }

    /// The upper-case name under which the level is shown.
    pub open spec fn name(self) -> Seq<char> {
        match self {
            Level::Error => "ERROR"@,
            Level::Warn => "WARN"@,
            Level::Info => "INFO"@,
            Level::Debug => "DEBUG"@,
            Level::Trace => "TRACE"@,
        }
    }

    /// The threshold that accepts this level and nothing more verbose.
    pub fn to_level_filter(self) -> (f: LevelFilter)
        ensures
            f == self.filter(),
            f.rank() == self.rank(),
    {
        outside_to_level_filter(self)
    }

    /// The upper-case name under which the level is shown.
    pub fn as_str(self) -> (s: &'static str)
        ensures
            s@ == self.name(),
    {
        outside_level_name(self)
    }
}

impl LevelFilter {
    /// Place on the verbosity scale: 0 for `Off`, then as `Level::rank`.
    pub open spec fn rank(self) -> int {
        match self {
            LevelFilter::Off => 0,
            LevelFilter::Error => 1,
            LevelFilter::Warn => 2,
            LevelFilter::Info => 3,
            LevelFilter::Debug => 4,
            LevelFilter::Trace => 5,
        }
    }

    /// Whether an event of `level` passes this threshold.
    pub open spec fn allows(self, level: Level) -> bool {
        level.rank() <= self.rank()
    }

    /// The filter's place on the verbosity scale.
    pub fn verbosity(self) -> (r: u8)
        ensures
            r == self.rank(),
    {
        match self {
            LevelFilter::Off => 0,
            LevelFilter::Error => 1,
            LevelFilter::Warn => 2,
            LevelFilter::Info => 3,
            LevelFilter::Debug => 4,
            LevelFilter::Trace => 5,
        }
    }

    /// Whether an event of `level` passes this threshold.
    pub fn enabled(self, level: Level) -> (b: bool)
        ensures
            b == self.allows(level),
    {
        level.to_level_filter().verbosity() <= self.verbosity()
    }
}

/// The threshold that `name` stands for, whatever the case of its letters;
/// `None` where it names none.
pub open spec fn filter_named(name: Seq<char>) -> Option<LevelFilter> {
    let lower = ascii_lowercase(name);
    if lower == "trace"@ {
        Some(LevelFilter::Trace)
    } else if lower == "debug"@ {
        Some(LevelFilter::Debug)
    } else if lower == "info"@ {
        Some(LevelFilter::Info)
    } else if lower == "warn"@ {
        Some(LevelFilter::Warn)
    } else if lower == "error"@ {
        Some(LevelFilter::Error)
    } else if lower == "off"@ {
        Some(LevelFilter::Off)
    } else {
        None
    }
}

/// Reads the name of a threshold: one of `trace`, `debug`, `info`, `warn`,
/// `error` and `off`, in any mix of upper and lower case.
pub fn parse_level_filter(name: &str) -> (parsed: Result<LevelFilter, CoreError>)
    ensures
        parsed == match filter_named(name@) {
            Some(filter) => Ok::<LevelFilter, CoreError>(filter),
            None => Err(CoreError::InvalidLevel),
        },
{
    if lowercase_is(name, "trace") {
        Ok(LevelFilter::Trace)
    } else if lowercase_is(name, "debug") {
        Ok(LevelFilter::Debug)
    } else if lowercase_is(name, "info") {
        Ok(LevelFilter::Info)
    } else if lowercase_is(name, "warn") {
        Ok(LevelFilter::Warn)
    } else if lowercase_is(name, "error") {
        Ok(LevelFilter::Error)
    } else if lowercase_is(name, "off") {
        Ok(LevelFilter::Off)
    } else {
        Err(CoreError::InvalidLevel)
    }
}

/// Calls `log::Level::to_level_filter`. Taken on trust: it returns the filter
/// that bears the name of the level, for `log` numbers the levels and the
/// filters alike and converts by the number.
#[verifier::external_body]
fn outside_to_level_filter(level: Level) -> (f: LevelFilter)
    ensures
        f == level.filter(),
{
    let outside = match level {
        Level::Error => log::Level::Error,
        Level::Warn => log::Level::Warn,
        Level::Info => log::Level::Info,
        Level::Debug => log::Level::Debug,
        Level::Trace => log::Level::Trace,
    };
    match outside.to_level_filter() {
        log::LevelFilter::Off => LevelFilter::Off,
        log::LevelFilter::Error => LevelFilter::Error,
        log::LevelFilter::Warn => LevelFilter::Warn,
        log::LevelFilter::Info => LevelFilter::Info,
        log::LevelFilter::Debug => LevelFilter::Debug,
        log::LevelFilter::Trace => LevelFilter::Trace,
    }
}

/// Calls `log::Level::as_str`. Taken on trust: it returns the name of the
/// level in upper case, which `log` takes from a table of the names.
#[verifier::external_body]
fn outside_level_name(level: Level) -> (s: &'static str)
    ensures
        s@ == level.name(),
{
    let outside = match level {
        Level::Error => log::Level::Error,
        Level::Warn => log::Level::Warn,
        Level::Info => log::Level::Info,
        Level::Debug => log::Level::Debug,
        Level::Trace => log::Level::Trace,
    };
    outside.as_str()
}

} // verus!
