use vstd::prelude::*;

verus! {

/// How log events are rendered.
#[derive(Clone, Copy, Debug, PartialEq, Eq, Structural)]
pub enum LogFormat {
    Compact,
    Pretty,
    Json,
}

impl LogFormat {
    /// Reads a format from its name: "compact", "pretty" or "json".
    pub fn parse(s: &str) -> (r: Option<LogFormat>)
        ensures
            r == Some(LogFormat::Compact) <==> s@ == "compact"@,
            r == Some(LogFormat::Pretty) <==> s@ == "pretty"@,
            r == Some(LogFormat::Json) <==> s@ == "json"@,
    {
        proof {
            reveal_strlit("compact");
            reveal_strlit("pretty");
            reveal_strlit("json");
            assert("compact"@[0] != "pretty"@[0]);
            assert("compact"@[0] != "json"@[0]);
            assert("pretty"@[0] != "json"@[0]);
        }
        let owned = s.to_owned();
        if owned == "compact".to_owned() {
            Some(LogFormat::Compact)
        } else if owned == "pretty".to_owned() {
            Some(LogFormat::Pretty)
        } else if owned == "json".to_owned() {
            Some(LogFormat::Json)
        } else {
            None
        }
    }
}

/// The severity threshold of a log filter.
#[derive(Clone, Copy, Debug, PartialEq, Eq, Structural)]
pub enum Level {
    Trace,
    Debug,
    Info,
}

/// The thresholds that `verbose` repetitions of the verbose flag select:
/// the first for every target, the second for the application's own.
pub open spec fn verbosity_spec(verbose: usize) -> (Level, Level) {
    if verbose == 0 {
        (Level::Info, Level::Info)
    } else if verbose == 1 {
        (Level::Info, Level::Debug)
    } else if verbose == 2 {
        (Level::Info, Level::Trace)
    } else if verbose == 3 {
        (Level::Debug, Level::Trace)
    } else {
        (Level::Trace, Level::Trace)
    }
}

/// The logging options of a process.
#[derive(Debug, PartialEq, Eq)]
pub struct LogOptions {
    /// How often the verbose flag was given.
    pub verbose: usize,
    /// A filter in the `target=level` syntax; empty for none.
    pub log_filter: String,
    pub log_format: LogFormat,
}

impl LogOptions {
    /// The thresholds for all targets and for the application's own.
    pub fn verbosity(&self) -> (r: (Level, Level))
        ensures
            r == verbosity_spec(self.verbose),
    {
        match self.verbose {
            0 => (Level::Info, Level::Info),
            1 => (Level::Info, Level::Debug),
            2 => (Level::Info, Level::Trace),
            3 => (Level::Debug, Level::Trace),
            _ => (Level::Trace, Level::Trace),
        }
    }

    /// True when a filter beyond the verbosity was given.
    pub fn has_filter(&self) -> (r: bool)
        ensures
            r == (self.log_filter@.len() > 0),
    {
        !self.log_filter.as_str().is_empty()
    }
}

} // verus!
