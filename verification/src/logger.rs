//! The helper's logger: which records it shows, where, and how; and the
//! level it is set to.
use vstd::prelude::*;
use vstd::string::*;

verus! {

/// The severity of a record, most severe first.
#[derive(Clone, Copy, PartialEq, Eq, Structural, Debug)]
pub enum Level {
    Error,
    Warn,
    Info,
    Debug,
    Trace,
}

/// The most verbose level a logger shows; `Off` shows nothing.
#[derive(Clone, Copy, PartialEq, Eq, Structural, Debug)]
pub enum LevelFilter {
    Off,
    Error,
    Warn,
    Info,
    Debug,
    Trace,
}

/// Where a shown record is written.
#[derive(Clone, Copy, PartialEq, Eq, Structural, Debug)]
pub enum Stream {
    Stdout,
    Stderr,
}

/// A record to log.
#[derive(Debug)]
pub struct LogLine {
    pub level: Level,
    pub message: String,
}

/// The verbosity of a level: 1 for `Error` up to 5 for `Trace`.
pub open spec fn level_rank(l: Level) -> int {
    match l {
        Level::Error => 1,
        Level::Warn => 2,
        Level::Info => 3,
        Level::Debug => 4,
        Level::Trace => 5,
    }
}

/// The verbosity of a filter: 0 for `Off` up to 5 for `Trace`.
pub open spec fn filter_rank(f: LevelFilter) -> int {
    match f {
        LevelFilter::Off => 0,
        LevelFilter::Error => 1,
        LevelFilter::Warn => 2,
        LevelFilter::Info => 3,
        LevelFilter::Debug => 4,
        LevelFilter::Trace => 5,
    }
}

/// A filter shows a record when the record's level is no more verbose than it.
pub open spec fn shows(f: LevelFilter, l: Level) -> bool {
    level_rank(l) <= filter_rank(f)
}

/// The name of a level, as it is printed.
pub open spec fn level_name(l: Level) -> Seq<char> {
    match l {
        Level::Error => "ERROR"@,
        Level::Warn => "WARN"@,
        Level::Info => "INFO"@,
        Level::Debug => "DEBUG"@,
        Level::Trace => "TRACE"@,
    }
}

/// A character's code with ASCII capitals made small.
pub open spec fn fold_ascii_case(c: char) -> u32 {
    if 65 <= (c as u32) && (c as u32) <= 90 {
        (c as u32 + 32) as u32
    } else {
        c as u32
    }
}

/// `a` and `b` are equal up to ASCII case.
pub open spec fn eq_ignore_ascii_case(a: Seq<char>, b: Seq<char>) -> bool {
    a.len() == b.len() && forall|i: int|
        0 <= i < a.len() ==> fold_ascii_case(#[trigger] a[i]) == fold_ascii_case(b[i])
}

/// The filter that `s` names: `off`, `error`, `warn`, `info`, `debug` or
/// `trace`, in any ASCII case.
pub open spec fn filter_named(s: Seq<char>) -> Option<LevelFilter> {
    if eq_ignore_ascii_case(s, "OFF"@) {
        Some(LevelFilter::Off)
    } else if eq_ignore_ascii_case(s, "ERROR"@) {
        Some(LevelFilter::Error)
    } else if eq_ignore_ascii_case(s, "WARN"@) {
        Some(LevelFilter::Warn)
    } else if eq_ignore_ascii_case(s, "INFO"@) {
        Some(LevelFilter::Info)
    } else if eq_ignore_ascii_case(s, "DEBUG"@) {
        Some(LevelFilter::Debug)
    } else if eq_ignore_ascii_case(s, "TRACE"@) {
        Some(LevelFilter::Trace)
    } else {
        None
    }
}

/// `log::LevelFilter`'s `FromStr`: the filter whose name (`OFF`, `ERROR`,
/// `WARN`, `INFO`, `DEBUG`, `TRACE`) equals `s` up to ASCII case, else
/// nothing. The crate compares bytes; as the names are ASCII, that is the
/// comparison of characters stated here.
#[verifier::external_body]
fn parse_level_filter(s: &str) -> (res: Option<LevelFilter>)
    ensures
        res == filter_named(s@),
{
    match s.parse::<log::LevelFilter>() {
        Ok(log::LevelFilter::Off) => Some(LevelFilter::Off),
        Ok(log::LevelFilter::Error) => Some(LevelFilter::Error),
        Ok(log::LevelFilter::Warn) => Some(LevelFilter::Warn),
        Ok(log::LevelFilter::Info) => Some(LevelFilter::Info),
        Ok(log::LevelFilter::Debug) => Some(LevelFilter::Debug),
        Ok(log::LevelFilter::Trace) => Some(LevelFilter::Trace),
        Err(_) => None,
    }
}

/// The level the logger is set to, from the value of the `GWT_LOG`
/// variable: the filter it names, else `Info` (also where it is unset).
pub fn level_from_env(value: Option<String>) -> (res: LevelFilter)
    ensures
        res == match value {
            Some(v) => match filter_named(v@) {
                Some(f) => f,
                None => LevelFilter::Info,
            },
            None => LevelFilter::Info,
        },
{
    match value {
        Some(v) => match parse_level_filter(v.as_str()) {
            Some(f) => f,
            None => LevelFilter::Info,
        },
        None => LevelFilter::Info,
    }
}

/// A logger that shows records up to a level, errors on stderr and the
/// others on stdout.
pub struct Logger {
    level: LevelFilter,
}

impl View for Logger {
    type V = LevelFilter;

    closed spec fn view(&self) -> LevelFilter {
        self.level
    }
}

impl Logger {
    /// A logger that shows records up to `level`.
    pub fn new(level: LevelFilter) -> (res: Logger)
        ensures
            res@ == level,
    {
        Logger { level }
    }

    /// The level this logger shows records up to.
    pub fn level(&self) -> (res: LevelFilter)
        ensures
            res == self@,
    {
        self.level
    }

    /// Whether this logger shows records of `level`.
    pub fn enabled(&self, level: Level) -> (res: bool)
        ensures
            res == shows(self@, level),
    {
        let r: u8 = match level {
            Level::Error => 1,
            Level::Warn => 2,
            Level::Info => 3,
            Level::Debug => 4,
            Level::Trace => 5,
        };
        let f: u8 = match self.level {
            LevelFilter::Off => 0,
            LevelFilter::Error => 1,
            LevelFilter::Warn => 2,
            LevelFilter::Info => 3,
            LevelFilter::Debug => 4,
            LevelFilter::Trace => 5,
        };
        r <= f
    }

    /// Where a record of `level` goes: nowhere where this logger does not
    /// show it; errors to stderr; the others to stdout.
    pub fn destination(&self, level: Level) -> (res: Option<Stream>)
        ensures
            !shows(self@, level) ==> res is None,
            shows(self@, level) && level == Level::Error ==> res == Some(Stream::Stderr),
            shows(self@, level) && level != Level::Error ==> res == Some(Stream::Stdout),
    {
        if !self.enabled(level) {
            return None;
        }
        match level {
            Level::Error => Some(Stream::Stderr),
            _ => Some(Stream::Stdout),
        }
    }
}

/// The name of a level, as it is printed.
pub fn level_name_of(level: Level) -> (res: String)
    ensures
        res@ == level_name(level),
{
    match level {
        Level::Error => String::from_str("ERROR"),
        Level::Warn => String::from_str("WARN"),
        Level::Info => String::from_str("INFO"),
        Level::Debug => String::from_str("DEBUG"),
        Level::Trace => String::from_str("TRACE"),
    }
}

/// The printed line of a record: `<LEVEL> - <message>`.
pub fn format_line(level: Level, message: &str) -> (res: String)
    ensures
        res@ == level_name(level) + " - "@ + message@,
{
    level_name_of(level).concat(" - ").concat(message)
}

/// Each filter shows exactly the levels at least as severe as the one it
/// names: `Off` none, `Error` errors only, `Warn` errors and warnings,
/// `Info` all but debug and trace, `Debug` all but trace, `Trace` all.
pub proof fn filter_shows_exactly(l: Level)
    ensures
        !shows(LevelFilter::Off, l),
        shows(LevelFilter::Error, l) <==> l == Level::Error,
        shows(LevelFilter::Warn, l) <==> (l == Level::Error || l == Level::Warn),
        shows(LevelFilter::Info, l) <==> (l != Level::Debug && l != Level::Trace),
        shows(LevelFilter::Debug, l) <==> l != Level::Trace,
        shows(LevelFilter::Trace, l),
{
}

/// A filter shows a level whenever it shows a more verbose one; `Off` shows
/// no level and `Trace` shows every level.
pub proof fn shows_is_monotone(f: LevelFilter, verbose: Level, severe: Level)
    ensures
        shows(f, verbose) && level_rank(severe) <= level_rank(verbose) ==> shows(f, severe),
        !shows(LevelFilter::Off, severe),
        shows(LevelFilter::Trace, severe),
{
}

/// A more verbose filter shows every level that a less verbose one shows.
pub proof fn more_verbose_filter_shows_more(quiet: LevelFilter, loud: LevelFilter, l: Level)
    requires
        filter_rank(quiet) <= filter_rank(loud),
    ensures
        shows(quiet, l) ==> shows(loud, l),
{
}

} // verus!
