use crate::log_level::LogLevel;
use crate::paths::{is_absolute, join, join_path};
use vstd::prelude::*;
use vstd::string::*;

verus! {

/// The run's settings, taken from the command line and the environment.
#[derive(Clone, Debug)]
pub struct Args {
    /// Absolute path of the entry file.
    pub entry: String,
    /// Number of worker threads; at least one.
    pub threads: usize,
    pub log_level: LogLevel,
    /// Whether per-stage timings are collected.
    pub profiling: bool,
}

/// Why the settings could not be formed.
#[derive(Clone, Copy, Debug, PartialEq, Eq, Structural)]
pub enum ArgsError {
    /// No entry file was named.
    NoEntry,
    /// The thread count is not a non-negative integer.
    ThreadsNotANumber,
    /// The thread count is zero.
    ZeroThreads,
    /// The log level is not one of `1`, `2`, `3`.
    BadLogLevel,
}

pub open spec fn is_digit(c: char) -> bool {
    '0' <= c && c <= '9'
}

/// The value of a string of decimal digits.
pub open spec fn digits_value(s: Seq<char>) -> int
    decreases s.len(),
{
    if s.len() == 0 {
        0
    } else {
        digits_value(s.drop_last()) * 10 + (s.last() as int - '0' as int)
    }
}

/// The digits of an unsigned decimal: one leading `+` is dropped.
pub open spec fn unsigned_digits(s: Seq<char>) -> Seq<char> {
    if s.len() > 0 && s[0] == '+' {
        s.drop_first()
    } else {
        s
    }
}

/// Whether `s` is an unsigned decimal that fits in `usize`.
pub open spec fn is_usize_text(s: Seq<char>) -> bool {
    let d = unsigned_digits(s);
    &&& d.len() > 0
    &&& forall|i: int| 0 <= i < d.len() ==> is_digit(#[trigger] d[i])
    &&& digits_value(d) <= usize::MAX
}

/// Parses an unsigned decimal.
/// Relies on `<usize as FromStr>::from_str`: an optional `+`, then one or more
/// ASCII digits whose value fits; anything else is an error.
#[verifier::external_body]
pub(crate) fn parse_usize(text: &str) -> (r: Result<usize, ()>)
    ensures
        r.is_ok() <==> is_usize_text(text@),
        r.is_ok() ==> r.unwrap() == digits_value(unsigned_digits(text@)),
{
    text.parse::<usize>().map_err(|_| ())
}

/// Whether `s` is the one-character string `c`.
pub open spec fn is_single(s: Seq<char>, c: char) -> bool {
    s.len() == 1 && s[0] == c
}

/// The log level that a setting names: none means `Info`; `1`, `2` and `3`
/// mean `Info`, `Profiling` and `Verbose`.
pub open spec fn log_level_spec(value: Option<Seq<char>>) -> Option<LogLevel> {
    match value {
        None => Some(LogLevel::Info),
        Some(s) => if is_single(s, '1') {
            Some(LogLevel::Info)
        } else if is_single(s, '2') {
            Some(LogLevel::Profiling)
        } else if is_single(s, '3') {
            Some(LogLevel::Verbose)
        } else {
            None
        },
    }
}

pub open spec fn opt_view(value: Option<&str>) -> Option<Seq<char>> {
    match value {
        None => None,
        Some(s) => Some(s@),
    }
}

/// The log level named by the setting `value`.
pub fn log_level_from(value: Option<&str>) -> (r: Result<LogLevel, ArgsError>)
    ensures
        log_level_spec(opt_view(value)) is Some ==> r == Ok::<LogLevel, ArgsError>(
            log_level_spec(opt_view(value))->Some_0,
        ),
        log_level_spec(opt_view(value)) is None ==> r == Err::<LogLevel, ArgsError>(
            ArgsError::BadLogLevel,
        ),
{
    match value {
        None => Ok(LogLevel::Info),
        Some(s) => {
            if s.unicode_len() != 1 {
                return Err(ArgsError::BadLogLevel);
            }
            let c = s.get_char(0);
            if c == '1' {
                Ok(LogLevel::Info)
            } else if c == '2' {
                Ok(LogLevel::Profiling)
            } else if c == '3' {
                Ok(LogLevel::Verbose)
            } else {
                Err(ArgsError::BadLogLevel)
            }
        },
    }
}

/// The worker count: the number of cores unless the setting `value` gives
/// one, which must be a positive integer.
pub fn threads_from(cores: usize, value: Option<&str>) -> (r: Result<usize, ArgsError>)
    ensures
        r == threads_from_spec(cores, opt_view(value)),
{
    match value {
        None => Ok(cores),
        Some(s) => match parse_usize(s) {
            Err(_) => Err(ArgsError::ThreadsNotANumber),
            Ok(n) => if n == 0 {
                Err(ArgsError::ZeroThreads)
            } else {
                Ok(n)
            },
        },
    }
}

/// The entry file as an absolute path: `arg` itself when absolute, else
/// `arg` under the working directory `cwd`.
pub fn entry_from(arg: &str, cwd: &str) -> (r: String)
    ensures
        is_absolute(arg@) ==> r@ == arg@,
        !is_absolute(arg@) ==> r@ == join_path(cwd@, arg@),
{
    let n = arg.unicode_len();
    if n > 0 && arg.get_char(0) == '/' {
        arg.to_owned()
    } else {
        join(cwd, arg)
    }
}

impl Args {
    /// Forms the settings from the first command-line argument `entry`, the
    /// working directory, the number of cores, and the values of the thread
    /// count and log level settings. Profiling is on at the profiling and
    /// verbose levels.
    pub fn new(
        entry: Option<&str>,
        cwd: &str,
        cores: usize,
        threads: Option<&str>,
        log_level: Option<&str>,
    ) -> (r: Result<Args, ArgsError>)
        ensures
            entry is None ==> r == Err::<Args, ArgsError>(ArgsError::NoEntry),
            entry is Some && log_level_spec(opt_view(log_level)) is None ==> r == Err::<
                Args,
                ArgsError,
            >(ArgsError::BadLogLevel),
            entry is Some && log_level_spec(opt_view(log_level)) is Some ==> (match threads_from_spec(
                cores,
                opt_view(threads),
            ) {
                Err(e) => r == Err::<Args, ArgsError>(e),
                Ok(n) => r is Ok && r->Ok_0.threads == n && r->Ok_0.log_level == log_level_spec(
                    opt_view(log_level),
                )->Some_0 && r->Ok_0.profiling == (r->Ok_0.log_level != LogLevel::Info) && (
                is_absolute(entry->Some_0@) ==> r->Ok_0.entry@ == entry->Some_0@) && (
                !is_absolute(entry->Some_0@) ==> r->Ok_0.entry@ == join_path(
                    cwd@,
                    entry->Some_0@,
                )),
            }),
    {
        let arg = match entry {
            None => {
                return Err(ArgsError::NoEntry);
            },
            Some(a) => a,
        };
        let level = match log_level_from(log_level) {
            Err(e) => {
                return Err(e);
            },
            Ok(l) => l,
        };
        let n = match threads_from(cores, threads) {
            Err(e) => {
                return Err(e);
            },
            Ok(n) => n,
        };
        let profiling = level.is_profiling() || level.is_verbose();
        Ok(Args { entry: entry_from(arg, cwd), threads: n, log_level: level, profiling })
    }
}

/// The worker count that `threads_from` gives.
pub open spec fn threads_from_spec(cores: usize, value: Option<Seq<char>>) -> Result<usize, ArgsError> {
    match value {
        None => Ok(cores),
        Some(s) => if !is_usize_text(s) {
            Err(ArgsError::ThreadsNotANumber)
        } else if digits_value(unsigned_digits(s)) == 0 {
            Err(ArgsError::ZeroThreads)
        } else {
            Ok(digits_value(unsigned_digits(s)) as usize)
        },
    }
}

} // verus!
