//! The logging verbosity the environment selects: a plain mapping from the
//! optional `LOG_LEVEL` value to a level, most verbose by default.

use vstd::prelude::*;

verus! {

/// A logging verbosity, from most severe to most verbose.
#[derive(Debug, Clone, Copy, PartialEq, Eq, Structural)]
pub enum LogLevel {
    Error,
    Warn,
    Info,
    Debug,
    Trace,
}

/// The code point of `c` with a lower-case letter folded to upper case:
/// the ASCII letters, and the dotless i (code point 305) — the one letter
/// outside ASCII whose Unicode upper case is a letter of the level
/// keywords. With it, matching a keyword here coincides with comparing the
/// value's Unicode upper case against the keyword, for every input: no
/// other single character uppercases into the keywords' letters, and the
/// characters whose upper case is longer than one letter cannot spell one.
pub open spec fn upper_code(c: char) -> int {
    if c as int == 305 {
        73
    } else if 97 <= c as int <= 122 {
        c as int - 32
    } else {
        c as int
    }
}

/// Case-insensitive equality of `s` with a keyword, under `upper_code`.
pub open spec fn eq_ignore_ascii_case(s: Seq<char>, kw: Seq<char>) -> bool {
    s.len() == kw.len() && forall|i: int| 0 <= i < s.len() ==> upper_code(#[trigger] s[i]) == kw[i] as int
}

/// The level a `LOG_LEVEL` value names, case-insensitively; an unrecognized
/// value means the most verbose level.
pub open spec fn level_of(s: Seq<char>) -> LogLevel {
    if eq_ignore_ascii_case(s, "ERROR"@) {
        LogLevel::Error
    } else if eq_ignore_ascii_case(s, "WARN"@) {
        LogLevel::Warn
    } else if eq_ignore_ascii_case(s, "INFO"@) {
        LogLevel::Info
    } else if eq_ignore_ascii_case(s, "DEBUG"@) {
        LogLevel::Debug
    } else {
        LogLevel::Trace
    }
}

/// Whether `s` equals the keyword, ignoring ASCII case.
fn eq_ignore_case(s: &str, kw: &str) -> (r: bool)
    ensures
        r == eq_ignore_ascii_case(s@, kw@),
{
    let n = s.unicode_len();
    let m = kw.unicode_len();
    if n != m {
        return false;
    }
    let mut i: usize = 0;
    while i < n
        invariant
            i <= n,
            n == s@.len(),
            n == kw@.len(),
            forall|j: int| 0 <= j < i ==> upper_code(#[trigger] s@[j]) == kw@[j] as int,
        decreases n - i,
    {
        let c = s.get_char(i) as u32;
        let k = kw.get_char(i) as u32;
        let folded = if c == 305 {
            73
        } else if 97 <= c && c <= 122 {
            c - 32
        } else {
            c
        };
        if folded != k {
            return false;
        }
        i = i + 1;
    }
    true
}

/// The level the environment selects. Without filtering the most verbose
/// level is used; with it, the `LOG_LEVEL` value decides (and must be
/// present).
pub fn level(env_level_filter: bool, env_level: Option<&str>) -> (r: LogLevel)
    requires
        env_level_filter ==> env_level is Some,
    ensures
        !env_level_filter ==> r == LogLevel::Trace,
        env_level_filter ==> r == level_of(env_level->0@),
{
    if !env_level_filter {
        return LogLevel::Trace;
    }
    let s = match env_level {
        Some(s) => s,
        None => {
            proof {
                assert(false);
            }
            ""
        },
    };
    if eq_ignore_case(s, "ERROR") {
        LogLevel::Error
    } else if eq_ignore_case(s, "WARN") {
        LogLevel::Warn
    } else if eq_ignore_case(s, "INFO") {
        LogLevel::Info
    } else if eq_ignore_case(s, "DEBUG") {
        LogLevel::Debug
    } else {
        LogLevel::Trace
    }
}

} // verus!
