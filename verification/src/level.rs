//! The daemon's log levels, and their decoding from config text.

use vstd::prelude::*;

use crate::de::Decode;
use crate::de::Deserializer;
use crate::de::FrameView;
use crate::de::current_node;
use crate::de::current_node_err;
use crate::de_error::DeError;
use crate::de_error::Error;
use crate::deconfig::DeConfigView;

verus! {

/// The severities the daemon exposes to log messages.
#[derive(Debug, PartialEq, Eq, Structural, Clone, Copy)]
pub enum LogLevel {
    Error,
    Warning,
    Notice,
    Info,
    Debug,
}

impl LogLevel {
    /// The daemon's numeric code for this severity.
    pub fn code(self) -> (r: u32)
        ensures
            r == match self {
                LogLevel::Error => 3u32,
                LogLevel::Warning => 4u32,
                LogLevel::Notice => 5u32,
                LogLevel::Info => 6u32,
                LogLevel::Debug => 7u32,
            },
    {
        match self {
            LogLevel::Error => 3,
            LogLevel::Warning => 4,
            LogLevel::Notice => 5,
            LogLevel::Info => 6,
            LogLevel::Debug => 7,
        }
    }

    /// The severity behind the daemon's numeric code, if the code is known.
    pub fn try_from(s: u32) -> (r: Option<LogLevel>)
        ensures
            r == if s == 3u32 {
                Some(LogLevel::Error)
            } else if s == 4u32 {
                Some(LogLevel::Warning)
            } else if s == 5u32 {
                Some(LogLevel::Notice)
            } else if s == 6u32 {
                Some(LogLevel::Info)
            } else if s == 7u32 {
                Some(LogLevel::Debug)
            } else {
                None::<LogLevel>
            },
    {
        match s {
            3 => Some(LogLevel::Error),
            4 => Some(LogLevel::Warning),
            5 => Some(LogLevel::Notice),
            6 => Some(LogLevel::Info),
            7 => Some(LogLevel::Debug),
            _ => None,
        }
    }
}

/// A character's code with an ASCII lowercase letter folded to its
/// uppercase counterpart.
pub open spec fn upper_code(n: int) -> int {
    if 97 <= n <= 122 {
        n - 32
    } else {
        n
    }
}

/// Whether `s`, uppercased ASCII-wise, reads exactly as `t`.
pub open spec fn upper_eq(s: Seq<char>, t: Seq<char>) -> bool {
    s.len() == t.len() && forall|i: int|
        0 <= i < s.len() ==> upper_code(#[trigger] s[i] as int) == t[i] as int
}

/// Compares `s` against `t` with `s` folded to ASCII uppercase.
fn matches_upper(s: &str, t: &str) -> (r: bool)
    ensures
        r == upper_eq(s@, t@),
{
    let n = s.unicode_len();
    if n != t.unicode_len() {
        return false;
    }
    let mut i: usize = 0;
    while i < n
        invariant
            i <= n,
            n == s@.len(),
            n == t@.len(),
            forall|j: int| 0 <= j < i ==> upper_code(#[trigger] s@[j] as int) == t@[j] as int,
        decreases n - i,
    {
        let c = s.get_char(i);
        let code: u32 = c as u32;
        let up: u32 = if 97 <= code && code <= 122 {
            code - 32
        } else {
            code
        };
        if up != t.get_char(i) as u32 {
            return false;
        }
        i += 1;
    }
    true
}

/// Which severity a piece of config text names, ignoring ASCII case.
pub open spec fn level_of_text(t: Seq<char>) -> Option<LogLevel> {
    if upper_eq(t, "INFO"@) {
        Some(LogLevel::Info)
    } else if upper_eq(t, "DEBUG"@) {
        Some(LogLevel::Debug)
    } else if upper_eq(t, "ERR"@) || upper_eq(t, "ERROR"@) {
        Some(LogLevel::Error)
    } else if upper_eq(t, "WARN"@) || upper_eq(t, "WARNING"@) {
        Some(LogLevel::Warning)
    } else if upper_eq(t, "NOTICE"@) {
        Some(LogLevel::Notice)
    } else {
        None
    }
}

/// Names the severity the text means, ignoring ASCII case; `None` exactly
/// when the text names none.
pub fn parse_log_level(s: &str) -> (r: Option<LogLevel>)
    ensures
        r == level_of_text(s@),
{
    if matches_upper(s, "INFO") {
        Some(LogLevel::Info)
    } else if matches_upper(s, "DEBUG") {
        Some(LogLevel::Debug)
    } else if matches_upper(s, "ERR") || matches_upper(s, "ERROR") {
        Some(LogLevel::Error)
    } else if matches_upper(s, "WARN") || matches_upper(s, "WARNING") {
        Some(LogLevel::Warning)
    } else if matches_upper(s, "NOTICE") {
        Some(LogLevel::Notice)
    } else {
        None
    }
}

/// Decodes a severity from the current node: the node must be text naming
/// one of the severities, any ASCII case; unknown text is an error naming
/// the bad value.
pub fn decode_log_level(de: &Deserializer) -> (r: Result<LogLevel, Error>)
    ensures
        match r {
            Ok(v) => current_node(de@) matches Some(n) && (n matches DeConfigView::Text(t)
                && level_of_text(t) == Some(v)),
            Err(e) => match current_node(de@) {
                Some(n) => match n {
                    DeConfigView::Text(t) => level_of_text(t) is None && (e.0 matches
                        DeError::SerdeError(m) && m@ == "Did not expect log level of: "@ + t),
                    _ => e == Error(DeError::ExpectString),
                },
                None => e == Error(current_node_err(de@)),
            },
        },
{
    match de.grab_string() {
        Err(e) => Err(e),
        Ok(s) => match parse_log_level(s) {
            Some(v) => Ok(v),
            None => Err(
                Error::custom(String::from_str("Did not expect log level of: ").concat(s)),
            ),
        },
    }
}

impl Decode for LogLevel {
    open spec fn decodes(stack: Seq<FrameView>, v: Self) -> bool {
        current_node(stack) matches Some(n) && (n matches DeConfigView::Text(t) && level_of_text(t)
            == Some(v))
    }

    fn decode(de: &mut Deserializer) -> (r: Result<Self, Error>) {
        decode_log_level(de)
    }
}

} // verus!
