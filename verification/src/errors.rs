//! Errors of the plugin API surface.
//!
//! Each type renders its user-facing text through a `message` method; the
//! library defines no `Display` impls.

use vstd::prelude::*;

use crate::numfmt::dec_digits;
use crate::numfmt::dec_signed;
use crate::numfmt::format_i64;
use crate::numfmt::format_u64;

verus! {

/// Error while translating the daemon's raw config into typed structures.
#[derive(Debug, Clone, PartialEq, Eq)]
pub enum ConfigError {
    /// The config value's type tag is unrecognized; carries the tag.
    UnknownType(i32),
    /// A config string held invalid UTF-8; carries how many bytes were
    /// valid.
    StringDecode(usize),
}

impl ConfigError {
    /// The user-facing description.
    pub fn message(&self) -> (r: String)
        ensures
            match self {
                ConfigError::UnknownType(t) => r@ == "unknown value ("@ + dec_signed(*t as int)
                    + ") for config enum"@,
                ConfigError::StringDecode(_) => r@ == "unable to convert config string to utf8"@,
            },
    {
        match self {
            ConfigError::UnknownType(t) => String::from_str("unknown value (").concat(
                format_i64(*t as i64).as_str(),
            ).concat(") for config enum"),
            ConfigError::StringDecode(_) => String::from_str(
                "unable to convert config string to utf8",
            ),
        }
    }
}

/// Error when converting a UTF-8 string into the fixed-size text array the
/// daemon ingests.
#[derive(Debug, Clone, PartialEq, Eq)]
pub enum ArrayError {
    /// The string contains a null byte; carries its position and the
    /// string.
    NullPresent(usize, String),
    /// The string is too long to be ingested; carries its length.
    TooLong(usize),
}

impl ArrayError {
    /// The user-facing description.
    pub fn message(&self) -> (r: String)
        ensures
            match self {
                ArrayError::NullPresent(pos, s) => r@ == "null encountered (pos: "@ + dec_digits(
                    *pos as int,
                ) + ") in string: "@ + s@,
                ArrayError::TooLong(len) => r@ == "length of "@ + dec_digits(*len as int)
                    + " is too long"@,
            },
    {
        match self {
            ArrayError::NullPresent(pos, s) => String::from_str("null encountered (pos: ").concat(
                format_u64(*pos as u64).as_str(),
            ).concat(") in string: ").concat(s.as_str()),
            ArrayError::TooLong(len) => String::from_str("length of ").concat(
                format_u64(*len as u64).as_str(),
            ).concat(" is too long"),
        }
    }
}

/// Error while receiving values from the daemon to write.
#[derive(Debug, Clone, PartialEq, Eq)]
pub enum ReceiveError {
    /// A plugin submitted a field holding invalid UTF-8: the plugin, the
    /// field, and how many bytes were valid.
    Utf8(String, String, usize),
}

impl ReceiveError {
    /// The user-facing description.
    pub fn message(&self) -> (r: String)
        ensures
            match self {
                ReceiveError::Utf8(plugin, field, _) => r@ == "plugin: "@ + plugin@
                    + " submitted bad field: "@ + field@,
            },
    {
        match self {
            ReceiveError::Utf8(plugin, field, _) => String::from_str("plugin: ").concat(
                plugin.as_str(),
            ).concat(" submitted bad field: ").concat(field.as_str()),
        }
    }
}

/// Error when submitting values to the daemon.
#[derive(Debug, Clone, PartialEq, Eq)]
pub enum SubmitError {
    /// The daemon's dispatch call returned this exit status.
    Dispatch(i32),
    /// A named field could not be turned into a text array.
    Field(String, ArrayError),
}

impl SubmitError {
    /// The user-facing description.
    pub fn message(&self) -> (r: String)
        ensures
            match self {
                SubmitError::Dispatch(code) => r@
                    == "plugin_dispatch_values returned an error: "@ + dec_signed(*code as int),
                SubmitError::Field(field, _) => r@ == "error submitting "@ + field@,
            },
    {
        match self {
            SubmitError::Dispatch(code) => String::from_str(
                "plugin_dispatch_values returned an error: ",
            ).concat(format_i64(*code as i64).as_str()),
            SubmitError::Field(field, _) => String::from_str("error submitting ").concat(
                field.as_str(),
            ),
        }
    }
}

/// A plugin advertised a capability but did not implement the matching
/// hook.
#[derive(Debug, Clone, Copy, PartialEq, Eq, Structural)]
pub struct NotImplemented;

impl NotImplemented {
    /// The user-facing description.
    pub fn message(&self) -> (r: String)
        ensures
            r@ == "function is not implemented"@,
    {
        String::from_str("function is not implemented")
    }
}

/// The daemon's cache could not produce a rate.
#[derive(Debug, Clone, Copy, PartialEq, Eq, Structural)]
pub struct CacheRateError;

impl CacheRateError {
    /// The user-facing description.
    pub fn message(&self) -> (r: String)
        ensures
            r@ == "unable to retrieve rate (see collectd logs for additional details)"@,
    {
        String::from_str("unable to retrieve rate (see collectd logs for additional details)")
    }
}

} // verus!
