//! A builder for a logger that forwards messages to the daemon.
//!
//! The library holds the builder's decisions — an optional plugin prefix
//! and a level filter — as plain values with exact contracts. Installing
//! the built logger globally, and formatting records, ties into the host's
//! logging machinery and lives outside the verified library.

use vstd::prelude::*;

verus! {

/// The most verbose severity a logger lets through; `Off` lets nothing
/// through.
#[derive(Debug, PartialEq, Eq, Structural, Clone, Copy)]
pub enum LevelFilter {
    Off,
    Error,
    Warn,
    Info,
    Debug,
    Trace,
}

/// How permissive a filter is: higher ranks let more through.
pub open spec fn filter_rank(f: LevelFilter) -> int {
    match f {
        LevelFilter::Off => 0,
        LevelFilter::Error => 1,
        LevelFilter::Warn => 2,
        LevelFilter::Info => 3,
        LevelFilter::Debug => 4,
        LevelFilter::Trace => 5,
    }
}

/// Configures and builds a collectd-bound logger.
///
/// By default every level is accepted and no prefix is set.
#[derive(Debug, PartialEq, Eq, Clone)]
pub struct CollectdLoggerBuilder {
    /// The plugin name messages are prefixed with, when one is set.
    pub plugin: Option<String>,
    /// Only messages at this level and above are forwarded.
    pub filter_level: LevelFilter,
}

/// The decisions a built logger carries: prefix and level filter.
#[derive(Debug, PartialEq, Eq, Clone)]
pub struct CollectdLogger {
    /// The plugin name messages are prefixed with, when one is set.
    pub plugin: Option<String>,
    /// Only messages at this level and above are forwarded.
    pub filter_level: LevelFilter,
}

impl CollectdLoggerBuilder {
    /// A builder that forwards every message and prefixes nothing.
    pub fn new() -> (r: CollectdLoggerBuilder)
        ensures
            r.plugin is None,
            r.filter_level == LevelFilter::Trace,
    {
        CollectdLoggerBuilder { plugin: None, filter_level: LevelFilter::Trace }
    }

    /// Sets a prefix from the plugin manager's name.
    pub fn prefix_plugin(self, name: &str) -> (r: CollectdLoggerBuilder)
        ensures
            r.plugin matches Some(p) && p@ == name@,
            r.filter_level == self.filter_level,
    {
        CollectdLoggerBuilder { plugin: Some(name.to_owned()), filter_level: self.filter_level }
    }

    /// Sets the level filter: only messages at `level` and above will be
    /// forwarded.
    pub fn filter_level(self, level: LevelFilter) -> (r: CollectdLoggerBuilder)
        ensures
            r.filter_level == level,
            r.plugin == self.plugin,
    {
        CollectdLoggerBuilder { plugin: self.plugin, filter_level: level }
    }

    /// The configured logger, ready to be installed or nested.
    pub fn build(self) -> (r: CollectdLogger)
        ensures
            r.plugin == self.plugin,
            r.filter_level == self.filter_level,
    {
        CollectdLogger { plugin: self.plugin, filter_level: self.filter_level }
    }
}

impl CollectdLogger {
    /// Whether a message at rank `rank` — counted as [`filter_rank`]
    /// counts — passes this logger's filter.
    pub fn enabled_at(&self, rank: u32) -> (r: bool)
        ensures
            r == (rank as int <= filter_rank(self.filter_level)),
    {
        let cutoff: u32 = match self.filter_level {
            LevelFilter::Off => 0,
            LevelFilter::Error => 1,
            LevelFilter::Warn => 2,
            LevelFilter::Info => 3,
            LevelFilter::Debug => 4,
            LevelFilter::Trace => 5,
        };
        rank <= cutoff
    }
}

} // verus!
