//! Capability flags that plugins and plugin managers advertise to the
//! daemon.

use vstd::prelude::*;

verus! {

/// Bitflags of capabilities that a plugin advertises: whether it reads,
/// logs, writes, or flushes.
#[derive(Debug, PartialEq, Eq, Structural, Clone, Copy)]
pub struct PluginCapabilities {
    pub bits: u32,
}

impl PluginCapabilities {
    /// The capability of reporting values on the daemon's read cycle.
    pub fn read() -> (r: PluginCapabilities)
        ensures
            r.bits == 1u32,
    {
        PluginCapabilities { bits: 1 }
    }

    /// The capability of receiving log messages.
    pub fn log() -> (r: PluginCapabilities)
        ensures
            r.bits == 2u32,
    {
        PluginCapabilities { bits: 2 }
    }

    /// The capability of receiving reported values to write.
    pub fn write() -> (r: PluginCapabilities)
        ensures
            r.bits == 4u32,
    {
        PluginCapabilities { bits: 4 }
    }

    /// The capability of flushing buffered values.
    pub fn flush() -> (r: PluginCapabilities)
        ensures
            r.bits == 8u32,
    {
        PluginCapabilities { bits: 8 }
    }

    /// Both sets of capabilities together.
    pub fn union(self, other: PluginCapabilities) -> (r: PluginCapabilities)
        ensures
            r.bits == self.bits | other.bits,
    {
        PluginCapabilities { bits: self.bits | other.bits }
    }

    /// Whether the read capability is advertised.
    pub fn has_read(self) -> (r: bool)
        ensures
            r == (self.bits & 1u32 != 0u32),
    {
        self.bits & 1 != 0
    }

    /// Whether the log capability is advertised.
    pub fn has_log(self) -> (r: bool)
        ensures
            r == (self.bits & 2u32 != 0u32),
    {
        self.bits & 2 != 0
    }

    /// Whether the write capability is advertised.
    pub fn has_write(self) -> (r: bool)
        ensures
            r == (self.bits & 4u32 != 0u32),
    {
        self.bits & 4 != 0
    }

    /// Whether the flush capability is advertised.
    pub fn has_flush(self) -> (r: bool)
        ensures
            r == (self.bits & 8u32 != 0u32),
    {
        self.bits & 8 != 0
    }
}

impl Default for PluginCapabilities {
    /// A plugin advertises nothing by default.
    fn default() -> (r: PluginCapabilities)
        ensures
            r.bits == 0u32,
    {
        PluginCapabilities { bits: 0 }
    }
}

/// Bitflags of capabilities that a plugin manager advertises.
#[derive(Debug, PartialEq, Eq, Structural, Clone, Copy)]
pub struct PluginManagerCapabilities {
    pub bits: u32,
}

impl PluginManagerCapabilities {
    /// The capability of a global initialization hook.
    pub fn init() -> (r: PluginManagerCapabilities)
        ensures
            r.bits == 1u32,
    {
        PluginManagerCapabilities { bits: 1 }
    }

    /// Whether the initialization capability is advertised.
    pub fn has_init(self) -> (r: bool)
        ensures
            r == (self.bits & 1u32 != 0u32),
    {
        self.bits & 1 != 0
    }
}

impl Default for PluginManagerCapabilities {
    /// A manager advertises nothing by default.
    fn default() -> (r: PluginManagerCapabilities)
        ensures
            r.bits == 0u32,
    {
        PluginManagerCapabilities { bits: 0 }
    }
}

} // verus!
