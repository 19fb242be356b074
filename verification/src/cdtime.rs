//! Collectd's native timestamp encoding.
//!
//! The host daemon stores time at a `2^-30` second resolution: the most
//! significant 34 bits hold whole seconds, the low 30 bits hold the
//! sub-second part in units of `2^-30` s, which is very close to a
//! nanosecond. Converting between nanoseconds and this encoding rounds the
//! sub-second part to the nearest unit.

use vstd::prelude::*;

verus! {

/// A timestamp or duration in collectd's `2^-30` second fixed-point encoding.
#[derive(Debug, PartialEq, Eq, Structural, Clone, Copy)]
pub struct CdTime(pub u64);

/// Largest nanosecond count whose second part still fits the 34 second bits.
pub open spec fn max_encodable_nanos() -> int {
    0x4_0000_0000int * 1_000_000_000
}

/// What `nanos_to_collectd` computes: seconds shifted into the high bits,
/// the nanosecond remainder rescaled to `2^-30` s units, rounded to nearest.
pub open spec fn spec_nanos_to_collectd(nanos: int) -> int {
    ((nanos / 1_000_000_000) * 0x4000_0000) + (((nanos % 1_000_000_000) * 0x4000_0000
        + 500_000_000) / 1_000_000_000)
}

/// What `collectd_to_nanos` computes: the seconds part scaled back to
/// nanoseconds plus the sub-second part rescaled, rounded to nearest.
pub open spec fn spec_collectd_to_nanos(cd: int) -> int {
    (cd / 0x4000_0000) * 1_000_000_000 + ((cd % 0x4000_0000) * 1_000_000_000 + 0x2000_0000)
        / 0x4000_0000
}

/// Encodes a nanosecond count into collectd's fixed-point representation.
pub fn nanos_to_collectd(nanos: u64) -> (r: u64)
    requires
        nanos < max_encodable_nanos(),
    ensures
        r == spec_nanos_to_collectd(nanos as int),
{
    proof {
        assert(nanos / 1_000_000_000 < 0x4_0000_0000) by (nonlinear_arith)
            requires nanos < 0x4_0000_0000int * 1_000_000_000;
        assert(nanos % 1_000_000_000 < 1_000_000_000) by (nonlinear_arith);
        assert((nanos % 1_000_000_000) * 0x4000_0000 < 1_000_000_000int * 0x4000_0000)
            by (nonlinear_arith)
            requires nanos % 1_000_000_000 < 1_000_000_000;
    }
    let secs: u64 = nanos / 1_000_000_000;
    let frac: u64 = nanos % 1_000_000_000;
    let r: u64 = secs * 0x4000_0000 + (frac * 0x4000_0000 + 500_000_000) / 1_000_000_000;
    proof {
        assert(secs * 0x4000_0000 == (nanos as int / 1_000_000_000) * 0x4000_0000);
    }
    r
}

/// Decodes collectd's fixed-point representation back into nanoseconds.
pub fn collectd_to_nanos(cd: u64) -> (r: u64)
    ensures
        r == spec_collectd_to_nanos(cd as int),
{
    proof {
        assert(cd / 0x4000_0000 <= 0x4_0000_0000) by (nonlinear_arith)
            requires cd <= u64::MAX;
        assert((cd / 0x4000_0000) * 1_000_000_000 <= 0x4_0000_0000int * 1_000_000_000)
            by (nonlinear_arith)
            requires cd / 0x4000_0000 <= 0x4_0000_0000;
        assert(cd % 0x4000_0000 < 0x4000_0000) by (nonlinear_arith);
        assert((cd % 0x4000_0000) * 1_000_000_000 < 0x4000_0000int * 1_000_000_000)
            by (nonlinear_arith)
            requires cd % 0x4000_0000 < 0x4000_0000;
    }
    let secs: u64 = cd / 0x4000_0000;
    let frac: u64 = cd % 0x4000_0000;
    secs * 1_000_000_000 + (frac * 1_000_000_000 + 0x2000_0000) / 0x4000_0000
}

} // verus!
