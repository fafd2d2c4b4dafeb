//! Playback-side drop policy.
//!
//! Whether an arriving audio packet is dropped before it reaches the
//! playback ring buffer depends only on how full that buffer is, how long
//! the call has lasted and the packet's index. The fill threshold tightens
//! as the call goes on, trading completeness for latency; above a moderate
//! fill, every `period`-th packet is dropped as well.

use vstd::prelude::*;

verus! {

/// Thresholds of the drop policy; fill levels are percentages.
#[derive(Debug, Clone, Copy, PartialEq, Eq, Structural)]
pub struct DropPolicy {
    /// Threshold during the first `early_secs` of the call.
    pub early_pct: u32,
    pub early_secs: u64,
    /// Threshold from `early_secs` until `mid_secs` into the call.
    pub mid_pct: u32,
    pub mid_secs: u64,
    /// Threshold from `mid_secs` on.
    pub late_pct: u32,
    /// Fill above which the periodic drop applies.
    pub moderate_pct: u32,
    /// Every `period`-th packet is dropped above moderate fill.
    pub period: u64,
}

/// Fill threshold in force `elapsed_secs` into the call.
pub open spec fn threshold(p: DropPolicy, elapsed_secs: u64) -> u32 {
    if elapsed_secs < p.early_secs {
        p.early_pct
    } else if elapsed_secs < p.mid_secs {
        p.mid_pct
    } else {
        p.late_pct
    }
}

/// Whether packet `index` is dropped at fill `fill_pct`, `elapsed_secs`
/// into the call.
pub open spec fn drops(p: DropPolicy, fill_pct: u32, elapsed_secs: u64, index: u64) -> bool {
    fill_pct > threshold(p, elapsed_secs) || (fill_pct > p.moderate_pct && p.period > 0 && index % p.period == 0)
}

/// Used share of a buffer, in whole percent.
pub open spec fn fill_of(used: nat, capacity: nat) -> nat
    recommends
        capacity > 0,
{
    used * 100 / capacity
}

impl Default for DropPolicy {
    /// 70% in the first 30 s, 60% for the next 90 s, 50% thereafter; every
    /// second packet above 25% fill.
    fn default() -> (r: Self)
        ensures
            r == (DropPolicy {
                early_pct: 70,
                early_secs: 30,
                mid_pct: 60,
                mid_secs: 120,
                late_pct: 50,
                moderate_pct: 25,
                period: 2,
            }),
    {
        DropPolicy { early_pct: 70, early_secs: 30, mid_pct: 60, mid_secs: 120, late_pct: 50, moderate_pct: 25, period: 2 }
    }
}

impl DropPolicy {
    /// The fill threshold in force `elapsed_secs` into the call.
    pub fn threshold_at(&self, elapsed_secs: u64) -> (r: u32)
        ensures
            r == threshold(*self, elapsed_secs),
    {
        if elapsed_secs < self.early_secs {
            self.early_pct
        } else if elapsed_secs < self.mid_secs {
            self.mid_pct
        } else {
            self.late_pct
        }
    }

    /// Whether packet `packet_index` is dropped.
    pub fn should_drop(&self, fill_pct: u32, elapsed_secs: u64, packet_index: u64) -> (r: bool)
        ensures
            r == drops(*self, fill_pct, elapsed_secs, packet_index),
    {
        if fill_pct > self.threshold_at(elapsed_secs) {
            return true;
        }
        fill_pct > self.moderate_pct && self.period > 0 && packet_index % self.period == 0
    }
}

/// Used share of a buffer holding `used` of `capacity` items, in whole
/// percent.
pub fn fill_percent(used: usize, capacity: usize) -> (r: u32)
    requires
        capacity > 0,
        used <= capacity,
    ensures
        r == fill_of(used as nat, capacity as nat),
        r <= 100,
{
    let scaled: u128 = (used as u128) * 100;
    let pct: u128 = scaled / (capacity as u128);
    assert(pct <= 100) by (nonlinear_arith)
        requires
            pct == scaled / (capacity as u128),
            scaled == (used as u128) * 100,
            used <= capacity,
            capacity > 0,
    ;
    pct as u32
}

} // verus!
