//! Energy counters of Intel RAPL / AMD powercap.

use crate::text::{push_decimal, push_str};
use vstd::prelude::*;

verus! {

/// The energy counter's range assumed when the kernel does not report it,
/// in microjoules.
pub fn default_max_range_uj() -> (m: u64)
    ensures
        m == 262143328850,
{
    262143328850
}

/// The energy counted between two readings of a counter that wraps after
/// `max_range`: the difference, or, when the counter wrapped, what was left
/// up to the range plus the new reading.
pub open spec fn wrap_delta(last: u64, current: u64, max_range: u64) -> int {
    if current >= last {
        current - last
    } else {
        (max_range - last) + current
    }
}

/// The energy counted between two readings of a wrapping counter.
pub fn energy_delta(last: u64, current: u64, max_range: u64) -> (d: u64)
    requires
        current < last ==> last <= max_range && (max_range - last) + current <= u64::MAX,
    ensures
        d == wrap_delta(last, current, max_range),
{
    if current >= last {
        current - last
    } else {
        (max_range - last) + current
    }
}

/// A reading of the energy counter adds up what was counted since the
/// previous one: the previous reading plus the delta is the new reading,
/// or the new reading plus one whole range when the counter wrapped.
pub proof fn law_delta_accounts_for_reading(last: u64, current: u64, max_range: u64)
    requires
        current < last ==> last <= max_range,
    ensures
        current >= last ==> last + wrap_delta(last, current, max_range) == current,
        current < last ==> last + wrap_delta(last, current, max_range) == current + max_range,
        wrap_delta(last, current, max_range) >= 0,
{
}

/// The state of the energy counter between readings.
#[derive(Clone, Debug)]
pub struct EnergyCounter {
    pub last_energy_uj: Option<u64>,
    pub max_range_uj: u64,
    /// The energy counted since the sentinel started, in microjoules.
    pub accumulated_uj: u64,
}

impl EnergyCounter {
    /// A counter that has not been read yet.
    pub fn new(max_range_uj: u64) -> (c: Self)
        ensures
            c.last_energy_uj is None,
            c.max_range_uj == max_range_uj,
            c.accumulated_uj == 0,
    {
        EnergyCounter { last_energy_uj: None, max_range_uj, accumulated_uj: 0 }
    }

    /// The reading can be accounted without overflow.
    pub open spec fn can_observe(&self, current_uj: u64, in_window: bool) -> bool {
        match self.last_energy_uj {
            Some(last) => in_window ==> {
                &&& current_uj < last ==> last <= self.max_range_uj && (self.max_range_uj - last)
                    + current_uj <= u64::MAX
                &&& self.accumulated_uj + wrap_delta(last, current_uj, self.max_range_uj)
                    <= u64::MAX
            },
            None => true,
        }
    }

    /// Whether the reading can be accounted without overflow.
    pub fn can_observe_reading(&self, current_uj: u64, in_window: bool) -> (b: bool)
        ensures
            b == self.can_observe(current_uj, in_window),
    {
        match self.last_energy_uj {
            Some(last) => {
                if !in_window {
                    return true;
                }
                let delta: u128 = if current_uj >= last {
                    (current_uj - last) as u128
                } else {
                    if last > self.max_range_uj {
                        return false;
                    }
                    ((self.max_range_uj - last) as u128) + (current_uj as u128)
                };
                delta <= u64::MAX as u128 && (self.accumulated_uj as u128) + delta <= u64::MAX as u128
            },
            None => true,
        }
    }

    /// Records a reading of the counter. When there was a previous reading
    /// and the time since it is within the sampling window (`in_window`),
    /// the energy counted in between is returned and accumulated; either
    /// way the reading becomes the previous one.
    pub fn observe(&mut self, current_uj: u64, in_window: bool) -> (d: Option<u64>)
        requires
            old(self).can_observe(current_uj, in_window),
        ensures
            final(self).last_energy_uj == Some(current_uj),
            final(self).max_range_uj == old(self).max_range_uj,
            match old(self).last_energy_uj {
                Some(last) if in_window => {
                    &&& d == Some(wrap_delta(last, current_uj, old(self).max_range_uj) as u64)
                    &&& final(self).accumulated_uj == old(self).accumulated_uj + wrap_delta(
                        last,
                        current_uj,
                        old(self).max_range_uj,
                    )
                },
                _ => d is None && final(self).accumulated_uj == old(self).accumulated_uj,
            },
    {
        let mut result: Option<u64> = None;
        match self.last_energy_uj {
            Some(last) => {
                if in_window {
                    let diff = energy_delta(last, current_uj, self.max_range_uj);
                    self.accumulated_uj = self.accumulated_uj + diff;
                    result = Some(diff);
                }
            },
            None => {},
        }
        self.last_energy_uj = Some(current_uj);
        result
    }
}

/// The path of the energy counter of RAPL domain `i`.
pub fn rapl_energy_path(i: u64) -> (p: String)
    ensures
        p@ == "/sys/class/powercap/intel-rapl/intel-rapl:"@ + crate::text::decimal(i as nat)
            + "/energy_uj"@,
{
    let mut p = String::new();
    push_str(&mut p, "/sys/class/powercap/intel-rapl/intel-rapl:");
    push_decimal(&mut p, i);
    push_str(&mut p, "/energy_uj");
    p
}

/// The path of the counter range of RAPL domain `i`.
pub fn rapl_max_range_path(i: u64) -> (p: String)
    ensures
        p@ == "/sys/class/powercap/intel-rapl/intel-rapl:"@ + crate::text::decimal(i as nat)
            + "/max_energy_range_uj"@,
{
    let mut p = String::new();
    push_str(&mut p, "/sys/class/powercap/intel-rapl/intel-rapl:");
    push_decimal(&mut p, i);
    push_str(&mut p, "/max_energy_range_uj");
    p
}

} // verus!
