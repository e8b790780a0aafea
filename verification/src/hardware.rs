//! What the machine offers a model: the hardware report and the memory
//! budget derived from it. (Probing the machine runs in the front end.)

use vstd::prelude::*;

verus! {

#[derive(Debug)]
pub struct HwReport {
    pub total_ram: u64,
    pub avail_ram: u64,
    pub cpus: usize,
    pub os: String,
    pub arch: String,
    pub free_disk: u64,
}

/// Memory kept back for the OS and other apps: 3 GiB.
pub open spec fn os_reserve() -> nat {
    3 * 1024 * 1024 * 1024
}

/// The memory a model may use: 65% of the total, less the OS reserve, and
/// never below zero.
pub open spec fn budget(total: nat) -> nat {
    let raw = total * 13 / 20;
    if raw >= os_reserve() {
        (raw - os_reserve()) as nat
    } else {
        0
    }
}

impl HwReport {
    /// Conservative memory budget for a model: ~65% of total RAM minus a
    /// fixed OS reserve (saturating at zero).
    pub fn memory_budget(&self) -> (r: u64)
        ensures
            r == budget(self.total_ram as nat),
    {
        let t = self.total_ram;
        let raw = t / 20 * 13 + (t % 20) * 13 / 20;
        assert(raw == t * 13 / 20) by (nonlinear_arith)
            requires
                raw == t / 20 * 13 + (t % 20) * 13 / 20,
        {
            assert(t == 20 * (t / 20) + t % 20);
            assert(t * 13 == 20 * (13 * (t / 20)) + 13 * (t % 20));
        }
        let reserve: u64 = 3 * 1024 * 1024 * 1024;
        if raw >= reserve {
            raw - reserve
        } else {
            0
        }
    }
}

/// Law: the budget is conservative: it never exceeds 65% of the memory, so
/// it stays below the total for any machine with memory, and it is zero for
/// a machine with less than the reserve's worth of 65%.
pub proof fn law_budget_is_bounded(total: nat)
    ensures
        budget(total) <= total * 13 / 20,
        total > 0 ==> budget(total) < total,
        total * 13 / 20 < os_reserve() ==> budget(total) == 0,
{
    assert(total * 13 / 20 <= total) by (nonlinear_arith);
    if total > 0 {
        assert(total * 13 / 20 < total) by (nonlinear_arith)
            requires
                total > 0,
        ;
    }
}

/// Available memory as reported, or (when the platform reports none) the
/// total less what is used.
pub fn available_ram(total: u64, available: u64, used: u64) -> (r: u64)
    ensures
        r == (if available == 0 {
            if total >= used { (total - used) as u64 } else { 0 }
        } else {
            available
        }),
{
    if available == 0 {
        total.saturating_sub(used)
    } else {
        available
    }
}

} // verus!
