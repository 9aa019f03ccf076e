//! The intensity controller: how the charge of a bolt rises and falls.
//!
//! A charge is a whole number of thousandths. A rate is in thousandths per
//! second and a time in microseconds, so that their product counts
//! billionths.

use vstd::prelude::*;
use crate::geometry::UNIT;

verus! {

/// The product of a rate and a time that stands for the factor 1.
pub const RATE_DENOM: u64 = 1_000_000_000;

/// A charge below this is spent: the bolt has gone dark.
pub const CHARGE_EPSILON: u64 = 10;

/// The smaller of a value and the largest charge.
pub open spec fn cap_charge(v: int) -> int {
    if v > u64::MAX {
        u64::MAX as int
    } else {
        v
    }
}

/// The factor `1 - rate * dt`, in billionths, and never below zero.
pub open spec fn decay_factor(rate: int, dt: int) -> int {
    if rate * dt >= RATE_DENOM {
        0
    } else {
        RATE_DENOM - rate * dt
    }
}

/// The charge after decaying at `rate` for `dt`.
pub open spec fn decayed_spec(charge: int, rate: int, dt: int) -> int {
    charge * decay_factor(rate, dt) / (RATE_DENOM as int)
}

/// The charge after rising at `rate` for `dt`: multiplied by
/// `1 + rate * dt`, capped at the largest charge.
pub open spec fn ramped_spec(charge: int, rate: int, dt: int) -> int {
    cap_charge(charge + charge * (rate * dt) / (RATE_DENOM as int))
}

/// The charge after the flash of contact: multiplied by `factor`
/// thousandths, capped at the largest charge.
pub open spec fn spiked_spec(charge: int, factor: int) -> int {
    cap_charge(charge * factor / (UNIT as int))
}

/// The product of a rate and a time.
fn rate_time(rate: u32, dt: u32) -> (r: u64)
    ensures
        r == rate * dt,
{
    assert(rate * dt <= 0xffff_ffff * 0xffff_ffff) by (nonlinear_arith)
        requires
            0 <= rate <= 0xffff_ffff,
            0 <= dt <= 0xffff_ffff,
    ;
    (rate as u64) * (dt as u64)
}

/// The product of a charge and a factor.
fn weigh(charge: u64, factor: u64) -> (r: u128)
    ensures
        r == charge * factor,
{
    assert(charge * factor <= 0xffff_ffff_ffff_ffff * 0xffff_ffff_ffff_ffff) by (nonlinear_arith)
        requires
            0 <= charge <= 0xffff_ffff_ffff_ffff,
            0 <= factor <= 0xffff_ffff_ffff_ffff,
    ;
    (charge as u128) * (factor as u128)
}

/// Decay never raises a charge, and never takes it below zero.
pub proof fn lemma_decay_bounds(charge: int, rate: int, dt: int)
    requires
        charge >= 0,
        rate >= 0,
        dt >= 0,
    ensures
        0 <= decayed_spec(charge, rate, dt) <= charge,
{
    let f = decay_factor(rate, dt);
    let d = RATE_DENOM as int;
    assert(0 <= rate * dt) by (nonlinear_arith)
        requires
            rate >= 0,
            dt >= 0,
    ;
    assert(0 <= f <= d);
    assert(0 <= charge * f / d <= charge) by (nonlinear_arith)
        requires
            charge >= 0,
            0 <= f <= d,
            d > 0,
    ;
}

/// A rise never lowers a charge.
pub proof fn lemma_ramp_bounds(charge: int, rate: int, dt: int)
    requires
        0 <= charge <= u64::MAX,
        rate >= 0,
        dt >= 0,
    ensures
        charge <= ramped_spec(charge, rate, dt) <= u64::MAX,
{
    let d = RATE_DENOM as int;
    let p = rate * dt;
    assert(0 <= p) by (nonlinear_arith)
        requires
            p == rate * dt,
            rate >= 0,
            dt >= 0,
    ;
    assert(0 <= charge * p / d) by (nonlinear_arith)
        requires
            charge >= 0,
            p >= 0,
            d > 0,
    ;
}

/// A flash by a factor of at least one never lowers a charge.
pub proof fn lemma_spike_bounds(charge: int, factor: int)
    requires
        0 <= charge <= u64::MAX,
        factor >= UNIT,
    ensures
        charge <= spiked_spec(charge, factor) <= u64::MAX,
{
    let u = UNIT as int;
    assert(charge <= charge * factor / u) by (nonlinear_arith)
        requires
            charge >= 0,
            factor >= u,
            u > 0,
    ;
}

/// The charge after one tick of `dt` microseconds of decay at `rate`.
pub fn decayed(charge: u64, rate: u32, dt: u32) -> (r: u64)
    ensures
        r == decayed_spec(charge as int, rate as int, dt as int),
        r <= charge,
{
    proof {
        lemma_decay_bounds(charge as int, rate as int, dt as int);
    }
    let p: u64 = rate_time(rate, dt);
    let factor: u64 = if p >= RATE_DENOM { 0 } else { RATE_DENOM - p };
    let w: u128 = weigh(charge, factor);
    (w / (RATE_DENOM as u128)) as u64
}

/// The charge after a growth step that took `dt` microseconds, at `rate`.
pub fn ramped(charge: u64, rate: u32, dt: u32) -> (r: u64)
    ensures
        r == ramped_spec(charge as int, rate as int, dt as int),
        r >= charge,
{
    proof {
        lemma_ramp_bounds(charge as int, rate as int, dt as int);
    }
    let p: u64 = rate_time(rate, dt);
    let gain: u128 = weigh(charge, p) / (RATE_DENOM as u128);
    if gain > (u64::MAX - charge) as u128 {
        u64::MAX
    } else {
        charge + gain as u64
    }
}

/// The charge after the flash of contact, by `factor` thousandths.
pub fn spiked(charge: u64, factor: u32) -> (r: u64)
    ensures
        r == spiked_spec(charge as int, factor as int),
        factor >= UNIT ==> r >= charge,
{
    proof {
        if factor >= UNIT {
            lemma_spike_bounds(charge as int, factor as int);
        }
    }
    let w: u128 = weigh(charge, factor as u64) / (UNIT as u128);
    if w > u64::MAX as u128 {
        u64::MAX
    } else {
        w as u64
    }
}

} // verus!
