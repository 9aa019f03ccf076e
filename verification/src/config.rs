//! The configuration of a strike.

use vstd::prelude::*;
use crate::attraction::Targeting;
use crate::error::StrikeError;
use crate::geometry::UNIT;

verus! {

/// The parameters of one lightning strike. Ranges are pairs of a lower and
/// an upper bound, both included.
#[derive(Clone, Copy, Debug)]
pub struct Config {
    /// The growth steps after which the bolt stops growing, contact or not.
    pub max_steps: u32,
    /// Microseconds between two growth steps.
    pub step_interval_growing: u64,
    /// Microseconds between two steps once the bolt has made contact.
    pub step_interval_decaying: u64,
    /// The band of the standard deviation of the noise, in thousandths.
    pub noise_range: (u32, u32),
    /// The distance to the target at which the standard deviation is one.
    pub noise_falloff: u32,
    /// The band from which the length of a step is drawn.
    pub step_length_range: (u32, u32),
    /// The distance to the target below which a step makes contact.
    pub contact_threshold: u32,
    /// The rate at which the charge rises while growing and falls while
    /// decaying, in thousandths per second.
    pub decay_rate: u32,
    /// The factor of the flash on contact, in thousandths.
    pub charge_spike_factor: u32,
    /// The band from which the number of branches of a tip is drawn.
    pub branch_count_range: (u32, u32),
    /// The charge of a new bolt, in thousandths.
    pub initial_charge: u64,
    /// How the target of a tip is chosen among the conductors.
    pub targeting: Targeting,
}

impl Config {
    /// The configuration is consistent: no range is inverted, the range of
    /// step lengths holds at least two lengths, the bolt may take at least
    /// one step, the noise falloff is not zero and the flash does not dim.
    pub open spec fn valid(self) -> bool {
        &&& self.max_steps > 0
        &&& self.noise_range.0 <= self.noise_range.1
        &&& self.noise_falloff > 0
        &&& self.step_length_range.0 < self.step_length_range.1
        &&& self.branch_count_range.0 <= self.branch_count_range.1
        &&& self.charge_spike_factor >= UNIT
    }

    /// Accepts a consistent configuration and rejects every other.
    pub fn validate(&self) -> (r: Result<(), StrikeError>)
        ensures
            r is Ok <==> self.valid(),
            r is Err ==> r == Err::<(), StrikeError>(StrikeError::ConfigurationInvalid),
    {
        if self.max_steps > 0 && self.noise_range.0 <= self.noise_range.1 && self.noise_falloff > 0
            && self.step_length_range.0 < self.step_length_range.1 && self.branch_count_range.0
            <= self.branch_count_range.1 && self.charge_spike_factor >= UNIT {
            Ok(())
        } else {
            Err(StrikeError::ConfigurationInvalid)
        }
    }
}

} // verus!
