//! What can go wrong in the simulation.

use vstd::prelude::*;

verus! {

/// The failures that the engine reports.
#[derive(Clone, Copy, Debug, PartialEq, Eq, Structural)]
pub enum StrikeError {
    /// No conductor is present, so there is nothing to grow toward. The
    /// instance is left as it was and may grow on a later tick.
    NoConductors,
    /// The configuration of a strike is inconsistent; no instance was made.
    ConfigurationInvalid,
}

} // verus!
