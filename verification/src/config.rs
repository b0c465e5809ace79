//! The configuration of a run and the rules that it has to meet.
//!
//! The two real-valued parameters that the rules speak of, the pulse width
//! and the Courant number, are held as IEEE 754 binary64 bit patterns. For
//! patterns with a clear sign bit the order of the patterns as integers is
//! the order of the numbers they stand for, with every NaN above infinity;
//! a set sign bit puts a pattern above all of these. So both rules are
//! comparisons of integers.

use vstd::prelude::*;
use crate::error::ConfigError;

verus! {

/// The bit pattern of the number one.
pub const ONE: u64 = 0x3FF0_0000_0000_0000;

/// The bit pattern of positive infinity.
pub const INFINITY: u64 = 0x7FF0_0000_0000_0000;

/// The pattern stands for a number greater than zero (infinity included, NaN
/// not).
pub open spec fn is_positive(bits: u64) -> bool {
    0 < bits <= INFINITY
}

/// The pattern stands for a number strictly between zero and one: the Courant
/// condition under which the explicit scheme is stable.
pub open spec fn is_stable(bits: u64) -> bool {
    0 < bits < ONE
}

/// What a run is made from.
#[derive(Clone, Copy, Debug)]
pub struct Config {
    /// The number of electric sample points.
    pub n: usize,
    /// The number of time steps to take.
    pub steps: usize,
    /// A snapshot is due after every `throttle`-th step.
    pub throttle: usize,
    /// The pulse width in grid units, as a binary64 bit pattern.
    pub sigma: u64,
    /// The Courant number, as a binary64 bit pattern.
    pub courant: u64,
}

impl Config {
    /// The first rule that the configuration breaks, if it breaks any: the
    /// grid has two points or more, the pulse width is positive, the Courant
    /// number lies strictly between zero and one, the snapshot interval is
    /// not zero.
    pub open spec fn fault(self) -> Option<ConfigError> {
        if self.n < 2 {
            Some(ConfigError::GridTooSmall)
        } else if !is_positive(self.sigma) {
            Some(ConfigError::PulseWidthNotPositive)
        } else if !is_stable(self.courant) {
            Some(ConfigError::CourantOutOfRange)
        } else if self.throttle == 0 {
            Some(ConfigError::ZeroThrottle)
        } else {
            None
        }
    }

    /// Holds the configuration to the rules.
    pub fn validate(&self) -> (checked: Result<(), ConfigError>)
        ensures
            checked == match self.fault() {
                Some(error) => Err::<(), ConfigError>(error),
                None => Ok::<(), ConfigError>(()),
            },
    {
        if self.n < 2 {
            Err(ConfigError::GridTooSmall)
        } else if self.sigma == 0 || self.sigma > INFINITY {
            Err(ConfigError::PulseWidthNotPositive)
        } else if self.courant == 0 || self.courant >= ONE {
            Err(ConfigError::CourantOutOfRange)
        } else if self.throttle == 0 {
            Err(ConfigError::ZeroThrottle)
        } else {
            Ok(())
        }
    }
}

} // verus!
