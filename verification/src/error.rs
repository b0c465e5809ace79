//! Why a configuration is turned down.

use vstd::prelude::*;

verus! {

/// A reason to refuse a configuration before any stepping begins.
#[derive(Clone, Copy, Debug, PartialEq, Eq, Structural)]
pub enum ConfigError {
    /// Fewer than two electric sample points: there is no room for both walls.
    GridTooSmall,
    /// The pulse width is not a number greater than zero.
    PulseWidthNotPositive,
    /// The Courant number does not lie strictly between zero and one.
    CourantOutOfRange,
    /// The snapshot interval is zero.
    ZeroThrottle,
}

} // verus!
