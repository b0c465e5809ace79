use fdtd::config::{Config, INFINITY, ONE};
use fdtd::error::ConfigError;

fn sound() -> Config {
    Config { n: 10000, steps: 10000, throttle: 50, sigma: 100.0f64.to_bits(), courant: 0.99f64.to_bits() }
}

fn with_sigma(sigma: f64) -> Result<(), ConfigError> {
    Config { sigma: sigma.to_bits(), ..sound() }.validate()
}

fn with_courant(courant: f64) -> Result<(), ConfigError> {
    Config { courant: courant.to_bits(), ..sound() }.validate()
}

#[test]
fn bit_patterns_of_one_and_infinity() {
    assert_eq!(ONE, 1.0f64.to_bits());
    assert_eq!(INFINITY, f64::INFINITY.to_bits());
}

#[test]
fn a_sound_configuration_passes() {
    assert_eq!(sound().validate(), Ok(()));
}

#[test]
fn grid_needs_two_points() {
    assert_eq!(Config { n: 0, ..sound() }.validate(), Err(ConfigError::GridTooSmall));
    assert_eq!(Config { n: 1, ..sound() }.validate(), Err(ConfigError::GridTooSmall));
    assert_eq!(Config { n: 2, ..sound() }.validate(), Ok(()));
}

#[test]
fn pulse_width_must_be_positive() {
    assert_eq!(with_sigma(0.0), Err(ConfigError::PulseWidthNotPositive));
    assert_eq!(with_sigma(-0.0), Err(ConfigError::PulseWidthNotPositive));
    assert_eq!(with_sigma(-1.0), Err(ConfigError::PulseWidthNotPositive));
    assert_eq!(with_sigma(f64::NEG_INFINITY), Err(ConfigError::PulseWidthNotPositive));
    assert_eq!(with_sigma(f64::NAN), Err(ConfigError::PulseWidthNotPositive));
    assert_eq!(with_sigma(-f64::NAN), Err(ConfigError::PulseWidthNotPositive));
    assert_eq!(with_sigma(f64::from_bits(1)), Ok(()));
    assert_eq!(with_sigma(f64::MIN_POSITIVE), Ok(()));
    assert_eq!(with_sigma(1.0), Ok(()));
    assert_eq!(with_sigma(f64::MAX), Ok(()));
    assert_eq!(with_sigma(f64::INFINITY), Ok(()));
}

#[test]
fn courant_number_must_lie_between_zero_and_one() {
    assert_eq!(with_courant(0.0), Err(ConfigError::CourantOutOfRange));
    assert_eq!(with_courant(-0.0), Err(ConfigError::CourantOutOfRange));
    assert_eq!(with_courant(-0.5), Err(ConfigError::CourantOutOfRange));
    assert_eq!(with_courant(1.0), Err(ConfigError::CourantOutOfRange));
    assert_eq!(with_courant(1.0 + f64::EPSILON), Err(ConfigError::CourantOutOfRange));
    assert_eq!(with_courant(1.5), Err(ConfigError::CourantOutOfRange));
    assert_eq!(with_courant(f64::INFINITY), Err(ConfigError::CourantOutOfRange));
    assert_eq!(with_courant(f64::NAN), Err(ConfigError::CourantOutOfRange));
    assert_eq!(with_courant(f64::from_bits(1)), Ok(()));
    assert_eq!(with_courant(0.5), Ok(()));
    assert_eq!(with_courant(0.99), Ok(()));
    assert_eq!(with_courant(1.0 - f64::EPSILON / 2.0), Ok(()));
}

#[test]
fn order_of_the_bit_patterns_is_the_order_of_the_numbers() {
    let ladder = [f64::from_bits(1), f64::MIN_POSITIVE, 1e-300, 0.25, 0.99, 1.0, 2.0, 1e300, f64::MAX, f64::INFINITY];
    for pair in ladder.windows(2) {
        assert!(pair[0] < pair[1]);
        assert!(pair[0].to_bits() < pair[1].to_bits());
    }
    assert!(f64::NAN.to_bits() > INFINITY);
    assert!((-0.0f64).to_bits() > f64::NAN.to_bits());
}

#[test]
fn throttle_must_not_be_zero() {
    assert_eq!(Config { throttle: 0, ..sound() }.validate(), Err(ConfigError::ZeroThrottle));
    assert_eq!(Config { throttle: 1, ..sound() }.validate(), Ok(()));
}

#[test]
fn the_first_broken_rule_is_reported() {
    let all = Config { n: 1, steps: 0, throttle: 0, sigma: 0, courant: 0 };
    assert_eq!(all.validate(), Err(ConfigError::GridTooSmall));
    assert_eq!(Config { n: 2, ..all }.validate(), Err(ConfigError::PulseWidthNotPositive));
    assert_eq!(Config { n: 2, sigma: ONE, ..all }.validate(), Err(ConfigError::CourantOutOfRange));
    assert_eq!(
        Config { n: 2, sigma: ONE, courant: ONE - 1, ..all }.validate(),
        Err(ConfigError::ZeroThrottle)
    );
    assert_eq!(Config { n: 2, sigma: ONE, courant: ONE - 1, throttle: 1, ..all }.validate(), Ok(()));
}
