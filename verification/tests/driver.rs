use fdtd::config::Config;
use fdtd::driver::{initialize, Action, Driver, Phase};
use fdtd::error::ConfigError;

fn axpy(x: f64, c: f64, hi: f64, lo: f64) -> f64 {
    x + c * (hi - lo)
}

fn config(n: usize, steps: usize, throttle: usize) -> Config {
    Config { n, steps, throttle, sigma: 100.0f64.to_bits(), courant: 0.99f64.to_bits() }
}

fn start(n: usize, steps: usize, throttle: usize) -> Driver<f64> {
    initialize(&config(n, steps, throttle), 0.5, 0.5, 0.0, &|i: usize| {
        if i == 1 {
            1.0
        } else {
            0.0
        }
    })
    .unwrap()
}

#[test]
fn snapshots_come_at_every_multiple_of_the_throttle() {
    let mut driver = start(4, 120, 50);
    let mut written = Vec::new();
    let mut ticks = 0;
    loop {
        ticks += 1;
        match driver.tick(&axpy) {
            Action::Continue => {}
            Action::Snapshot(step) => {
                assert_eq!(step, ticks);
                written.push(step);
            }
            Action::Stop => break,
        }
    }
    assert_eq!(written, vec![50, 100]);
    assert_eq!(ticks, 121);
}

#[test]
fn snapshot_at_the_last_step_when_it_is_a_multiple() {
    let mut driver = start(4, 6, 3);
    let actions: Vec<Action> = (0..8).map(|_| driver.tick(&axpy)).collect();
    assert_eq!(
        actions,
        vec![
            Action::Continue,
            Action::Continue,
            Action::Snapshot(3),
            Action::Continue,
            Action::Continue,
            Action::Snapshot(6),
            Action::Stop,
            Action::Stop,
        ]
    );
}

#[test]
fn throttle_of_one_asks_after_every_step() {
    let mut driver = start(4, 3, 1);
    assert_eq!(driver.tick(&axpy), Action::Snapshot(1));
    assert_eq!(driver.tick(&axpy), Action::Snapshot(2));
    assert_eq!(driver.tick(&axpy), Action::Snapshot(3));
    assert_eq!(driver.tick(&axpy), Action::Stop);
}

#[test]
fn phases_follow_the_clock() {
    let mut driver = start(4, 2, 50);
    assert_eq!(driver.phase(), Phase::NotStarted);
    driver.tick(&axpy);
    assert_eq!(driver.phase(), Phase::Running(1));
    driver.tick(&axpy);
    assert_eq!(driver.phase(), Phase::Running(2));
    driver.tick(&axpy);
    assert_eq!(driver.phase(), Phase::Finished);
    driver.tick(&axpy);
    assert_eq!(driver.phase(), Phase::Finished);
}

#[test]
fn each_tick_runs_the_kernel_once() {
    let mut driver = start(4, 2, 50);
    assert_eq!(driver.wave().electric(), &vec![0.0, 1.0, 0.0, 0.0]);
    assert_eq!(driver.tick(&axpy), Action::Continue);
    assert_eq!(driver.wave().electric(), &vec![0.0, 1.0, 0.0, 0.0]);
    assert_eq!(driver.wave().magnetic(), &vec![0.5, -0.5, 0.0]);
    assert_eq!(driver.tick(&axpy), Action::Continue);
    assert_eq!(driver.wave().electric(), &vec![0.0, 0.5, 0.25, 0.0]);
    assert_eq!(driver.wave().magnetic(), &vec![0.75, -0.625, -0.125]);
}

#[test]
fn a_finished_run_leaves_the_fields_alone() {
    let mut driver = start(4, 1, 50);
    driver.tick(&axpy);
    let electric = driver.wave().electric().clone();
    let magnetic = driver.wave().magnetic().clone();
    assert_eq!(driver.tick(&axpy), Action::Stop);
    assert_eq!(driver.tick(&axpy), Action::Stop);
    assert_eq!(driver.wave().electric(), &electric);
    assert_eq!(driver.wave().magnetic(), &magnetic);
}

#[test]
fn a_run_of_no_steps_stops_at_once() {
    let mut driver = start(4, 0, 50);
    assert_eq!(driver.tick(&axpy), Action::Stop);
    assert_eq!(driver.phase(), Phase::Finished);
    assert_eq!(driver.wave().electric(), &vec![0.0, 1.0, 0.0, 0.0]);
    assert_eq!(driver.wave().magnetic(), &vec![0.0, 0.0, 0.0]);
}

#[test]
fn initialize_keeps_what_it_was_given() {
    let driver = initialize(&config(5, 7, 3), 1.5, 2.5, 0.0, &|i: usize| i as f64).unwrap();
    assert_eq!(driver.params().steps, 7);
    assert_eq!(driver.params().e_coef, 1.5);
    assert_eq!(driver.params().h_coef, 2.5);
    assert_eq!(driver.throttle(), 3);
    assert_eq!(driver.phase(), Phase::NotStarted);
    assert_eq!(driver.wave().zero(), 0.0);
    assert_eq!(driver.wave().electric(), &vec![0.0, 1.0, 2.0, 3.0, 4.0]);
    assert_eq!(driver.wave().magnetic(), &vec![0.0; 4]);
}

#[test]
fn initialize_refuses_what_validate_refuses() {
    let pulse = |_i: usize| 1.0;
    let refused = |config: Config| initialize(&config, 0.5, 0.5, 0.0, &pulse).err();
    assert_eq!(refused(config(1, 10, 5)), Some(ConfigError::GridTooSmall));
    assert_eq!(refused(config(4, 10, 0)), Some(ConfigError::ZeroThrottle));
    let mut flat = config(4, 10, 5);
    flat.sigma = 0.0f64.to_bits();
    assert_eq!(refused(flat), Some(ConfigError::PulseWidthNotPositive));
    let mut fast = config(4, 10, 5);
    fast.courant = 1.5f64.to_bits();
    assert_eq!(refused(fast), Some(ConfigError::CourantOutOfRange));
    assert_eq!(refused(config(4, 10, 5)), None);
}

#[test]
fn number_of_snapshots_is_steps_over_throttle() {
    for steps in 0..40usize {
        for throttle in 1..12usize {
            let mut driver = start(3, steps, throttle);
            let mut written = Vec::new();
            let mut taken = 0;
            loop {
                match driver.tick(&axpy) {
                    Action::Continue => taken += 1,
                    Action::Snapshot(step) => {
                        taken += 1;
                        written.push(step);
                    }
                    Action::Stop => break,
                }
            }
            assert_eq!(taken, steps);
            assert_eq!(written.len(), steps / throttle);
            for (i, step) in written.iter().enumerate() {
                assert_eq!(*step, (i + 1) * throttle);
            }
        }
    }
}

#[test]
fn walls_are_at_rest_once_a_step_is_taken() {
    let mut driver = initialize(&config(8, 30, 7), 0.5, 0.5, 0.0, &|i: usize| 1.0 + i as f64).unwrap();
    assert_eq!(driver.wave().electric()[0], 1.0);
    while driver.tick(&axpy) != Action::Stop {
        assert_eq!(driver.wave().electric()[0], 0.0);
        assert_eq!(driver.wave().electric()[7], 0.0);
        assert_eq!(driver.wave().magnetic().len(), 7);
    }
    assert_eq!(driver.wave().electric()[0], 0.0);
    assert_eq!(driver.wave().electric()[7], 0.0);
}
