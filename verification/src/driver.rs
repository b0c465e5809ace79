//! The time-stepping driver: a state machine that owns the fields for the
//! length of a run, advances them once per tick and says after which ticks a
//! snapshot is due.

use vstd::prelude::*;
use crate::config::Config;
use crate::error::ConfigError;
use crate::wave::{lemma_step_deterministic, single_valued, Fields, Wave};

verus! {

/// What is fixed for the length of a run.
#[derive(Debug)]
pub struct Params<T> {
    /// The number of time steps that the run takes.
    pub steps: usize,
    /// The factor by which a difference of the magnetic field moves the
    /// electric field.
    pub e_coef: T,
    /// The factor by which a difference of the electric field moves the
    /// magnetic field.
    pub h_coef: T,
}

impl<T: Copy> Clone for Params<T> {
    fn clone(&self) -> (copy: Self)
        ensures
            copy == *self,
    {
        *self
    }
}

impl<T: Copy> Copy for Params<T> {}

/// Where a run stands.
#[derive(Clone, Copy, Debug, PartialEq, Eq, Structural)]
pub enum Phase {
    /// No step has been taken.
    NotStarted,
    /// So many steps have been taken, the last of them by the latest tick.
    Running(usize),
    /// Every step has been taken.
    Finished,
}

impl Phase {
    /// A phase that a run of `steps` steps can be in.
    pub open spec fn within(self, steps: usize) -> bool {
        match self {
            Phase::Running(t) => 1 <= t <= steps,
            _ => true,
        }
    }

    /// The simulation clock: the number of steps taken so far.
    pub open spec fn clock(self, steps: usize) -> nat {
        match self {
            Phase::NotStarted => 0,
            Phase::Running(t) => t as nat,
            Phase::Finished => steps as nat,
        }
    }

    /// The phase that a run of `steps` steps is in after so many ticks.
    pub open spec fn after(ticks: nat, steps: usize) -> Phase {
        if ticks == 0 {
            Phase::NotStarted
        } else if ticks <= steps {
            Phase::Running(ticks as usize)
        } else {
            Phase::Finished
        }
    }

    /// The phase after one more tick.
    pub open spec fn next(self, steps: usize) -> Phase {
        if self != Phase::Finished && self.clock(steps) < steps {
            Phase::Running((self.clock(steps) + 1) as usize)
        } else {
            Phase::Finished
        }
    }
}

/// What the caller of a tick has to do after it.
#[derive(Clone, Copy, Debug, PartialEq, Eq, Structural)]
pub enum Action {
    /// A step was taken; nothing is to be written.
    Continue,
    /// The step of this number was taken, and the fields as they now stand
    /// are to be written out.
    Snapshot(usize),
    /// The run is over; no step was taken.
    Stop,
}

/// Whether a snapshot is due after step `t`.
pub open spec fn snapshot_due(t: nat, throttle: nat) -> bool
    recommends
        throttle > 0,
{
    t % throttle == 0
}

/// What a tick that took step `t` hands back.
pub open spec fn action_after(t: usize, throttle: usize) -> Action
    recommends
        throttle > 0,
{
    if snapshot_due(t as nat, throttle as nat) {
        Action::Snapshot(t)
    } else {
        Action::Continue
    }
}

/// What a [`Driver`] holds.
pub struct Run<T> {
    /// The length of the run and the two coefficients.
    pub params: Params<T>,
    /// The snapshot interval.
    pub throttle: usize,
    /// Where the run stands.
    pub phase: Phase,
    /// The fields as they stand.
    pub fields: Fields<T>,
}

impl<T> Run<T> {
    /// The fields fit together, the snapshot interval is not zero, the clock
    /// has not run past the end, and once a step has been taken the electric
    /// field is at rest at both walls.
    pub open spec fn well_formed(self) -> bool {
        &&& self.fields.well_formed()
        &&& self.throttle > 0
        &&& self.phase.within(self.params.steps)
        &&& self.phase.clock(self.params.steps) > 0 ==> self.fields.walls_at_rest()
    }

    /// `after` is what one tick may make of `self`: while steps are left, the
    /// clock moves on by one and the fields by one leapfrog step; after the
    /// last step the run is finished and the fields stay as they are.
    pub open spec fn ticks_to<F: Fn(T, T, T, T) -> T>(self, after: Run<T>, advance: F) -> bool {
        &&& after.params == self.params
        &&& after.throttle == self.throttle
        &&& after.phase == self.phase.next(self.params.steps)
        &&& match after.phase {
            Phase::Running(_) => self.fields.steps_to(
                after.fields,
                self.params.e_coef,
                self.params.h_coef,
                advance,
            ),
            _ => after.fields == self.fields,
        }
    }

    /// `after` is what so many ticks, one after the other, may make of `self`.
    pub open spec fn runs_to<F: Fn(T, T, T, T) -> T>(
        self,
        after: Run<T>,
        ticks: nat,
        advance: F,
    ) -> bool
        decreases ticks,
    {
        if ticks == 0 {
            after == self
        } else {
            exists|mid: Run<T>|
                self.runs_to(mid, (ticks - 1) as nat, advance) && #[trigger] mid.ticks_to(
                    after,
                    advance,
                )
        }
    }
}

/// The numbers of the steps after which a run of `steps` steps asks for a
/// snapshot, in the order of the run.
pub open spec fn snapshot_steps(steps: nat, throttle: nat) -> Seq<nat>
    recommends
        throttle > 0,
    decreases steps,
{
    if steps == 0 {
        Seq::empty()
    } else if snapshot_due(steps, throttle) {
        snapshot_steps((steps - 1) as nat, throttle).push(steps)
    } else {
        snapshot_steps((steps - 1) as nat, throttle)
    }
}

/// A tick keeps the invariant of a run: the lengths of the fields still fit
/// together, and after a step the electric field is at rest at both walls.
pub proof fn lemma_tick_keeps_invariant<T, F: Fn(T, T, T, T) -> T>(
    before: Run<T>,
    after: Run<T>,
    advance: F,
)
    requires
        before.well_formed(),
        before.ticks_to(after, advance),
    ensures
        after.well_formed(),
        after.fields.electric.len() == before.fields.electric.len(),
        after.fields.magnetic.len() == before.fields.magnetic.len(),
        after.phase.clock(after.params.steps) > 0 ==> after.fields.walls_at_rest(),
{
}

/// The invariant holds for the whole of a run: however many ticks have
/// passed, the fields have the lengths they began with, one magnetic sample
/// fewer than electric ones, and once a step is taken the electric field is at
/// rest at both walls.
pub proof fn lemma_run_keeps_invariant<T, F: Fn(T, T, T, T) -> T>(
    start: Run<T>,
    after: Run<T>,
    ticks: nat,
    advance: F,
)
    requires
        start.well_formed(),
        start.runs_to(after, ticks, advance),
    ensures
        after.well_formed(),
        after.params == start.params,
        after.throttle == start.throttle,
        after.fields.electric.len() == start.fields.electric.len(),
        after.fields.magnetic.len() + 1 == after.fields.electric.len(),
        after.phase.clock(after.params.steps) > 0 ==> after.fields.walls_at_rest(),
    decreases ticks,
{
    if ticks > 0 {
        let mid = choose|mid: Run<T>|
            start.runs_to(mid, (ticks - 1) as nat, advance) && #[trigger] mid.ticks_to(
                after,
                advance,
            );
        lemma_run_keeps_invariant(start, mid, (ticks - 1) as nat, advance);
        lemma_tick_keeps_invariant(mid, after, advance);
    }
}

/// No step is skipped and none is taken twice: a fresh run of `steps` steps
/// has taken `k` steps after `k` ticks, for every `k` up to `steps`, and is
/// finished after any more.
pub proof fn lemma_run_clock<T, F: Fn(T, T, T, T) -> T>(
    start: Run<T>,
    after: Run<T>,
    ticks: nat,
    advance: F,
)
    requires
        start.phase == Phase::NotStarted,
        start.runs_to(after, ticks, advance),
    ensures
        after.phase == Phase::after(ticks, start.params.steps),
        after.params == start.params,
    decreases ticks,
{
    if ticks > 0 {
        let mid = choose|mid: Run<T>|
            start.runs_to(mid, (ticks - 1) as nat, advance) && #[trigger] mid.ticks_to(
                after,
                advance,
            );
        lemma_run_clock(start, mid, (ticks - 1) as nat, advance);
    }
}

/// A run is determined by where it starts and by the arithmetic: where the
/// arithmetic gives one result for each choice of arguments, two runs of the
/// same number of ticks from the same start end with the same fields, sample
/// for sample, and in the same phase.
pub proof fn lemma_run_deterministic<T, F: Fn(T, T, T, T) -> T>(
    start: Run<T>,
    first: Run<T>,
    second: Run<T>,
    ticks: nat,
    advance: F,
)
    requires
        start.well_formed(),
        single_valued(advance),
        start.runs_to(first, ticks, advance),
        start.runs_to(second, ticks, advance),
    ensures
        first == second,
    decreases ticks,
{
    if ticks > 0 {
        let mid_first = choose|mid: Run<T>|
            start.runs_to(mid, (ticks - 1) as nat, advance) && #[trigger] mid.ticks_to(
                first,
                advance,
            );
        let mid_second = choose|mid: Run<T>|
            start.runs_to(mid, (ticks - 1) as nat, advance) && #[trigger] mid.ticks_to(
                second,
                advance,
            );
        lemma_run_deterministic(start, mid_first, mid_second, (ticks - 1) as nat, advance);
        lemma_run_keeps_invariant(start, mid_first, (ticks - 1) as nat, advance);
        if first.phase is Running {
            lemma_step_deterministic(
                mid_first.fields,
                first.fields,
                second.fields,
                start.params.e_coef,
                start.params.h_coef,
                advance,
            );
        }
    }
}

/// The snapshot cadence: a run of `steps` steps asks for `steps / throttle`
/// snapshots, and the `i`-th of them, counted from zero, is of step
/// `(i + 1) * throttle`.
pub proof fn lemma_snapshot_cadence(steps: nat, throttle: nat)
    requires
        throttle > 0,
    ensures
        snapshot_steps(steps, throttle).len() == steps / throttle,
        forall|i: int|
            0 <= i < steps / throttle ==> #[trigger] snapshot_steps(steps, throttle)[i] == (i + 1)
                * throttle,
    decreases steps,
{
    if steps > 0 {
        let before = (steps - 1) as nat;
        lemma_snapshot_cadence(before, throttle);
        let q = before / throttle;
        let r = before % throttle;
        assert(before == throttle * q + r && 0 <= r < throttle) by (nonlinear_arith)
            requires
                throttle > 0,
                q == before / throttle,
                r == before % throttle,
        ;
        if r + 1 == throttle {
            assert(steps / throttle == q + 1 && steps % throttle == 0 && steps == (q + 1)
                * throttle) by (nonlinear_arith)
                requires
                    throttle > 0,
                    steps == throttle * q + throttle,
                    q >= 0,
            ;
        } else {
            assert(steps / throttle == q && steps % throttle == r + 1) by (nonlinear_arith)
                requires
                    throttle > 0,
                    steps == throttle * q + (r + 1),
                    0 <= r + 1 < throttle,
                    q >= 0,
            ;
        }
    }
}

/// A run in progress: the parameters, the fields and the clock.
pub struct Driver<T> {
    params: Params<T>,
    throttle: usize,
    phase: Phase,
    wave: Wave<T>,
}

impl<T> View for Driver<T> {
    type V = Run<T>;

    closed spec fn view(&self) -> Run<T> {
        Run {
            params: self.params,
            throttle: self.throttle,
            phase: self.phase,
            fields: self.wave@,
        }
    }
}

/// Sets up a run: holds the configuration to its rules, samples the initial
/// pulse into the electric field and leaves the magnetic field at rest.
pub fn initialize<T: Copy, P: Fn(usize) -> T>(
    config: &Config,
    e_coef: T,
    h_coef: T,
    zero: T,
    pulse: &P,
) -> (made: Result<Driver<T>, ConfigError>)
    requires
        forall|i: usize| i < config.n ==> pulse.requires((i,)),
    ensures
        match config.fault() {
            Some(error) => made == Err::<Driver<T>, ConfigError>(error),
            None => made.is_ok() && {
                let run = made.unwrap()@;
                &&& run.well_formed()
                &&& run.params == (Params { steps: config.steps, e_coef, h_coef })
                &&& run.throttle == config.throttle
                &&& run.phase == Phase::NotStarted
                &&& run.fields.zero == zero
                &&& run.fields.electric.len() == config.n
                &&& forall|i: int|
                    0 <= i < config.n ==> pulse.ensures(
                        (i as usize,),
                        #[trigger] run.fields.electric[i],
                    )
                &&& run.fields.magnetic == Seq::new((config.n - 1) as nat, |i: int| zero)
            },
        },
{
    match config.validate() {
        Err(error) => Err(error),
        Ok(()) => match Wave::seeded(config.n, zero, pulse) {
            Err(error) => Err(error),
            Ok(wave) => Ok(
                Driver {
                    params: Params { steps: config.steps, e_coef, h_coef },
                    throttle: config.throttle,
                    phase: Phase::NotStarted,
                    wave,
                },
            ),
        },
    }
}

impl<T: Copy> Driver<T> {
    /// The invariant of the type.
    pub open spec fn well_formed(&self) -> bool {
        self@.well_formed()
    }

    /// One tick of the run. While steps are left it takes one, and asks for a
    /// snapshot if the number of the step is a multiple of the interval;
    /// after the last step it stops and leaves the fields alone.
    pub fn tick<F: Fn(T, T, T, T) -> T>(&mut self, advance: &F) -> (action: Action)
        requires
            old(self).well_formed(),
            forall|x: T, c: T, hi: T, lo: T| advance.requires((x, c, hi, lo)),
        ensures
            final(self).well_formed(),
            old(self)@.ticks_to(final(self)@, *advance),
            action == match final(self)@.phase {
                Phase::Running(t) => action_after(t, final(self)@.throttle),
                _ => Action::Stop,
            },
    {
        let taken: usize = match self.phase {
            Phase::NotStarted => 0,
            Phase::Running(t) => t,
            Phase::Finished => self.params.steps,
        };
        if taken >= self.params.steps {
            self.phase = Phase::Finished;
            return Action::Stop;
        }
        let t: usize = taken + 1;
        self.wave.update(self.params.e_coef, self.params.h_coef, advance);
        self.phase = Phase::Running(t);
        if t % self.throttle == 0 {
            Action::Snapshot(t)
        } else {
            Action::Continue
        }
    }

    /// Where the run stands.
    pub fn phase(&self) -> (phase: Phase)
        ensures
            phase == self@.phase,
    {
        self.phase
    }

    /// The length of the run and the two coefficients.
    pub fn params(&self) -> (params: Params<T>)
        ensures
            params == self@.params,
    {
        self.params
    }

    /// The snapshot interval.
    pub fn throttle(&self) -> (throttle: usize)
        ensures
            throttle == self@.throttle,
    {
        self.throttle
    }

    /// The fields as they stand.
    pub fn wave(&self) -> (wave: &Wave<T>)
        ensures
            wave@ == self@.fields,
    {
        &self.wave
    }
}

} // verus!
