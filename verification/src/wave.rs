//! The field state and the leapfrog kernel that advances it.
//!
//! The electric field is sampled at the integer grid positions, the magnetic
//! field at the half positions between them, so a grid of `n` electric samples
//! carries `n - 1` magnetic ones. Both walls are perfect conductors: after
//! every update the electric field is at rest there.

use vstd::prelude::*;
use crate::error::ConfigError;

verus! {

/// What a [`Wave`] holds, as mathematical sequences.
pub struct Fields<T> {
    /// The electric samples, in grid order.
    pub electric: Seq<T>,
    /// The magnetic samples, in grid order.
    pub magnetic: Seq<T>,
    /// The value of a field at rest, to which the walls are clamped.
    pub zero: T,
}

impl<T> Fields<T> {
    /// There are at least two electric samples, and one magnetic sample
    /// between each two neighbouring electric ones.
    pub open spec fn well_formed(self) -> bool {
        &&& self.electric.len() >= 2
        &&& self.magnetic.len() + 1 == self.electric.len()
    }

    /// The electric field is at rest at both walls.
    pub open spec fn walls_at_rest(self) -> bool {
        &&& self.electric.first() == self.zero
        &&& self.electric.last() == self.zero
    }

    /// The electric half of one leapfrog step from `self`: the walls are at
    /// rest, and every interior sample has been advanced by the difference of
    /// the two magnetic samples around it, as they were before the step.
    pub open spec fn electric_advanced<F: Fn(T, T, T, T) -> T>(
        self,
        electric: Seq<T>,
        e_coef: T,
        advance: F,
    ) -> bool {
        &&& electric.len() == self.electric.len()
        &&& electric[0] == self.zero
        &&& electric[electric.len() - 1] == self.zero
        &&& forall|i: int|
            1 <= i < self.electric.len() - 1 ==> advance.ensures(
                (self.electric[i], e_coef, self.magnetic[i], self.magnetic[i - 1]),
                #[trigger] electric[i],
            )
    }

    /// The magnetic half of one leapfrog step from `self`, made after the
    /// electric half gave `electric`: every sample has been advanced by the
    /// difference of the two new electric samples around it.
    pub open spec fn magnetic_advanced<F: Fn(T, T, T, T) -> T>(
        self,
        electric: Seq<T>,
        magnetic: Seq<T>,
        h_coef: T,
        advance: F,
    ) -> bool {
        &&& magnetic.len() == self.magnetic.len()
        &&& forall|i: int|
            0 <= i < self.magnetic.len() ==> advance.ensures(
                (self.magnetic[i], h_coef, electric[i + 1], electric[i]),
                #[trigger] magnetic[i],
            )
    }

    /// `after` is what one leapfrog step may make of `self`, where
    /// `advance(x, c, hi, lo)` stands for `x + c * (hi - lo)`.
    pub open spec fn steps_to<F: Fn(T, T, T, T) -> T>(
        self,
        after: Fields<T>,
        e_coef: T,
        h_coef: T,
        advance: F,
    ) -> bool {
        &&& after.zero == self.zero
        &&& self.electric_advanced(after.electric, e_coef, advance)
        &&& self.magnetic_advanced(after.electric, after.magnetic, h_coef, advance)
    }
}

/// The arithmetic gives one result for each choice of arguments.
pub open spec fn single_valued<T, F: Fn(T, T, T, T) -> T>(advance: F) -> bool {
    forall|x: T, c: T, hi: T, lo: T, first: T, second: T|
        advance.ensures((x, c, hi, lo), first) && advance.ensures((x, c, hi, lo), second)
            ==> first == second
}

/// A leapfrog step keeps the lengths of both fields and leaves the electric
/// field at rest at both walls.
pub proof fn lemma_step_keeps_shape<T, F: Fn(T, T, T, T) -> T>(
    before: Fields<T>,
    after: Fields<T>,
    e_coef: T,
    h_coef: T,
    advance: F,
)
    requires
        before.well_formed(),
        before.steps_to(after, e_coef, h_coef, advance),
    ensures
        after.well_formed(),
        after.electric.len() == before.electric.len(),
        after.magnetic.len() == before.magnetic.len(),
        after.walls_at_rest(),
{
}

/// A leapfrog step is determined by the fields it starts from, the two
/// coefficients and the arithmetic: where the arithmetic gives one result for
/// each choice of arguments, two steps from the same fields end in the same
/// fields, sample for sample.
pub proof fn lemma_step_deterministic<T, F: Fn(T, T, T, T) -> T>(
    before: Fields<T>,
    first: Fields<T>,
    second: Fields<T>,
    e_coef: T,
    h_coef: T,
    advance: F,
)
    requires
        before.well_formed(),
        single_valued(advance),
        before.steps_to(first, e_coef, h_coef, advance),
        before.steps_to(second, e_coef, h_coef, advance),
    ensures
        first == second,
{
    let n = before.electric.len() as int;
    assert forall|i: int| 0 <= i < n implies first.electric[i] == second.electric[i] by {
        if 1 <= i < n - 1 {
            assert(advance.ensures(
                (before.electric[i], e_coef, before.magnetic[i], before.magnetic[i - 1]),
                first.electric[i],
            ));
            assert(advance.ensures(
                (before.electric[i], e_coef, before.magnetic[i], before.magnetic[i - 1]),
                second.electric[i],
            ));
        }
    }
    assert(first.electric =~= second.electric);
    assert forall|i: int| 0 <= i < n - 1 implies first.magnetic[i] == second.magnetic[i] by {
        assert(advance.ensures(
            (before.magnetic[i], h_coef, first.electric[i + 1], first.electric[i]),
            first.magnetic[i],
        ));
        assert(advance.ensures(
            (before.magnetic[i], h_coef, second.electric[i + 1], second.electric[i]),
            second.magnetic[i],
        ));
    }
    assert(first.magnetic =~= second.magnetic);
}

/// The two staggered fields of a one-dimensional grid.
pub struct Wave<T> {
    electric: Vec<T>,
    magnetic: Vec<T>,
    zero: T,
}

impl<T> View for Wave<T> {
    type V = Fields<T>;

    closed spec fn view(&self) -> Fields<T> {
        Fields { electric: self.electric@, magnetic: self.magnetic@, zero: self.zero }
    }
}

impl<T: Copy> Wave<T> {
    /// The invariant of the type: the lengths of the two fields fit together.
    pub open spec fn well_formed(&self) -> bool {
        self@.well_formed()
    }

    /// A grid of `n` electric samples, the `i`-th of them `pulse(i)`, with the
    /// magnetic field at rest everywhere. A grid of fewer than two samples is
    /// refused.
    pub fn seeded<P: Fn(usize) -> T>(n: usize, zero: T, pulse: &P) -> (made: Result<Self, ConfigError>)
        requires
            forall|i: usize| i < n ==> pulse.requires((i,)),
        ensures
            n < 2 ==> made == Err::<Wave<T>, ConfigError>(ConfigError::GridTooSmall),
            n >= 2 ==> made.is_ok(),
            made.is_ok() ==> {
                let wave = made.unwrap();
                &&& wave.well_formed()
                &&& wave@.zero == zero
                &&& wave@.electric.len() == n
                &&& forall|i: int|
                    0 <= i < n ==> pulse.ensures((i as usize,), #[trigger] wave@.electric[i])
                &&& wave@.magnetic == Seq::new((n - 1) as nat, |i: int| zero)
            },
    {
        if n < 2 {
            return Err(ConfigError::GridTooSmall);
        }
        let mut electric: Vec<T> = Vec::new();
        let mut magnetic: Vec<T> = Vec::new();
        let mut i: usize = 0;
        while i < n
            invariant
                i <= n,
                electric@.len() == i,
                forall|j: usize| j < n ==> pulse.requires((j,)),
                forall|j: int|
                    0 <= j < i ==> pulse.ensures((j as usize,), #[trigger] electric@[j]),
            decreases n - i,
        {
            electric.push(pulse(i));
            i += 1;
        }
        let mut k: usize = 0;
        while k < n - 1
            invariant
                n >= 2,
                k <= n - 1,
                magnetic@.len() == k,
                forall|j: int| 0 <= j < k ==> magnetic@[j] == zero,
            decreases n - k,
        {
            magnetic.push(zero);
            k += 1;
        }
        assert(magnetic@ =~= Seq::new((n - 1) as nat, |i: int| zero));
        Ok(Wave { electric, magnetic, zero })
    }

    /// The number of electric samples.
    pub fn len(&self) -> (n: usize)
        ensures
            n == self@.electric.len(),
    {
        self.electric.len()
    }

    /// The electric samples, in grid order.
    pub fn electric(&self) -> (samples: &Vec<T>)
        ensures
            samples@ == self@.electric,
    {
        &self.electric
    }

    /// The magnetic samples, in grid order.
    pub fn magnetic(&self) -> (samples: &Vec<T>)
        ensures
            samples@ == self@.magnetic,
    {
        &self.magnetic
    }

    /// The value to which the walls are clamped.
    pub fn zero(&self) -> (value: T)
        ensures
            value == self@.zero,
    {
        self.zero
    }

    /// Advances both fields by one time step: first the interior of the
    /// electric field from the magnetic field as it stands, then the walls,
    /// then the magnetic field from the new electric field.
    ///
    /// `advance(x, c, hi, lo)` is the arithmetic of the scheme,
    /// `x + c * (hi - lo)`; it is called once for each sample that moves.
    pub fn update<F: Fn(T, T, T, T) -> T>(&mut self, e_coef: T, h_coef: T, advance: &F)
        requires
            old(self).well_formed(),
            forall|x: T, c: T, hi: T, lo: T| advance.requires((x, c, hi, lo)),
        ensures
            final(self).well_formed(),
            final(self)@.walls_at_rest(),
            old(self)@.steps_to(final(self)@, e_coef, h_coef, *advance),
    {
        let n: usize = self.electric.len();
        let ghost before = self@;
        let mut i: usize = 1;
        while i < n - 1
            invariant
                n == before.electric.len(),
                before.well_formed(),
                1 <= i <= n - 1,
                self.zero == before.zero,
                self.magnetic@ == before.magnetic,
                self.electric@.len() == n,
                forall|x: T, c: T, hi: T, lo: T| advance.requires((x, c, hi, lo)),
                forall|j: int|
                    1 <= j < i ==> advance.ensures(
                        (before.electric[j], e_coef, before.magnetic[j], before.magnetic[j - 1]),
                        #[trigger] self.electric@[j],
                    ),
                forall|j: int| i <= j < n ==> self.electric@[j] == before.electric[j],
            decreases n - i,
        {
            let next = advance(self.electric[i], e_coef, self.magnetic[i], self.magnetic[i - 1]);
            self.electric.set(i, next);
            i += 1;
        }
        self.electric.set(0, self.zero);
        self.electric.set(n - 1, self.zero);
        let mut k: usize = 0;
        while k < n - 1
            invariant
                n == before.electric.len(),
                before.well_formed(),
                k <= n - 1,
                self.zero == before.zero,
                before.electric_advanced(self.electric@, e_coef, *advance),
                self.magnetic@.len() == n - 1,
                forall|x: T, c: T, hi: T, lo: T| advance.requires((x, c, hi, lo)),
                forall|j: int|
                    0 <= j < k ==> advance.ensures(
                        (before.magnetic[j], h_coef, self.electric@[j + 1], self.electric@[j]),
                        #[trigger] self.magnetic@[j],
                    ),
                forall|j: int| k <= j < n - 1 ==> self.magnetic@[j] == before.magnetic[j],
            decreases n - k,
        {
            let next = advance(self.magnetic[k], h_coef, self.electric[k + 1], self.electric[k]);
            self.magnetic.set(k, next);
            k += 1;
        }
    }
}

} // verus!
