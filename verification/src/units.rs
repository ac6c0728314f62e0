//! Unit-tagged quantities.
//!
//! Physical quantities of different dimensions must not mix, so a value can
//! carry its unit as a phantom type: `Value<Micrometers>` and
//! `Value<Microseconds>` are distinct types, and derived units are spelled
//! with the [`Mul`] and [`Inv`] combinators, as in
//! `Mul<Rad, Inv<Microseconds>>` for rad/us.

use vstd::prelude::*;

verus! {

/// A marker type standing for a physical unit.
pub trait Unit: Copy {

}

/// The unit marker for micrometers.
#[derive(Clone, Copy, Debug)]
pub struct Micrometers;

impl Unit for Micrometers {

}

/// The unit marker for microseconds.
#[derive(Clone, Copy, Debug)]
pub struct Microseconds;

impl Unit for Microseconds {

}

/// The unit marker for radians.
#[derive(Clone, Copy, Debug)]
pub struct Rad;

impl Unit for Rad {

}

/// The product of two units.
#[derive(Copy, Debug)]
pub struct Mul<T, U>(core::marker::PhantomData<(T, U)>);

impl<T, U> Clone for Mul<T, U> {
    fn clone(&self) -> Self {
        Mul(core::marker::PhantomData)
    }
}

impl<T: Unit, U: Unit> Unit for Mul<T, U> {

}

/// The inverse of a unit.
#[derive(Copy, Debug)]
pub struct Inv<T>(core::marker::PhantomData<T>);

impl<T> Clone for Inv<T> {
    fn clone(&self) -> Self {
        Inv(core::marker::PhantomData)
    }
}

impl<T: Unit> Unit for Inv<T> {

}

/// A unit squared.
pub type Square<T> = Mul<T, T>;

/// A unit cubed.
pub type Cube<T> = Mul<T, Square<T>>;

/// A unit to the sixth power.
pub type Pow6<T> = Mul<Cube<T>, Cube<T>>;

/// An integer quantity tagged with its unit: only same-unit quantities can
/// be combined, and squaring moves to the squared unit.
#[derive(Copy, Debug)]
pub struct Value<T: Unit> {
    value: i64,
    unit: core::marker::PhantomData<T>,
}

impl<T: Unit> Clone for Value<T> {
    /// Cloning keeps the magnitude.
    fn clone(&self) -> (r: Self)
        ensures
            r.spec_value() == self.spec_value(),
    {
        Value { value: self.value, unit: core::marker::PhantomData }
    }
}

impl<T: Unit> Value<T> {
    /// The magnitude, in specifications.
    pub closed spec fn spec_value(self) -> int {
        self.value as int
    }

    /// A quantity from its magnitude in this unit.
    pub fn new(value: i64) -> (r: Self)
        ensures
            r.spec_value() == value,
    {
        Self { value, unit: core::marker::PhantomData }
    }

    /// The bare magnitude, in this unit.
    pub fn into_inner(self) -> (r: i64)
        ensures
            r == self.spec_value(),
    {
        self.value
    }

    /// The square of the quantity, in the squared unit.
    pub fn sq(self) -> (r: Value<Mul<T, T>>)
        requires
            self.spec_value() * self.spec_value() <= i64::MAX,
        ensures
            r.spec_value() == self.spec_value() * self.spec_value(),
    {
        proof {
            assert(0 <= self.spec_value() * self.spec_value()) by (nonlinear_arith);
        }
        Value { value: self.value * self.value, unit: core::marker::PhantomData }
    }
}

} // verus!
