//! Typed device-register cells.
//!
//! A hardware register is modelled as a cell holding its current value: a
//! `read` observes the value, a `write` replaces it. The volatile access and
//! the fences that bracket it on real hardware have no observable effect on
//! this state and stay outside the model. `ReadOnly` and `WriteOnly` are
//! type-level access restrictions over any such cell.

use vstd::prelude::*;

verus! {

/// A register-like cell: something that can be read and written, whose
/// abstract content is `io_value`.
pub trait Io {
    type Value;

    spec fn io_value(&self) -> Self::Value;

    fn read(&self) -> (r: Self::Value)
        ensures
            r == self.io_value(),
    ;

    fn write(&mut self, value: Self::Value)
        ensures
            final(self).io_value() == value,
    ;
}

/// One memory-mapped register of width `T`, held as its current value.
pub struct Mmio<T> {
    pub value: T,
}

impl<T: Copy> Mmio<T> {
    /// A register cell starting out with the given content.
    pub fn new(value: T) -> (r: Self)
        ensures
            r.io_value() == value,
    {
        Mmio { value }
    }
}

impl<T: Copy> Io for Mmio<T> {
    type Value = T;

    open spec fn io_value(&self) -> T {
        self.value
    }

    fn read(&self) -> (r: T) {
        self.value
    }

    fn write(&mut self, value: T) {
        self.value = value;
    }
}

/// A register that software may only read.
pub struct ReadOnly<I> {
    pub inner: I,
}

impl<I> ReadOnly<I> {
    pub fn new(inner: I) -> (r: Self)
        ensures
            r.inner == inner,
    {
        ReadOnly { inner }
    }
}

impl<I: Io> ReadOnly<I> {
    pub open spec fn io_value(&self) -> I::Value {
        self.inner.io_value()
    }

    pub fn read(&self) -> (r: I::Value)
        ensures
            r == self.io_value(),
    {
        self.inner.read()
    }
}

/// A register that software may only write.
pub struct WriteOnly<I> {
    pub inner: I,
}

impl<I> WriteOnly<I> {
    pub fn new(inner: I) -> (r: Self)
        ensures
            r.inner == inner,
    {
        WriteOnly { inner }
    }
}

impl<I: Io> WriteOnly<I> {
    pub open spec fn io_value(&self) -> I::Value {
        self.inner.io_value()
    }

    pub fn write(&mut self, value: I::Value)
        ensures
            final(self).io_value() == value,
    {
        self.inner.write(value);
    }
}

} // verus!
