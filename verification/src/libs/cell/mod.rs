//! Cells: values that are set apart from what owns them.

pub mod once;

use vstd::prelude::*;

verus! {

/// A value that can be looked at and replaced.
pub struct Cell<T> {
    value: T,
}

impl<T> View for Cell<T> {
    type V = T;

    /// The value in the cell.
    closed spec fn view(&self) -> T {
        self.value
    }
}

impl<T> Cell<T> {
    /// A cell that holds `value`.
    pub fn new(value: T) -> (r: Cell<T>)
        ensures
            r@ == value,
    {
        Self { value }
    }

    /// The value in the cell.
    pub fn get(&self) -> (r: &T)
        ensures
            *r == self@,
    {
        &self.value
    }

    /// The value in the cell, to change.
    pub fn get_mut(&mut self) -> (r: &mut T)
        ensures
            *r == old(self)@,
            final(self)@ == *final(r),
    {
        &mut self.value
    }

    /// Puts `new_value` in the cell.
    pub fn set(&mut self, new_value: T)
        ensures
            final(self)@ == new_value,
    {
        self.value = new_value;
    }
}

} // verus!
