//! A cell that is filled once.

use vstd::pervasive::unreached;
use vstd::prelude::*;

verus! {

/// What a cell that is filled once is in the middle of.
pub enum OnceCellState<T> {
    Uninitialized,
    Initializing,
    Initialized(T),
}

/// A cell that is filled once and read ever after.
pub struct OnceCell<T> {
    pub state: OnceCellState<T>,
}

impl<T> OnceCell<T> {
    /// An empty cell.
    pub fn new() -> (r: Self)
        ensures
            r.state is Uninitialized,
    {
        OnceCell { state: OnceCellState::Uninitialized }
    }

    /// Fills the cell with `new_data`. Only an empty cell can be filled.
    pub fn set(&mut self, new_data: T)
        requires
            old(self).state is Uninitialized,
        ensures
            final(self).state == OnceCellState::Initialized(new_data),
    {
        match &self.state {
            OnceCellState::Uninitialized => {
                self.state = OnceCellState::Initializing;

                self.state = OnceCellState::Initialized(new_data);
            },
            _ => unreached(),
        }
    }

    /// What the cell holds; nothing where it has not been filled.
    pub fn get(&self) -> (r: Result<&T, ()>)
        ensures
            match r {
                Ok(data) => self.state == OnceCellState::Initialized(*data),
                Err(_) => !(self.state is Initialized),
            },
    {
        match &self.state {
            OnceCellState::Initialized(data) => Ok(data),
            _ => Err(()),
        }
    }

    /// What the cell holds, for a cell that is known to be filled.
    pub fn get_unchecked(&self) -> (r: &T)
        requires
            self.state is Initialized,
        ensures
            self.state == OnceCellState::Initialized(*r),
    {
        match &self.state {
            OnceCellState::Initialized(data) => data,
            _ => unreached(),
        }
    }

    /// What the cell holds, after it has been filled with what `func`
    /// makes if it was empty. A cell that holds something keeps it, and
    /// `func` is not called. A cell that is being filled cannot be asked.
    pub fn get_or_set<F: FnOnce() -> T>(&mut self, func: F) -> (r: &T)
        requires
            !(old(self).state is Initializing),
            old(self).state is Uninitialized ==> func.requires(()),
        ensures
            final(self).state == OnceCellState::Initialized(*r),
            match old(self).state {
                OnceCellState::Uninitialized => func.ensures((), *r),
                OnceCellState::Initializing => false,
                OnceCellState::Initialized(held) => final(self).state == old(self).state,
            },
    {
        match &self.state {
            OnceCellState::Uninitialized => {
                self.set(func());
            },
            OnceCellState::Initializing => unreached(),
            OnceCellState::Initialized(_) => {},
        }
        self.get_unchecked()
    }
}

} // verus!
