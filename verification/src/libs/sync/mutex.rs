//! A lock around a value.
//!
//! One thread of control owns the lock at a time, so taking the lock either
//! succeeds at once or fails at once: there is nothing to spin for.

use vstd::prelude::*;

verus! {

/// A value behind a lock.
pub struct Mutex<T> {
    pub locked: bool,
    pub data: T,
}

/// The right to the value behind a lock, for as long as the guard lives.
pub struct MutexGuard<T> {
    pub data: T,
}

impl<T> Mutex<T> {
    /// An open lock around `data`.
    pub fn new(data: T) -> (r: Self)
        ensures
            !r.locked,
            r.data == data,
    {
        Self { locked: false, data }
    }

    /// Takes the lock, if it is open: the lock is then shut.
    pub fn try_lock(&mut self) -> (r: bool)
        ensures
            r == !old(self).locked,
            final(self).locked,
            final(self).data == old(self).data,
    {
        if self.locked {
            false
        } else {
            self.locked = true;
            true
        }
    }

    /// Takes the lock and hands out the value behind it. `None` where the
    /// lock is shut.
    pub fn lock(self) -> (r: Option<MutexGuard<T>>)
        ensures
            match r {
                Some(guard) => !self.locked && guard.data == self.data,
                None => self.locked,
            },
    {
        if self.locked {
            None
        } else {
            Some(MutexGuard { data: self.data })
        }
    }

    /// Opens the lock.
    pub fn unlock(&mut self)
        ensures
            !final(self).locked,
            final(self).data == old(self).data,
    {
        self.locked = false;
    }
}

impl<T> MutexGuard<T> {
    /// Gives the lock back: an open lock around the value.
    pub fn release(self) -> (r: Mutex<T>)
        ensures
            !r.locked,
            r.data == self.data,
    {
        Mutex { locked: false, data: self.data }
    }
}

} // verus!
