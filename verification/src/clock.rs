//! The shared tick counter that drives the simulation.

use vstd::prelude::*;

verus! {

/// A monotonically increasing tick counter.  The counter itself is a plain
/// value; components that need to share one clock across actors wrap it in a
/// synchronisation primitive of their own and hand the current tick to the
/// scheduling core as an explicit argument.
#[derive(Clone, Copy)]
pub struct Clock {
    ticks: u128,
}

impl View for Clock {
    type V = u128;

    closed spec fn view(&self) -> u128 {
        self.ticks
    }
}

impl Clock {
    /// A clock reading zero.
    pub fn new() -> (c: Clock)
        ensures
            c@ == 0,
    {
        Clock { ticks: 0 }
    }

    /// Advances the clock by exactly one tick.
    pub fn tick(&mut self)
        requires
            old(self)@ < u128::MAX,
        ensures
            final(self)@ == old(self)@ + 1,
    {
        self.ticks = self.ticks + 1;
    }

    /// The current tick.
    pub fn time(&self) -> (t: u128)
        ensures
            t == self@,
    {
        self.ticks
    }
}

} // verus!
