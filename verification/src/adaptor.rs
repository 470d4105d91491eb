use vstd::prelude::*;

use crate::evolution::TimeEvolution;

verus! {

/// The lazy, infinite, non-restartable sequence of states obtained by
/// repeatedly applying a state-advance capability to an initial state.
/// Advancing it overwrites the internal cursor: consuming the sequence is
/// destructive.
pub struct TimeSeries<TEO: TimeEvolution> {
    state: Vec<u64>,
    teo: TEO,
}

/// Build the orbit sequence starting at `x0`.
pub fn time_series<TEO: TimeEvolution>(x0: Vec<u64>, teo: TEO) -> (ts: TimeSeries<TEO>)
    ensures
        ts.cursor() == x0@,
        ts.system() == teo,
{
    TimeSeries { state: x0, teo }
}

impl<TEO: TimeEvolution> TimeSeries<TEO> {
    /// The state the cursor stands at.
    pub closed spec fn cursor(&self) -> Seq<u64> {
        self.state@
    }

    /// The capability driving the sequence.
    pub closed spec fn system(&self) -> TEO {
        self.teo
    }

    /// Advance the cursor by one step of the capability.
    pub fn iterate(&mut self)
        ensures
            final(self).system() == old(self).system(),
            final(self).cursor() == old(self).system().advance_spec(old(self).cursor()),
    {
        let next = self.teo.advance(&self.state);
        self.state = next;
    }

    /// Advance the cursor, then emit a copy of the new state: the
    /// advance-then-emit step of the infinite sequence.
    pub fn next_state(&mut self) -> (r: Vec<u64>)
        ensures
            final(self).system() == old(self).system(),
            final(self).cursor() == old(self).system().advance_spec(old(self).cursor()),
            r@ == final(self).cursor(),
    {
        self.iterate();
        self.state.clone()
    }
}

} // verus!
