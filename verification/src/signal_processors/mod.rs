//! Consumers of the signals that strategies emit.

pub mod backtest;
pub mod logging;

use crate::data_structures::signal::Signal;
use vstd::prelude::*;

verus! {

/// A sink for signals. Its view is the state that signals act on.
pub trait SignalProcessor: View {
    /// Whether the consumer is in a state in which it takes signals.
    spec fn ready(&self) -> bool;

    /// The state after `signal` acted on `state`.
    spec fn next(state: Self::V, signal: Signal) -> Self::V;

    /// Lets `signal` act on the consumer.
    fn process_signal(&mut self, signal: &Signal)
        requires
            old(self).ready(),
        ensures
            final(self).ready(),
            final(self)@ == Self::next(old(self)@, *signal),
    ;
}

} // verus!
