//! A consumer that remembers the last signal and tells when the direction
//! changed.

use crate::data_structures::signal::Signal;
use crate::signal_processors::SignalProcessor;
use vstd::prelude::*;

verus! {

/// Remembers the last signal it was given.
pub struct Logging {
    last_signal: Option<Signal>,
}

impl View for Logging {
    type V = Option<Signal>;

    closed spec fn view(&self) -> Option<Signal> {
        self.last_signal
    }
}

/// Whether `signal` changes the direction of the last signal; the first
/// signal changes nothing.
pub open spec fn changes_direction(last: Option<Signal>, signal: Signal) -> bool {
    match last {
        Some(previous) => previous.signal_type != signal.signal_type,
        None => false,
    }
}

/// Whether `signal` changes the direction of the last signal.
pub fn direction_changed(last: &Option<Signal>, signal: &Signal) -> (res: bool)
    ensures
        res == changes_direction(*last, *signal),
{
    match last {
        Some(previous) => previous.signal_type != signal.signal_type,
        None => false,
    }
}

impl Logging {
    /// A consumer that has seen no signal.
    pub fn new() -> (res: Self)
        ensures
            res@ == None::<Signal>,
    {
        Logging { last_signal: None }
    }

    /// The last signal the consumer was given, if any.
    pub fn last_signal(&self) -> (res: Option<Signal>)
        ensures
            res == self@,
    {
        match &self.last_signal {
            Some(signal) => Some(signal.clone()),
            None => None,
        }
    }

    /// Whether `signal` is worth a log line: its direction differs from
    /// that of the last signal.
    pub fn is_update(&self, signal: &Signal) -> (res: bool)
        ensures
            res == changes_direction(self@, *signal),
    {
        direction_changed(&self.last_signal, signal)
    }
}

impl SignalProcessor for Logging {
    open spec fn ready(&self) -> bool {
        true
    }

    open spec fn next(state: Option<Signal>, signal: Signal) -> Option<Signal> {
        Some(signal)
    }

    fn process_signal(&mut self, signal: &Signal) {
        self.last_signal = Some(signal.clone());
    }
}

} // verus!
