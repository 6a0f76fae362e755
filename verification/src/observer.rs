//! Interfaces for a subject/observer notification scheme: a companion sketch
//! to the reactor, in which a subject pushes updates to registered observers
//! instead of a loop pulling events from a source. No component of the
//! reactor core implements these.

use vstd::prelude::*;

verus! {

/// A party that can be told about new data.
pub trait Observer<T> {
    /// Receives one piece of data from the subject.
    fn update(&mut self, data: T);
}

/// A producer that keeps a set of observers and pushes updates to them.
pub trait Subject<T, E> where T: Observer<E> {
    /// Adds `observer` to the parties to notify.
    fn register_observer(&mut self, observer: T);

    /// Withdraws `observer` from the parties to notify.
    fn remove_observer(&mut self, observer: T);

    /// Pushes the current data to every registered observer.
    fn notify_observers(&mut self);
}

} // verus!
