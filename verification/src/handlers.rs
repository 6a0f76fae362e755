//! A concrete handler: it owns one key and records every event it is asked to
//! process, so that a run of the control loop can be observed afterwards.

use vstd::prelude::*;

use crate::events::EventHandler;

verus! {

/// A handler that keeps the events it processed, in processing order. Its
/// `handled()` view is exactly that record.
pub struct CountingHandler {
    key: i32,
    log: Vec<i32>,
}

impl CountingHandler {
    /// A fresh handler for `key` that has processed nothing yet.
    pub fn new(key: i32) -> (h: Self)
        ensures
            h.key_spec() == key,
            h.handled() == Seq::<i32>::empty(),
    {
        CountingHandler { key, log: Vec::new() }
    }

    /// How many events this handler has processed.
    pub fn count(&self) -> (n: usize)
        ensures
            n == self.handled().len(),
    {
        self.log.len()
    }

    /// The events this handler has processed, in processing order.
    pub fn events(&self) -> (v: &Vec<i32>)
        ensures
            v@ == self.handled(),
    {
        &self.log
    }
}

impl EventHandler for CountingHandler {
    closed spec fn key_spec(&self) -> i32 {
        self.key
    }

    closed spec fn handled(&self) -> Seq<i32> {
        self.log@
    }

    fn handler(&self) -> (k: i32) {
        self.key
    }

    fn handle_event(&mut self, event: i32) {
        self.log.push(event);
    }
}

} // verus!
