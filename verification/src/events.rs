//! The identity contract shared by events and handlers, and the interfaces of
//! the two components the control loop is built from: the event source
//! (demultiplexer) and the event handler.

use vstd::prelude::*;

verus! {

/// An event carries a key, its handler identity: the value used to route it
/// to the handler that claims events of that key.
pub trait Event {
    /// The key of this event, as seen by contracts.
    spec fn key_spec(&self) -> i32;

    /// Computes the event's key; the same derivation the contracts use.
    fn handler(&self) -> (k: i32)
        ensures
            k == self.key_spec(),
    ;
}

/// The events of this core are plain `i32` values: such an event is its own
/// key.
impl Event for i32 {
    open spec fn key_spec(&self) -> i32 {
        *self
    }

    fn handler(&self) -> (k: i32) {
        *self
    }
}

/// The events of `s` that are keyed `k`, in their order within `s`.
pub open spec fn events_keyed(s: Seq<i32>, k: i32) -> Seq<i32> {
    s.filter(|e: i32| e.key_spec() == k)
}

/// Appending one event extends exactly the key class that event belongs to.
pub proof fn lemma_events_keyed_push(s: Seq<i32>, e: i32, k: i32)
    ensures
        events_keyed(s.push(e), k) == if e.key_spec() == k {
            events_keyed(s, k).push(e)
        } else {
            events_keyed(s, k)
        },
{
    reveal(Seq::filter);
    assert(s.push(e).drop_last() =~= s);
}

/// A handler owns one key and processes the events routed to it. `handled()`
/// is the record of the events it has processed, in processing order; one
/// call of `handle_event` processes exactly one event, and processing never
/// changes the handler's key.
pub trait EventHandler: Sized {
    /// The key this handler is registered under, as seen by contracts.
    spec fn key_spec(&self) -> i32;

    /// The events this handler has processed so far, in order.
    spec fn handled(&self) -> Seq<i32>;

    /// Reports the handler's key; the same derivation events use.
    fn handler(&self) -> (k: i32)
        ensures
            k == self.key_spec(),
    ;

    /// Processes one event. The handler's key is stable across processing.
    fn handle_event(&mut self, event: i32)
        ensures
            final(self).key_spec() == old(self).key_spec(),
            final(self).handled() == old(self).handled().push(event),
    ;
}

/// A stateful source of events. `remaining()` is the sequence of events it
/// has yet to produce; `select` hands them out one at a time, in order, and
/// signals exhaustion with `None` once nothing remains. Exhaustion is
/// terminal: after `None`, every further `select` returns `None` again.
pub trait EventDemultiplexer: Sized {
    /// The events this source will still produce, in production order.
    spec fn remaining(&self) -> Seq<i32>;

    /// Produces the next event, or `None` once the source is exhausted.
    fn select(&mut self) -> (r: Option<i32>)
        ensures
            old(self).remaining().len() == 0 ==> r is None && final(self).remaining()
                == old(self).remaining(),
            old(self).remaining().len() > 0 ==> r == Some(old(self).remaining()[0])
                && final(self).remaining() == old(self).remaining().drop_first(),
    ;
}

} // verus!
