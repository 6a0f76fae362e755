//! A concrete demultiplexer: it serializes an explicitly injected sequence of
//! events, handing them out in order and signalling exhaustion at the end.
//! Driving the loop from an explicit sequence keeps runs deterministic.

use vstd::prelude::*;

use crate::events::EventDemultiplexer;

verus! {

/// An event source over a fixed sequence of events.
pub struct Demultiplexer {
    events: Vec<i32>,
    next: usize,
}

impl Demultiplexer {
    /// A source that will produce exactly `events`, in order.
    pub fn new(events: Vec<i32>) -> (d: Self)
        ensures
            d.remaining() == events@,
    {
        let d = Demultiplexer { events, next: 0 };
        proof {
            assert(d.remaining() =~= d.events@);
        }
        d
    }
}

impl EventDemultiplexer for Demultiplexer {
    closed spec fn remaining(&self) -> Seq<i32> {
        if self.next <= self.events@.len() {
            self.events@.skip(self.next as int)
        } else {
            Seq::empty()
        }
    }

    fn select(&mut self) -> (r: Option<i32>) {
        if self.next < self.events.len() {
            let e = self.events[self.next];
            self.next = self.next + 1;
            proof {
                assert(self.remaining() =~= old(self).remaining().drop_first());
            }
            Some(e)
        } else {
            proof {
                assert(self.remaining() =~= Seq::<i32>::empty());
            }
            None
        }
    }
}

} // verus!
