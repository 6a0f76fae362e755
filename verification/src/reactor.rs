//! The reactor control loop: it pulls events from its demultiplexer, resolves
//! each event's handler in its registry, dispatches, and stops exactly when
//! the demultiplexer is exhausted.

use vstd::prelude::*;

use crate::events::Event;
use crate::events::EventDemultiplexer;
use crate::events::EventHandler;
use crate::events::events_keyed;
use crate::events::lemma_events_keyed_push;
use crate::handlers::CountingHandler;
use crate::registry::Registry;

verus! {

/// A reactor over a concrete demultiplexer type `D` and handler type `H`. It
/// exclusively owns its event source and its registry for the duration of a
/// run, and counts the events it has observed.
pub struct ConcreteReactor<D: EventDemultiplexer, H: EventHandler> {
    /// The event source this reactor drains.
    pub selector: D,
    /// The handlers, keyed by the event key each one owns.
    pub registry: Registry<H>,
    /// How many events `handle_events` has pulled from the source, routed or
    /// not.
    pub event_count: u64,
}

impl<D: EventDemultiplexer, H: EventHandler> ConcreteReactor<D, H> {
    /// A reactor around `selector`, with no handlers registered and no events
    /// observed yet.
    pub fn new(selector: D) -> (r: Self)
        ensures
            r.registry.wf(),
            r.registry@ == Map::<i32, H>::empty(),
            r.selector == selector,
            r.event_count == 0,
    {
        ConcreteReactor { selector, registry: Registry::new(), event_count: 0 }
    }

    /// Registers `handler` under its own key; a handler already registered
    /// there is replaced and dropped.
    pub fn register_handler(&mut self, handler: H)
        requires
            old(self).registry.wf(),
        ensures
            final(self).registry.wf(),
            final(self).registry@ == old(self).registry@.insert(handler.key_spec(), handler),
            final(self).selector == old(self).selector,
            final(self).event_count == old(self).event_count,
    {
        self.registry.register(handler);
    }

    /// Unregisters whatever handler owns the same key as `handler`; dispatch
    /// for that key becomes impossible until a new handler is registered
    /// under it. Doing this for an unregistered key is a no-op.
    pub fn remove_handler(&mut self, handler: &H)
        requires
            old(self).registry.wf(),
        ensures
            final(self).registry.wf(),
            final(self).registry@ == old(self).registry@.remove(handler.key_spec()),
            final(self).selector == old(self).selector,
            final(self).event_count == old(self).event_count,
    {
        let key = handler.handler();
        self.registry.remove(key);
    }

    /// Runs the control loop: while the demultiplexer has events, pull the
    /// next one, look up the handler registered under its key, and dispatch
    /// to it; an event with no handler is silently dropped. The loop stops
    /// exactly when the demultiplexer signals exhaustion, having observed
    /// every event it produced, and each registered handler has processed
    /// precisely the events keyed to it, in emission order.
    pub fn handle_events(&mut self)
        requires
            old(self).registry.wf(),
            old(self).event_count + old(self).selector.remaining().len() <= u64::MAX,
        ensures
            final(self).registry.wf(),
            final(self).selector.remaining().len() == 0,
            final(self).event_count == old(self).event_count + old(
                self,
            ).selector.remaining().len(),
            final(self).registry@.dom() == old(self).registry@.dom(),
            forall|k: i32|
                #![trigger old(self).registry@.contains_key(k)]
                #![trigger final(self).registry@[k]]
                old(self).registry@.contains_key(k) ==> final(self).registry@[k].key_spec() == old(
                    self,
                ).registry@[k].key_spec() && final(self).registry@[k].handled() == old(
                    self,
                ).registry@[k].handled() + events_keyed(old(self).selector.remaining(), k),
    {
        let ghost init_rem = self.selector.remaining();
        let ghost init_reg = self.registry@;
        let ghost init_count = self.event_count;
        let ghost mut processed: Seq<i32> = Seq::empty();
        proof {
            assert(init_rem =~= processed + init_rem);
        }
        loop
            invariant
                self.registry.wf(),
                init_count + init_rem.len() <= u64::MAX,
                init_rem == processed + self.selector.remaining(),
                self.event_count == init_count + processed.len(),
                self.registry@.dom() == init_reg.dom(),
                forall|k: i32| #[trigger]
                    init_reg.contains_key(k) ==> self.registry@[k].key_spec()
                        == init_reg[k].key_spec() && self.registry@[k].handled()
                        == init_reg[k].handled() + events_keyed(processed, k),
            ensures
                self.registry.wf(),
                self.selector.remaining().len() == 0,
                processed == init_rem,
                self.event_count == init_count + processed.len(),
                self.registry@.dom() == init_reg.dom(),
                forall|k: i32| #[trigger]
                    init_reg.contains_key(k) ==> self.registry@[k].key_spec()
                        == init_reg[k].key_spec() && self.registry@[k].handled()
                        == init_reg[k].handled() + events_keyed(processed, k),
            decreases self.selector.remaining().len(),
        {
            let ghost pre_rem = self.selector.remaining();
            let ghost pre_processed = processed;
            let ghost pre_reg = self.registry@;
            let event = self.selector.select();
            match event {
                Some(e) => {
                    proof {
                        processed = pre_processed.push(e);
                        assert(init_rem =~= processed + self.selector.remaining());
                    }
                    self.event_count = self.event_count + 1;
                    let key = e.handler();
                    match self.registry.remove(key) {
                        Some(mut h) => {
                            h.handle_event(e);
                            self.registry.register(h);
                            proof {
                                assert(self.registry@.dom() =~= pre_reg.dom());
                            }
                        },
                        None => {},
                    }
                    proof {
                        assert forall|k: i32| #[trigger] init_reg.contains_key(k) implies self
                            .registry@[k].key_spec() == init_reg[k].key_spec() && self.registry@[k].handled() == init_reg[k].handled() + events_keyed(processed, k) by {
                            lemma_events_keyed_push(pre_processed, e, k);
                            if e.key_spec() == k {
                                assert((init_reg[k].handled() + events_keyed(pre_processed, k)).push(
                                    e,
                                ) =~= init_reg[k].handled() + events_keyed(pre_processed, k).push(
                                    e,
                                ));
                            }
                        }
                    }
                },
                None => {
                    proof {
                        assert(init_rem =~= processed);
                    }
                    break ;
                },
            }
        }
        proof {
            assert forall|k: i32| #[trigger] init_reg.contains_key(k) implies self.registry@[k].handled() == init_reg[k].handled() + events_keyed(init_rem, k) by {
                assert(events_keyed(processed, k) == events_keyed(init_rem, k));
            }
        }
    }
}

/// Registers one fresh recording handler for each of the keys `0` through
/// `4`, replacing whatever handlers owned those keys before.
pub fn register_handlers<D: EventDemultiplexer>(reactor: &mut ConcreteReactor<D, CountingHandler>)
    requires
        old(reactor).registry.wf(),
    ensures
        final(reactor).registry.wf(),
        final(reactor).selector == old(reactor).selector,
        final(reactor).event_count == old(reactor).event_count,
        forall|k: i32|
            #![trigger final(reactor).registry@[k]]
            #![trigger final(reactor).registry@.contains_key(k)]
            0 <= k <= 4 ==> final(reactor).registry@.contains_key(k)
                && final(reactor).registry@[k].key_spec() == k
                && final(reactor).registry@[k].handled() == Seq::<i32>::empty(),
        forall|k: i32|
            #![trigger final(reactor).registry@[k]]
            #![trigger final(reactor).registry@.contains_key(k)]
            !(0 <= k <= 4) ==> (final(reactor).registry@.contains_key(k) <==> old(reactor).registry@.contains_key(k))
                && (old(reactor).registry@.contains_key(k)
                    ==> final(reactor).registry@[k] == old(reactor).registry@[k]),
{
    reactor.register_handler(CountingHandler::new(0));
    reactor.register_handler(CountingHandler::new(1));
    reactor.register_handler(CountingHandler::new(2));
    reactor.register_handler(CountingHandler::new(3));
    reactor.register_handler(CountingHandler::new(4));
}

} // verus!
