use reactor::register_handlers;
use reactor::ConcreteReactor;
use reactor::CountingHandler;
use reactor::Demultiplexer;
use reactor::Event;
use reactor::EventDemultiplexer;
use reactor::EventHandler;

#[test]
fn test_given_reactor_when_there_are_no_more_events_then_the_reactor_stops() {
    let dem = Demultiplexer::new(vec![1, 2, 3, 4]);
    let mut reactor = ConcreteReactor::new(dem);
    register_handlers(&mut reactor);
    reactor.handle_events();
    assert_eq!(reactor.selector.select(), None);
    assert_eq!(reactor.event_count, 4);
}

#[test]
fn an_i32_event_is_its_own_key() {
    let e: i32 = 42;
    assert_eq!(e.handler(), 42);
    let n: i32 = -7;
    assert_eq!(n.handler(), -7);
}

#[test]
fn five_events_are_each_dispatched_to_their_handler() {
    let dem = Demultiplexer::new(vec![0, 1, 2, 3, 0]);
    let mut r = ConcreteReactor::new(dem);
    for k in 0i32..4i32 {
        r.register_handler(CountingHandler::new(k));
    }
    r.handle_events();
    assert_eq!(r.event_count, 5);
    assert_eq!(r.registry.lookup(0).unwrap().count(), 2);
    assert_eq!(r.registry.lookup(1).unwrap().count(), 1);
    assert_eq!(r.registry.lookup(2).unwrap().count(), 1);
    assert_eq!(r.registry.lookup(3).unwrap().count(), 1);
    let mut dispatches: usize = 0;
    for k in 0i32..4i32 {
        dispatches += r.registry.lookup(k).unwrap().count();
    }
    assert_eq!(dispatches, 5);
    assert_eq!(r.registry.lookup(0).unwrap().events(), &vec![0, 0]);
}

#[test]
fn immediate_exhaustion_means_zero_dispatches() {
    let dem = Demultiplexer::new(vec![]);
    let mut r = ConcreteReactor::new(dem);
    register_handlers(&mut r);
    r.handle_events();
    assert_eq!(r.event_count, 0);
    assert_eq!(r.registry.lookup(0).unwrap().count(), 0);
    assert_eq!(r.selector.select(), None);
}

#[test]
fn event_with_no_handler_is_dropped_and_loop_continues() {
    let dem = Demultiplexer::new(vec![9, 0]);
    let mut r = ConcreteReactor::new(dem);
    r.register_handler(CountingHandler::new(0));
    r.handle_events();
    assert_eq!(r.event_count, 2);
    assert_eq!(r.registry.lookup(0).unwrap().count(), 1);
    assert!(r.registry.lookup(9).is_none());
    assert_eq!(r.selector.select(), None);
}

#[test]
fn unrouted_event_invokes_no_handler() {
    let dem = Demultiplexer::new(vec![9]);
    let mut r = ConcreteReactor::new(dem);
    r.register_handler(CountingHandler::new(0));
    r.handle_events();
    assert_eq!(r.event_count, 1);
    assert_eq!(r.registry.lookup(0).unwrap().count(), 0);
}

#[test]
fn removed_handler_no_longer_receives_events() {
    let dem = Demultiplexer::new(vec![2, 2]);
    let mut r = ConcreteReactor::new(dem);
    r.register_handler(CountingHandler::new(2));
    let probe = CountingHandler::new(2);
    r.remove_handler(&probe);
    r.handle_events();
    assert_eq!(r.event_count, 2);
    assert!(r.registry.lookup(2).is_none());
}

#[test]
fn demultiplexer_emits_in_order_then_stays_exhausted() {
    let mut dem = Demultiplexer::new(vec![5, 6]);
    assert_eq!(dem.select(), Some(5));
    assert_eq!(dem.select(), Some(6));
    assert_eq!(dem.select(), None);
    assert_eq!(dem.select(), None);
}

#[test]
fn counting_handler_records_events_in_order() {
    let mut h = CountingHandler::new(4);
    assert_eq!(h.handler(), 4);
    assert_eq!(h.count(), 0);
    h.handle_event(4);
    h.handle_event(4);
    assert_eq!(h.count(), 2);
    assert_eq!(h.events(), &vec![4, 4]);
}
