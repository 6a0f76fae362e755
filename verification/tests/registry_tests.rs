use reactor::CountingHandler;
use reactor::EventHandler;
use reactor::Registry;

#[test]
fn registered_handler_is_found_under_its_key() {
    let mut reg: Registry<CountingHandler> = Registry::new();
    reg.register(CountingHandler::new(7));
    assert_eq!(reg.lookup(7).unwrap().handler(), 7);
    assert!(reg.lookup(8).is_none());
    reg.register(CountingHandler::new(8));
    assert_eq!(reg.lookup(7).unwrap().handler(), 7);
    reg.remove(8);
    assert_eq!(reg.lookup(7).unwrap().handler(), 7);
}

#[test]
fn second_registration_under_same_key_wins() {
    let mut reg: Registry<CountingHandler> = Registry::new();
    let mut first = CountingHandler::new(7);
    first.handle_event(7);
    assert_eq!(first.count(), 1);
    reg.register(first);
    reg.register(CountingHandler::new(7));
    assert_eq!(reg.lookup(7).unwrap().count(), 0);
}

#[test]
fn removed_key_is_not_found_until_reregistered() {
    let mut reg: Registry<CountingHandler> = Registry::new();
    reg.register(CountingHandler::new(3));
    let removed = reg.remove(3);
    assert!(removed.is_some());
    assert_eq!(removed.unwrap().handler(), 3);
    assert!(reg.lookup(3).is_none());
    assert!(reg.remove(3).is_none());
    reg.register(CountingHandler::new(3));
    assert!(reg.lookup(3).is_some());
}
