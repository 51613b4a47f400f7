use rustand::{Store, SubscriberCallback};
use std::cell::RefCell;
use std::rc::Rc;

#[test]
fn store_test_store_get_set() {
    let mut store = Store::new(0);

    // Initial value
    assert_eq!(store.get(), 0);

    // Update value
    store.set(|s| *s += 1);
    assert_eq!(store.get(), 1);
}

#[test]
fn test_single_subscribers_called_in_order_with_new_state() {
    let mut store = Store::new(0);
    let log: Rc<RefCell<Vec<(u8, i32)>>> = Rc::new(RefCell::new(Vec::new()));

    let _a = store.subscribe(SubscriberCallback::new({
        let log = log.clone();
        move |v| log.borrow_mut().push((1, *v))
    }));
    let _b = store.subscribe(SubscriberCallback::new({
        let log = log.clone();
        move |v| log.borrow_mut().push((2, *v))
    }));

    store.set(|s| *s = 42);
    assert_eq!(*log.borrow(), vec![(1, 42), (2, 42)]);

    store.set(|s| *s += 8);
    assert_eq!(*log.borrow(), vec![(1, 42), (2, 42), (1, 50), (2, 50)]);
}

#[test]
fn test_single_subscribe_does_not_notify() {
    let mut store = Store::new(7);
    let calls = Rc::new(RefCell::new(0));
    let _sub = store.subscribe(SubscriberCallback::new({
        let calls = calls.clone();
        move |_| *calls.borrow_mut() += 1
    }));
    assert_eq!(*calls.borrow(), 0);
    assert_eq!(store.get(), 7);
}

#[test]
fn test_single_ids_increase() {
    let mut store = Store::new(0);
    let a = store.subscribe(SubscriberCallback::new(|_| {}));
    let b = store.subscribe(SubscriberCallback::new(|_| {}));
    let c = store.subscribe(SubscriberCallback::new(|_| {}));
    assert_eq!(a.id(), 0);
    assert_eq!(b.id(), 1);
    assert_eq!(c.id(), 2);
    // Identifiers are not reused after an unsubscription.
    store.unsubscribe(c.id());
    let d = store.subscribe(SubscriberCallback::new(|_| {}));
    assert_eq!(d.id(), 3);
}

#[test]
fn test_single_unsubscribe_stops_notifications() {
    let mut store = Store::new(1);
    let seen = Rc::new(RefCell::new(Vec::new()));
    let sub = store.subscribe(SubscriberCallback::new({
        let seen = seen.clone();
        move |v| seen.borrow_mut().push(*v)
    }));

    store.set(|s| *s += 1);
    store.unsubscribe(sub.id());
    store.set(|s| *s += 1);

    assert_eq!(*seen.borrow(), vec![2]);
    assert_eq!(store.get(), 3);
}

#[test]
fn test_single_unsubscribe_keeps_others() {
    let mut store = Store::new(0);
    let log = Rc::new(RefCell::new(Vec::new()));
    let mut subs = Vec::new();
    for tag in 0..4u8 {
        let log = log.clone();
        subs.push(store.subscribe(SubscriberCallback::new(move |v: &i32| log.borrow_mut().push((tag, *v)))));
    }
    store.unsubscribe(subs[1].id());
    store.set(|s| *s = 5);
    assert_eq!(*log.borrow(), vec![(0, 5), (2, 5), (3, 5)]);
}

#[test]
fn test_single_unsubscribe_unknown_id_is_noop() {
    let mut store = Store::new(0);
    let calls = Rc::new(RefCell::new(0));
    let _sub = store.subscribe(SubscriberCallback::new({
        let calls = calls.clone();
        move |_| *calls.borrow_mut() += 1
    }));
    store.unsubscribe(99);
    store.set(|s| *s = 1);
    assert_eq!(*calls.borrow(), 1);
}

#[test]
fn test_single_unsubscribe_twice() {
    let mut store = Store::new(0);
    let calls = Rc::new(RefCell::new(0));
    let sub = store.subscribe(SubscriberCallback::new({
        let calls = calls.clone();
        move |_| *calls.borrow_mut() += 1
    }));
    store.unsubscribe(sub.id());
    store.unsubscribe(sub.id());
    store.set(|s| *s = 1);
    assert_eq!(*calls.borrow(), 0);
}

#[test]
fn test_single_cancel_clone_removes_subscriber() {
    let mut store = Store::new(0);
    let called = Rc::new(RefCell::new(0));
    let sub = store.subscribe(SubscriberCallback::new({
        let called = called.clone();
        move |v| *called.borrow_mut() = *v
    }));
    let sub_clone = sub.clone();
    assert_eq!(sub.id(), sub_clone.id());

    // Cancelling the clone removes the subscriber they share.
    sub_clone.cancel(&mut store);
    store.set(|s| *s = 42);
    assert_eq!(*called.borrow(), 0);
}

#[test]
fn test_single_struct_state() {
    #[derive(Clone, Debug, PartialEq)]
    struct State {
        count: u32,
        items: Vec<String>,
    }
    let mut store = Store::new(State { count: 0, items: vec![] });
    store.set(|s| {
        s.count += 10;
        s.items.push("Ferris".to_string());
    });
    store.set(|s| s.items.push("Crab".to_string()));
    let state = store.get();
    assert_eq!(state.count, 10);
    assert_eq!(state.items, vec!["Ferris".to_string(), "Crab".to_string()]);
}

#[test]
fn test_single_update_then_notify() {
    let mut store = Store::new(1);
    let seen = Rc::new(RefCell::new(Vec::new()));
    let _sub = store.subscribe(SubscriberCallback::new({
        let seen = seen.clone();
        move |v| seen.borrow_mut().push(*v)
    }));

    // `update` changes the state without notifying...
    store.update(|s| *s = 5);
    store.update(|s| *s *= 2);
    assert!(seen.borrow().is_empty());
    assert_eq!(store.get(), 10);

    // ...and `notify` passes the current state to every subscriber.
    let _ = store.notify();
    assert_eq!(*seen.borrow(), vec![10]);
}

#[test]
fn test_single_fresh_store_has_free_id() {
    let mut store = Store::new(());
    assert!(store.has_free_id());
    let _sub = store.subscribe(SubscriberCallback::new(|_| {}));
    assert!(store.has_free_id());
}
