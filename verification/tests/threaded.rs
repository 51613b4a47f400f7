use rustand::common::store::{Store, SubscriberCallback};
use rustand::StoreError;
use std::sync::{Arc, Mutex};

// The runtime tests below hold the store behind the runtime's own lock and
// reach it the way the blocking API does outside a runtime.

#[test]
fn test_tokio_get_outside_runtime() {
    let lock = tokio::sync::RwLock::new(Store::new(10));
    let value = lock.blocking_read().get();
    assert_eq!(value.unwrap(), 10);
}

#[test]
fn test_tokio_set_outside_runtime() {
    let lock = tokio::sync::RwLock::new(Store::new(0));
    lock.blocking_write().set(|s| *s = 100).unwrap();
    let value = lock.blocking_read().get();
    assert_eq!(value.unwrap(), 100);
}

#[test]
fn test_async_std_get_outside_runtime() {
    let lock = async_std::sync::RwLock::new(Store::new(10));
    let value = async_std::task::block_on(lock.read()).get();
    assert_eq!(value.unwrap(), 10);
}

#[test]
fn test_async_std_set_outside_runtime() {
    let lock = async_std::sync::RwLock::new(Store::new(0));
    async_std::task::block_on(lock.write()).set(|s| *s = 100).unwrap();
    let value = async_std::task::block_on(lock.read()).get();
    assert_eq!(value.unwrap(), 100);
}

#[test]
fn test_store_subscribe() {
    let mut store = Store::new(5);
    let called = Arc::new(Mutex::new(false));
    let called_clone = called.clone();

    let _subscription = store
        .subscribe(SubscriberCallback::new(move |value: &i32| {
            let mut called = called_clone.lock().unwrap();
            *called = *value == 10;
        }))
        .unwrap();

    store.set(|s| *s = 10).unwrap();

    assert!(*called.lock().unwrap());
}

#[test]
fn test_unsubscribe() {
    let mut store = Store::new(1);
    let called = Arc::new(Mutex::new(false));
    let called_clone = called.clone();

    let subscription = store
        .subscribe(SubscriberCallback::new(move |_: &i32| {
            let mut called = called_clone.lock().unwrap();
            *called = true;
        }))
        .unwrap();

    // Hand the subscription back to unsubscribe
    subscription.cancel(&mut store);

    store.set(|s| *s += 1).unwrap();

    // The callback should NOT have been called
    assert!(!*called.lock().unwrap());
}

#[test]
fn test_multiple_subscribers() {
    let mut store = Store::new(0);
    let called1 = Arc::new(Mutex::new(0));
    let called2 = Arc::new(Mutex::new(0));

    let sub1 = {
        let called1 = called1.clone();
        store
            .subscribe(SubscriberCallback::new(move |v: &i32| {
                let mut c = called1.lock().unwrap();
                *c = *v;
            }))
            .unwrap()
    };

    let sub2 = {
        let called2 = called2.clone();
        store
            .subscribe(SubscriberCallback::new(move |v: &i32| {
                let mut c = called2.lock().unwrap();
                *c = *v;
            }))
            .unwrap()
    };

    store.set(|s| *s = 42).unwrap();

    assert!(*called1.lock().unwrap() == 42 && *called2.lock().unwrap() == 42);

    // Cancelling subscriptions
    sub1.cancel(&mut store);
    sub2.cancel(&mut store);

    // Reset called flags
    *called1.lock().unwrap() = 0;
    *called2.lock().unwrap() = 0;

    store.set(|s| *s = 100).unwrap();

    // Callbacks should not be called after unsubscribe
    assert_eq!(*called1.lock().unwrap(), 0);
    assert_eq!(*called2.lock().unwrap(), 0);
}

#[test]
fn test_subscription_clone_behavior() {
    let mut store = Store::new(0);
    let called = Arc::new(Mutex::new(0));

    let sub = store
        .subscribe(SubscriberCallback::new({
            let called = called.clone();
            move |v| {
                let mut c = called.lock().unwrap();
                *c = *v;
            }
        }))
        .unwrap();

    let sub_clone = sub.clone();

    // Cancel the clone
    sub_clone.cancel(&mut store);

    // This removed the subscriber of the first handle too: both carry the same ID
    store.set(|s| *s = 42).unwrap();

    assert_eq!(
        *called.lock().unwrap(),
        0,
        "Subscription should have been removed when clone was dropped"
    );
}

#[test]
fn test_explicit_unsubscribe() {
    let mut store = Store::new(0);
    let called = Arc::new(Mutex::new(false));

    let _sub = store
        .subscribe(SubscriberCallback::new({
            let called = called.clone();
            move |_| {
                let mut c = called.lock().unwrap();
                *c = true;
            }
        }))
        .unwrap();

    let id = 0;

    store.unsubscribe(id).unwrap();

    store.set(|s| *s = 1).unwrap();

    // It should NOT have been called
    assert!(!*called.lock().unwrap());
}

#[test]
fn test_error_display() {
    let err = StoreError::Poisoned;
    assert_eq!(err.message(), "Lock poisoned");
}

#[test]
fn test_many_sequential_updates() {
    let mut store = Store::new(0);
    for _ in 0..10 {
        for _ in 0..100 {
            store.set(|s| *s += 1).unwrap();
        }
    }
    assert_eq!(store.get().unwrap(), 1000);
}

#[test]
fn store_test_threaded_get_set() {
    let mut store = Store::new(0);

    // Initial value
    assert_eq!(store.get().unwrap(), 0);

    // Update value
    store.set(|s| *s += 1).unwrap();
    assert_eq!(store.get().unwrap(), 1);

    // Multiple updates
    store.set(|s| *s *= 10).unwrap();
    assert_eq!(store.get().unwrap(), 10);
}

#[test]
fn test_threaded_ring_wraps_around() {
    // More updates than slots in the ring: each one builds on the last.
    let mut store = Store::new(Vec::<u32>::new());
    for i in 0..9u32 {
        store.set(move |s| s.push(i)).unwrap();
        assert_eq!(store.get().unwrap(), (0..=i).collect::<Vec<u32>>());
    }
}

#[test]
fn test_threaded_subscribers_get_new_state_in_order() {
    let mut store = Store::new(0);
    let log = Arc::new(Mutex::new(Vec::new()));
    for tag in 0..3u8 {
        let log = log.clone();
        store
            .subscribe(SubscriberCallback::new(move |v: &i32| log.lock().unwrap().push((tag, *v))))
            .unwrap();
    }
    store.set(|s| *s = 7).unwrap();
    assert_eq!(*log.lock().unwrap(), vec![(0, 7), (1, 7), (2, 7)]);
}

#[test]
fn test_threaded_ids_increase() {
    let mut store = Store::new(0);
    let a = store.subscribe(SubscriberCallback::new(|_: &i32| {})).unwrap();
    let b = store.subscribe(SubscriberCallback::new(|_: &i32| {})).unwrap();
    assert_eq!((a.id(), b.id()), (0, 1));
}

#[test]
fn test_threaded_fresh_store_has_free_id() {
    let store = Store::new(0u8);
    assert!(store.has_free_id());
}
