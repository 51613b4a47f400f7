use rustand::common::store::SubscriberCallback;
use rustand::common::store_ring_unsafe::Store as CountingStore;
use rustand::common::types::StoreEvent;
use rustand::common::worker::SubscriberWorker;
use std::sync::{Arc, Mutex};

fn recorder(log: &Arc<Mutex<Vec<(u8, i32)>>>, tag: u8) -> SubscriberCallback<i32> {
    let log = log.clone();
    SubscriberCallback::new(move |v: &i32| log.lock().unwrap().push((tag, *v)))
}

#[test]
fn test_worker_handles_events_in_order() {
    let log = Arc::new(Mutex::new(Vec::new()));
    let mut worker = SubscriberWorker::new();

    worker.handle(StoreEvent::Subscribe(0, recorder(&log, 0)));
    worker.handle(StoreEvent::Subscribe(1, recorder(&log, 1)));
    worker.handle(StoreEvent::StateChanged(Arc::new(42)));
    assert_eq!(*log.lock().unwrap(), vec![(0, 42), (1, 42)]);

    worker.handle(StoreEvent::Unsubscribe(0));
    worker.handle(StoreEvent::StateChanged(Arc::new(50)));
    assert_eq!(*log.lock().unwrap(), vec![(0, 42), (1, 42), (1, 50)]);
}

#[test]
fn test_worker_subscribe_then_unsubscribe_restores() {
    let log = Arc::new(Mutex::new(Vec::new()));
    let mut worker = SubscriberWorker::new();
    worker.handle(StoreEvent::Subscribe(0, recorder(&log, 0)));
    worker.handle(StoreEvent::Subscribe(1, recorder(&log, 1)));
    worker.handle(StoreEvent::Unsubscribe(1));
    worker.handle(StoreEvent::Unsubscribe(7));
    worker.handle(StoreEvent::StateChanged(Arc::new(3)));
    assert_eq!(*log.lock().unwrap(), vec![(0, 3)]);
}

#[test]
fn test_worker_state_change_without_subscribers() {
    let mut worker: SubscriberWorker<i32> = SubscriberWorker::new();
    worker.handle(StoreEvent::StateChanged(Arc::new(1)));
}

#[test]
fn test_counting_store_get_set() {
    let mut store = CountingStore::new(0);
    assert_eq!(store.get().unwrap(), 0);
    for i in 1..=6 {
        store.set(|s| *s += 1).unwrap();
        assert_eq!(store.get().unwrap(), i);
    }
}

#[test]
fn test_counting_store_subscriptions() {
    let mut store = CountingStore::new(0);
    let seen = Arc::new(Mutex::new(Vec::new()));
    let sub = store
        .subscribe({
            let seen = seen.clone();
            SubscriberCallback::new(move |v: &i32| seen.lock().unwrap().push(*v))
        })
        .unwrap();
    assert_eq!(sub.id(), 0);
    store.set(|s| *s = 10).unwrap();
    store.unsubscribe(sub.id()).unwrap();
    store.set(|s| *s = 20).unwrap();
    assert_eq!(*seen.lock().unwrap(), vec![10]);
    assert_eq!(store.get().unwrap(), 20);
}

#[test]
fn test_counting_store_reader_keeps_its_slot() {
    let mut store = CountingStore::new(String::from("a"));
    // A reader enters the current slot and stays in it across an update.
    let idx = store.begin_read();
    assert!(store.next_slot_free());
    store.set(|s| s.push('b')).unwrap();
    // The slot the reader is in still holds the value it entered.
    assert_eq!(store.read_slot(idx), "a");
    assert_eq!(store.get().unwrap(), "ab");
    store.end_read(idx);
    assert_eq!(store.get().unwrap(), "ab");
}

#[test]
fn test_counting_store_next_slot_busy() {
    let mut store = CountingStore::new(0);
    store.set(|s| *s = 1).unwrap();
    store.set(|s| *s = 2).unwrap();
    store.set(|s| *s = 3).unwrap();
    // Slot 3 is current; a reader in it makes slot 0 the next one...
    let idx = store.begin_read();
    assert_eq!(idx, 3);
    assert!(store.next_slot_free());
    store.set(|s| *s = 4).unwrap();
    // ...and after the next three updates the ring comes back to the reader.
    store.set(|s| *s = 5).unwrap();
    store.set(|s| *s = 6).unwrap();
    assert!(!store.next_slot_free());
    store.end_read(idx);
    assert!(store.next_slot_free());
    store.set(|s| *s = 7).unwrap();
    assert_eq!(store.get().unwrap(), 7);
}
