use rustand::common::store::Store;
use rustand::common::subscription::Subscription;
use rustand::fuzz::{run_fuzz_step, Operation};

fn run(ops: &[Operation]) -> (Store<u32>, Vec<Subscription<u32>>, usize) {
    let mut store = Store::new(0u32);
    let mut subs = Vec::new();
    let mut yields = 0;
    for op in ops {
        if run_fuzz_step(&mut store, &mut subs, *op) {
            yields += 1;
        }
    }
    (store, subs, yields)
}

#[test]
fn test_fuzz_set_and_get() {
    let (store, subs, yields) = run(&[Operation::Get, Operation::SetState(5), Operation::Get]);
    assert_eq!(store.get().unwrap(), 5);
    assert!(subs.is_empty());
    assert_eq!(yields, 0);
}

#[test]
fn test_fuzz_wait_yields() {
    let (store, _, yields) = run(&[Operation::Wait, Operation::SetState(1), Operation::Wait]);
    assert_eq!(yields, 2);
    assert_eq!(store.get().unwrap(), 1);
}

#[test]
fn test_fuzz_subscribe_and_unsubscribe() {
    let (_, subs, _) = run(&[
        Operation::Subscribe,
        Operation::Subscribe,
        Operation::Subscribe,
        // 4 % 3 == 1: drops the handle with identifier 1
        Operation::Unsubscribe(4),
    ]);
    let ids: Vec<usize> = subs.iter().map(|s| s.id()).collect();
    assert_eq!(ids, vec![0, 2]);
}

#[test]
fn test_fuzz_unsubscribe_without_handles() {
    let (store, subs, _) = run(&[Operation::Unsubscribe(3), Operation::SetState(9)]);
    assert!(subs.is_empty());
    assert_eq!(store.get().unwrap(), 9);
}

#[test]
fn test_fuzz_store_subscribers_follow_handles() {
    let mut store = Store::new(0u32);
    let mut subs = Vec::new();
    for op in [Operation::Subscribe, Operation::Subscribe, Operation::Unsubscribe(0)] {
        run_fuzz_step(&mut store, &mut subs, op);
    }
    // Dropping the handle at position 0 removed subscriber 0; subscriber 1
    // remains, and the next subscriber gets identifier 2.
    assert_eq!(subs.len(), 1);
    assert_eq!(subs[0].id(), 1);
    run_fuzz_step(&mut store, &mut subs, Operation::Subscribe);
    assert_eq!(subs[1].id(), 2);
}
