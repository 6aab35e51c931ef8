use trc::SharedTrc;
use trc::Store;
use trc::Trc;
use trc::Weak;
use trc::sub_value;
use trc::sum_value;

struct Node {
    parent: Weak,
}

#[test]
fn counter_primitives() {
    let mut x: u64 = 40;
    assert_eq!(sum_value(&mut x, 2), 40);
    assert_eq!(x, 42);
    assert_eq!(sub_value(&mut x, 2), 42);
    assert_eq!(x, 40);
}

#[test]
fn try_unwrap_requires_unique() {
    let mut store: Store<i32> = Store::new();
    let t = Trc::new(&mut store, 100);
    let c = t.clone_in(&mut store);
    // a second owning pointer in the thread blocks the unwrap
    let t = match Trc::try_unwrap(t, &mut store) {
        Ok(_) => panic!("unwrap must fail while a clone lives"),
        Err(t) => t,
    };
    c.drop_in(&mut store);
    // a transfer handle blocks it too
    let shared = SharedTrc::from_trc(&t, &mut store);
    let t = match Trc::try_unwrap(t, &mut store) {
        Ok(_) => panic!("unwrap must fail while a transfer handle lives"),
        Err(t) => t,
    };
    shared.drop_in(&mut store);
    assert_eq!(Trc::try_unwrap(t, &mut store).ok(), Some(100));
}

#[test]
fn try_unwrap_ignores_weak_observers() {
    let mut store: Store<i32> = Store::new();
    let t = Trc::new(&mut store, 100);
    let weak = Trc::downgrade(&t, &mut store);
    // outstanding weak observers do not block the unwrap
    assert_eq!(Trc::try_unwrap(t, &mut store).ok(), Some(100));
    assert!(weak.upgrade(&mut store).is_none());
    weak.drop_in(&mut store);
}

#[test]
fn unwrap_or_clone_both_ways() {
    let mut store: Store<String> = Store::new();
    let t = Trc::new(&mut store, String::from("Trc"));
    let c = t.clone_in(&mut store);
    let s1 = Trc::unwrap_or_clone(t, &mut store);
    assert_eq!(s1, "Trc");
    let s2 = Trc::unwrap_or_clone(c, &mut store);
    assert_eq!(s2, "Trc");
}

#[test]
fn shared_counts_and_identity() {
    let mut store: Store<i32> = Store::new();
    let trc = Trc::new(&mut store, 100);
    let shared1 = SharedTrc::from_trc(&trc, &mut store);
    let shared2 = shared1.clone_in(&mut store);
    assert_eq!(SharedTrc::atomic_count(&shared1, &store), 3);
    assert!(SharedTrc::ptr_eq(&shared1, &shared2));
    assert_eq!(SharedTrc::as_ptr(&shared1), Trc::as_ptr(&trc));
    let weak = Trc::downgrade(&trc, &mut store);
    assert_eq!(SharedTrc::weak_count(&shared1, &store), 2);
    assert_eq!(Weak::atomic_count(&weak, &store), 3);
    assert_eq!(Weak::weak_count(&weak, &store), 2);
    weak.drop_in(&mut store);
    shared2.drop_in(&mut store);
    shared1.drop_in(&mut store);
    assert_eq!(trc.atomic_count(&store), 1);
}

#[test]
fn shared_raw_round_trip() {
    let mut store: Store<i32> = Store::new();
    let trc = Trc::new(&mut store, 100);
    let shared = SharedTrc::from_trc(&trc, &mut store);
    let ptr = SharedTrc::into_raw(shared);
    assert_eq!(ptr, Trc::as_ptr(&trc));
    SharedTrc::increment_local_count(&mut store, ptr);
    assert_eq!(trc.atomic_count(&store), 3);
    SharedTrc::decrement_local_count(&mut store, ptr);
    assert_eq!(trc.atomic_count(&store), 2);
    let back = SharedTrc::from_raw(ptr);
    let arrived = SharedTrc::to_trc(back, &mut store);
    assert_eq!(*arrived.deref(&store), 100);
    arrived.drop_in(&mut store);
    assert_eq!(trc.atomic_count(&store), 1);
}

#[test]
fn weak_raw_round_trip() {
    let mut store: Store<String> = Store::new();
    let strong = Trc::new(&mut store, String::from("hello"));
    let raw_1 = Weak::into_raw(Trc::downgrade(&strong, &mut store));
    let raw_2 = Weak::into_raw(Trc::downgrade(&strong, &mut store));
    assert_eq!(3, strong.weak_count(&store));
    let w1 = Weak::from_raw(raw_1);
    let up = w1.upgrade(&mut store).unwrap();
    assert_eq!(*up.deref(&store), "hello");
    up.drop_in(&mut store);
    w1.drop_in(&mut store);
    assert_eq!(2, strong.weak_count(&store));
    strong.drop_in(&mut store);
    let w2 = Weak::from_raw(raw_2);
    assert!(w2.upgrade(&mut store).is_none());
    w2.drop_in(&mut store);
}

#[test]
fn weak_new_is_expired() {
    let mut store: Store<u8> = Store::new();
    let weak = Weak::new(&mut store);
    assert_eq!(Weak::weak_count(&weak, &store), 1);
    assert_eq!(Weak::atomic_count(&weak, &store), 0);
    assert!(weak.upgrade(&mut store).is_none());
    weak.drop_in(&mut store);
}

#[test]
fn uninit_write_then_init() {
    let mut store: Store<i32> = Store::new();
    let cell = Trc::new_uninit(&mut store);
    cell.write(&mut store, 5);
    let five = cell.assume_init(&store);
    assert_eq!(*five.deref(&store), 5);
    five.drop_in(&mut store);
}

#[test]
fn uninit_dropped_without_value() {
    let mut store: Store<i32> = Store::new();
    let cell = Trc::new_uninit(&mut store);
    cell.drop_in(&mut store);
    let mut slice_store: Store<Vec<i32>> = Store::new();
    let mut builder = Trc::new_uninit_slice(&mut slice_store, 3);
    builder.write(0, 1);
    builder.drop_in(&mut slice_store);
}

#[test]
fn cyclic_construction() {
    let mut store: Store<Node> = Store::new();
    let (builder, weak) = Trc::new_cyclic_begin(&mut store);
    // nothing can upgrade while the value is still being built
    assert!(weak.upgrade(&mut store).is_none());
    let inner = weak.clone_in(&mut store);
    let trc = Trc::new_cyclic_finish(builder, &mut store, Node { parent: inner });
    // the value holds a weak observer of its own allocation
    assert_eq!(Weak::as_ptr(&trc.deref(&store).parent), Trc::as_ptr(&trc));
    let up = weak.upgrade(&mut store).unwrap();
    assert_eq!(Weak::as_ptr(&up.deref(&store).parent), Trc::as_ptr(&up));
    up.drop_in(&mut store);
    weak.drop_in(&mut store);
    trc.drop_in(&mut store);
}

#[test]
fn into_inner_sole_owner_wins() {
    let mut store: Store<i32> = Store::new();
    let t = Trc::new(&mut store, 41);
    assert_eq!(Trc::into_inner(t, &mut store), Some(41));
}
