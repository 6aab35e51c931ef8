use trc::SharedTrc;
use trc::Store;
use trc::Trc;

#[test]
fn clone_drop_balance() {
    let mut store: Store<u32> = Store::new();
    let trc = Trc::new(&mut store, 7);
    let before = trc.local_count(&store);
    let mut clones: Vec<Trc> = Vec::new();
    for _ in 0..5 {
        clones.push(trc.clone_in(&mut store));
    }
    assert_eq!(trc.local_count(&store), before + 5);
    while let Some(c) = clones.pop() {
        c.drop_in(&mut store);
    }
    assert_eq!(trc.local_count(&store), before);
    // the value and its block are still there
    assert_eq!(*trc.deref(&store), 7);
    trc.drop_in(&mut store);
}

#[test]
fn transfer_round_trip() {
    let mut store: Store<i32> = Store::new();
    let trc = Trc::new(&mut store, 100);
    let before = trc.atomic_count(&store);
    let shared = SharedTrc::from_trc(&trc, &mut store);
    assert_eq!(trc.atomic_count(&store), before + 1);
    // the handle crosses to the other thread and comes back as a pointer
    let arrived = SharedTrc::to_trc(shared, &mut store);
    assert_eq!(*arrived.deref(&store), 100);
    arrived.drop_in(&mut store);
    assert_eq!(trc.atomic_count(&store), before);
    assert_eq!(*trc.deref(&store), 100);
}

#[test]
fn weak_upgrade_after_drop_fails() {
    let mut store: Store<i32> = Store::new();
    let trc = Trc::new(&mut store, 100);
    let weak = Trc::downgrade(&trc, &mut store);
    let up = weak.upgrade(&mut store).unwrap();
    assert_eq!(*up.deref(&store), 100);
    up.drop_in(&mut store);
    // a second family stands for the owner on another thread; the original
    // thread's pointers go first, then the other thread drops the last one
    let shared = SharedTrc::from_trc(&trc, &mut store);
    let elsewhere = SharedTrc::to_trc(shared, &mut store);
    trc.drop_in(&mut store);
    let again = weak.upgrade(&mut store);
    assert!(again.is_some());
    again.unwrap().drop_in(&mut store);
    elsewhere.drop_in(&mut store);
    assert!(weak.upgrade(&mut store).is_none());
}

#[test]
fn exclusive_mutation_gating() {
    let mut store: Store<i32> = Store::new();
    let trc = Trc::new(&mut store, 1);
    assert!(Trc::get_mut(&trc, &mut store).is_some());
    let other = trc.clone_in(&mut store);
    assert!(Trc::get_mut(&trc, &mut store).is_none());
    other.drop_in(&mut store);
    assert!(Trc::get_mut(&trc, &mut store).is_some());
    // a weak observer blocks mutable access too
    let weak = Trc::downgrade(&trc, &mut store);
    assert!(Trc::get_mut(&trc, &mut store).is_none());
    weak.drop_in(&mut store);
    assert!(Trc::get_mut(&trc, &mut store).is_some());
    // so does a transfer handle
    let shared = SharedTrc::from_trc(&trc, &mut store);
    assert!(Trc::get_mut(&trc, &mut store).is_none());
    shared.drop_in(&mut store);
    assert!(Trc::get_mut(&trc, &mut store).is_some());
}

fn race_to_claim(first_goes_first: bool) -> (Option<i32>, Option<i32>) {
    let mut store: Store<i32> = Store::new();
    let x = Trc::new(&mut store, 3);
    let y = x.clone_in(&mut store);
    let shared_x = SharedTrc::from_trc(&x, &mut store);
    let shared_y = SharedTrc::from_trc(&y, &mut store);
    x.drop_in(&mut store);
    y.drop_in(&mut store);
    let trc_x = SharedTrc::to_trc(shared_x, &mut store);
    let trc_y = SharedTrc::to_trc(shared_y, &mut store);
    if first_goes_first {
        let a = Trc::into_inner(trc_x, &mut store);
        let b = Trc::into_inner(trc_y, &mut store);
        (a, b)
    } else {
        let b = Trc::into_inner(trc_y, &mut store);
        let a = Trc::into_inner(trc_x, &mut store);
        (a, b)
    }
}

#[test]
fn into_inner_single_winner() {
    // whichever order the two claimants run in, exactly one of them
    // receives the value
    let (a1, b1) = race_to_claim(true);
    assert!(matches!((a1, b1), (None, Some(3)) | (Some(3), None)));
    let (a2, b2) = race_to_claim(false);
    assert!(matches!((a2, b2), (None, Some(3)) | (Some(3), None)));
}

#[test]
fn uninit_sequence_build_empty() {
    let mut store: Store<Vec<u8>> = Store::new();
    let builder = Trc::new_uninit_slice(&mut store, 0);
    assert_eq!(builder.len(), 0);
    let trc = builder.assume_init(&mut store);
    assert_eq!(trc.deref(&store).len(), 0);
}

#[test]
fn uninit_sequence_build_large() {
    let n: usize = 65536;
    let mut store: Store<Vec<u64>> = Store::new();
    let mut builder = Trc::new_uninit_slice(&mut store, n);
    for i in 0..n {
        builder.write(i, (i as u64) * 3 + 1);
    }
    let trc = builder.assume_init(&mut store);
    let got = trc.deref(&store);
    assert_eq!(got.len(), n);
    for i in 0..n {
        assert_eq!(got[i], (i as u64) * 3 + 1);
    }
}

#[test]
fn identity_vs_value_equality() {
    let mut store: Store<i32> = Store::new();
    let a = Trc::new(&mut store, 100);
    let b = Trc::new(&mut store, 100);
    // equal by value, distinct by identity
    assert_eq!(*a.deref(&store), *b.deref(&store));
    assert!(!Trc::ptr_eq(&a, &b));
    let c = a.clone_in(&mut store);
    assert!(Trc::ptr_eq(&a, &c));
}
