use trc::SharedTrc;
use trc::Store;
use trc::Trc;

struct Data {
    string: String,
    int: i32,
}

trait Vehicle {
    fn drive(&self);
}

struct Truck;

impl Vehicle for Truck {
    fn drive(&self) {
        println!("Truck is driving");
    }
}

#[test]
fn test_singlethreaded() {
    let mut store: Store<Data> = Store::new();
    let data = Data {
        string: String::from("This is data."),
        int: 123,
    };

    let trc = Trc::new(&mut store, data);
    println!("Deref test! {}", trc.deref(&store).int);
    println!("DerefMut test");
    Trc::get_mut(&trc, &mut store).unwrap().string = String::from("This is also data");
    println!("Deref test! {}", trc.deref(&store).string);
    assert_eq!(trc.deref(&store).string, "This is also data");
}

#[test]
fn test_singlethreaded2() {
    let mut store: Store<i32> = Store::new();
    let trc = Trc::new(&mut store, 100);
    assert_eq!(*trc.deref(&store), 100);
    *Trc::get_mut(&trc, &mut store).unwrap() = 200;
    assert_eq!(*trc.deref(&store), 200);
}

#[test]
fn test_refcount() {
    let mut store: Store<i32> = Store::new();
    let trc = Trc::new(&mut store, 100);
    let alt = trc.clone_in(&mut store);
    println!();
    println!("localref {}", trc.local_count(&store));
    println!("atomicref {}", trc.atomic_count(&store));
    let _shared = SharedTrc::from_trc(&trc, &mut store);
    println!("localref {}", trc.local_count(&store));
    println!("atomicref {}", trc.atomic_count(&store));
    trc.drop_in(&mut store);
    println!("localref {}", alt.local_count(&store));
    println!("atomicref {}", alt.atomic_count(&store));
    println!();
    assert_eq!(alt.local_count(&store), 1);
    assert_eq!(alt.atomic_count(&store), 2);
}

#[test]
fn test_weak() {
    let mut store: Store<i32> = Store::new();
    let trc = Trc::new(&mut store, 100);
    let weak = Trc::downgrade(&trc, &mut store);
    let new_trc = weak.upgrade(&mut store).unwrap();
    println!("Deref test! {}", *new_trc.deref(&store));
    println!("DerefMut test");
    weak.drop_in(&mut store);
    trc.drop_in(&mut store);
    *Trc::get_mut(&new_trc, &mut store).unwrap() = 200;
    println!("Deref test! {}", *new_trc.deref(&store));
    assert_eq!(*new_trc.deref(&store), 200);
}

#[test]
fn test_dyn() {
    let mut store: Store<Box<Truck>> = Store::new();
    let vehicle = Trc::new(&mut store, Box::new(Truck));
    vehicle.deref(&store).drive();
}

#[test]
fn test_weak_drop() {
    let mut store: Store<i32> = Store::new();
    let trc = Trc::new(&mut store, 100);
    let weak = Trc::downgrade(&trc, &mut store);
    println!("atomic {}", trc.atomic_count(&store));
    println!("weak {}", trc.weak_count(&store));
    trc.drop_in(&mut store);
    println!("DROPPED");
    assert!(weak.upgrade(&mut store).is_none())
}

#[test]
fn test_from_slice() {
    let mut store: Store<Vec<i32>> = Store::new();
    let vec = (1..100).collect::<Vec<i32>>();
    let slice = &vec[20..50];
    let trc = Trc::from_slice(&mut store, slice.to_vec());
    assert_eq!(&trc.deref(&store)[..], slice);
}

#[test]
fn readme_single_trc() {
    let mut store: Store<i32> = Store::new();
    let trc = Trc::new(&mut store, 100);
    assert_eq!(*trc.deref(&store), 100);
    *Trc::get_mut(&trc, &mut store).unwrap() = 200;
    assert_eq!(*trc.deref(&store), 200);
}

#[test]
fn readme_single_weak() {
    let mut store: Store<i32> = Store::new();
    let trc = Trc::new(&mut store, 100);
    let weak = Trc::downgrade(&trc, &mut store);
    let new_trc = weak.upgrade(&mut store).unwrap();
    assert_eq!(*new_trc.deref(&store), 100);
    trc.drop_in(&mut store);
    weak.drop_in(&mut store);
    *Trc::get_mut(&new_trc, &mut store).unwrap() = 200;
    assert_eq!(*new_trc.deref(&store), 200);
}
