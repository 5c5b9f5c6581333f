use socket_selector::{ConnectionTable, Id};

struct Marker;

#[test]
fn new_table_is_empty() {
    let table: ConnectionTable<Marker, u32, 4> = ConnectionTable::new();
    assert_eq!(table.len(), 0);
    assert!(!table.is_full());
    assert!(!table.contains(&Id::from(0)));
}

#[test]
fn add_hands_out_the_slots_in_order() {
    let mut table: ConnectionTable<Marker, u32, 4> = ConnectionTable::new();
    let a = table.add(10).ok().unwrap();
    let b = table.add(20).ok().unwrap();
    let c = table.add(30).ok().unwrap();
    assert_eq!((a.get(), b.get(), c.get()), (0, 1, 2));
    assert_eq!(table.len(), 3);
    assert_eq!(*table.get(&a), 10);
    assert_eq!(*table.get(&b), 20);
    assert_eq!(*table.get(&c), 30);
}

#[test]
fn add_is_refused_when_the_table_is_full() {
    let mut table: ConnectionTable<Marker, u32, 2> = ConnectionTable::new();
    let a = table.add(10).ok().unwrap();
    let b = table.add(20).ok().unwrap();
    assert!(table.is_full());
    assert_eq!(table.add(30).err(), Some(30));
    assert_eq!(table.len(), 2);
    assert_eq!(*table.get(&a), 10);
    assert_eq!(*table.get(&b), 20);
    assert!(!table.contains(&Id::from(2)));
}

#[test]
fn table_without_room_refuses_everything() {
    let mut table: ConnectionTable<Marker, u32, 0> = ConnectionTable::new();
    assert!(table.is_full());
    assert_eq!(table.add(1).err(), Some(1));
}

#[test]
fn removed_id_is_handed_out_again() {
    let mut table: ConnectionTable<Marker, u32, 3> = ConnectionTable::new();
    let a = table.add(10).ok().unwrap();
    let b = table.add(20).ok().unwrap();
    let c = table.add(30).ok().unwrap();
    assert_eq!(table.remove(&b), 20);
    assert!(!table.contains(&b));
    assert!(table.contains(&a));
    assert!(table.contains(&c));
    assert_eq!(table.len(), 2);
    let d = table.add(40).ok().unwrap();
    assert_eq!(d.get(), b.get());
    assert_eq!(*table.get(&d), 40);
    assert_eq!(*table.get(&a), 10);
    assert_eq!(*table.get(&c), 30);
    assert!(table.is_full());
}

#[test]
fn slot_freed_last_is_used_first() {
    let mut table: ConnectionTable<Marker, u32, 4> = ConnectionTable::new();
    let a = table.add(10).ok().unwrap();
    let b = table.add(20).ok().unwrap();
    let c = table.add(30).ok().unwrap();
    table.remove(&a);
    table.remove(&c);
    assert_eq!(table.len(), 1);
    assert_eq!(table.add(40).ok().unwrap().get(), c.get());
    assert_eq!(table.add(50).ok().unwrap().get(), a.get());
    assert_eq!(table.add(60).ok().unwrap().get(), 3);
    assert_eq!(*table.get(&b), 20);
    assert!(table.add(70).is_err());
}

#[test]
fn live_ids_are_pairwise_different() {
    let mut table: ConnectionTable<Marker, u32, 8> = ConnectionTable::new();
    let mut live: Vec<usize> = Vec::new();
    for round in 0..20u32 {
        if round % 3 == 2 {
            let index = live.remove(0);
            table.remove(&Id::from(index));
        } else {
            let id = table.add(round).ok().unwrap();
            assert!(!live.contains(&id.get()));
            live.push(id.get());
        }
        assert_eq!(table.len(), live.len());
    }
}

#[test]
fn get_mut_changes_one_connection() {
    let mut table: ConnectionTable<Marker, u32, 4> = ConnectionTable::new();
    let a = table.add(10).ok().unwrap();
    let b = table.add(20).ok().unwrap();
    *table.get_mut(&a) += 5;
    assert_eq!(*table.get(&a), 15);
    assert_eq!(*table.get(&b), 20);
    assert_eq!(table.len(), 2);
}

#[test]
fn id_keeps_its_index() {
    let id: Id<Marker> = Id::from(7);
    assert_eq!(id.get(), 7);
    let copy = id;
    assert_eq!(copy.clone().get(), 7);
    let index: usize = id.into();
    assert_eq!(index, 7);
}

#[test]
fn reserved_value_is_no_id() {
    assert!(Id::<Marker>::new(usize::MAX).is_none());
    assert_eq!(Id::<Marker>::new(usize::MAX - 1).unwrap().get(), usize::MAX - 1);
    assert_eq!(Id::<Marker>::new(0).unwrap().get(), 0);
}

#[test]
fn table_try_get_finds_live_connections_only() {
    let mut table: ConnectionTable<Marker, u32, 4> = ConnectionTable::new();
    let a = table.add(10).ok().unwrap();
    assert_eq!(table.try_get(&a), Some(&10));
    assert_eq!(table.try_get(&Id::from(1)), None);
    table.remove(&a);
    assert_eq!(table.try_get(&a), None);
}
