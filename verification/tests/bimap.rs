use jumong_server::collection::BiMap;
use jumong_server::net::PeerAddr;

fn addr(n: u16) -> PeerAddr {
    PeerAddr::new(0x0A000001, n)
}

#[test]
fn insert_then_lookup_both_directions() {
    let mut m = BiMap::new();
    m.insert(b"A".to_vec(), addr(1));
    assert_eq!(m.get_by_key(&b"A".to_vec()), Some(&addr(1)));
    assert_eq!(m.get_by_val(&addr(1)), Some(&b"A".to_vec()));
    assert_eq!(m.get_by_key(&b"B".to_vec()), None);
    assert_eq!(m.get_by_val(&addr(2)), None);
}

#[test]
fn lookups_stay_inverse_after_evictions() {
    // the two lookup directions are inverses: rebinding either side
    // evicts the old counterpart, so no id or address is ever bound twice
    let mut m = BiMap::new();
    m.insert(b"A".to_vec(), addr(1));
    m.insert(b"B".to_vec(), addr(2));

    // rebind addr(1) to a new id: A's binding must be gone entirely
    m.insert(b"C".to_vec(), addr(1));
    assert_eq!(m.get_by_key(&b"A".to_vec()), None);
    assert_eq!(m.get_by_val(&addr(1)), Some(&b"C".to_vec()));
    assert_eq!(m.get_by_key(&b"C".to_vec()), Some(&addr(1)));

    // rebind id B to a new address: addr(2) must be free
    m.insert(b"B".to_vec(), addr(3));
    assert_eq!(m.get_by_val(&addr(2)), None);
    assert_eq!(m.get_by_key(&b"B".to_vec()), Some(&addr(3)));
    assert_eq!(m.get_by_val(&addr(3)), Some(&b"B".to_vec()));

    assert_eq!(m.pairs.len(), 2);
}

#[test]
fn remove_by_key_returns_address() {
    let mut m = BiMap::new();
    m.insert(b"A".to_vec(), addr(1));
    assert_eq!(m.remove_by_key(&b"A".to_vec()), Some(addr(1)));
    assert_eq!(m.remove_by_key(&b"A".to_vec()), None);
    assert_eq!(m.get_by_val(&addr(1)), None);
}

#[test]
fn remove_by_value_returns_id() {
    let mut m = BiMap::new();
    m.insert(b"A".to_vec(), addr(1));
    m.insert(b"B".to_vec(), addr(2));
    assert_eq!(m.remove_by_value(&addr(2)), Some(b"B".to_vec()));
    assert_eq!(m.remove_by_value(&addr(2)), None);
    assert_eq!(m.get_by_key(&b"B".to_vec()), None);
    assert_eq!(m.get_by_key(&b"A".to_vec()), Some(&addr(1)));
}

#[test]
fn get_mut_by_key_updates_address() {
    let mut m = BiMap::new();
    m.insert(b"A".to_vec(), addr(1));
    if let Some(a) = m.get_mut_by_key(&b"A".to_vec()) {
        *a = addr(9);
    } else {
        panic!("binding expected");
    }
    assert_eq!(m.get_by_key(&b"A".to_vec()), Some(&addr(9)));
    assert_eq!(m.get_mut_by_key(&b"Z".to_vec()), None);
}

#[test]
fn get_mut_by_val_updates_id() {
    let mut m = BiMap::new();
    m.insert(b"A".to_vec(), addr(1));
    if let Some(k) = m.get_mut_by_val(&addr(1)) {
        *k = b"Z".to_vec();
    } else {
        panic!("binding expected");
    }
    assert_eq!(m.get_by_val(&addr(1)), Some(&b"Z".to_vec()));
    assert_eq!(m.get_mut_by_val(&addr(7)), None);
}
