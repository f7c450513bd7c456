use ble_core::identity::IdentityMap;

#[test]
fn resolve_same_native_twice_yields_same_id() {
    let mut map = IdentityMap::new();
    let first = map.resolve(&String::from("AA:BB:CC:DD:EE:FF"));
    let second = map.resolve(&String::from("AA:BB:CC:DD:EE:FF"));
    assert_eq!(first, second);
}

#[test]
fn resolve_distinct_natives_yields_distinct_ids() {
    let mut map = IdentityMap::new();
    let a = map.resolve(&String::from("device-a"));
    let b = map.resolve(&String::from("device-b"));
    assert_ne!(a, b);
}

#[test]
fn resolve_many_natives_all_distinct_and_stable() {
    let mut map = IdentityMap::new();
    let names: Vec<String> = (0..50).map(|i| format!("native-{}", i)).collect();
    let ids: Vec<u128> = names.iter().map(|n| map.resolve(n)).collect();
    for i in 0..names.len() {
        for j in 0..names.len() {
            if i != j {
                assert_ne!(ids[i], ids[j]);
            }
        }
    }
    for (n, id) in names.iter().zip(ids.iter()) {
        assert_eq!(map.resolve(n), *id);
    }
}

#[test]
fn lookup_reports_only_seen_natives() {
    let mut map = IdentityMap::new();
    assert!(map.lookup(&String::from("unseen")).is_none());
    let id = map.resolve(&String::from("seen"));
    assert_eq!(map.lookup(&String::from("seen")), Some(id));
    assert!(map.lookup(&String::from("unseen")).is_none());
}
