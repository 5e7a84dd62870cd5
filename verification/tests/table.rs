use escrow::{AccountKey, Address, Table};

fn key(n: u8) -> Address {
    Address { bytes: [n; 32] }
}

#[test]
fn table_starts_empty() {
    let table: Table<Address, u64> = Table::new();
    assert_eq!(table.get(&key(1)), None);
}

#[test]
fn put_stores_and_replaces() {
    let mut table: Table<Address, u64> = Table::new();
    table.put(key(1), 10);
    table.put(key(2), 20);
    assert_eq!(table.get(&key(1)), Some(10));
    assert_eq!(table.get(&key(2)), Some(20));
    assert_eq!(table.get(&key(3)), None);
    table.put(key(1), 11);
    assert_eq!(table.get(&key(1)), Some(11));
    assert_eq!(table.get(&key(2)), Some(20));
}

#[test]
fn remove_returns_what_was_stored() {
    let mut table: Table<Address, u64> = Table::new();
    table.put(key(1), 10);
    table.put(key(2), 20);
    table.put(key(3), 30);
    assert_eq!(table.remove(&key(2)), Some(20));
    assert_eq!(table.remove(&key(2)), None);
    assert_eq!(table.get(&key(1)), Some(10));
    assert_eq!(table.get(&key(2)), None);
    assert_eq!(table.get(&key(3)), Some(30));
    assert_eq!(table.remove(&key(1)), Some(10));
    assert_eq!(table.remove(&key(3)), Some(30));
    assert_eq!(table.get(&key(3)), None);
}

#[test]
fn table_snapshot_is_a_table_of_its_own() {
    let mut table: Table<AccountKey, u8> = Table::new();
    let first = AccountKey { holder: key(1), asset: key(2) };
    let second = AccountKey { holder: key(2), asset: key(1) };
    table.put(first, 1);
    let kept = table.snapshot();
    table.put(second, 2);
    table.put(first, 3);
    assert_eq!(kept.get(&first), Some(1));
    assert_eq!(kept.get(&second), None);
    assert_eq!(table.get(&first), Some(3));
    assert_eq!(table.get(&second), Some(2));
}
