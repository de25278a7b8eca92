use restaurant_orders::store::Store;

fn seeded_store() -> Store {
    let mut s = Store::new();
    s.setup(None).unwrap();
    s
}

#[test]
fn setup_seeds_catalogs() {
    let s = seeded_store();
    assert_eq!(s.tables, vec![1, 2, 3]);
    assert_eq!(s.items.len(), 4);
    let expected = [(1, "Burger"), (2, "Pizza"), (3, "Pasta"), (4, "Salad")];
    for (k, (id, name)) in expected.iter().enumerate() {
        assert_eq!(s.items[k].id, *id);
        assert_eq!(s.items[k].name, *name);
    }
    assert_eq!(s.orders.len(), 0);
}

#[test]
fn setup_twice_is_noop() {
    let mut s = seeded_store();
    let items_before: Vec<(usize, String)> =
        s.items.iter().map(|i| (i.id, i.name.clone())).collect();
    let tables_before = s.tables.clone();
    s.setup(None).unwrap();
    let items_after: Vec<(usize, String)> =
        s.items.iter().map(|i| (i.id, i.name.clone())).collect();
    assert_eq!(items_after, items_before);
    assert_eq!(s.tables, tables_before);
}

#[test]
fn insert_then_list() {
    let mut s = seeded_store();
    let o = s.insert_order(1, vec![1, 2], &vec![5, 7], None).unwrap();
    assert_eq!(o.table_id, 1);
    assert_eq!(o.item_ids, vec![1, 2]);
    let items = s.list_items(1);
    assert_eq!(items.len(), 2);
    assert_eq!(items[0].id, 1);
    assert_eq!(items[0].name, "Burger");
    assert_eq!(items[1].id, 2);
    assert_eq!(items[1].name, "Pizza");
}

#[test]
fn list_keeps_duplicates() {
    let mut s = seeded_store();
    s.insert_order(2, vec![1, 1], &vec![6, 9], None).unwrap();
    let items = s.list_items(2);
    assert_eq!(items.len(), 2);
    assert_eq!(items[0].id, 1);
    assert_eq!(items[0].name, "Burger");
    assert_eq!(items[1].id, 1);
    assert_eq!(items[1].name, "Burger");
}

#[test]
fn delete_removes_match() {
    let mut s = seeded_store();
    s.insert_order(1, vec![1, 2], &vec![5, 7], None).unwrap();
    s.delete_order(1, 1);
    let items = s.list_items(1);
    assert_eq!(items.len(), 1);
    assert_eq!(items[0].id, 2);
    assert_eq!(items[0].name, "Pizza");
}

#[test]
fn delete_nonexistent_is_noop() {
    let mut s = seeded_store();
    s.insert_order(1, vec![1, 2], &vec![5, 7], None).unwrap();
    let orders_before = s.orders.clone();
    s.delete_order(99, 99);
    assert_eq!(s.orders, orders_before);
}

#[test]
fn failed_batch_changes_nothing() {
    let mut s = seeded_store();
    s.insert_order(1, vec![1], &vec![5], None).unwrap();
    let orders_before = s.orders.clone();
    let r = s.insert_order(1, vec![2, 3], &vec![6, 7], Some(1));
    assert!(r.is_err());
    assert_eq!(s.orders, orders_before);
}

#[test]
fn get_returns_none_without_match() {
    let mut s = seeded_store();
    assert!(s.get_item(1, 1).is_none());
    s.insert_order(1, vec![2], &vec![8], None).unwrap();
    assert!(s.get_item(1, 1).is_none());
    assert!(s.get_item(2, 2).is_none());
}

#[test]
fn get_returns_last_match() {
    let mut s = seeded_store();
    s.insert_order(3, vec![4, 4], &vec![5, 6], None).unwrap();
    let it = s.get_item(3, 4).unwrap();
    assert_eq!(it.id, 4);
    assert_eq!(it.name, "Salad");
}

#[test]
fn distinct_pairs_both_persist() {
    let mut s = seeded_store();
    s.insert_order(1, vec![1], &vec![5], None).unwrap();
    s.insert_order(2, vec![2], &vec![6], None).unwrap();
    assert_eq!(s.orders.len(), 2);
    let first = s.list_items(1);
    assert_eq!(first.len(), 1);
    assert_eq!(first[0].name, "Burger");
    let second = s.list_items(2);
    assert_eq!(second.len(), 1);
    assert_eq!(second[0].name, "Pizza");
}

#[test]
fn failed_setup_changes_nothing() {
    let mut s = seeded_store();
    s.insert_order(1, vec![1], &vec![5], None).unwrap();
    let items_before: Vec<(usize, String)> =
        s.items.iter().map(|i| (i.id, i.name.clone())).collect();
    let tables_before = s.tables.clone();
    let orders_before = s.orders.clone();
    let r = s.setup(Some(3));
    assert!(r.is_err());
    let items_after: Vec<(usize, String)> =
        s.items.iter().map(|i| (i.id, i.name.clone())).collect();
    assert_eq!(items_after, items_before);
    assert_eq!(s.tables, tables_before);
    assert_eq!(s.orders, orders_before);
}
