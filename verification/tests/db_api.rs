use restaurant_orders::db;
use restaurant_orders::duration::random_dur;
use restaurant_orders::model::Order;
use restaurant_orders::response;
use restaurant_orders::response::ResponsePayload;

fn test_conn() -> rusqlite::Connection {
    let conn = db::get_connection(":memory:").unwrap();
    db::setup_schema(&conn).unwrap();
    conn
}

fn count_rows(conn: &rusqlite::Connection, sql: &str) -> usize {
    conn.query_row(sql, [], |row| row.get(0)).unwrap()
}

#[test]
fn test_apis() {
    let conn = test_conn();

    let (status, order) = response::post_order(&conn, 1, vec![1, 2]);
    assert_eq!(status, 200);
    match order {
        ResponsePayload::Success(o) => {
            assert_eq!(o.table_id, 1);
            assert_eq!(o.item_ids, vec![1, 2]);
        }
        ResponsePayload::Failure(p) => panic!("create failed: {}", p.msg),
    }

    let (status, items) = response::get_table_items_all(&conn, 1);
    assert_eq!(status, 200);
    match items {
        ResponsePayload::Success(items) => {
            assert_eq!(items.len(), 2);
            assert_eq!(items[0].id, 1);
            assert_eq!(items[0].name, "Burger");
            assert_eq!(items[1].id, 2);
            assert_eq!(items[1].name, "Pizza");
        }
        ResponsePayload::Failure(p) => panic!("list failed: {}", p.msg),
    }

    let (status, deleted) = response::delete_order_by_table_id_and_item_id(&conn, 1, 1);
    assert_eq!(status, 200);
    assert!(matches!(deleted, ResponsePayload::Success(())));

    let (status, items) = response::get_table_items_all(&conn, 1);
    assert_eq!(status, 200);
    match items {
        ResponsePayload::Success(items) => {
            assert_eq!(items.len(), 1);
            assert_eq!(items[0].id, 2);
            assert_eq!(items[0].name, "Pizza");
        }
        ResponsePayload::Failure(p) => panic!("list failed: {}", p.msg),
    }
}

#[test]
fn setup_schema_rerun_keeps_catalogs() {
    let conn = test_conn();
    assert!(db::setup_schema(&conn).is_ok());
    assert_eq!(count_rows(&conn, "SELECT COUNT(*) FROM items"), 4);
    assert_eq!(count_rows(&conn, "SELECT COUNT(*) FROM tables"), 3);
    let name: String = conn
        .query_row("SELECT name FROM items WHERE id = 1", [], |row| row.get(0))
        .unwrap();
    assert_eq!(name, "Burger");
}

#[test]
fn random_dur_in_range() {
    let mut n: usize = 0;
    while n < 25 {
        let d = random_dur();
        assert!(5 <= d && d <= 14);
        n += 1;
    }
}

#[test]
fn stored_cook_durations_in_range() {
    let conn = test_conn();
    db::insert_order(&conn, Order { table_id: 1, item_ids: vec![1, 2, 3] }).unwrap();
    let mut stmt = conn.prepare("SELECT cook_duration FROM orders").unwrap();
    let durs: Vec<u64> = stmt
        .query_map([], |row| row.get(0))
        .unwrap()
        .collect::<Result<_, _>>()
        .unwrap();
    assert_eq!(durs.len(), 3);
    for d in durs {
        assert!(5 <= d && d <= 14);
    }
}

#[test]
fn failed_batch_persists_no_rows() {
    let conn = test_conn();
    db::insert_order(&conn, Order { table_id: 1, item_ids: vec![1] }).unwrap();
    let before = count_rows(&conn, "SELECT COUNT(*) FROM orders");
    // usize::MAX does not fit the storage engine's integers, so the second
    // statement of the batch fails and the whole batch must roll back.
    let r = db::insert_order(&conn, Order { table_id: 1, item_ids: vec![2, usize::MAX] });
    assert!(r.is_err());
    assert_eq!(count_rows(&conn, "SELECT COUNT(*) FROM orders"), before);
}

#[test]
fn delete_nonexistent_pair_is_noop() {
    let conn = test_conn();
    db::insert_order(&conn, Order { table_id: 1, item_ids: vec![1, 2] }).unwrap();
    let before = count_rows(&conn, "SELECT COUNT(*) FROM orders");
    assert!(db::delete_order_by_table_id_and_item_id(&conn, 99, 99).is_ok());
    assert_eq!(count_rows(&conn, "SELECT COUNT(*) FROM orders"), before);
}

#[test]
fn get_pair_without_lines_is_none() {
    let conn = test_conn();
    db::insert_order(&conn, Order { table_id: 1, item_ids: vec![1] }).unwrap();
    let r = db::get_table_item(&conn, 1, 3).unwrap();
    assert!(r.is_none());
    let r = db::get_table_item(&conn, 2, 1).unwrap();
    assert!(r.is_none());
    let r = db::get_table_item(&conn, 1, 1).unwrap();
    assert_eq!(r.unwrap().name, "Burger");
}

#[test]
fn distinct_pairs_both_persist_in_storage() {
    let conn = test_conn();
    db::insert_order(&conn, Order { table_id: 1, item_ids: vec![1] }).unwrap();
    db::insert_order(&conn, Order { table_id: 2, item_ids: vec![2] }).unwrap();
    assert_eq!(count_rows(&conn, "SELECT COUNT(*) FROM orders"), 2);
    let first = db::get_table_item(&conn, 1, 1).unwrap().unwrap();
    assert_eq!(first.name, "Burger");
    let second = db::get_table_item(&conn, 2, 2).unwrap().unwrap();
    assert_eq!(second.name, "Pizza");
}

#[test]
fn storage_failure_maps_to_error_payload() {
    let conn = test_conn();
    conn.execute("DROP TABLE orders", []).unwrap();

    let (status, body) = response::post_order(&conn, 1, vec![1]);
    assert_eq!(status, 500);
    match body {
        ResponsePayload::Failure(p) => assert!(p.msg.starts_with("failed to create order, ")),
        ResponsePayload::Success(_) => panic!("expected a failure"),
    }

    let (status, body) = response::get_table_items_all(&conn, 1);
    assert_eq!(status, 500);
    match body {
        ResponsePayload::Failure(p) => assert!(p.msg.starts_with("failed to get items, ")),
        ResponsePayload::Success(_) => panic!("expected a failure"),
    }

    let (status, body) = response::get_table_item(&conn, 1, 1);
    assert_eq!(status, 500);
    match body {
        ResponsePayload::Failure(p) => assert!(p.msg.starts_with("failed to get item, ")),
        ResponsePayload::Success(_) => panic!("expected a failure"),
    }

    let (status, body) = response::delete_order_by_table_id_and_item_id(&conn, 1, 1);
    assert_eq!(status, 500);
    match body {
        ResponsePayload::Failure(p) => assert!(p.msg.starts_with("failed to delete order, ")),
        ResponsePayload::Success(_) => panic!("expected a failure"),
    }
}

#[test]
fn row_converters_convert_one_for_one() {
    let rows: Vec<(usize, String)> = vec![(1, "Burger".to_string()), (9, "Stew".to_string())];
    let items = db::items_from_rows(&rows);
    assert_eq!(items.len(), 2);
    assert_eq!(items[0].id, 1);
    assert_eq!(items[0].name, "Burger");
    assert_eq!(items[1].id, 9);
    assert_eq!(items[1].name, "Stew");

    let last = db::last_item_of_rows(&rows).unwrap();
    assert_eq!(last.id, 9);
    assert_eq!(last.name, "Stew");
    assert!(db::last_item_of_rows(&Vec::new()).is_none());
}

#[test]
fn get_with_duplicates_returns_an_item_of_the_pair() {
    let conn = test_conn();
    db::insert_order(&conn, Order { table_id: 3, item_ids: vec![4, 4] }).unwrap();
    let it = db::get_table_item(&conn, 3, 4).unwrap().unwrap();
    assert_eq!(it.id, 4);
    assert_eq!(it.name, "Salad");
}

#[test]
fn connection_to_invalid_location_fails() {
    let r = db::get_connection("/nonexistent-dir-for-these-tests/restaurant.db");
    assert!(r.is_err());
}

#[test]
fn dur_of_secs_formula() {
    assert_eq!(restaurant_orders::duration::dur_of_secs(0), 5);
    assert_eq!(restaurant_orders::duration::dur_of_secs(9), 14);
    assert_eq!(restaurant_orders::duration::dur_of_secs(23), 8);
    assert_eq!(restaurant_orders::duration::dur_of_secs(u64::MAX), u64::MAX % 10 + 5);
}
