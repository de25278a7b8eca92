use crate::duration::random_dur;
use crate::model::{Item, Order, StoreError};
use vstd::prelude::*;

verus! {

/// Declares rusqlite's connection handle so that it can stand in
/// signatures; it is opaque here, and every use of it goes through the
/// wrappers below.
#[verifier::external_type_specification]
#[verifier::external_body]
pub struct ExConnection(rusqlite::Connection);

/// Declares rusqlite's error type; opaque, turned into `StoreError` before any
/// verified caller looks at a failure.
#[verifier::external_type_specification]
#[verifier::external_body]
pub struct ExSqlError(rusqlite::Error);

/// Relies on rusqlite::Connection::open: opens the database at the given
/// location, creating it if absent. The outcome depends on the disk, so
/// nothing is promised of it.
#[verifier::external_body]
fn open_connection(storage_location: &str) -> Result<rusqlite::Connection, rusqlite::Error> {
    rusqlite::Connection::open(storage_location)
}

/// Relies on rusqlite::Connection::execute, with rusqlite::params_from_iter
/// binding the parameters in order: runs one SQL statement. The outcome
/// depends on the database's state, so nothing is promised of it.
#[verifier::external_body]
fn exec_sql(conn: &rusqlite::Connection, sql: &str, params: &Vec<usize>) -> Result<
    usize,
    rusqlite::Error,
> {
    conn.execute(sql, rusqlite::params_from_iter(params.iter()))
}

/// Relies on rusqlite::Connection::prepare, rusqlite::Statement::query_map
/// (with rusqlite::params_from_iter binding the parameters in order) and
/// rusqlite::Row::get: runs one two-column query and hands back each row
/// as an id/text pair, in the order the engine yields them. The rows
/// depend on the database's state, so nothing is promised of them.
#[verifier::external_body]
fn query_rows(conn: &rusqlite::Connection, sql: &str, params: &Vec<usize>) -> Result<
    Vec<(usize, String)>,
    rusqlite::Error,
> {
    let mut stmt = conn.prepare(sql)?;
    let rows = stmt.query_map(
        rusqlite::params_from_iter(params.iter()),
        |row| Ok((row.get::<_, usize>(0)?, row.get::<_, String>(1)?)),
    )?;
    rows.collect()
}

/// Relies on the Display impl of rusqlite::Error: the failure's
/// description, for the storage-error payloads.
#[verifier::external_body]
fn sql_error_text(e: &rusqlite::Error) -> String {
    format!("{e}")
}

/// Turns a storage-engine failure into the library's error.
fn storage_error(e: rusqlite::Error) -> (r: StoreError)
    ensures
        r is Storage,
{
    StoreError::Storage(sql_error_text(&e))
}

/// Opens the backing store at an explicit storage location, never one
/// picked implicitly.
pub fn get_connection(storage_location: &str) -> (r: Result<rusqlite::Connection, StoreError>)
    ensures
        r is Err ==> r->Err_0 is Storage,
{
    match open_connection(storage_location) {
        Ok(c) => Ok(c),
        Err(e) => Err(storage_error(e)),
    }
}

/// The schema and seed statements, run in order; stops at the first
/// failure.
fn run_setup_statements(conn: &rusqlite::Connection) -> Result<(), rusqlite::Error> {
    let no_params: Vec<usize> = Vec::new();
    let stmts: Vec<&str> = vec![
        "CREATE TABLE IF NOT EXISTS items (id INTEGER PRIMARY KEY, name TEXT NOT NULL)",
        "CREATE TABLE IF NOT EXISTS tables (id INTEGER PRIMARY KEY)",
        "CREATE TABLE IF NOT EXISTS orders (table_id INTEGER NOT NULL, item_id INTEGER NOT NULL, cook_duration INTEGER NOT NULL, FOREIGN KEY (table_id) REFERENCES tables(id), FOREIGN KEY (item_id) REFERENCES items(id))",
        "CREATE INDEX IF NOT EXISTS idx_orders_table_id ON orders(table_id)",
        "CREATE INDEX IF NOT EXISTS idx_orders_table_item ON orders(table_id, item_id)",
        "INSERT OR IGNORE INTO tables (id) VALUES (1)",
        "INSERT OR IGNORE INTO tables (id) VALUES (2)",
        "INSERT OR IGNORE INTO tables (id) VALUES (3)",
        "INSERT OR IGNORE INTO items (id, name) VALUES (1, 'Burger')",
        "INSERT OR IGNORE INTO items (id, name) VALUES (2, 'Pizza')",
        "INSERT OR IGNORE INTO items (id, name) VALUES (3, 'Pasta')",
        "INSERT OR IGNORE INTO items (id, name) VALUES (4, 'Salad')",
    ];
    let mut n: usize = 0;
    while n < stmts.len()
        invariant
            n <= stmts@.len(),
        decreases stmts@.len() - n,
    {
        match exec_sql(conn, stmts[n], &no_params) {
            Ok(_) => {},
            Err(e) => {
                return Err(e);
            },
        }
        n += 1;
    }
    Ok(())
}

/// Schema-manager setup against the backing store: creates the three
/// tables and the two indexes if absent and seeds the fixed catalogs,
/// all inside one transaction; commits on full success, rolls back on the
/// first failure. What the seed statements do to the stored catalogs is
/// stated exactly on `Store::setup`. Safe to run on every process start.
pub fn setup_schema(conn: &rusqlite::Connection) -> (r: Result<(), StoreError>)
    ensures
        r is Err ==> r->Err_0 is Storage,
{
    let no_params: Vec<usize> = Vec::new();
    match exec_sql(conn, "BEGIN TRANSACTION", &no_params) {
        Ok(_) => {},
        Err(e) => {
            return Err(storage_error(e));
        },
    }
    match run_setup_statements(conn) {
        Ok(_) => match exec_sql(conn, "COMMIT TRANSACTION", &no_params) {
            Ok(_) => Ok(()),
            Err(e) => Err(storage_error(e)),
        },
        Err(e) => match exec_sql(conn, "ROLLBACK TRANSACTION", &no_params) {
            Ok(_) => Err(storage_error(e)),
            Err(e2) => Err(storage_error(e2)),
        },
    }
}

/// Opens the store at the given location and runs schema setup, as the
/// process does once at startup.
pub fn setup_database(db_name: &str) -> (r: Result<(), StoreError>)
    ensures
        r is Err ==> r->Err_0 is Storage,
{
    match get_connection(db_name) {
        Ok(conn) => setup_schema(&conn),
        Err(e) => Err(e),
    }
}

/// Transactional batch insert of one order: one line per requested item,
/// in request order, each with a fresh cook duration from `random_dur`,
/// all inside one transaction. On any failure the whole batch rolls back
/// and a storage error comes back; on success the request is echoed
/// unchanged, never the generated durations. What the batch does to the
/// stored order lines is stated exactly on `Store::insert_order`.
pub fn insert_order(conn: &rusqlite::Connection, order: Order) -> (r: Result<Order, StoreError>)
    ensures
        r matches Ok(o) ==> o == order,
        r is Err ==> r->Err_0 is Storage,
{
    let no_params: Vec<usize> = Vec::new();
    match exec_sql(conn, "BEGIN TRANSACTION", &no_params) {
        Ok(_) => {},
        Err(e) => {
            return Err(storage_error(e));
        },
    }
    let mut n: usize = 0;
    while n < order.item_ids.len()
        invariant
            n <= order.item_ids@.len(),
        decreases order.item_ids@.len() - n,
    {
        let dur = random_dur();
        let params: Vec<usize> = vec![order.table_id, order.item_ids[n], dur as usize];
        match exec_sql(
            conn,
            "INSERT INTO orders (table_id, item_id, cook_duration) VALUES (?1, ?2, ?3)",
            &params,
        ) {
            Ok(_) => {},
            Err(e) => {
                match exec_sql(conn, "ROLLBACK TRANSACTION", &no_params) {
                    Ok(_) => {
                        return Err(storage_error(e));
                    },
                    Err(e2) => {
                        return Err(storage_error(e2));
                    },
                }
            },
        }
        n += 1;
    }
    match exec_sql(conn, "COMMIT TRANSACTION", &no_params) {
        Ok(_) => Ok(order),
        Err(e) => Err(storage_error(e)),
    }
}

/// One catalog item per joined row, one for one and in row order: each
/// row's id and name, nothing added, nothing dropped.
pub fn items_from_rows(rows: &Vec<(usize, String)>) -> (v: Vec<Item>)
    ensures
        v@.len() == rows@.len(),
        forall|k: int|
            0 <= k < rows@.len() ==> v@[k].id == rows@[k].0 && v@[k].name@ == rows@[k].1@,
{
    let mut v: Vec<Item> = Vec::new();
    let mut n: usize = 0;
    while n < rows.len()
        invariant
            n <= rows@.len(),
            v@.len() == n,
            forall|k: int| 0 <= k < n ==> v@[k].id == rows@[k].0 && v@[k].name@ == rows@[k].1@,
        decreases rows@.len() - n,
    {
        v.push(Item { id: rows[n].0, name: rows[n].1.clone() });
        n += 1;
    }
    v
}

/// The last joined row as a catalog item, or nothing from no rows; which
/// row is last is the engine's choice when duplicates exist.
pub fn last_item_of_rows(rows: &Vec<(usize, String)>) -> (r: Option<Item>)
    ensures
        rows@.len() == 0 ==> r is None,
        rows@.len() > 0 ==> ({
            &&& r matches Some(it)
            &&& it.id == rows@.last().0
            &&& it.name@ == rows@.last().1@
        }),
{
    if rows.len() == 0 {
        None
    } else {
        let n = rows.len() - 1;
        Some(Item { id: rows[n].0, name: rows[n].1.clone() })
    }
}

/// The items ordered at one table, straight from the store: the inner
/// join of order lines and catalog, each row converted by
/// `items_from_rows`. What the join holds is stated exactly on
/// `Store::list_items`.
pub fn get_items_by_table_id(conn: &rusqlite::Connection, table_id: usize) -> (r: Result<
    Vec<Item>,
    StoreError,
>)
    ensures
        r is Err ==> r->Err_0 is Storage,
{
    let params: Vec<usize> = vec![table_id];
    match query_rows(
        conn,
        "SELECT item_id, name FROM orders INNER JOIN items ON items.id = orders.item_id WHERE table_id = ?1",
        &params,
    ) {
        Ok(rows) => Ok(items_from_rows(&rows)),
        Err(e) => Err(storage_error(e)),
    }
}

/// One item for one table/item pair, straight from the store: the last
/// joined row if any, and none (not an error) when no line matches, as
/// `last_item_of_rows` states. What the join holds is stated exactly on
/// `Store::get_item`.
pub fn get_table_item(conn: &rusqlite::Connection, table_id: usize, item_id: usize) -> (r: Result<
    Option<Item>,
    StoreError,
>)
    ensures
        r is Err ==> r->Err_0 is Storage,
{
    let params: Vec<usize> = vec![table_id, item_id];
    match query_rows(
        conn,
        "SELECT item_id, name FROM orders INNER JOIN items ON items.id = orders.item_id WHERE table_id = ?1 AND item_id = ?2",
        &params,
    ) {
        Ok(rows) => Ok(last_item_of_rows(&rows)),
        Err(e) => Err(storage_error(e)),
    }
}

/// Deletes every order line carrying the table/item pair; a pair no line
/// carries succeeds with no effect. A single statement, so no explicit
/// transaction. What the deletion keeps is stated exactly on
/// `Store::delete_order`.
pub fn delete_order_by_table_id_and_item_id(
    conn: &rusqlite::Connection,
    table_id: usize,
    item_id: usize,
) -> (r: Result<(), StoreError>)
    ensures
        r is Err ==> r->Err_0 is Storage,
{
    let params: Vec<usize> = vec![table_id, item_id];
    match exec_sql(conn, "DELETE FROM orders WHERE table_id = ?1 AND item_id = ?2", &params) {
        Ok(_) => Ok(()),
        Err(e) => Err(storage_error(e)),
    }
}

} // verus!
