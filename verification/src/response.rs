use crate::model::{Item, Order, StoreError};
use vstd::prelude::*;
use vstd::string::StringExecFns;

verus! {

/// HTTP status of a handler that succeeded.
pub const STATUS_OK: u16 = 200;

/// HTTP status of a handler whose storage call failed.
pub const STATUS_INTERNAL_ERROR: u16 = 500;

/// The JSON error payload: one human-readable message.
pub struct ErrorPayload {
    pub msg: String,
}

/// A handler's JSON reply: the success value, or an error payload.
pub enum ResponsePayload<T> {
    Success(T),
    Failure(ErrorPayload),
}

/// The get-one reply with its explicit optional field: the item, or null
/// where no order line matched.
pub struct ItemEnvelope {
    pub item: Option<Item>,
}

/// The message of a failed handler: the handler's fixed prefix followed
/// by the storage failure's description.
fn failure_payload(prefix: &str, e: StoreError) -> (p: ErrorPayload)
    ensures
        ({
            &&& e matches StoreError::Storage(detail)
            &&& p.msg@ == prefix@ + detail@
        }),
{
    let StoreError::Storage(detail) = e;
    let mut msg = String::from_str(prefix);
    msg.append(detail.as_str());
    ErrorPayload { msg }
}

/// POST /order: inserts the batch and echoes it back with 200, or
/// reports the storage failure with 500 and a prefixed message.
pub fn post_order(conn: &rusqlite::Connection, table_id: usize, item_ids: Vec<usize>) -> (r: (
    u16,
    ResponsePayload<Order>,
))
    ensures
        r.0 == STATUS_OK || r.0 == STATUS_INTERNAL_ERROR,
        r.0 == STATUS_OK ==> ({
            &&& r.1 matches ResponsePayload::Success(o)
            &&& o.table_id == table_id
            &&& o.item_ids@ == item_ids@
        }),
        r.0 == STATUS_INTERNAL_ERROR ==> ({
            &&& r.1 matches ResponsePayload::Failure(p)
            &&& exists|d: Seq<char>| p.msg@ == "failed to create order, "@ + d
        }),
{
    let order = Order { table_id, item_ids };
    match crate::db::insert_order(conn, order) {
        Ok(o) => (STATUS_OK, ResponsePayload::Success(o)),
        Err(e) => {
            let p = failure_payload("failed to create order, ", e);
            proof {
                assert(e matches StoreError::Storage(d2) && p.msg@ == "failed to create order, "@
                    + d2@);
            }
            (STATUS_INTERNAL_ERROR, ResponsePayload::Failure(p))
        },
    }
}

/// DELETE /order/{table_id}/{item_id}: deletes every matching order
/// line; 200 with an empty body on success, also when nothing matched,
/// or 500 with a prefixed message on storage failure.
pub fn delete_order_by_table_id_and_item_id(
    conn: &rusqlite::Connection,
    table_id: usize,
    item_id: usize,
) -> (r: (u16, ResponsePayload<()>))
    ensures
        r.0 == STATUS_OK || r.0 == STATUS_INTERNAL_ERROR,
        r.0 == STATUS_OK ==> r.1 is Success,
        r.0 == STATUS_INTERNAL_ERROR ==> ({
            &&& r.1 matches ResponsePayload::Failure(p)
            &&& exists|d: Seq<char>| p.msg@ == "failed to delete order, "@ + d
        }),
{
    match crate::db::delete_order_by_table_id_and_item_id(conn, table_id, item_id) {
        Ok(_) => (STATUS_OK, ResponsePayload::Success(())),
        Err(e) => {
            let p = failure_payload("failed to delete order, ", e);
            proof {
                assert(e matches StoreError::Storage(d2) && p.msg@ == "failed to delete order, "@
                    + d2@);
            }
            (STATUS_INTERNAL_ERROR, ResponsePayload::Failure(p))
        },
    }
}

/// GET /order/{table_id}: every item ordered at the table with 200, or
/// 500 with a prefixed message on storage failure.
pub fn get_table_items_all(conn: &rusqlite::Connection, table_id: usize) -> (r: (
    u16,
    ResponsePayload<Vec<Item>>,
))
    ensures
        r.0 == STATUS_OK || r.0 == STATUS_INTERNAL_ERROR,
        r.0 == STATUS_OK ==> r.1 is Success,
        r.0 == STATUS_INTERNAL_ERROR ==> ({
            &&& r.1 matches ResponsePayload::Failure(p)
            &&& exists|d: Seq<char>| p.msg@ == "failed to get items, "@ + d
        }),
{
    match crate::db::get_items_by_table_id(conn, table_id) {
        Ok(items) => (STATUS_OK, ResponsePayload::Success(items)),
        Err(e) => {
            let p = failure_payload("failed to get items, ", e);
            proof {
                assert(e matches StoreError::Storage(d2) && p.msg@ == "failed to get items, "@
                    + d2@);
            }
            (STATUS_INTERNAL_ERROR, ResponsePayload::Failure(p))
        },
    }
}

/// GET /order/{table_id}/{item_id}: the item under its explicit optional
/// field with 200 (no matching line is a null item, not an error), or
/// 500 with a prefixed message on storage failure.
pub fn get_table_item(conn: &rusqlite::Connection, table_id: usize, item_id: usize) -> (r: (
    u16,
    ResponsePayload<ItemEnvelope>,
))
    ensures
        r.0 == STATUS_OK || r.0 == STATUS_INTERNAL_ERROR,
        r.0 == STATUS_OK ==> r.1 is Success,
        r.0 == STATUS_INTERNAL_ERROR ==> ({
            &&& r.1 matches ResponsePayload::Failure(p)
            &&& exists|d: Seq<char>| p.msg@ == "failed to get item, "@ + d
        }),
{
    match crate::db::get_table_item(conn, table_id, item_id) {
        Ok(item) => (STATUS_OK, ResponsePayload::Success(ItemEnvelope { item })),
        Err(e) => {
            let p = failure_payload("failed to get item, ", e);
            proof {
                assert(e matches StoreError::Storage(d2) && p.msg@ == "failed to get item, "@
                    + d2@);
            }
            (STATUS_INTERNAL_ERROR, ResponsePayload::Failure(p))
        },
    }
}

} // verus!
