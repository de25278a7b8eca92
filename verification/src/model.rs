use vstd::prelude::*;

verus! {

/// A menu item of the catalog: identity plus display name.
#[derive(Debug)]
pub struct Item {
    pub id: usize,
    pub name: String,
}

/// A client-facing batch order: one table and the menu items it ordered,
/// in request order.
#[derive(Debug)]
pub struct Order {
    pub table_id: usize,
    pub item_ids: Vec<usize>,
}

/// One persisted order line: one item ordered at one table, with the
/// server-generated cook duration.
#[derive(Clone, Copy, Debug, PartialEq, Eq, Structural)]
pub struct OrderLine {
    pub table_id: usize,
    pub item_id: usize,
    pub cook_duration: u64,
}

/// Any failure of the persistence layer, carrying its description.
#[derive(Debug)]
pub enum StoreError {
    Storage(String),
}

/// Whether an order line carries exactly this table/item pair.
pub open spec fn line_matches(l: OrderLine, table_id: int, item_id: int) -> bool {
    l.table_id == table_id && l.item_id == item_id
}

/// No order line carries this table/item pair.
pub open spec fn no_line_matches(orders: Seq<OrderLine>, table_id: int, item_id: int) -> bool {
    forall|j: int| 0 <= j < orders.len() ==> !line_matches(orders[j], table_id, item_id)
}

/// The catalog holds an item with this id.
pub open spec fn has_item_id(items: Seq<Item>, id: int) -> bool {
    exists|j: int| 0 <= j < items.len() && items[j].id == id
}

/// The first catalog item with this id, if any.
pub open spec fn lookup_item(items: Seq<Item>, id: int) -> Option<Item>
    decreases items.len(),
{
    if items.len() == 0 {
        None
    } else if items[0].id == id {
        Some(items[0])
    } else {
        lookup_item(items.drop_first(), id)
    }
}

/// The items joined to the order lines of one table: one catalog item per
/// matching line whose item id is in the catalog, in line order, duplicates
/// kept.
pub open spec fn join_items(orders: Seq<OrderLine>, items: Seq<Item>, table_id: int) -> Seq<Item>
    decreases orders.len(),
{
    if orders.len() == 0 {
        Seq::empty()
    } else {
        let prefix = join_items(orders.drop_last(), items, table_id);
        let l = orders.last();
        if l.table_id == table_id && lookup_item(items, l.item_id as int) is Some {
            prefix.push(lookup_item(items, l.item_id as int)->Some_0)
        } else {
            prefix
        }
    }
}

/// The same join filtered by both keys: one catalog item per line carrying
/// exactly this table/item pair, in line order.
pub open spec fn join_pair(
    orders: Seq<OrderLine>,
    items: Seq<Item>,
    table_id: int,
    item_id: int,
) -> Seq<Item>
    decreases orders.len(),
{
    if orders.len() == 0 {
        Seq::empty()
    } else {
        let prefix = join_pair(orders.drop_last(), items, table_id, item_id);
        let l = orders.last();
        if line_matches(l, table_id, item_id) && lookup_item(items, l.item_id as int) is Some {
            prefix.push(lookup_item(items, l.item_id as int)->Some_0)
        } else {
            prefix
        }
    }
}

/// The order lines left after deleting every line that carries this
/// table/item pair.
pub open spec fn remove_matching(
    orders: Seq<OrderLine>,
    table_id: int,
    item_id: int,
) -> Seq<OrderLine>
    decreases orders.len(),
{
    if orders.len() == 0 {
        Seq::empty()
    } else {
        let prefix = remove_matching(orders.drop_last(), table_id, item_id);
        if line_matches(orders.last(), table_id, item_id) {
            prefix
        } else {
            prefix.push(orders.last())
        }
    }
}

/// The order lines one batch insert appends: one line per requested item,
/// in request order, each with its generated duration.
pub open spec fn lines_of_batch(
    table_id: usize,
    item_ids: Seq<usize>,
    durs: Seq<u64>,
) -> Seq<OrderLine> {
    Seq::new(
        item_ids.len(),
        |j: int| OrderLine { table_id, item_id: item_ids[j], cook_duration: durs[j] },
    )
}

} // verus!
