use crate::model::{
    has_item_id, join_items, join_pair, line_matches, lines_of_batch, lookup_item,
    no_line_matches, remove_matching, Item, Order, StoreError, OrderLine,
};
use vstd::prelude::*;
use vstd::string::StringExecFns;

verus! {

/// The observable contents of the relational store, as plain values: the
/// two seeded catalogs and the order lines. The methods state the
/// persistence contract exactly; the storage-backed operations mirror them
/// statement for statement.
pub struct Store {
    pub items: Vec<Item>,
    pub tables: Vec<usize>,
    pub orders: Vec<OrderLine>,
}

/// The table catalog holds this table id.
pub open spec fn has_table_id(tables: Seq<usize>, id: int) -> bool {
    exists|j: int| 0 <= j < tables.len() && tables[j] == id
}

/// Id of the k-th seeded menu item, for k in 0..4.
pub open spec fn seed_item_id(k: int) -> int {
    if k == 0 {
        1
    } else if k == 1 {
        2
    } else if k == 2 {
        3
    } else {
        4
    }
}

/// Name of the k-th seeded menu item, for k in 0..4.
pub open spec fn seed_item_name(k: int) -> Seq<char> {
    if k == 0 {
        "Burger"@
    } else if k == 1 {
        "Pizza"@
    } else if k == 2 {
        "Pasta"@
    } else {
        "Salad"@
    }
}

/// Every seeded menu item id is present.
pub open spec fn items_seeded(items: Seq<Item>) -> bool {
    forall|k: int| 0 <= k < 4 ==> has_item_id(items, seed_item_id(k))
}

/// Every seeded table id (1 through 3) is present.
pub open spec fn tables_seeded(tables: Seq<usize>) -> bool {
    forall|k: int| 1 <= k <= 3 ==> has_table_id(tables, k)
}

/// This row is the k-th seeded menu item, id and name.
pub open spec fn item_is_seed(it: Item, k: int) -> bool {
    it.id == seed_item_id(k) && it.name@ == seed_item_name(k)
}

/// The seed indices among the first `upto` menu seeds whose id the
/// catalog lacks, in seed order.
pub open spec fn missing_item_seeds(olds: Seq<Item>, upto: int) -> Seq<int>
    decreases upto,
{
    if upto <= 0 {
        Seq::empty()
    } else {
        let prefix = missing_item_seeds(olds, upto - 1);
        if has_item_id(olds, seed_item_id(upto - 1)) {
            prefix
        } else {
            prefix.push(upto - 1)
        }
    }
}

/// The table ids among 1..=`upto` that the catalog lacks, ascending.
pub open spec fn missing_table_seeds(olds: Seq<usize>, upto: int) -> Seq<int>
    decreases upto,
{
    if upto <= 0 {
        Seq::empty()
    } else {
        let prefix = missing_table_seeds(olds, upto - 1);
        if has_table_id(olds, upto) {
            prefix
        } else {
            prefix.push(upto)
        }
    }
}

/// What catalog setup does to the item catalog: the old rows stand
/// unchanged, followed by exactly the seeded items that were missing,
/// each exactly once, in seed order; every seeded id is present after.
pub open spec fn items_setup_post(olds: Seq<Item>, news: Seq<Item>) -> bool {
    let missing = missing_item_seeds(olds, 4);
    &&& news.len() == olds.len() + missing.len()
    &&& news.subrange(0, olds.len() as int) == olds
    &&& items_seeded(news)
    &&& forall|j: int|
        0 <= j < missing.len() ==> item_is_seed(
            #[trigger] news[olds.len() + j],
            missing[j],
        )
}

/// What catalog setup does to the table catalog, in the same shape: the
/// old rows, then exactly the missing seeded ids, ascending.
pub open spec fn tables_setup_post(olds: Seq<usize>, news: Seq<usize>) -> bool {
    let missing = missing_table_seeds(olds, 3);
    &&& news.len() == olds.len() + missing.len()
    &&& news.subrange(0, olds.len() as int) == olds
    &&& tables_seeded(news)
    &&& forall|j: int| 0 <= j < missing.len() ==> #[trigger] news[olds.len() + j] == missing[j]
}

/// Whether this item catalog row has the given id.
fn contains_item_id(items: &Vec<Item>, id: usize) -> (r: bool)
    ensures
        r == has_item_id(items@, id as int),
{
    let mut j: usize = 0;
    while j < items.len()
        invariant
            j <= items@.len(),
            forall|j2: int| 0 <= j2 < j ==> items@[j2].id != id,
        decreases items@.len() - j,
    {
        if items[j].id == id {
            proof {
                assert(items@[j as int].id == id);
            }
            return true;
        }
        j += 1;
    }
    false
}

/// Whether this table catalog holds the given id.
fn contains_table_id(tables: &Vec<usize>, id: usize) -> (r: bool)
    ensures
        r == has_table_id(tables@, id as int),
{
    let mut j: usize = 0;
    while j < tables.len()
        invariant
            j <= tables@.len(),
            forall|j2: int| 0 <= j2 < j ==> tables@[j2] != id,
        decreases tables@.len() - j,
    {
        if tables[j] == id {
            proof {
                assert(tables@[j as int] == id);
            }
            return true;
        }
        j += 1;
    }
    false
}

/// Inserts one seeded menu item unless its id is already present.
fn seed_item(items: &mut Vec<Item>, id: usize, name: &str)
    ensures
        has_item_id(old(items)@, id as int) ==> final(items)@ == old(items)@,
        !has_item_id(old(items)@, id as int) ==> final(items)@ == old(items)@.push(
            final(items)@.last(),
        ) && final(items)@.last().id == id && final(items)@.last().name@ == name@,
{
    if !contains_item_id(items, id) {
        items.push(Item { id, name: String::from_str(name) });
    }
}

/// Inserts one seeded table id unless it is already present.
fn seed_table(tables: &mut Vec<usize>, id: usize)
    ensures
        has_table_id(old(tables)@, id as int) ==> final(tables)@ == old(tables)@,
        !has_table_id(old(tables)@, id as int) ==> final(tables)@ == old(tables)@.push(id),
{
    if !contains_table_id(tables, id) {
        tables.push(id);
    }
}

/// Every entry of `missing_item_seeds(olds, upto)` is a seed index below
/// `upto` whose id the catalog lacks.
proof fn lemma_missing_item_seeds_bounds(olds: Seq<Item>, upto: int)
    ensures
        forall|j: int|
            0 <= j < missing_item_seeds(olds, upto).len() ==> 0 <= #[trigger] missing_item_seeds(
                olds,
                upto,
            )[j] < upto && !has_item_id(olds, seed_item_id(missing_item_seeds(olds, upto)[j])),
    decreases upto,
{
    if upto <= 0 {
    } else {
        lemma_missing_item_seeds_bounds(olds, upto - 1);
        let prefix = missing_item_seeds(olds, upto - 1);
        assert forall|j: int|
            0 <= j < missing_item_seeds(olds, upto).len() implies 0 <= #[trigger]
        missing_item_seeds(olds, upto)[j] < upto && !has_item_id(
            olds,
            seed_item_id(missing_item_seeds(olds, upto)[j]),
        ) by {
            if j < prefix.len() {
                assert(missing_item_seeds(olds, upto)[j] == prefix[j]);
            } else {
                assert(missing_item_seeds(olds, upto)[j] == upto - 1);
            }
        }
    }
}

/// Every entry of `missing_table_seeds(olds, upto)` is a table id in
/// 1..=`upto` that the catalog lacks.
proof fn lemma_missing_table_seeds_bounds(olds: Seq<usize>, upto: int)
    ensures
        forall|j: int|
            0 <= j < missing_table_seeds(olds, upto).len() ==> 1 <= #[trigger] missing_table_seeds(
                olds,
                upto,
            )[j] <= upto && !has_table_id(olds, missing_table_seeds(olds, upto)[j]),
    decreases upto,
{
    if upto <= 0 {
    } else {
        lemma_missing_table_seeds_bounds(olds, upto - 1);
        let prefix = missing_table_seeds(olds, upto - 1);
        assert forall|j: int|
            0 <= j < missing_table_seeds(olds, upto).len() implies 1 <= #[trigger]
        missing_table_seeds(olds, upto)[j] <= upto && !has_table_id(
            olds,
            missing_table_seeds(olds, upto)[j],
        ) by {
            if j < prefix.len() {
                assert(missing_table_seeds(olds, upto)[j] == prefix[j]);
            } else {
                assert(missing_table_seeds(olds, upto)[j] == upto);
            }
        }
    }
}

/// One step of menu seeding: `pre` is `base` with the missing seeds among
/// the first k already appended; applying seed k gives `post`, with the
/// missing seeds among the first k+1 appended.
proof fn lemma_items_seed_step(base: Seq<Item>, pre: Seq<Item>, post: Seq<Item>, k: int)
    requires
        0 <= k < 4,
        pre.len() == base.len() + missing_item_seeds(base, k).len(),
        pre.subrange(0, base.len() as int) == base,
        forall|k2: int| 0 <= k2 < k ==> has_item_id(pre, seed_item_id(k2)),
        forall|j: int|
            0 <= j < missing_item_seeds(base, k).len() ==> item_is_seed(
                pre[base.len() + j],
                #[trigger] missing_item_seeds(base, k)[j],
            ),
        has_item_id(pre, seed_item_id(k)) ==> post == pre,
        !has_item_id(pre, seed_item_id(k)) ==> post == pre.push(post.last()) && item_is_seed(
            post.last(),
            k,
        ),
    ensures
        post.len() == base.len() + missing_item_seeds(base, k + 1).len(),
        post.subrange(0, base.len() as int) == base,
        forall|k2: int| 0 <= k2 <= k ==> has_item_id(post, seed_item_id(k2)),
        forall|j: int|
            0 <= j < missing_item_seeds(base, k + 1).len() ==> item_is_seed(
                post[base.len() + j],
                #[trigger] missing_item_seeds(base, k + 1)[j],
            ),
{
    let missing = missing_item_seeds(base, k);
    lemma_missing_item_seeds_bounds(base, k);
    // seed k's id is in `pre` exactly when it is in `base`: the appended
    // rows are seeds before k, whose ids differ from seed k's
    assert(has_item_id(pre, seed_item_id(k)) == has_item_id(base, seed_item_id(k))) by {
        if has_item_id(base, seed_item_id(k)) {
            let w = choose|w: int| 0 <= w < base.len() && base[w].id == seed_item_id(k);
            assert(pre.subrange(0, base.len() as int)[w] == base[w]);
            assert(pre[w].id == seed_item_id(k));
        }
        if has_item_id(pre, seed_item_id(k)) {
            let w = choose|w: int| 0 <= w < pre.len() && pre[w].id == seed_item_id(k);
            if w < base.len() {
                assert(pre.subrange(0, base.len() as int)[w] == base[w]);
                assert(base[w].id == seed_item_id(k));
            } else {
                let j = w - base.len();
                assert(item_is_seed(pre[base.len() + j], missing[j]));
                assert(0 <= missing[j] < k);
                assert(seed_item_id(missing[j]) != seed_item_id(k));
                assert(false);
            }
        }
    }
    if has_item_id(pre, seed_item_id(k)) {
        assert(missing_item_seeds(base, k + 1) == missing);
        assert(forall|k2: int| 0 <= k2 <= k ==> has_item_id(post, seed_item_id(k2)));
    } else {
        assert(missing_item_seeds(base, k + 1) == missing.push(k));
        assert(post.len() == pre.len() + 1);
        assert(post.subrange(0, base.len() as int) =~= base) by {
            assert(forall|idx: int|
                0 <= idx < base.len() ==> post[idx] == pre[idx] && pre.subrange(
                    0,
                    base.len() as int,
                )[idx] == pre[idx]);
        }
        assert forall|k2: int| 0 <= k2 <= k implies has_item_id(post, seed_item_id(k2)) by {
            if k2 < k {
                assert(has_item_id(pre, seed_item_id(k2)));
                let w = choose|j: int| 0 <= j < pre.len() && pre[j].id == seed_item_id(k2);
                assert(post[w].id == seed_item_id(k2));
            } else {
                assert(post[pre.len() as int].id == seed_item_id(k));
            }
        }
        assert forall|j: int|
            0 <= j < missing_item_seeds(base, k + 1).len() implies item_is_seed(
            post[base.len() + j],
            #[trigger] missing_item_seeds(base, k + 1)[j],
        ) by {
            if j < missing.len() {
                assert(missing_item_seeds(base, k + 1)[j] == missing[j]);
                assert(post[base.len() + j] == pre[base.len() + j]);
                assert(item_is_seed(pre[base.len() + j], missing[j]));
            } else {
                assert(missing_item_seeds(base, k + 1)[j] == k);
                assert(post[base.len() + j] == post.last());
            }
        }
    }
}

/// One step of table seeding, in the same shape: `pre` is `base` with the
/// missing ids below `id` already appended; applying `id` gives `post`.
proof fn lemma_tables_seed_step(base: Seq<usize>, pre: Seq<usize>, post: Seq<usize>, id: usize)
    requires
        1 <= id <= 3,
        pre.len() == base.len() + missing_table_seeds(base, id as int - 1).len(),
        pre.subrange(0, base.len() as int) == base,
        forall|k2: int| 1 <= k2 < id ==> has_table_id(pre, k2),
        forall|j: int|
            0 <= j < missing_table_seeds(base, id as int - 1).len() ==> pre[base.len() + j]
                == #[trigger] missing_table_seeds(base, id as int - 1)[j],
        has_table_id(pre, id as int) ==> post == pre,
        !has_table_id(pre, id as int) ==> post == pre.push(id),
    ensures
        post.len() == base.len() + missing_table_seeds(base, id as int).len(),
        post.subrange(0, base.len() as int) == base,
        forall|k2: int| 1 <= k2 <= id ==> has_table_id(post, k2),
        forall|j: int|
            0 <= j < missing_table_seeds(base, id as int).len() ==> post[base.len() + j]
                == #[trigger] missing_table_seeds(base, id as int)[j],
{
    let missing = missing_table_seeds(base, id as int - 1);
    lemma_missing_table_seeds_bounds(base, id as int - 1);
    // id is in `pre` exactly when it is in `base`: the appended entries
    // are the missing ids below id
    assert(has_table_id(pre, id as int) == has_table_id(base, id as int)) by {
        if has_table_id(base, id as int) {
            let w = choose|w: int| 0 <= w < base.len() && base[w] == id as int;
            assert(pre.subrange(0, base.len() as int)[w] == base[w]);
            assert(pre[w] == id);
        }
        if has_table_id(pre, id as int) {
            let w = choose|w: int| 0 <= w < pre.len() && pre[w] == id as int;
            if w < base.len() {
                assert(pre.subrange(0, base.len() as int)[w] == base[w]);
                assert(base[w] == id);
            } else {
                let j = w - base.len();
                assert(pre[base.len() + j] == missing[j]);
                assert(missing[j] <= id as int - 1);
                assert(false);
            }
        }
    }
    if has_table_id(pre, id as int) {
        assert(missing_table_seeds(base, id as int) == missing);
        assert(forall|k2: int| 1 <= k2 <= id ==> has_table_id(post, k2));
    } else {
        assert(missing_table_seeds(base, id as int) == missing.push(id as int));
        assert(post.len() == pre.len() + 1);
        assert(post.subrange(0, base.len() as int) =~= base) by {
            assert(forall|idx: int|
                0 <= idx < base.len() ==> post[idx] == pre[idx] && pre.subrange(
                    0,
                    base.len() as int,
                )[idx] == pre[idx]);
        }
        assert forall|k2: int| 1 <= k2 <= id implies has_table_id(post, k2) by {
            if k2 < id {
                assert(has_table_id(pre, k2));
                let w = choose|j: int| 0 <= j < pre.len() && pre[j] == k2;
                assert(post[w] == k2);
            } else {
                assert(post[pre.len() as int] == id);
            }
        }
        assert forall|j: int|
            0 <= j < missing_table_seeds(base, id as int).len() implies post[base.len() + j]
            == #[trigger] missing_table_seeds(base, id as int)[j] by {
            if j < missing.len() {
                assert(missing_table_seeds(base, id as int)[j] == missing[j]);
                assert(post[base.len() + j] == pre[base.len() + j]);
            } else {
                assert(missing_table_seeds(base, id as int)[j] == id as int);
                assert(post[base.len() + j] == id);
            }
        }
    }
}

impl Store {
    /// An empty store: no catalogs, no order lines.
    pub fn new() -> (s: Store)
        ensures
            s.items@.len() == 0,
            s.tables@.len() == 0,
            s.orders@.len() == 0,
    {
        Store { items: Vec::new(), tables: Vec::new(), orders: Vec::new() }
    }

    /// Schema-manager setup, run as one transaction: seeds the three
    /// table ids and the four menu items with insert-if-absent semantics,
    /// leaving order lines alone. Safe to run on every start; a rerun
    /// changes nothing (see `lemma_setup_idempotent`). `fail_at` stands
    /// for a storage failure on the k-th statement of the run: the whole
    /// transaction then rolls back and nothing changes.
    pub fn setup(&mut self, fail_at: Option<usize>) -> (r: Result<(), StoreError>)
        ensures
            fail_at is None ==> r is Ok && items_setup_post(old(self).items@, final(self).items@)
                && tables_setup_post(old(self).tables@, final(self).tables@)
                && final(self).orders@ == old(self).orders@,
            fail_at is Some ==> r is Err
                && final(self).items@ == old(self).items@
                && final(self).tables@ == old(self).tables@
                && final(self).orders@ == old(self).orders@,
    {
        if fail_at.is_some() {
            return Err(StoreError::Storage(String::from_str("storage failure")));
        }
        let ghost t0 = self.tables@;
        seed_table(&mut self.tables, 1);
        let ghost t1 = self.tables@;
        seed_table(&mut self.tables, 2);
        let ghost t2 = self.tables@;
        seed_table(&mut self.tables, 3);
        let ghost t3 = self.tables@;
        proof {
            assert(t0.subrange(0, t0.len() as int) =~= t0);
            assert(missing_table_seeds(t0, 0).len() == 0);
            lemma_tables_seed_step(t0, t0, t1, 1);
            lemma_tables_seed_step(t0, t1, t2, 2);
            lemma_tables_seed_step(t0, t2, t3, 3);
        }

        let ghost i0 = self.items@;
        seed_item(&mut self.items, 1, "Burger");
        let ghost i1 = self.items@;
        seed_item(&mut self.items, 2, "Pizza");
        let ghost i2 = self.items@;
        seed_item(&mut self.items, 3, "Pasta");
        let ghost i3 = self.items@;
        seed_item(&mut self.items, 4, "Salad");
        let ghost i4 = self.items@;
        proof {
            assert(i0.subrange(0, i0.len() as int) =~= i0);
            assert(missing_item_seeds(i0, 0).len() == 0);
            lemma_items_seed_step(i0, i0, i1, 0);
            lemma_items_seed_step(i0, i1, i2, 1);
            lemma_items_seed_step(i0, i2, i3, 2);
            lemma_items_seed_step(i0, i3, i4, 3);
        }
        Ok(())
    }
}

/// `lookup_item` yields the first catalog row carrying the id.
proof fn lemma_lookup_first_match(items: Seq<Item>, id: int, i: int)
    requires
        0 <= i < items.len(),
        items[i].id == id,
        forall|j: int| 0 <= j < i ==> items[j].id != id,
    ensures
        lookup_item(items, id) == Some(items[i]),
    decreases i,
{
    if i == 0 {
    } else {
        assert(items[0].id != id);
        assert forall|j: int| 0 <= j < i - 1 implies items.drop_first()[j].id != id by {
            assert(items.drop_first()[j] == items[j + 1]);
        }
        assert(items.drop_first()[i - 1] == items[i]);
        lemma_lookup_first_match(items.drop_first(), id, i - 1);
    }
}

/// `lookup_item` yields nothing when no catalog row carries the id.
proof fn lemma_lookup_none(items: Seq<Item>, id: int)
    requires
        forall|j: int| 0 <= j < items.len() ==> items[j].id != id,
    ensures
        lookup_item(items, id) is None,
    decreases items.len(),
{
    if items.len() == 0 {
    } else {
        assert forall|j: int|
            0 <= j < items.drop_first().len() implies items.drop_first()[j].id != id by {
            assert(items.drop_first()[j] == items[j + 1]);
        }
        lemma_lookup_none(items.drop_first(), id);
    }
}

/// The catalog lookup succeeds exactly for the ids the catalog holds;
/// connects the seeded-catalog guarantees of `setup` to the join laws.
pub proof fn lemma_lookup_finds_present_id(items: Seq<Item>, id: int)
    ensures
        (lookup_item(items, id) is Some) <==> has_item_id(items, id),
        lookup_item(items, id) matches Some(it) ==> it.id == id && items.contains(it),
    decreases items.len(),
{
    if items.len() == 0 {
    } else if items[0].id == id {
        assert(has_item_id(items, id)) by {
            assert(items[0].id == id);
        }
    } else {
        lemma_lookup_finds_present_id(items.drop_first(), id);
        if has_item_id(items.drop_first(), id) {
            let w = choose|w: int| 0 <= w < items.drop_first().len()
                && items.drop_first()[w].id == id;
            assert(items[w + 1].id == id);
        }
        if has_item_id(items, id) {
            let w = choose|w: int| 0 <= w < items.len() && items[w].id == id;
            assert(w != 0);
            assert(items.drop_first()[w - 1].id == id);
        }
    }
}

/// Index of the first catalog row with this id, if any; pins down what
/// `lookup_item` returns.
fn find_item_index(items: &Vec<Item>, id: usize) -> (r: Option<usize>)
    ensures
        match r {
            Some(j) => j < items@.len() && items@[j as int].id == id && lookup_item(
                items@,
                id as int,
            ) == Some(items@[j as int]),
            None => lookup_item(items@, id as int) is None,
        },
{
    let mut j: usize = 0;
    while j < items.len()
        invariant
            j <= items@.len(),
            forall|j2: int| 0 <= j2 < j ==> items@[j2].id != id,
        decreases items@.len() - j,
    {
        if items[j].id == id {
            proof {
                lemma_lookup_first_match(items@, id as int, j as int);
            }
            return Some(j);
        }
        j += 1;
    }
    proof {
        lemma_lookup_none(items@, id as int);
    }
    None
}

/// The pair join is empty when no order line carries the pair.
proof fn lemma_join_pair_no_match_empty(
    orders: Seq<OrderLine>,
    items: Seq<Item>,
    table_id: int,
    item_id: int,
)
    requires
        no_line_matches(orders, table_id, item_id),
    ensures
        join_pair(orders, items, table_id, item_id).len() == 0,
    decreases orders.len(),
{
    if orders.len() == 0 {
    } else {
        assert(!line_matches(orders.last(), table_id, item_id));
        assert forall|j: int|
            0 <= j < orders.drop_last().len() implies !line_matches(
            orders.drop_last()[j],
            table_id,
            item_id,
        ) by {
            assert(orders.drop_last()[j] == orders[j]);
        }
        lemma_join_pair_no_match_empty(orders.drop_last(), items, table_id, item_id);
    }
}

impl Store {
    /// Transactional batch insert: one order line per requested item, each
    /// with its supplied cook duration, appended in request order; the
    /// request is echoed back. `fail_at` stands for a storage failure on
    /// the k-th statement of the batch: the whole batch then rolls back
    /// and nothing changes.
    pub fn insert_order(
        &mut self,
        table_id: usize,
        item_ids: Vec<usize>,
        durs: &Vec<u64>,
        fail_at: Option<usize>,
    ) -> (r: Result<Order, StoreError>)
        requires
            durs@.len() == item_ids@.len(),
            forall|j: int| 0 <= j < durs@.len() ==> 5 <= #[trigger] durs@[j] <= 14,
        ensures
            fail_at is None ==> ({
                &&& r matches Ok(o)
                &&& o.table_id == table_id
                &&& o.item_ids@ == item_ids@
                &&& final(self).orders@ == old(self).orders@
                    + lines_of_batch(table_id, item_ids@, durs@)
                &&& final(self).items@ == old(self).items@
                &&& final(self).tables@ == old(self).tables@
            }),
            fail_at is Some ==> r is Err
                && final(self).orders@ == old(self).orders@
                && final(self).items@ == old(self).items@
                && final(self).tables@ == old(self).tables@,
    {
        if fail_at.is_some() {
            return Err(StoreError::Storage(String::from_str("storage failure")));
        }
        proof {
            assert(self.orders@ =~= self.orders@ + lines_of_batch(
                table_id,
                item_ids@.take(0),
                durs@.take(0),
            ));
        }
        let mut n: usize = 0;
        while n < item_ids.len()
            invariant
                n <= item_ids@.len(),
                durs@.len() == item_ids@.len(),
                self.orders@ == old(self).orders@ + lines_of_batch(
                    table_id,
                    item_ids@.take(n as int),
                    durs@.take(n as int),
                ),
                self.items@ == old(self).items@,
                self.tables@ == old(self).tables@,
            decreases item_ids@.len() - n,
        {
            let line = OrderLine { table_id, item_id: item_ids[n], cook_duration: durs[n] };
            self.orders.push(line);
            proof {
                assert(lines_of_batch(
                    table_id,
                    item_ids@.take(n as int + 1),
                    durs@.take(n as int + 1),
                ) =~= lines_of_batch(table_id, item_ids@.take(n as int), durs@.take(n as int)).push(
                    line,
                ));
                assert(self.orders@ =~= old(self).orders@ + lines_of_batch(
                    table_id,
                    item_ids@.take(n as int + 1),
                    durs@.take(n as int + 1),
                ));
            }
            n += 1;
        }
        proof {
            assert(item_ids@.take(item_ids@.len() as int) =~= item_ids@);
            assert(durs@.take(durs@.len() as int) =~= durs@);
        }
        Ok(Order { table_id, item_ids })
    }

    /// The items ordered at one table: the inner join of order lines and
    /// catalog, one item per matching line, duplicates kept, in line order.
    pub fn list_items(&self, table_id: usize) -> (v: Vec<Item>)
        ensures
            v@ == join_items(self.orders@, self.items@, table_id as int),
    {
        let mut v: Vec<Item> = Vec::new();
        let mut n: usize = 0;
        while n < self.orders.len()
            invariant
                n <= self.orders@.len(),
                v@ == join_items(self.orders@.take(n as int), self.items@, table_id as int),
            decreases self.orders@.len() - n,
        {
            let l = self.orders[n];
            proof {
                assert(self.orders@.take(n as int + 1).drop_last() =~= self.orders@.take(
                    n as int,
                ));
                assert(self.orders@.take(n as int + 1).last() == self.orders@[n as int]);
            }
            if l.table_id == table_id {
                match find_item_index(&self.items, l.item_id) {
                    Some(j) => {
                        let it = Item { id: self.items[j].id, name: self.items[j].name.clone() };
                        proof {
                            assert(it == self.items@[j as int]);
                        }
                        v.push(it);
                    },
                    None => {},
                }
            }
            n += 1;
        }
        proof {
            assert(self.orders@.take(self.orders@.len() as int) =~= self.orders@);
        }
        v
    }

    /// The item one table ordered under one item id, joined to the
    /// catalog: nothing when no line carries the pair, otherwise the item
    /// of the last matching line. Absence is a result, not an error.
    pub fn get_item(&self, table_id: usize, item_id: usize) -> (r: Option<Item>)
        ensures
            ({
                let ms = join_pair(self.orders@, self.items@, table_id as int, item_id as int);
                &&& ms.len() == 0 ==> r is None
                &&& ms.len() > 0 ==> r == Some(ms.last())
            }),
            no_line_matches(self.orders@, table_id as int, item_id as int) ==> r is None,
    {
        let mut best: Option<Item> = None;
        let mut n: usize = 0;
        while n < self.orders.len()
            invariant
                n <= self.orders@.len(),
                ({
                    let ms = join_pair(
                        self.orders@.take(n as int),
                        self.items@,
                        table_id as int,
                        item_id as int,
                    );
                    &&& ms.len() == 0 ==> best is None
                    &&& ms.len() > 0 ==> best == Some(ms.last())
                }),
            decreases self.orders@.len() - n,
        {
            let l = self.orders[n];
            proof {
                assert(self.orders@.take(n as int + 1).drop_last() =~= self.orders@.take(
                    n as int,
                ));
                assert(self.orders@.take(n as int + 1).last() == self.orders@[n as int]);
            }
            if l.table_id == table_id && l.item_id == item_id {
                match find_item_index(&self.items, l.item_id) {
                    Some(j) => {
                        let it = Item { id: self.items[j].id, name: self.items[j].name.clone() };
                        proof {
                            assert(it == self.items@[j as int]);
                        }
                        best = Some(it);
                    },
                    None => {},
                }
            }
            n += 1;
        }
        proof {
            assert(self.orders@.take(self.orders@.len() as int) =~= self.orders@);
            if no_line_matches(self.orders@, table_id as int, item_id as int) {
                lemma_join_pair_no_match_empty(
                    self.orders@,
                    self.items@,
                    table_id as int,
                    item_id as int,
                );
            }
        }
        best
    }

    /// Deletes every order line carrying this table/item pair; a pair no
    /// line carries makes this a no-op (see
    /// `lemma_delete_nonexistent_noop`).
    pub fn delete_order(&mut self, table_id: usize, item_id: usize)
        ensures
            final(self).orders@ == remove_matching(
                old(self).orders@,
                table_id as int,
                item_id as int,
            ),
            final(self).items@ == old(self).items@,
            final(self).tables@ == old(self).tables@,
    {
        let mut kept: Vec<OrderLine> = Vec::new();
        let mut n: usize = 0;
        while n < self.orders.len()
            invariant
                n <= self.orders@.len(),
                self.orders@ == old(self).orders@,
                self.items@ == old(self).items@,
                self.tables@ == old(self).tables@,
                kept@ == remove_matching(
                    self.orders@.take(n as int),
                    table_id as int,
                    item_id as int,
                ),
            decreases self.orders@.len() - n,
        {
            let l = self.orders[n];
            proof {
                assert(self.orders@.take(n as int + 1).drop_last() =~= self.orders@.take(
                    n as int,
                ));
                assert(self.orders@.take(n as int + 1).last() == self.orders@[n as int]);
            }
            if !(l.table_id == table_id && l.item_id == item_id) {
                kept.push(l);
            }
            n += 1;
        }
        proof {
            assert(self.orders@.take(self.orders@.len() as int) =~= self.orders@);
        }
        self.orders = kept;
    }
}

/// Law: deleting a table/item pair that no order line carries leaves the
/// order lines exactly as they were.
pub proof fn lemma_delete_nonexistent_noop(orders: Seq<OrderLine>, table_id: int, item_id: int)
    requires
        no_line_matches(orders, table_id, item_id),
    ensures
        remove_matching(orders, table_id, item_id) == orders,
    decreases orders.len(),
{
    if orders.len() == 0 {
        assert(remove_matching(orders, table_id, item_id) =~= orders);
    } else {
        assert forall|j: int|
            0 <= j < orders.drop_last().len() implies !line_matches(
            orders.drop_last()[j],
            table_id,
            item_id,
        ) by {
            assert(orders.drop_last()[j] == orders[j]);
        }
        lemma_delete_nonexistent_noop(orders.drop_last(), table_id, item_id);
        assert(!line_matches(orders.last(), table_id, item_id));
        assert(orders.drop_last().push(orders.last()) =~= orders);
    }
}

/// Law: two batch inserts both persist; every line of either batch stands
/// in the resulting order lines, so neither insert loses the other's rows.
pub proof fn lemma_inserts_both_persist(
    orders: Seq<OrderLine>,
    t1: usize,
    ids1: Seq<usize>,
    d1: Seq<u64>,
    t2: usize,
    ids2: Seq<usize>,
    d2: Seq<u64>,
)
    requires
        ids1.len() == d1.len(),
        ids2.len() == d2.len(),
    ensures
        ({
            let after = orders + lines_of_batch(t1, ids1, d1) + lines_of_batch(t2, ids2, d2);
            &&& forall|j: int|
                0 <= j < ids1.len() ==> after.contains(
                    OrderLine { table_id: t1, item_id: ids1[j], cook_duration: d1[j] },
                )
            &&& forall|j: int|
                0 <= j < ids2.len() ==> after.contains(
                    OrderLine { table_id: t2, item_id: ids2[j], cook_duration: d2[j] },
                )
        }),
{
    let after = orders + lines_of_batch(t1, ids1, d1) + lines_of_batch(t2, ids2, d2);
    assert forall|j: int|
        0 <= j < ids1.len() implies after.contains(
        OrderLine { table_id: t1, item_id: ids1[j], cook_duration: d1[j] },
    ) by {
        let idx = orders.len() + j;
        assert(after[idx as int] == OrderLine { table_id: t1, item_id: ids1[j], cook_duration: d1[j] });
    }
    assert forall|j: int|
        0 <= j < ids2.len() implies after.contains(
        OrderLine { table_id: t2, item_id: ids2[j], cook_duration: d2[j] },
    ) by {
        let idx = orders.len() + ids1.len() + j;
        assert(after[idx as int] == OrderLine { table_id: t2, item_id: ids2[j], cook_duration: d2[j] });
    }
}

/// Law: deletion removes exactly the matching lines: no line carrying the
/// pair survives, every line not carrying it survives, and nothing
/// appears that was not there before.
pub proof fn lemma_remove_matching_exact(orders: Seq<OrderLine>, table_id: int, item_id: int)
    ensures
        ({
            let kept = remove_matching(orders, table_id, item_id);
            &&& forall|j: int| 0 <= j < kept.len() ==> !line_matches(kept[j], table_id, item_id)
            &&& forall|j: int|
                0 <= j < kept.len() ==> orders.contains(#[trigger] kept[j])
            &&& forall|j: int|
                0 <= j < orders.len() && !line_matches(#[trigger] orders[j], table_id, item_id)
                    ==> kept.contains(orders[j])
        }),
    decreases orders.len(),
{
    let kept = remove_matching(orders, table_id, item_id);
    if orders.len() == 0 {
    } else {
        lemma_remove_matching_exact(orders.drop_last(), table_id, item_id);
        let prev = remove_matching(orders.drop_last(), table_id, item_id);
        assert forall|j: int|
            0 <= j < kept.len() implies orders.contains(#[trigger] kept[j]) by {
            if j < prev.len() {
                assert(prev[j] == kept[j]);
                let w = choose|w: int| 0 <= w < orders.drop_last().len()
                    && orders.drop_last()[w] == prev[j];
                assert(orders[w] == kept[j]);
            } else {
                assert(kept[j] == orders.last());
                assert(orders[orders.len() - 1] == orders.last());
            }
        }
        assert forall|j: int|
            0 <= j < orders.len() && !line_matches(
            #[trigger] orders[j],
            table_id,
            item_id,
        ) implies kept.contains(orders[j]) by {
            if j < orders.len() - 1 {
                assert(orders.drop_last()[j] == orders[j]);
                assert(prev.contains(orders[j]));
                let w = choose|w: int| 0 <= w < prev.len() && prev[w] == orders[j];
                assert(kept[w] == orders[j]);
            } else {
                assert(kept[kept.len() - 1] == orders.last());
            }
        }
    }
}

/// Law: listing after appending lines yields the old listing followed by
/// the appended lines' items; a batch insert extends a table's listing and
/// disturbs nothing that was listed before.
pub proof fn lemma_join_items_append(
    a: Seq<OrderLine>,
    b: Seq<OrderLine>,
    items: Seq<Item>,
    table_id: int,
)
    ensures
        join_items(a + b, items, table_id) == join_items(a, items, table_id) + join_items(
            b,
            items,
            table_id,
        ),
    decreases b.len(),
{
    if b.len() == 0 {
        assert(a + b =~= a);
        assert(join_items(a, items, table_id) + join_items(b, items, table_id) =~= join_items(
            a,
            items,
            table_id,
        ));
    } else {
        lemma_join_items_append(a, b.drop_last(), items, table_id);
        assert((a + b).drop_last() =~= a + b.drop_last());
        assert((a + b).last() == b.last());
        if b.last().table_id == table_id && lookup_item(items, b.last().item_id as int) is Some {
            assert(join_items(a, items, table_id) + join_items(b, items, table_id)
                =~= join_items(a, items, table_id) + join_items(b.drop_last(), items, table_id)
                    + join_items(b, items, table_id).subrange(
                    join_items(b.drop_last(), items, table_id).len() as int,
                    join_items(b, items, table_id).len() as int,
                ));
            assert(join_items(a + b, items, table_id) =~= join_items(a, items, table_id)
                + join_items(b, items, table_id));
        } else {
            assert(join_items(a + b, items, table_id) =~= join_items(a, items, table_id)
                + join_items(b, items, table_id));
        }
    }
}

/// Law: the lines of one batch whose item ids are all in the catalog join
/// to exactly one item per requested id, in request order — nothing
/// doubled, nothing dropped.
pub proof fn lemma_join_items_of_batch(
    table_id: usize,
    item_ids: Seq<usize>,
    durs: Seq<u64>,
    items: Seq<Item>,
)
    requires
        item_ids.len() == durs.len(),
        forall|j: int|
            0 <= j < item_ids.len() ==> lookup_item(items, #[trigger] item_ids[j] as int) is Some,
    ensures
        ({
            let listed = join_items(lines_of_batch(table_id, item_ids, durs), items,
                table_id as int);
            &&& listed.len() == item_ids.len()
            &&& forall|j: int|
                0 <= j < item_ids.len() ==> listed[j] == lookup_item(
                    items,
                    #[trigger] item_ids[j] as int,
                )->Some_0
        }),
    decreases item_ids.len(),
{
    let batch = lines_of_batch(table_id, item_ids, durs);
    if item_ids.len() == 0 {
    } else {
        lemma_join_items_of_batch(table_id, item_ids.drop_last(), durs.drop_last(), items);
        assert(batch.drop_last() =~= lines_of_batch(
            table_id,
            item_ids.drop_last(),
            durs.drop_last(),
        ));
        assert(batch.last() == OrderLine {
            table_id,
            item_id: item_ids.last(),
            cook_duration: durs.last(),
        });
        let prev = join_items(batch.drop_last(), items, table_id as int);
        let listed = join_items(batch, items, table_id as int);
        assert(listed == prev.push(lookup_item(items, item_ids.last() as int)->Some_0));
        assert forall|j: int|
            0 <= j < item_ids.len() implies listed[j] == lookup_item(
            items,
            #[trigger] item_ids[j] as int,
        )->Some_0 by {
            if j < item_ids.len() - 1 {
                assert(item_ids.drop_last()[j] == item_ids[j]);
                assert(listed[j] == prev[j]);
            }
        }
    }
}

/// Law: running setup twice in a row leaves both catalogs exactly as after
/// the first run.
pub proof fn lemma_setup_idempotent(
    i0: Seq<Item>,
    i1: Seq<Item>,
    i2: Seq<Item>,
    t0: Seq<usize>,
    t1: Seq<usize>,
    t2: Seq<usize>,
)
    requires
        items_setup_post(i0, i1),
        tables_setup_post(t0, t1),
        items_setup_post(i1, i2),
        tables_setup_post(t1, t2),
    ensures
        i2 == i1,
        t2 == t1,
{
    // after the first run every seed is present, so the second run finds
    // nothing missing and appends nothing
    assert(missing_item_seeds(i1, 0).len() == 0);
    assert(missing_item_seeds(i1, 1).len() == 0) by {
        assert(has_item_id(i1, seed_item_id(0)));
    }
    assert(missing_item_seeds(i1, 2).len() == 0) by {
        assert(has_item_id(i1, seed_item_id(1)));
    }
    assert(missing_item_seeds(i1, 3).len() == 0) by {
        assert(has_item_id(i1, seed_item_id(2)));
    }
    assert(missing_item_seeds(i1, 4).len() == 0) by {
        assert(has_item_id(i1, seed_item_id(3)));
    }
    assert(i2.len() == i1.len());
    assert(i2 =~= i1) by {
        assert(forall|idx: int|
            0 <= idx < i1.len() ==> i2[idx] == i2.subrange(0, i1.len() as int)[idx]);
    }
    assert(missing_table_seeds(t1, 0).len() == 0);
    assert(missing_table_seeds(t1, 1).len() == 0) by {
        assert(has_table_id(t1, 1));
    }
    assert(missing_table_seeds(t1, 2).len() == 0) by {
        assert(has_table_id(t1, 2));
    }
    assert(missing_table_seeds(t1, 3).len() == 0) by {
        assert(has_table_id(t1, 3));
    }
    assert(t2.len() == t1.len());
    assert(t2 =~= t1) by {
        assert(forall|idx: int|
            0 <= idx < t1.len() ==> t2[idx] == t2.subrange(0, t1.len() as int)[idx]);
    }
}

/// Law: setup on an empty store seeds exactly three table rows — the ids
/// 1, 2, 3 in order — and exactly four menu items, the seeds in seed
/// order with their names, and nothing else.
pub proof fn lemma_setup_seeds_exactly(items: Seq<Item>, tables: Seq<usize>)
    requires
        items_setup_post(Seq::empty(), items),
        tables_setup_post(Seq::empty(), tables),
    ensures
        items.len() == 4,
        forall|k: int| 0 <= k < 4 ==> item_is_seed(#[trigger] items[k], k),
        tables == seq![1usize, 2usize, 3usize],
{
    let none_i = Seq::<Item>::empty();
    assert(missing_item_seeds(none_i, 0) =~= Seq::<int>::empty());
    assert(!has_item_id(none_i, seed_item_id(0)));
    assert(missing_item_seeds(none_i, 1) =~= seq![0int]);
    assert(!has_item_id(none_i, seed_item_id(1)));
    assert(missing_item_seeds(none_i, 2) =~= seq![0int, 1]);
    assert(!has_item_id(none_i, seed_item_id(2)));
    assert(missing_item_seeds(none_i, 3) =~= seq![0int, 1, 2]);
    assert(!has_item_id(none_i, seed_item_id(3)));
    assert(missing_item_seeds(none_i, 4) =~= seq![0int, 1, 2, 3]);
    assert(items.len() == 4);
    assert forall|k: int| 0 <= k < 4 implies item_is_seed(#[trigger] items[k], k) by {
        assert(missing_item_seeds(none_i, 4)[k] == k);
        assert(item_is_seed(items[0int + k], missing_item_seeds(none_i, 4)[k]));
    }
    let none_t = Seq::<usize>::empty();
    assert(missing_table_seeds(none_t, 0) =~= Seq::<int>::empty());
    assert(!has_table_id(none_t, 1));
    assert(missing_table_seeds(none_t, 1) =~= seq![1int]);
    assert(!has_table_id(none_t, 2));
    assert(missing_table_seeds(none_t, 2) =~= seq![1int, 2]);
    assert(!has_table_id(none_t, 3));
    assert(missing_table_seeds(none_t, 3) =~= seq![1int, 2, 3]);
    assert(tables.len() == 3);
    assert(tables =~= seq![1usize, 2usize, 3usize]) by {
        assert(missing_table_seeds(none_t, 3)[0] == 1);
        assert(missing_table_seeds(none_t, 3)[1] == 2);
        assert(missing_table_seeds(none_t, 3)[2] == 3);
        assert(tables[0int + 0] == missing_table_seeds(none_t, 3)[0]);
        assert(tables[0int + 1] == missing_table_seeds(none_t, 3)[1]);
        assert(tables[0int + 2] == missing_table_seeds(none_t, 3)[2]);
    }
}

} // verus!
