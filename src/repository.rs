//! The order store: the header table and the item table, and the operations that keep
//! each order's header and items together.

use vstd::prelude::*;
use crate::order::{stamp_all, stamped, HeaderModel, Order, OrderDTO, OrderItem};
use crate::row::{assemble, check_affected, new_key, header_of_row, header_with_id, HeaderRow, StoreError};
use crate::store::{
    lemma_created_wf,
    lemma_deleted_wf,
    lemma_index_of_unique,
    lemma_no_items_without_header,
    lemma_updated_wf,
    not_owned_by,
    owned_by,
    placed_by,
    StoreModel,
};

verus! {

/// The headers that a sequence of header rows reads as.
pub open spec fn headers_of(rows: Seq<HeaderRow>) -> Seq<HeaderModel> {
    rows.map_values(|r: HeaderRow| header_of_row(r))
}

/// The order store. Header rows and item rows are kept in insertion order; a new order
/// gets the next identifier, and identifiers are never reused.
pub struct OrderRepository {
    headers: Vec<HeaderRow>,
    items: Vec<OrderItem>,
    next_id: i64,
}

impl View for OrderRepository {
    type V = StoreModel;

    closed spec fn view(&self) -> StoreModel {
        StoreModel {
            headers: headers_of(self.headers@),
            items: self.items@,
            next_id: self.next_id as int,
        }
    }
}

/// The position of the header row with the identifier `id`.
fn find_index(rows: &Vec<HeaderRow>, id: i64) -> (r: Option<usize>)
    ensures
        match r {
            Some(i) => i < rows.len() && headers_of(rows@)[i as int].order_id == id,
            None => forall|j: int| 0 <= j < rows.len() ==> headers_of(rows@)[j].order_id != id,
        },
{
    let mut i: usize = 0;
    while i < rows.len()
        invariant
            i <= rows.len(),
            forall|j: int| 0 <= j < i ==> headers_of(rows@)[j].order_id != id,
        decreases rows.len() - i,
    {
        if rows[i].order_id as i64 == id {
            return Some(i);
        }
        i += 1;
    }
    None
}

/// The item rows of the order `id`, in table order.
fn items_owned_by(items: &Vec<OrderItem>, id: i64) -> (r: Vec<OrderItem>)
    ensures
        r@ == items@.filter(owned_by(id as int)),
{
    let mut out: Vec<OrderItem> = Vec::new();
    let mut k: usize = 0;
    while k < items.len()
        invariant
            k <= items.len(),
            out@ == items@.subrange(0, k as int).filter(owned_by(id as int)),
        decreases items.len() - k,
    {
        let it = items[k];
        proof {
            assert(items@.subrange(0, k as int + 1) =~= items@.subrange(0, k as int).push(it));
            Seq::lemma_filter_push(items@.subrange(0, k as int), it, owned_by(id as int));
        }
        if it.order_id as i64 == id {
            out.push(it);
        }
        k += 1;
    }
    proof {
        assert(items@.subrange(0, items.len() as int) =~= items@);
    }
    out
}

/// Appends each of `new_items`, stamped with the order `id`.
fn append_items(items: &mut Vec<OrderItem>, id: i32, new_items: &Vec<OrderItem>)
    ensures
        final(items)@ == old(items)@ + stamp_all(new_items@, id),
{
    let ghost start = items@;
    let mut k: usize = 0;
    while k < new_items.len()
        invariant
            k <= new_items.len(),
            items@ == start + stamp_all(new_items@.subrange(0, k as int), id),
        decreases new_items.len() - k,
    {
        items.push(new_items[k].stamp(id));
        proof {
            let done = stamp_all(new_items@.subrange(0, k as int), id);
            assert(stamp_all(new_items@.subrange(0, k as int + 1), id) =~= done.push(
                stamped(new_items@[k as int], id),
            ));
            assert(items@ =~= start + done.push(stamped(new_items@[k as int], id)));
        }
        k += 1;
    }
    proof {
        assert(new_items@.subrange(0, new_items.len() as int) =~= new_items@);
    }
}

/// Removes every item row of the order `id`, keeping the others in order.
fn remove_items(items: &mut Vec<OrderItem>, id: i64)
    ensures
        final(items)@ == old(items)@.filter(not_owned_by(id as int)),
{
    let mut kept: Vec<OrderItem> = Vec::new();
    let mut k: usize = 0;
    while k < items.len()
        invariant
            k <= items.len(),
            kept@ == items@.subrange(0, k as int).filter(not_owned_by(id as int)),
        decreases items.len() - k,
    {
        let it = items[k];
        proof {
            assert(items@.subrange(0, k as int + 1) =~= items@.subrange(0, k as int).push(it));
            Seq::lemma_filter_push(items@.subrange(0, k as int), it, not_owned_by(id as int));
        }
        if it.order_id as i64 != id {
            kept.push(it);
        }
        k += 1;
    }
    proof {
        assert(items@.subrange(0, items.len() as int) =~= items@);
    }
    *items = kept;
}

impl OrderRepository {
    /// An empty store; the first order gets the identifier 1.
    pub fn new() -> (r: Self)
        ensures
            r@ == (StoreModel { headers: Seq::empty(), items: Seq::empty(), next_id: 1 }),
            r@.wf(),
    {
        let headers: Vec<HeaderRow> = Vec::new();
        proof {
            assert(headers_of(headers@) =~= Seq::<HeaderModel>::empty());
        }
        OrderRepository { headers, items: Vec::new(), next_id: 1 }
    }

    /// Looks up the order `id`: its header and all its items, or `NotFound`.
    pub fn find_by_id(&self, id: i64) -> (r: Result<Order, StoreError>)
        requires
            self@.wf(),
        ensures
            match r {
                Ok(o) => self@.lookup(id as int) == Some(o@),
                Err(e) => self@.lookup(id as int) is None && e is NotFound,
            },
    {
        match find_index(&self.headers, id) {
            None => Err(StoreError::NotFound),
            Some(i) => {
                proof {
                    lemma_index_of_unique(self@, id as int, i as int);
                }
                let items = items_owned_by(&self.items, id);
                Ok(assemble(&self.headers[i], items))
            },
        }
    }

    /// The item rows of the order `id`, in the order in which they were stored; none
    /// for an unknown order.
    pub fn get_order_items_by_id(&self, id: i64) -> (r: Vec<OrderItem>)
        ensures
            r@ == self@.items.filter(owned_by(id as int)),
            self@.wf() && !self@.has(id as int) ==> r@.len() == 0,
    {
        proof {
            if self@.wf() && !self@.has(id as int) {
                lemma_no_items_without_header(self@, id as int);
            }
        }
        items_owned_by(&self.items, id)
    }

    /// Stores a new order: its header under the next identifier, then each of its
    /// items stamped with that identifier. Returns the identifier. Fails, changing
    /// nothing, once the identifiers that fit an `i32` are used up.
    pub fn save(&mut self, order: Order) -> (r: Result<i64, StoreError>)
        requires
            old(self)@.wf(),
        ensures
            final(self)@.wf(),
            old(self)@.next_id <= i32::MAX ==> (r matches Ok(id) && id == old(self)@.next_id
                && final(self)@ == old(self)@.created(order@)),
            old(self)@.next_id > i32::MAX ==> (r matches Err(StoreError::Storage(_))
                && final(self)@ == old(self)@),
    {
        let id = match new_key(self.next_id) {
            Err(e) => return Err(e),
            Ok(k) => k,
        };
        let ghost before = self@;
        let row = HeaderRow::from_dto(&order.dto, id);
        self.headers.push(row);
        append_items(&mut self.items, id, &order.items);
        proof {
            assert(headers_of(self.headers@) =~= before.headers.push(
                header_with_id(order.dto@, id as int),
            ));
            lemma_created_wf(before, order@);
        }
        self.next_id = self.next_id + 1;
        Ok(id as i64)
    }

    /// Overwrites the order `id`: its header takes the fields of `order` and keeps its
    /// identifier; its items are replaced by those of `order`. An unknown `id` gives
    /// `NotFound` and changes nothing.
    pub fn update(&mut self, id: i64, order: Order) -> (r: Result<(), StoreError>)
        requires
            old(self)@.wf(),
        ensures
            final(self)@.wf(),
            !old(self)@.has(id as int) ==> (r matches Err(StoreError::NotFound)
                && final(self)@ == old(self)@),
            old(self)@.has(id as int) ==> r is Ok
                && final(self)@ == old(self)@.updated(id as int, order@),
    {
        let ghost before = self@;
        let affected: u64 = match find_index(&self.headers, id) {
            None => 0,
            Some(i) => {
                proof {
                    lemma_index_of_unique(before, id as int, i as int);
                    lemma_updated_wf(before, id as int, order@);
                }
                let key = self.headers[i].order_id;
                let row = HeaderRow::from_dto(&order.dto, key);
                let ghost rows = self.headers@;
                self.headers.remove(i);
                self.headers.insert(i, row);
                proof {
                    assert(self.headers@ =~= rows.update(i as int, row));
                    assert(headers_of(self.headers@) =~= before.headers.update(
                        i as int,
                        header_with_id(order.dto@, id as int),
                    ));
                }
                remove_items(&mut self.items, id);
                append_items(&mut self.items, key, &order.items);
                1
            },
        };
        check_affected(affected)
    }

    /// Removes the order `id`: its header and all its items. An unknown `id` gives
    /// `NotFound` and changes nothing.
    pub fn delete(&mut self, id: i64) -> (r: Result<(), StoreError>)
        requires
            old(self)@.wf(),
        ensures
            final(self)@.wf(),
            !old(self)@.has(id as int) ==> (r matches Err(StoreError::NotFound)
                && final(self)@ == old(self)@),
            old(self)@.has(id as int) ==> r is Ok
                && final(self)@ == old(self)@.deleted(id as int),
    {
        let ghost before = self@;
        let affected: u64 = match find_index(&self.headers, id) {
            None => 0,
            Some(i) => {
                proof {
                    lemma_index_of_unique(before, id as int, i as int);
                    lemma_deleted_wf(before, id as int);
                }
                self.headers.remove(i);
                proof {
                    assert(headers_of(self.headers@) =~= before.headers.remove(i as int));
                }
                remove_items(&mut self.items, id);
                1
            },
        };
        check_affected(affected)
    }

    /// Every stored order, each with all its items, in the order in which they were
    /// created.
    pub fn get_all_orders(&self) -> (r: Vec<Order>)
        ensures
            r.len() == self@.headers.len(),
            forall|j: int| 0 <= j < r.len() ==> r[j]@ == self@.aggregate(#[trigger] self@.headers[j]),
    {
        let mut out: Vec<Order> = Vec::new();
        let mut k: usize = 0;
        while k < self.headers.len()
            invariant
                k <= self.headers.len(),
                out.len() == k,
                forall|j: int| 0 <= j < k ==> out[j]@ == self@.aggregate(#[trigger] self@.headers[j]),
            decreases self.headers.len() - k,
        {
            let row = &self.headers[k];
            let items = items_owned_by(&self.items, row.order_id as i64);
            out.push(assemble(row, items));
            k += 1;
        }
        out
    }

    /// Every order placed by the customer `customer_id`, each with all its items, in the
    /// order in which they were created.
    pub fn find_all_by_customer_id(&self, customer_id: i64) -> (r: Vec<Order>)
        ensures
            r.len() == self@.headers.filter(placed_by(customer_id as int)).len(),
            forall|j: int|
                0 <= j < r.len() ==> r[j]@ == self@.aggregate(
                    #[trigger] self@.headers.filter(placed_by(customer_id as int))[j],
                ),
    {
        let ghost hs = self@.headers;
        let ghost p = placed_by(customer_id as int);
        let mut out: Vec<Order> = Vec::new();
        let mut k: usize = 0;
        while k < self.headers.len()
            invariant
                k <= self.headers.len(),
                hs == self@.headers,
                p == placed_by(customer_id as int),
                out.len() == hs.subrange(0, k as int).filter(p).len(),
                forall|j: int|
                    0 <= j < out.len() ==> out[j]@ == self@.aggregate(
                        #[trigger] hs.subrange(0, k as int).filter(p)[j],
                    ),
            decreases self.headers.len() - k,
        {
            let row = &self.headers[k];
            let ghost before = out@;
            proof {
                assert(hs.subrange(0, k as int + 1) =~= hs.subrange(0, k as int).push(hs[k as int]));
                Seq::lemma_filter_push(hs.subrange(0, k as int), hs[k as int], p);
            }
            if row.customer_id as i64 == customer_id {
                let items = items_owned_by(&self.items, row.order_id as i64);
                out.push(assemble(row, items));
                proof {
                    assert forall|j: int| 0 <= j < out.len() implies out[j]@ == self@.aggregate(
                        #[trigger] hs.subrange(0, k as int + 1).filter(p)[j],
                    ) by {
                        if j < before.len() {
                            assert(out[j] == before[j]);
                        }
                    }
                }
            }
            k += 1;
        }
        proof {
            assert(hs.subrange(0, self.headers.len() as int) =~= hs);
        }
        out
    }
}

} // verus!
