//! The order service: the operations that the transport layer calls, each handed to
//! the store unchanged.

use vstd::prelude::*;
use crate::order::Order;
use crate::repository::OrderRepository;
use crate::row::StoreError;
use crate::store::StoreModel;

verus! {

/// Domain operations on orders over one store.
pub struct OrderService {
    repository: OrderRepository,
}

impl View for OrderService {
    type V = StoreModel;

    closed spec fn view(&self) -> StoreModel {
        self.repository@
    }
}

impl OrderService {
    /// A service over an empty store.
    pub fn new() -> (r: Self)
        ensures
            r@ == (StoreModel { headers: Seq::empty(), items: Seq::empty(), next_id: 1 }),
            r@.wf(),
    {
        OrderService { repository: OrderRepository::new() }
    }

    /// Creates an order and returns its identifier.
    pub fn create_order(&mut self, order: Order) -> (r: Result<i64, StoreError>)
        requires
            old(self)@.wf(),
        ensures
            final(self)@.wf(),
            old(self)@.next_id <= i32::MAX ==> (r matches Ok(id) && id == old(self)@.next_id
                && final(self)@ == old(self)@.created(order@)),
            old(self)@.next_id > i32::MAX ==> (r matches Err(StoreError::Storage(_))
                && final(self)@ == old(self)@),
    {
        self.repository.save(order)
    }

    /// The order `id` with all its items, or `NotFound`.
    pub fn get_order(&self, id: i64) -> (r: Result<Order, StoreError>)
        requires
            self@.wf(),
        ensures
            match r {
                Ok(o) => self@.lookup(id as int) == Some(o@),
                Err(e) => self@.lookup(id as int) is None && e is NotFound,
            },
    {
        self.repository.find_by_id(id)
    }

    /// Overwrites the order `id` with `order`; `NotFound`, changing nothing, if there is
    /// no such order.
    pub fn update_order(&mut self, id: i64, order: Order) -> (r: Result<(), StoreError>)
        requires
            old(self)@.wf(),
        ensures
            final(self)@.wf(),
            !old(self)@.has(id as int) ==> (r matches Err(StoreError::NotFound)
                && final(self)@ == old(self)@),
            old(self)@.has(id as int) ==> r is Ok
                && final(self)@ == old(self)@.updated(id as int, order@),
    {
        self.repository.update(id, order)
    }

    /// Removes the order `id` and its items; `NotFound`, changing nothing, if there is
    /// no such order.
    pub fn delete_order(&mut self, id: i64) -> (r: Result<(), StoreError>)
        requires
            old(self)@.wf(),
        ensures
            final(self)@.wf(),
            !old(self)@.has(id as int) ==> (r matches Err(StoreError::NotFound)
                && final(self)@ == old(self)@),
            old(self)@.has(id as int) ==> r is Ok
                && final(self)@ == old(self)@.deleted(id as int),
    {
        self.repository.delete(id)
    }

    /// Every order with its items, in the order in which they were created.
    pub fn get_order_list(&self) -> (r: Vec<Order>)
        ensures
            r.len() == self@.headers.len(),
            forall|j: int| 0 <= j < r.len() ==> r[j]@ == self@.aggregate(#[trigger] self@.headers[j]),
    {
        self.repository.get_all_orders()
    }
}

} // verus!
