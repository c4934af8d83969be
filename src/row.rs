//! Mapping between the order aggregate and the rows of the two tables, and the
//! decisions that the store takes on what a table returns.

use vstd::prelude::*;
use crate::order::{status_of_code, HeaderModel, OrderDTO, OrderItem, OrderModel, Order};

verus! {

/// Why a store operation failed.
#[derive(Debug)]
pub enum StoreError {
    /// No header row has the requested order identifier.
    NotFound,
    /// The storage itself failed; the message says how.
    Storage(String),
}

impl StoreError {
    /// A description of the failure, for the transport layer.
    pub fn message(&self) -> (r: String)
        ensures
            self matches StoreError::Storage(m) ==> r@ == m@,
            self is NotFound ==> r@ == "order not found"@,
    {
        match self {
            StoreError::NotFound => "order not found".to_owned(),
            StoreError::Storage(m) => m.clone(),
        }
    }
}

/// A row of the header table: the header's fields, with the status as its code.
#[derive(Debug)]
pub struct HeaderRow {
    pub order_id: i32,
    pub customer_id: i32,
    pub order_status: i32,
    pub address: String,
    pub price: i64,
}

/// The header that a stored row reads as; an unknown status code reads as `Cancelled`.
pub open spec fn header_of_row(row: HeaderRow) -> HeaderModel {
    HeaderModel {
        order_id: row.order_id as int,
        customer_id: row.customer_id as int,
        order_status: status_of_code(row.order_status),
        address: row.address@,
        price: row.price as int,
    }
}

/// The header `h` carrying the order identifier `id`.
pub open spec fn header_with_id(h: HeaderModel, id: int) -> HeaderModel {
    HeaderModel { order_id: id, ..h }
}

impl HeaderRow {
    /// The row that stores `dto` under the order identifier `id`.
    pub fn from_dto(dto: &OrderDTO, id: i32) -> (r: HeaderRow)
        ensures
            r.order_id == id,
            r.order_status == dto.order_status.spec_code(),
            header_of_row(r) == header_with_id(dto@, id as int),
    {
        HeaderRow {
            order_id: id,
            customer_id: dto.customer_id,
            order_status: dto.order_status.code(),
            address: dto.address.clone(),
            price: dto.price,
        }
    }

    /// Reads the row back as a header, decoding its status code.
    pub fn to_dto(&self) -> (r: OrderDTO)
        ensures
            r@ == header_of_row(*self),
    {
        OrderDTO {
            order_id: self.order_id,
            customer_id: self.customer_id,
            order_status: crate::order::OrderStatus::from(self.order_status),
            address: self.address.clone(),
            price: self.price,
        }
    }
}

/// The key under which a newly generated identifier stamps the order's rows; an
/// identifier beyond what an `i32` holds means that the identifiers are used up.
pub fn new_key(id: i64) -> (r: Result<i32, StoreError>)
    ensures
        i32::MIN <= id <= i32::MAX <==> r is Ok,
        r matches Ok(k) ==> k == id,
        r is Err ==> r matches Err(StoreError::Storage(_)),
{
    if id < i32::MIN as i64 || id > i32::MAX as i64 {
        Err(StoreError::Storage("order identifiers are used up".to_owned()))
    } else {
        Ok(id as i32)
    }
}

/// The key of an order that is asked for by identifier; no stored order has an
/// identifier beyond what an `i32` holds, since creation refuses those.
pub fn existing_key(id: i64) -> (r: Result<i32, StoreError>)
    ensures
        i32::MIN <= id <= i32::MAX <==> r is Ok,
        r matches Ok(k) ==> k == id,
        r is Err ==> r matches Err(StoreError::NotFound),
{
    if id < i32::MIN as i64 || id > i32::MAX as i64 {
        Err(StoreError::NotFound)
    } else {
        Ok(id as i32)
    }
}

/// Decides on the number of header rows that an update or a delete touched: none
/// means that the order does not exist.
pub fn check_affected(rows: u64) -> (r: Result<(), StoreError>)
    ensures
        rows > 0 <==> r is Ok,
        rows == 0 <==> r matches Err(StoreError::NotFound),
{
    if rows == 0 {
        Err(StoreError::NotFound)
    } else {
        Ok(())
    }
}

/// Puts an aggregate together from its header row and its item rows.
pub fn assemble(row: &HeaderRow, items: Vec<OrderItem>) -> (r: Order)
    ensures
        r@ == (OrderModel { header: header_of_row(*row), items: items@ }),
{
    Order::new(row.to_dto(), items)
}

/// Decides on the result of a lookup of one header row: a missing row means that the
/// order does not exist.
pub fn header_found(row: Option<HeaderRow>) -> (r: Result<HeaderRow, StoreError>)
    ensures
        row is None <==> r matches Err(StoreError::NotFound),
        row matches Some(h) ==> (r matches Ok(g) && g == h),
{
    match row {
        None => Err(StoreError::NotFound),
        Some(h) => Ok(h),
    }
}

} // verus!
