//! The order aggregate: a header, its status code and its line items.

use vstd::prelude::*;

verus! {

/// Lifecycle stage of an order. Stored as its ordinal code.
#[derive(Debug, Clone, Copy, PartialEq, Eq, Structural)]
pub enum OrderStatus {
    Processing,
    Accepted,
    Assembly,
    InProgress,
    Completed,
    Cancelled,
}

/// The status that a stored code stands for; codes outside the defined range read as
/// `Cancelled`.
pub open spec fn status_of_code(code: i32) -> OrderStatus {
    if code == 0 {
        OrderStatus::Processing
    } else if code == 1 {
        OrderStatus::Accepted
    } else if code == 2 {
        OrderStatus::Assembly
    } else if code == 3 {
        OrderStatus::InProgress
    } else if code == 4 {
        OrderStatus::Completed
    } else {
        OrderStatus::Cancelled
    }
}

impl OrderStatus {
    /// The ordinal under which the status is stored.
    pub open spec fn spec_code(self) -> i32 {
        match self {
            OrderStatus::Processing => 0,
            OrderStatus::Accepted => 1,
            OrderStatus::Assembly => 2,
            OrderStatus::InProgress => 3,
            OrderStatus::Completed => 4,
            OrderStatus::Cancelled => 5,
        }
    }

    /// Encodes the status as its stored ordinal.
    pub fn code(&self) -> (r: i32)
        ensures
            r == self.spec_code(),
            0 <= r <= 5,
    {
        match self {
            OrderStatus::Processing => 0,
            OrderStatus::Accepted => 1,
            OrderStatus::Assembly => 2,
            OrderStatus::InProgress => 3,
            OrderStatus::Completed => 4,
            OrderStatus::Cancelled => 5,
        }
    }
}

impl From<i32> for OrderStatus {
    /// Decodes a stored ordinal; this never fails.
    fn from(value: i32) -> (r: Self) {
        match value {
            0 => OrderStatus::Processing,
            1 => OrderStatus::Accepted,
            2 => OrderStatus::Assembly,
            3 => OrderStatus::InProgress,
            4 => OrderStatus::Completed,
            _ => OrderStatus::Cancelled,
        }
    }
}

impl vstd::std_specs::convert::FromSpecImpl<i32> for OrderStatus {
    open spec fn obeys_from_spec() -> bool {
        true
    }

    open spec fn from_spec(v: i32) -> Self {
        status_of_code(v)
    }
}

impl Default for OrderStatus {
    fn default() -> (r: Self)
        ensures
            r == OrderStatus::Processing,
    {
        OrderStatus::Processing
    }
}

/// Decoding an encoded status gives the status back.
pub proof fn lemma_status_code_round_trip(s: OrderStatus)
    ensures
        status_of_code(s.spec_code()) == s,
{
}

/// The header of an order: its top-level fields.
#[derive(Debug)]
pub struct OrderDTO {
    /// Order identifier, assigned by the store.
    pub order_id: i32,
    /// Customer identifier.
    pub customer_id: i32,
    /// Order status.
    pub order_status: OrderStatus,
    /// Delivery address.
    pub address: String,
    /// Total price, in minor currency units.
    pub price: i64,
}

/// Mathematical value of an order header.
pub ghost struct HeaderModel {
    pub order_id: int,
    pub customer_id: int,
    pub order_status: OrderStatus,
    pub address: Seq<char>,
    pub price: int,
}

impl View for OrderDTO {
    type V = HeaderModel;

    open spec fn view(&self) -> HeaderModel {
        HeaderModel {
            order_id: self.order_id as int,
            customer_id: self.customer_id as int,
            order_status: self.order_status,
            address: self.address@,
            price: self.price as int,
        }
    }
}

impl Default for OrderDTO {
    fn default() -> (r: Self)
        ensures
            r@ == (HeaderModel {
                order_id: 0,
                customer_id: 0,
                order_status: OrderStatus::Processing,
                address: Seq::empty(),
                price: 0,
            }),
    {
        OrderDTO {
            order_id: 0,
            customer_id: 0,
            order_status: OrderStatus::Processing,
            address: String::new(),
            price: 0,
        }
    }
}

/// One product entry of an order.
#[derive(Debug, Clone, Copy, PartialEq, Eq, Structural)]
pub struct OrderItem {
    /// Identifier of the order that owns the item.
    pub order_id: i32,
    /// Product identifier.
    pub product_id: i32,
    /// Number of units.
    pub quantity: i32,
    /// Price of one unit.
    pub unit_price: i64,
    /// Price of all units of the item.
    pub total_price: i64,
}

/// The item as stored under the order `id`: its owner field is overwritten by `id`.
pub open spec fn stamped(item: OrderItem, id: i32) -> OrderItem {
    OrderItem { order_id: id, ..item }
}

/// Every item of `items`, stamped with the order `id`, in the same order.
pub open spec fn stamp_all(items: Seq<OrderItem>, id: i32) -> Seq<OrderItem> {
    items.map_values(|it: OrderItem| stamped(it, id))
}

impl OrderItem {
    /// The item as it is stored under the order `id`.
    pub fn stamp(&self, id: i32) -> (r: OrderItem)
        ensures
            r == stamped(*self, id),
    {
        OrderItem { order_id: id, ..*self }
    }
}

impl Default for OrderItem {
    fn default() -> (r: Self)
        ensures
            r == (OrderItem { order_id: 0, product_id: 0, quantity: 0, unit_price: 0, total_price: 0 }),
    {
        OrderItem { order_id: 0, product_id: 0, quantity: 0, unit_price: 0, total_price: 0 }
    }
}

/// An order aggregate: one header and its line items.
#[derive(Debug)]
pub struct Order {
    /// The order header.
    pub dto: OrderDTO,
    /// The products of the order.
    pub items: Vec<OrderItem>,
}

/// Mathematical value of an order aggregate.
pub ghost struct OrderModel {
    pub header: HeaderModel,
    pub items: Seq<OrderItem>,
}

impl View for Order {
    type V = OrderModel;

    open spec fn view(&self) -> OrderModel {
        OrderModel { header: self.dto@, items: self.items@ }
    }
}

impl Order {
    /// Puts a header and its items together.
    pub fn new(dto: OrderDTO, items: Vec<OrderItem>) -> (r: Self)
        ensures
            r.dto == dto,
            r.items == items,
    {
        Order { dto, items }
    }
}

impl Default for Order {
    fn default() -> (r: Self)
        ensures
            r.dto@ == (HeaderModel {
                order_id: 0,
                customer_id: 0,
                order_status: OrderStatus::Processing,
                address: Seq::empty(),
                price: 0,
            }),
            r.items@ == Seq::<OrderItem>::empty(),
    {
        Order { dto: OrderDTO::default(), items: Vec::new() }
    }
}

} // verus!
