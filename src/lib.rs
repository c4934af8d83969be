//! Persistence of order aggregates: an order header and its line items, kept together
//! in a header table and an item table.

pub mod order;
pub mod repository;
pub mod row;
pub mod service;
pub mod store;
