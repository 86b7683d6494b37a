//! An in-memory CRUD library for three independent resource collections:
//! users, products, and categories.
//!
//! Each collection is an ordered sequence of records, each record named by a
//! 128-bit identifier assigned at creation. A collection supports list,
//! get-by-identifier, create, partial update, and delete; the only domain
//! error is [`NotFound`]. The stores hold plain data and perform no I/O; an
//! HTTP front end can own one store per resource and serialize the records
//! it hands back.

use vstd::prelude::*;

mod ids;
pub mod categories;
pub mod products;
pub mod users;

verus! {

/// The one domain error: no record in the collection carries the requested
/// identifier at the time of the operation.
#[derive(Clone, Copy, Debug, PartialEq, Eq, Structural)]
pub struct NotFound;

} // verus!
