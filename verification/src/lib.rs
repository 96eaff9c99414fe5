//! A verified core for a small todo service: an in-memory model of the
//! `todos` table with its four operations (list, insert, delete, update),
//! the route table that maps request paths to those operations, and the
//! encoding of every response body and error the service produces.

pub mod error;
pub mod item;
pub mod router;
pub mod store;
pub mod text;
