//! An in-memory store of user records with create, list, replace and delete
//! operations, together with a thin handler layer that maps the outcomes of
//! those operations to status codes.

pub mod handler;
mod ids;
pub mod store;
