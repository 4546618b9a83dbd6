//! A small CRUD library over a single book table: the entity model, the
//! validation of path parameters, the error taxonomy with its HTTP status
//! mapping, and an in-memory model of the query layer with the five
//! request handlers, all verified.

pub mod errors;
pub mod handlers;
pub mod models;
pub mod store;
pub mod validate;

pub use errors::UserError;
pub use models::{Book, NewBook};
