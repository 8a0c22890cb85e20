//! Documentation side of per-path method routing: inference of operation
//! descriptions from handler metadata, conflict-checked response
//! registration, and aggregation of per-method operations into path items.

pub mod context;
pub mod inference;
pub mod method;
pub mod operation;
pub mod path;
pub mod router;
pub mod tables;
