//! A paste-storage core: identifier generation and validation, a
//! key-addressed blob store with size bounds, and a time-based retention
//! sweeper, each with a verified contract.

pub mod models;
pub mod paste_id;
pub mod routes;
pub mod store;
pub mod sweeper;
