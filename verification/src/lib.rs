//! The data-access layer of a small record service.
//!
//! - [`config`] resolves the settings that name the store and plans the
//!   connection.
//! - [`shapes`] and [`query`] hold the records, the request bodies, filters
//!   and sort orders.
//! - [`gateway`] holds the four operations: what each asks of the store and
//!   what it answers.
//! - [`ordering`] defines the order that a sort puts records in.
//! - [`store`] is a collection in memory that answers the gateway's
//!   commands, and [`laws`] states what holds of the operations against it.

mod clock;
pub mod config;
pub mod gateway;
pub mod laws;
pub mod ordering;
pub mod query;
pub mod shapes;
pub mod store;
