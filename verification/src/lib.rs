//! Order-intake and queue-status engine for a small point-of-sale service.
//!
//! The crate models the persistent store (orders, order line items, queue
//! tokens and the menu rows they reference) as an explicit value, and verifies
//! the operations the service performs on it: transactional order creation
//! with its queue token, the status-transition engine with its derived
//! queue-token effect, snapshot reads of the queue, and the fan-out of
//! snapshots to live subscribers.

pub mod models;
pub mod status;
pub mod store;
pub mod registry;
pub mod api;
pub mod laws;
