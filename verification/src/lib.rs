//! A verified in-memory store for short-lived "call" sessions, each optionally
//! holding an order composed from a shared menu of purchasable items.
//!
//! The store keeps one invariant at its heart: an order's running total always
//! equals the sum of the prices of the items currently in it, and every
//! multi-step mutation (catalog lookup plus order change) either happens in
//! full or leaves the state untouched.

pub mod catalog;
pub mod laws;
pub mod order;
pub mod registry;
pub mod store;
pub mod types;
