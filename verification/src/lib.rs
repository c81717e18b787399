//! Owner-scoped recurring-schedule records over an append-only,
//! content-addressed store model.
//!
//! Records are immutable; every change appends a new record plus edges in an
//! append-only link index, where stale edges are tombstoned rather than
//! removed.  The modules below hold the record types and their legacy UI
//! coercions, the store model (content store, link index, path index), the
//! create / update / list-all handlers that reconcile the two index families,
//! and the proved laws about them.

pub mod handlers;
pub mod laws;
pub mod path;
pub mod store;
pub mod types;
pub mod ui;
