//! Ticketed-event management: an event registry with capacity-limited ticket
//! tiers and attendee registration, a payment escrow ledger, a ticket ledger
//! with transfer and check-in, and a registry of deployed event instances.
//!
//! Each component is a record store whose operations validate against the
//! current records and commit all of their writes together, or fail and leave
//! the store untouched. Caller authentication, ledger time, fund transfers and
//! durable persistence belong to the host; the operations here receive their
//! outcomes as plain values.
pub mod identity;
pub mod table;
pub mod event_types;
pub mod event_storage;
pub mod event_registry;
pub mod payments;
pub mod ticket;
pub mod factory;
pub mod event_laws;
