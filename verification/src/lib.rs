//! Core of a session-authenticated task and time-tracking service.
//!
//! Accounts carry a bcrypt-hashed password; a login issues a random session
//! token that replaces any earlier session of the same account; tasks and
//! events are created and read only under their owner's identity; a task can
//! be fetched together with all of its events.

pub mod api;
pub mod credentials;
pub mod errors;
pub mod laws;
pub mod models;
pub mod store;
