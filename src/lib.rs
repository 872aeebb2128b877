//! An authentication gateway's verified core: the HTTP error taxonomy, the
//! classification of the identity provider's replies, the login decision and
//! the event consumer's state machine.

pub mod error;
pub mod models;
pub mod gateway;
pub mod consumer;
pub mod broker;
