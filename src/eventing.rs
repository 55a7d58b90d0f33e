//! Handing documents to the message broker.
pub mod broker;
