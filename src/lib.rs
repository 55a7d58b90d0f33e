//! Ingestion, staging and brokering of data objects with provenance and
//! consent metadata.
use vstd::prelude::*;

pub mod config;
pub mod decimal;
pub mod doc;
pub mod errors;
pub mod eventing;
pub mod provenance;
pub mod security;
pub mod service;
pub mod storage;
pub mod text;

verus! {

/// Separates the components of a document identity and of a revision file name.
pub const DELIMITER: &'static str = "~";

} // verus!
