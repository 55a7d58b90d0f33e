//! The ingestion service and the consumer pipeline.
pub mod extractor;
pub mod listener;
pub mod processor;
