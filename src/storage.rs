//! Where documents are kept.
pub mod local;
pub mod s3;
