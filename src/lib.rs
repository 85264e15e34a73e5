//! Paginated listing and multipart upload on top of an S3 client.
//!
//! The library holds the decisions: which page to ask for next, which
//! record to hand out, how to cut a source into parts and when to
//! complete or abort a multipart upload. The calls to the storage
//! service are made by the caller, who hands each answer back.

pub mod error;
pub mod iter;
pub mod listing;
pub mod plan;
pub mod upload;
pub mod client_builder;
