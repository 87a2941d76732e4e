//! A verified reader for MongoDB oplog entries.
//!
//! `document` models the BSON documents that the oplog hands out, `op` turns
//! such a document into an [`op::Op`], `errors` holds the error type, and
//! `transform` filters operations by namespace.
pub mod document;
pub mod float_bits;
pub mod errors;
pub mod op;
pub mod transform;
