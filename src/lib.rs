//! An in-memory store of todo records keyed by a numeric id.
//!
//! Ids are handed out by a monotonic counter: each new record gets one more
//! than the largest id ever assigned, starting from 1, so an id is never
//! reused after its record has been removed. (Numbering records by their
//! position instead would hand a removed record's id to a later one.)
pub mod laws;
pub mod model;
pub mod store;
