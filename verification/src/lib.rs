//! A keyed record store over a document: an ordered sequence of records that
//! is read whole, changed in memory and written back whole.

pub mod database;
pub mod document;
pub mod error;
pub mod laws;
