//! A small message board: a store of messages kept as one collection, and the
//! envelope in which its results are answered.
pub mod handler;
