//! Users, trees and nodes behind a graph of lazily resolved fields.
//!
//! The library decides; it never touches the store. Every operation is a
//! function from what the store has answered so far to the next thing to do:
//! a statement to run, an identifier to batch, or the finished result. The
//! caller owns the connection pool, runs the statements and hands the replies
//! back.

pub mod context;
pub mod errors;
pub mod graph;
pub mod ids;
pub mod models;
pub mod repository;
pub mod store;
pub mod time;
