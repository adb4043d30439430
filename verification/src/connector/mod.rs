//! Abstractions over a server connection, and an in-memory implementation of them.

pub mod mock;
pub mod traits;
pub mod batch;
