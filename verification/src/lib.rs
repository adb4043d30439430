//! Verified core of an OPC DA client: request scheduling, connection pooling,
//! tag read/write result assembly, address-space browsing and the state machine
//! of the interactive terminal front end.

pub mod security;
pub mod text;
pub mod discovery;
pub mod error;
pub mod types;
pub mod variant;
pub mod tui;
pub mod connector;
pub mod builder;
pub mod catalog;
pub mod clock;
pub mod collector;
pub mod worker;
