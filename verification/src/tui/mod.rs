//! State machine of the interactive terminal front end: screens, navigation, tag
//! search and selection, status messages, and the work it asks the host loop to run.

pub mod app;
pub mod state;
