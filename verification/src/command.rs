//! Commands that change the registry and can be taken back, and the history
//! that keeps them.

pub mod command;
pub mod command_manager;
pub mod laws;
