//! Wire connections between terminals, a registry that keeps them free of
//! duplicates, and an undo/redo history of the commands that change it.

pub mod command;
pub mod config;
pub mod models;
pub mod utils;
