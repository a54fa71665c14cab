//! The connection entity and the registry that owns the connections.

pub mod connection;
pub mod connection_manager;
