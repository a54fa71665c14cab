//! Configuration that the rest of the library reads.

pub mod settings;
