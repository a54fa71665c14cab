//! Searching, JSON documents, files, display texts and export formats.

pub mod csv_exporting_strategy;
pub mod csv_writer;
pub mod file_handler;
pub mod json;
pub mod localizer;
pub mod search;
