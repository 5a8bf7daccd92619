//! Concatenate text sources, optionally numbering every line or every
//! non-blank line.

pub mod config;
pub mod emit;
pub mod laws;
pub mod render;
