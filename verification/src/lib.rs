//! Deletes comments that open with a keyword, and blocks between keyword markers, from program text.

pub mod batch;
pub mod comment;
pub mod config;
pub mod pattern;
pub mod processor;
pub mod text;
pub mod laws;
