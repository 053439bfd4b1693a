//! The sites this crate knows how to read.

pub mod bbc;
pub mod error;
pub mod wikipedia;
