//! An interpreter for a small tape language: the eight classic one-byte
//! instructions over a fixed tape of byte cells, and a counted loop written
//! with braces.

pub mod engine;
pub mod laws;
pub mod machine;
pub mod model;
pub mod symbol;
