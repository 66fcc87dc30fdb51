//! The schema language: what a schema text holds, and the rules that read
//! it.
pub mod ast;
pub mod error;
pub mod grammar;
