//! What the library promises, operation by operation.
//!
//! Each law here says what a result must satisfy in terms of what went in, or how two results
//! relate, and writes out the texts and the values that matter. The definitions that the contracts
//! use say how a result is made; these laws say what it is for.
pub mod cli;
pub mod config;
pub mod daemon;
pub mod project_key;
pub mod run;
pub mod shell;
pub mod ssh;
pub mod text;
pub mod wire;
