//! Linting of environment files against their example files.
//!
//! The library works on plain values: the text of an environment file, the
//! text of its example file and the directory they belong to. Reading the
//! files and printing the findings is left to the caller.

pub mod check;
pub mod keys;
pub mod run;
pub mod text;
