//! Modules of functions.

pub mod module;
