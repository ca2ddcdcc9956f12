//! What the macros of the interface parse and expand to.

pub mod arm_order;
pub mod derivation;
pub mod match_any;
pub mod object_macros;
pub mod reader;
pub mod syntax;
pub mod template;
pub mod templates;
pub mod tokens;
