//! A verified core for the TVM foreign function interface.

pub mod address_map;
pub mod any;
pub mod collections;
pub mod dlpack;
pub mod dtype;
pub mod error;
pub mod extra;
pub mod function;
pub mod function_internal;
pub mod host_memory;
pub mod macros;
pub mod match_any;
pub mod match_any_internal;
pub mod messages;
pub mod object;
pub mod scoped;
pub mod text;
pub mod type_index;
pub mod type_table;
pub mod type_traits;
pub mod typed_expr;
