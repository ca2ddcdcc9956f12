//! Containers that are shared across the function boundary.

pub mod descriptor;
pub mod tensor;
