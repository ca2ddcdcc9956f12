//! Indices of the built-in types.

use vstd::prelude::*;

verus! {

pub const K_TVM_FFI_NONE: i32 = 0;

pub const K_TVM_FFI_INT: i32 = 1;

pub const K_TVM_FFI_BOOL: i32 = 2;

/// Every object type has this index or a larger one.
pub const K_TVM_FFI_STATIC_OBJECT_BEGIN: i32 = 64;

pub const K_TVM_FFI_OBJECT: i32 = 64;

pub const K_TVM_FFI_FUNCTION: i32 = 68;

pub const K_TVM_FFI_TENSOR: i32 = 70;

pub const K_TVM_FFI_MODULE: i32 = 73;

} // verus!
