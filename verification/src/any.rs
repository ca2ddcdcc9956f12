//! Dynamically typed values.

use crate::type_index::K_TVM_FFI_NONE;
use vstd::prelude::*;

verus! {

/// A dynamically typed value: a type index, and an integer or the address of an
/// object.
#[derive(Clone, Copy, PartialEq, Eq, Structural, Debug)]
pub struct TVMFFIAny {
    pub type_index: i32,
    pub small_str_len: u32,
    pub v_int64: i64,
    pub v_obj: usize,
}

impl TVMFFIAny {
    pub open spec fn none() -> TVMFFIAny {
        TVMFFIAny { type_index: K_TVM_FFI_NONE, small_str_len: 0, v_int64: 0, v_obj: 0 }
    }

    pub open spec fn integer(type_index: i32, value: i64) -> TVMFFIAny {
        TVMFFIAny { type_index, small_str_len: 0, v_int64: value, v_obj: 0 }
    }

    pub open spec fn object(type_index: i32, address: usize) -> TVMFFIAny {
        TVMFFIAny { type_index, small_str_len: 0, v_int64: 0, v_obj: address }
    }

    /// The value none.
    pub fn new() -> (any: TVMFFIAny)
        ensures
            any == TVMFFIAny::none(),
    {
        TVMFFIAny { type_index: K_TVM_FFI_NONE, small_str_len: 0, v_int64: 0, v_obj: 0 }
    }

    pub fn from_int(type_index: i32, value: i64) -> (any: TVMFFIAny)
        ensures
            any == TVMFFIAny::integer(type_index, value),
    {
        TVMFFIAny { type_index, small_str_len: 0, v_int64: value, v_obj: 0 }
    }

    pub fn from_object(type_index: i32, address: usize) -> (any: TVMFFIAny)
        ensures
            any == TVMFFIAny::object(type_index, address),
    {
        TVMFFIAny { type_index, small_str_len: 0, v_int64: 0, v_obj: address }
    }
}

/// A value that owns the object it refers to, if it refers to one.
pub struct Any {
    pub data: TVMFFIAny,
}

/// A value that borrows the object it refers to, if it refers to one.
#[derive(Clone, Copy, PartialEq, Eq, Structural, Debug)]
pub struct AnyView {
    pub data: TVMFFIAny,
}

impl Any {
    pub fn new() -> (any: Any)
        ensures
            any.data == TVMFFIAny::none(),
    {
        Any { data: TVMFFIAny::new() }
    }

    pub fn type_index(&self) -> (index: i32)
        ensures
            index == self.data.type_index,
    {
        self.data.type_index
    }

    /// Takes over what a raw value owns.
    pub fn from_raw_ffi_any(data: TVMFFIAny) -> (any: Any)
        ensures
            any.data == data,
    {
        Any { data }
    }

    /// Gives away what the value owns.
    pub fn into_raw_ffi_any(this: Any) -> (data: TVMFFIAny)
        ensures
            data == this.data,
    {
        this.data
    }

    /// A view of the value.
    pub fn view(&self) -> (view: AnyView)
        ensures
            view.data == self.data,
    {
        AnyView { data: self.data }
    }
}

impl AnyView {
    pub fn new() -> (view: AnyView)
        ensures
            view.data == TVMFFIAny::none(),
    {
        AnyView { data: TVMFFIAny::new() }
    }

    pub fn type_index(&self) -> (index: i32)
        ensures
            index == self.data.type_index,
    {
        self.data.type_index
    }
}

} // verus!
