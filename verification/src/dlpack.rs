//! Tensor descriptors shared across the function boundary.

use vstd::prelude::*;

verus! {

/// Element type of a tensor: a type code, a bit width and a lane count.
#[derive(Clone, Copy, PartialEq, Eq, Structural, Debug)]
pub struct DLDataType {
    pub code: u8,
    pub bits: u8,
    pub lanes: u16,
}

impl DLDataType {
    pub fn new(code: u8, bits: u8, lanes: u16) -> (dtype: DLDataType)
        ensures
            dtype == (DLDataType { code, bits, lanes }),
    {
        DLDataType { code, bits, lanes }
    }
}

pub const K_DL_INT: u8 = 0;

pub const K_DL_UINT: u8 = 1;

pub const K_DL_FLOAT: u8 = 2;

/// Kinds of device that hold a tensor's data.
pub const K_DL_CPU: i32 = 1;

pub const K_DL_CUDA: i32 = 2;

/// A device: its kind and its ordinal.
#[derive(Clone, Copy, PartialEq, Eq, Structural, Debug)]
pub struct DLDevice {
    pub device_type: i32,
    pub device_id: i32,
}

impl DLDevice {
    pub fn new(device_type: i32, device_id: i32) -> (device: DLDevice)
        ensures
            device == (DLDevice { device_type, device_id }),
    {
        DLDevice { device_type, device_id }
    }
}

/// A tensor descriptor.
///
/// `data` is an address, with zero for null. `shape` and `strides` are the
/// arrays their pointers lead to, with `None` for null.
#[derive(Debug)]
pub struct DLTensor {
    pub data: usize,
    pub device: DLDevice,
    pub ndim: i32,
    pub dtype: DLDataType,
    pub shape: Option<Vec<i64>>,
    pub strides: Option<Vec<i64>>,
    pub byte_offset: u64,
}

impl DLTensor {
    /// Every non-null metadata pointer leads to at least `ndim` entries.
    pub open spec fn well_formed(&self) -> bool {
        &&& self.shape matches Some(shape) ==> self.ndim <= shape@.len()
        &&& self.strides matches Some(strides) ==> self.ndim <= strides@.len()
    }
}

} // verus!
