use tvm_ffi::address_map::Layout;
use tvm_ffi::collections::descriptor::DLTensorExt;
use tvm_ffi::collections::tensor::{
    CPUAllocation, CPUNDAlloc, NDAllocator, Tensor, TensorObj, TensorObjFromNDAlloc, TensorStore,
};
use tvm_ffi::dlpack::{
    DLDataType, DLDevice, DLTensor, K_DL_CPU, K_DL_CUDA, K_DL_FLOAT, K_DL_INT,
};
use tvm_ffi::dtype::{AsDLDataType, Float32};
use tvm_ffi::error::{Error, RUNTIME_ERROR, TYPE_ERROR, VALUE_ERROR};
use tvm_ffi::host_memory::HostMemory;
use tvm_ffi::object::arc::ObjectArc;
use tvm_ffi::object::heap::ObjectHeap;
use tvm_ffi::object::refs::ObjectRefCore;
use tvm_ffi::object::Object;

struct World {
    heap: ObjectHeap,
    store: TensorStore<CPUNDAlloc>,
    memory: HostMemory,
}

impl World {
    fn new() -> Self {
        World {
            heap: ObjectHeap::new(),
            store: TensorStore::new(),
            memory: HostMemory::new(),
        }
    }

    fn from_slice<T: AsDLDataType>(&mut self, slice: &[T], shape: &[i64]) -> Result<Tensor, Error> {
        Tensor::from_slice(
            &mut self.heap,
            &mut self.store,
            &mut self.memory,
            slice,
            shape,
        )
    }

    /// Changes the descriptor of a tensor as native code may.
    fn edit(&mut self, tensor: &Tensor, change: impl FnOnce(&mut DLTensor)) {
        let address = tensor.data.ptr;
        let payload = self.store.get(address);
        let mut dltensor = copy_of(&payload.base.dltensor);
        let alloc = CPUNDAlloc {
            allocation: payload.alloc.allocation,
        };
        change(&mut dltensor);
        let _ = self.store.set(
            address,
            TensorObjFromNDAlloc {
                base: TensorObj {
                    object: Object::new(),
                    dltensor,
                },
                alloc,
            },
        );
    }

    fn descriptor(&self, tensor: &Tensor) -> &DLTensor {
        &ObjectArc::deref(&tensor.data, &self.store).base.dltensor
    }

    fn checked_data<T: AsDLDataType>(&self, tensor: &Tensor) -> Result<(usize, usize), Error> {
        self.descriptor(tensor).checked_data::<T>()
    }
}

fn copy_of(tensor: &DLTensor) -> DLTensor {
    DLTensor {
        data: tensor.data,
        device: tensor.device,
        ndim: tensor.ndim,
        dtype: tensor.dtype,
        shape: tensor.shape.clone(),
        strides: tensor.strides.clone(),
        byte_offset: tensor.byte_offset,
    }
}

fn floats(values: &[f32]) -> Vec<Float32> {
    let as_bits = |value: &f32| Float32 {
        bits: value.to_bits(),
    };
    values.iter().map(as_bits).collect()
}

fn error_of<T>(result: Result<T, Error>) -> Error {
    match result {
        Ok(_) => panic!("expected an error"),
        Err(error) => error,
    }
}

#[test]
fn slice_validation_rejects_malformed_dlpack_metadata_before_pointer_use() {
    let mut world = World::new();
    let tensor = world
        .from_slice(&floats(&[1.0, 2.0, 3.0, 4.0]), &[2, 2])
        .unwrap();
    let original = copy_of(world.descriptor(&tensor));
    let restore = |raw: &mut DLTensor| *raw = copy_of(&original);

    world.edit(&tensor, |raw| raw.ndim = -1);
    let error = error_of(world.checked_data::<Float32>(&tensor));
    assert_eq!(error.message(), "Tensor ndim must be non-negative");
    world.edit(&tensor, &restore);

    world.edit(&tensor, |raw| raw.shape = None);
    let error = error_of(world.checked_data::<Float32>(&tensor));
    assert_eq!(error.message(), "non-scalar Tensor has null shape");
    world.edit(&tensor, &restore);

    world.edit(&tensor, |raw| raw.shape.as_mut().unwrap()[0] = -1);
    let error = error_of(world.checked_data::<Float32>(&tensor));
    assert_eq!(error.message(), "Tensor dimensions must be non-negative");
    world.edit(&tensor, &restore);

    world.edit(&tensor, |raw| raw.strides.as_mut().unwrap()[0] += 1);
    let error = error_of(world.checked_data::<Float32>(&tensor));
    assert_eq!(error.kind(), RUNTIME_ERROR);
    assert_eq!(error.message(), "Tensor is not contiguous");
    world.edit(&tensor, &restore);

    world.edit(&tensor, |raw| raw.device.device_type = K_DL_CUDA);
    let error = error_of(world.checked_data::<Float32>(&tensor));
    assert_eq!(error.message(), "Tensor is not on CPU");
    world.edit(&tensor, &restore);

    world.edit(&tensor, |raw| raw.data = 0);
    let error = error_of(world.checked_data::<Float32>(&tensor));
    assert_eq!(error.message(), "non-empty Tensor has null data");
    world.edit(&tensor, &restore);

    world.edit(&tensor, |raw| raw.data += 1);
    let error = error_of(world.checked_data::<Float32>(&tensor));
    assert_eq!(
        error.message(),
        "Tensor data is not aligned for the requested Rust type"
    );
    world.edit(&tensor, &restore);

    world.edit(&tensor, |raw| raw.byte_offset = u64::MAX);
    let error = error_of(world.checked_data::<Float32>(&tensor));
    assert_eq!(
        error.message(),
        "Tensor byte offset plus size exceeds usize::MAX"
    );
    world.edit(&tensor, &restore);

    world.edit(&tensor, |raw| raw.dtype.code = u8::MAX);
    let error = error_of(world.checked_data::<Float32>(&tensor));
    assert_eq!(error.kind(), TYPE_ERROR);
    assert_eq!(
        error.message(),
        "Data type mismatch: expected code=2, bits=32, lanes=1; got code=255, bits=32, lanes=1"
    );
    world.edit(&tensor, &restore);

    assert!(world.checked_data::<Float32>(&tensor).is_ok());
}

#[test]
fn contiguity_ignores_singleton_strides_and_empty_tensor_strides() {
    let mut world = World::new();
    let singleton = world
        .from_slice(&floats(&[1.0, 2.0, 3.0, 4.0]), &[1, 4])
        .unwrap();
    world.edit(&singleton, |raw| raw.strides.as_mut().unwrap()[0] = 99);
    assert!(world.checked_data::<Float32>(&singleton).is_ok());

    let empty = world.from_slice::<Float32>(&[], &[0, 4]).unwrap();
    world.edit(&empty, |raw| {
        let strides = raw.strides.as_mut().unwrap();
        strides[0] = 123;
        strides[1] = -456;
    });
    assert!(world.checked_data::<Float32>(&empty).is_ok());
    world.edit(&empty, |raw| raw.shape.as_mut().unwrap()[1] = -1);
    assert!(!empty.is_contiguous(&world.store));
    assert!(world.checked_data::<Float32>(&empty).is_err());
}

#[test]
fn cpu_allocator_releases_the_recorded_layout_after_metadata_changes() {
    let mut memory = HostMemory::new();
    let mut tensor = DLTensor {
        data: 0,
        device: DLDevice::new(K_DL_CPU, 0),
        ndim: 1,
        dtype: DLDataType::new(K_DL_FLOAT, 32, 1),
        shape: Some(vec![2]),
        strides: None,
        byte_offset: 0,
    };
    let mut allocator = CPUNDAlloc::default();
    tensor.data = allocator.alloc_data(&mut memory, &tensor);
    assert!(allocator.allocation.is_some());
    assert_eq!(
        allocator.allocation,
        Some(CPUAllocation {
            address: tensor.data,
            layout: Layout { size: 8, align: 64 }
        })
    );
    assert_eq!(memory.read(tensor.data, 8), &[0; 8]);

    tensor.data = 0;
    tensor.ndim = -1;
    tensor.dtype.bits = 0;
    tensor.shape = None;
    allocator.free_data(&mut memory, &tensor);
    assert!(allocator.allocation.is_none());
}

#[test]
fn empty_tensor_construction_does_not_overflow_before_zero_dimension() {
    let mut world = World::new();
    let tensor = world.from_slice::<Float32>(&[], &[0, i64::MAX, 3]).unwrap();
    assert_eq!(tensor.numel(&world.store), 0);
    assert!(tensor.is_contiguous(&world.store));
    assert!(tensor
        .data_as_slice_unchecked::<Float32, CPUNDAlloc>(&world.store, &world.memory)
        .unwrap()
        .is_empty());
    // The product of the later dimensions cannot be held.
    assert_eq!(tensor.strides(&world.store), &[0, 3, 1]);
}

#[test]
fn tensors_give_back_the_values_they_were_made_of() {
    let mut world = World::new();
    let values: Vec<i64> = vec![i64::MIN, -1, 0, 1, 2, i64::MAX];
    let mut tensor = world.from_slice(&values, &[2, 3]).unwrap();
    assert_eq!(tensor.ndim(&world.store), 2);
    assert_eq!(tensor.shape(&world.store), &[2, 3]);
    assert_eq!(tensor.strides(&world.store), &[3, 1]);
    assert_eq!(tensor.numel(&world.store), 6);
    assert_eq!(tensor.dtype(&world.store), DLDataType::new(K_DL_INT, 64, 1));
    assert_eq!(tensor.device(&world.store), DLDevice::new(K_DL_CPU, 0));
    assert_eq!(tensor.data_ptr(&world.store) % CPUNDAlloc::min_align(), 0);
    assert_eq!(
        tensor
            .data_as_slice_unchecked::<i64, CPUNDAlloc>(&world.store, &world.memory)
            .unwrap(),
        values
    );

    let other: Vec<i64> = vec![6, 5, 4, 3, 2, 1];
    tensor
        .data_as_slice_mut_unchecked(&world.store, &mut world.memory, &other)
        .unwrap();
    assert_eq!(
        tensor
            .data_as_slice_unchecked::<i64, CPUNDAlloc>(&world.store, &world.memory)
            .unwrap(),
        other
    );
    // The object is followed by its dimensions and strides.
    assert_eq!(world.store.extra_items(tensor.data.ptr), &[2, 3, 3, 1]);
}

#[test]
fn elements_of_every_width_survive_storage() {
    let mut world = World::new();
    let bytes = world.from_slice(&[0_u8, 127, 255], &[3]).unwrap();
    let shorts = world.from_slice(&[i16::MIN, -1, i16::MAX], &[3]).unwrap();
    let words = world.from_slice(&[u32::MAX, 0, 7], &[3, 1]).unwrap();
    let signed = world.from_slice(&[-128_i8, 0, 127], &[1, 3]).unwrap();
    let memory = &world.memory;
    let store = &world.store;
    assert_eq!(
        bytes
            .data_as_slice_unchecked::<u8, CPUNDAlloc>(store, memory)
            .unwrap(),
        [0, 127, 255]
    );
    assert_eq!(
        shorts
            .data_as_slice_unchecked::<i16, CPUNDAlloc>(store, memory)
            .unwrap(),
        [i16::MIN, -1, i16::MAX]
    );
    assert_eq!(
        words
            .data_as_slice_unchecked::<u32, CPUNDAlloc>(store, memory)
            .unwrap(),
        [u32::MAX, 0, 7]
    );
    assert_eq!(
        signed
            .data_as_slice_unchecked::<i8, CPUNDAlloc>(store, memory)
            .unwrap(),
        [-128, 0, 127]
    );
}

#[test]
fn a_slice_of_the_wrong_length_leaves_nothing_behind() {
    let mut world = World::new();
    let error = error_of(world.from_slice(&[1_i32, 2, 3], &[2, 2]));
    assert_eq!(error.kind(), VALUE_ERROR);
    assert_eq!(error.message(), "Slice length mismatch");

    // The block that the tensor had is gone, so the next one stands alone.
    let tensor = world.from_slice(&[1_i32, 2, 3, 4], &[2, 2]).unwrap();
    assert!(tensor.is_defined());
    tensor.drop(&mut world.heap, &mut world.store, &mut world.memory);
}

#[test]
fn validation_reports_each_size_that_cannot_be_held() {
    let tensor = |shape: Vec<i64>, strides: Option<Vec<i64>>| DLTensor {
        data: 64,
        device: DLDevice::new(K_DL_CPU, 0),
        ndim: shape.len() as i32,
        dtype: DLDataType::new(K_DL_INT, 8, 1),
        shape: Some(shape),
        strides,
        byte_offset: 0,
    };
    let large = i64::MAX;
    assert_eq!(
        error_of(tensor(vec![large, large], None).checked_numel()).message(),
        "Tensor element count exceeds usize::MAX"
    );
    assert_eq!(
        error_of(tensor(vec![-3], None).checked_numel()).message(),
        "Tensor dimensions must be non-negative and fit usize"
    );
    assert_eq!(
        error_of(tensor(vec![2, large], Some(vec![large, 1])).checked_contiguous()).message(),
        "Tensor strides exceed i64::MAX"
    );
    // A wrong stride decides before the product overflows.
    assert_eq!(
        tensor(vec![2, large], Some(vec![large, 2]))
            .checked_contiguous()
            .ok(),
        Some(false)
    );
    assert_eq!(
        error_of(tensor(vec![large, 2], None).checked_data::<i8>()).message(),
        "Tensor byte size exceeds Rust slice limits"
    );
    let mut offset = tensor(vec![8], None);
    offset.byte_offset = isize::MAX as u64;
    assert_eq!(
        error_of(offset.checked_data::<i8>()).message(),
        "Tensor byte offset plus size exceeds Rust allocation limits"
    );
    let mut high = tensor(vec![8], None);
    high.data = usize::MAX;
    high.byte_offset = 1;
    assert_eq!(
        error_of(high.checked_data::<i8>()).message(),
        "Tensor data address overflows usize"
    );
    let mut offset = tensor(vec![8], None);
    offset.byte_offset = 16;
    assert_eq!(offset.checked_data::<i8>().ok(), Some((80, 8)));
}

#[test]
fn element_sizes_round_up_to_whole_bytes() {
    let tensor = |bits: u8, lanes: u16| DLTensor {
        data: 0,
        device: DLDevice::new(K_DL_CPU, 0),
        ndim: 0,
        dtype: DLDataType::new(K_DL_INT, bits, lanes),
        shape: None,
        strides: None,
        byte_offset: 0,
    };
    assert_eq!(tensor(1, 1).item_size(), 1);
    assert_eq!(tensor(4, 3).item_size(), 2);
    assert_eq!(tensor(32, 4).item_size(), 16);
    assert_eq!(tensor(255, 65535).item_size(), 2_088_929);
    assert_eq!(tensor(8, 1).numel(), 1);
}

#[test]
fn dropping_the_last_handle_frees_the_data() {
    let mut world = World::new();
    let tensor = world.from_slice(&[1_u8, 2, 3], &[3]).unwrap();
    let ptr = tensor.data.ptr;
    let shared = tensor.share(&mut world.heap);
    tensor.drop(&mut world.heap, &mut world.store, &mut world.memory);
    assert_eq!(
        shared
            .data_as_slice_unchecked::<u8, CPUNDAlloc>(&world.store, &world.memory)
            .unwrap(),
        [1, 2, 3]
    );
    shared.drop(&mut world.heap, &mut world.store, &mut world.memory);
    assert!(world.heap.header(ptr).is_none());
}

#[test]
fn writing_a_part_of_a_block_leaves_the_rest() {
    let mut world = World::new();
    let mut tensor = world.from_slice(&[1_u8, 2, 3, 4], &[4]).unwrap();
    let allocation = world.store.get(tensor.data.ptr).alloc.allocation.unwrap();
    assert_eq!(allocation.address, world.descriptor(&tensor).data);
    assert_eq!(allocation.layout.size, 4);
    world.edit(&tensor, |raw| {
        raw.shape = Some(vec![2]);
        raw.byte_offset = 1;
    });
    tensor
        .data_as_slice_mut_unchecked(&world.store, &mut world.memory, &[8_u8, 9])
        .unwrap();
    world.edit(&tensor, |raw| {
        raw.shape = Some(vec![4]);
        raw.byte_offset = 0;
    });
    assert_eq!(
        tensor
            .data_as_slice_unchecked::<u8, CPUNDAlloc>(&world.store, &world.memory)
            .unwrap(),
        [1, 8, 9, 4]
    );
}
