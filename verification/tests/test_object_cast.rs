use tvm_ffi::collections::tensor::{CPUNDAlloc, Tensor, TensorStore};
use tvm_ffi::dtype::Float32;
use tvm_ffi::error::TYPE_ERROR;
use tvm_ffi::extra::module::Module;
use tvm_ffi::host_memory::HostMemory;
use tvm_ffi::object::arc::ObjectArc;
use tvm_ffi::object::heap::ObjectHeap;
use tvm_ffi::object::refs::{ObjectRef, ObjectRefCast, ObjectRefCore, ObjectRefIdentity};
use tvm_ffi::object::Object;
use tvm_ffi::type_index::{K_TVM_FFI_MODULE, K_TVM_FFI_OBJECT, K_TVM_FFI_TENSOR};
use tvm_ffi::type_table::{is_instance_of, is_instance_of_index, TypeInfo, TypeTable};

fn entry(type_index: i32, type_key: &str, ancestors: &[i32]) -> Option<TypeInfo> {
    Some(TypeInfo {
        type_index,
        type_depth: ancestors.len() as i32,
        type_key: type_key.to_string(),
        ancestors: ancestors.iter().map(|index| Some(*index)).collect(),
        fields: Vec::new(),
        methods: Vec::new(),
        total_size: None,
    })
}

fn type_table() -> TypeTable {
    let mut types: Vec<Option<TypeInfo>> = (0..130).map(|_| None).collect();
    types[0] = entry(0, "None", &[]);
    types[1] = entry(1, "int", &[]);
    types[K_TVM_FFI_OBJECT as usize] = entry(K_TVM_FFI_OBJECT, "ffi.Object", &[]);
    for (index, key) in [(K_TVM_FFI_TENSOR, "ffi.Tensor"), (K_TVM_FFI_MODULE, "ffi.Module")] {
        types[index as usize] = entry(index, key, &[K_TVM_FFI_OBJECT]);
    }
    types[128] = entry(128, "testing.Base", &[K_TVM_FFI_OBJECT]);
    types[129] = entry(129, "testing.Derived", &[K_TVM_FFI_OBJECT, 128]);
    TypeTable {
        types,
        columns: Vec::new(),
    }
}

fn erase<T: ObjectRefCore>(value: T) -> ObjectRef {
    let address = ObjectArc::into_raw(T::into_data(value));
    ObjectRef::from_data(ObjectArc::<Object>::from_raw(address))
}

#[test]
fn casts_object_refs_using_the_runtime_type() {
    let types = type_table();
    let mut heap = ObjectHeap::new();
    let mut tensors: TensorStore<CPUNDAlloc> = TensorStore::new();
    let mut memory = HostMemory::new();
    let zeros = [Float32 {
        bits: 0_f32.to_bits(),
    }; 6];
    let tensor = Tensor::from_slice(&mut heap, &mut tensors, &mut memory, &zeros, &[2, 3])
        .ok()
        .unwrap();
    let tensor_ptr = ObjectArc::as_raw(Tensor::data(&tensor));
    let object = erase(tensor);

    let tensor = object.try_cast::<Tensor>(&types, &mut heap).ok().unwrap();

    assert_eq!(ObjectArc::as_raw(Tensor::data(&tensor)), tensor_ptr);
    assert_eq!(ObjectArc::strong_count(&tensor.data, &heap), 1);

    // A downcast keeps the reference that it is taken from.
    let other = tensor.downcast::<ObjectRef>(&types, &mut heap).ok().unwrap();
    assert!(other.same_as(&tensor));
    assert_eq!(ObjectArc::strong_count(&tensor.data, &heap), 2);
    let error = other.downcast::<Module>(&types, &mut heap).err().unwrap();
    assert_eq!(error.kind(), TYPE_ERROR);
    assert_eq!(
        error.message(),
        "Cannot convert from type `ffi.Tensor` to `ffi.Module`"
    );
    assert_eq!(ObjectArc::strong_count(&tensor.data, &heap), 2);
    assert!(other.try_cast::<Tensor>(&types, &mut heap).is_ok());
    assert!(tensor.try_cast::<Module>(&types, &mut heap).is_err());
}

#[test]
fn instances_of_a_type_are_instances_of_its_ancestors() {
    let types = type_table();
    for (object, target, expected) in [
        (129, 129, true),
        (129, 128, true),
        (129, K_TVM_FFI_OBJECT, true),
        (128, 129, false),
        (K_TVM_FFI_TENSOR, K_TVM_FFI_OBJECT, true),
        (K_TVM_FFI_MODULE, K_TVM_FFI_TENSOR, false),
        (129, 1, false),
        (1, K_TVM_FFI_OBJECT, false),
        (1, 1, true),
        (500, 500, true),
        (500, 128, false),
        (129, 100, false),
        (-1, -1, true),
        (-1, 128, false),
    ] {
        assert_eq!(is_instance_of_index(&types, object, target), expected);
    }
    assert!(is_instance_of::<Object>(&types, 129));
    assert!(!is_instance_of::<Object>(&types, 0));
}
