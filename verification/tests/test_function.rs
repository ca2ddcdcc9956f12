use std::cell::{Cell, RefCell};

use tvm_ffi::any::{Any, AnyView, TVMFFIAny};
use tvm_ffi::collections::tensor::{CPUNDAlloc, Tensor, TensorStore};
use tvm_ffi::dtype::Float32;
use tvm_ffi::error::{
    Error, ATTRIBUTE_ERROR, RUNTIME_ERROR, TYPE_ERROR, VALUE_ERROR,
};
use tvm_ffi::extra::module::{Module, ModuleObj};
use tvm_ffi::function::{
    get_kwargs_object, invoke_callback, invoke_typed_callback, pack_kwargs, CallbackStore,
    Function, FunctionObj,
};
use tvm_ffi::function_internal::holder::{ArgIntoRef, IntoArgHolder, IntoArgHolderTuple};
use tvm_ffi::function_internal::packed_args::TupleAsPackedArgs;
use tvm_ffi::function_internal::{
    call_packed_callable, contain, invoke_packed_c_abi, AsPackedCallable, CallReply,
    CallbackOutcome, PanicPayload,
};
use tvm_ffi::host_memory::HostMemory;
use tvm_ffi::object::arc::ObjectArc;
use tvm_ffi::object::heap::{ObjectHeap, ObjectStore};
use tvm_ffi::object::reflection::{get_object_field, try_from_any};
use tvm_ffi::object::refs::{ObjectRef, ObjectRefCore, ObjectRefIdentity};
use tvm_ffi::object::Object;
use tvm_ffi::scoped::{call_scoped_packed, ScopedStack};
use tvm_ffi::type_index::{
    K_TVM_FFI_FUNCTION, K_TVM_FFI_INT, K_TVM_FFI_MODULE, K_TVM_FFI_OBJECT, K_TVM_FFI_TENSOR,
};
use tvm_ffi::type_table::{MethodInfo, TypeAttrColumn, TypeInfo, TypeTable};
use tvm_ffi::type_traits::AnyCompatible;

fn type_info(type_index: i32, type_key: &str, ancestors: &[i32]) -> TypeInfo {
    TypeInfo {
        type_index,
        type_depth: ancestors.len() as i32,
        type_key: type_key.to_string(),
        ancestors: ancestors.iter().map(|index| Some(*index)).collect(),
        fields: Vec::new(),
        methods: Vec::new(),
        total_size: None,
    }
}

fn type_table() -> TypeTable {
    let mut types: Vec<Option<TypeInfo>> = Vec::new();
    for _ in 0..100 {
        types.push(None);
    }
    types[0] = Some(type_info(0, "None", &[]));
    types[K_TVM_FFI_INT as usize] = Some(type_info(K_TVM_FFI_INT, "int", &[]));
    for (index, key) in [
        (K_TVM_FFI_FUNCTION, "ffi.Function"),
        (K_TVM_FFI_TENSOR, "ffi.Tensor"),
        (K_TVM_FFI_MODULE, "ffi.Module"),
        (80, "testing.TestIntPair"),
    ] {
        types[index as usize] = Some(type_info(index, key, &[K_TVM_FFI_OBJECT]));
    }
    types[K_TVM_FFI_OBJECT as usize] = Some(type_info(K_TVM_FFI_OBJECT, "ffi.Object", &[]));
    TypeTable {
        types,
        columns: Vec::new(),
    }
}

fn raw(reply: CallReply) -> Result<TVMFFIAny, Error> {
    if reply.status == 0 {
        Ok(reply.result.unwrap())
    } else {
        Err(reply.raised.unwrap())
    }
}

fn integer(value: i64) -> AnyView {
    AnyView {
        data: TVMFFIAny::from_int(K_TVM_FFI_INT, value),
    }
}

fn any_int(value: i64) -> Any {
    Any {
        data: TVMFFIAny::from_int(K_TVM_FFI_INT, value),
    }
}

fn error_of<T>(result: Result<T, Error>) -> Error {
    match result {
        Ok(_) => panic!("expected an error"),
        Err(error) => error,
    }
}

struct World {
    heap: ObjectHeap,
    types: TypeTable,
}

impl World {
    fn new() -> Self {
        World {
            heap: ObjectHeap::new(),
            types: type_table(),
        }
    }

    fn to_i32(&mut self, any: Any) -> i32 {
        try_from_any::<i32>(any, &self.types, &mut self.heap).unwrap()
    }
}

/// Runs a callback that does not panic.
fn run<F: Fn(&[AnyView], ObjectHeap) -> (ObjectHeap, Result<Any, Error>)>(
    callback: &F,
    args: &[AnyView],
    heap: ObjectHeap,
) -> (ObjectHeap, CallbackOutcome) {
    let (heap, result) = callback(args, heap);
    (heap, CallbackOutcome::Returned(result))
}

/// The native call of a packed callback.
fn call_native<F: Fn(&[AnyView], ObjectHeap) -> (ObjectHeap, Result<Any, Error>)>(
    store: &CallbackStore<F>,
    handle: usize,
    args: &[AnyView],
    num_args: i32,
    heap: ObjectHeap,
) -> (ObjectHeap, Result<TVMFFIAny, Error>) {
    let mut heap = heap;
    let reply = invoke_callback(store, handle, Some(args), num_args, true, &mut heap, run);
    (heap, raw(reply))
}

/// The native call of a typed callback.
fn call_native_typed<F: AsPackedCallable<I, O>, I, O>(
    store: &CallbackStore<F>,
    types: &TypeTable,
    handle: usize,
    args: &[AnyView],
    num_args: i32,
    heap: ObjectHeap,
) -> (ObjectHeap, Result<TVMFFIAny, Error>) {
    let mut heap = heap;
    let reply = invoke_typed_callback(store, handle, Some(args), num_args, true, types, &mut heap);
    (heap, raw(reply))
}

fn call<F: Fn(&[AnyView], ObjectHeap) -> (ObjectHeap, Result<Any, Error>)>(
    world: &mut World,
    store: &CallbackStore<F>,
    function: &Function,
    args: &[AnyView],
) -> Result<Any, Error> {
    function.call_packed(args, &mut world.heap, |handle, args, num_args, heap| {
        call_native(store, handle, args, num_args, heap)
    })
}

/// Returns its argument. The view does not own the object it refers to, so a
/// returned object is counted.
fn echo(args: &[AnyView], heap: ObjectHeap) -> (ObjectHeap, Result<Any, Error>) {
    let mut heap = heap;
    if args[0].data.v_obj == 0 {
        return (heap, Ok(Any { data: args[0].data }));
    }
    let shared = ObjectRef::copy_from_any_view_after_check(&args[0].data, &mut heap);
    let returned = Any {
        data: ObjectRef::move_to_any(shared, &heap),
    };
    (heap, Ok(returned))
}

/// The global function under this name, which the registry shares.
fn get_global(world: &mut World, name: &str, registered: &Function) -> Function {
    Function::get_global(name, &mut world.heap, |found, heap| {
        assert_eq!(found, name);
        let mut heap = heap;
        let shared = registered.share(&mut heap);
        (heap, Ok(ObjectArc::into_raw(shared.data)))
    })
    .ok()
    .unwrap()
}

#[test]
fn test_function_get_global_required() {
    let mut world = World::new();
    let mut store = CallbackStore::new();
    let registered = Function::from_packed(&mut world.heap, &mut store, echo);
    let fecho = get_global(&mut world, "testing.echo", &registered);
    let result = call(&mut world, &store, &fecho, &[integer(1)]).ok().unwrap();
    assert_eq!(world.to_i32(result), 1);

    let error = error_of(Function::get_global(
        "testing.missing",
        &mut world.heap,
        |_, heap| (heap, Ok(0)),
    ));
    assert_eq!(error.kind(), RUNTIME_ERROR);
    assert_eq!(error.message(), "Function testing.missing not found");
}

#[test]
fn test_function_from_type_method_uses_checked_method_and_attr_tables() {
    let mut world = World::new();
    let type_index = 80;
    let mut inits = CallbackStore::new();
    let pair = Cell::new((0_i64, 0_i64));
    let init = Function::from_packed(&mut world.heap, &mut inits, |args: &[AnyView], heap| {
        pair.set((args[0].data.v_int64, args[1].data.v_int64));
        let made = Any {
            data: TVMFFIAny::from_object(80, 8),
        };
        (heap, Ok(made))
    });
    let mut sums = CallbackStore::new();
    let sum = Function::from_packed(&mut world.heap, &mut sums, |args: &[AnyView], heap| {
        assert_eq!(args[0].data, TVMFFIAny::from_object(80, 8));
        (heap, Ok(any_int(pair.get().0 + pair.get().1)))
    });
    // Constructors are mirrored into a TypeAttrColumn; ordinary reflected
    // methods live in the TypeInfo method table.
    let info = world.types.types[type_index as usize].as_mut().unwrap();
    info.methods.push(MethodInfo {
        name: "sum".to_string(),
        method: Function::copy_to_any_view(&sum, &world.heap),
    });
    info.methods.push(MethodInfo {
        name: "broken".to_string(),
        method: TVMFFIAny::from_int(K_TVM_FFI_INT, 1),
    });
    world.types.columns.push(TypeAttrColumn {
        name: "__ffi_init__".to_string(),
        begin_index: 79,
        data: vec![
            TVMFFIAny::new(),
            Function::copy_to_any_view(&init, &world.heap),
            TVMFFIAny::from_int(K_TVM_FFI_INT, 1),
        ],
    });

    let found =
        Function::from_type_method(&mut world.heap, &world.types, type_index, "__ffi_init__")
            .ok()
            .unwrap();
    assert_eq!(ObjectArc::strong_count(&found.data, &world.heap), 2);
    let left = 3_i64;
    let right = 4_i64;
    let object = call(&mut world, &inits, &found, &[integer(left), integer(right)]).ok().unwrap();
    let found = Function::from_type_method(&mut world.heap, &world.types, type_index, "sum")
        .ok()
        .unwrap();
    let result = call(&mut world, &sums, &found, &[object.view()]).ok().unwrap();
    assert_eq!(
        try_from_any::<i64>(result, &world.types, &mut world.heap).ok(),
        Some(7)
    );

    let mut lookup = |type_index, name: &str| {
        error_of(Function::from_type_method(
            &mut world.heap,
            &world.types,
            type_index,
            name,
        ))
    };
    let error = lookup(type_index, "broken");
    assert_eq!(error.kind(), TYPE_ERROR);
    assert_eq!(
        error.message(),
        "method `broken` on type_index `80` is not a Function"
    );
    // None in the column means that there is no attribute.
    let error = lookup(type_index, "missing");
    assert_eq!(
        error.message(),
        "method `missing` not found on type_index `80`"
    );
    let error = lookup(99, "sum");
    assert_eq!(error.message(), "no type info for type_index `99`");
}

#[test]
fn methods_take_precedence_over_attributes() {
    let mut world = World::new();
    let mut store: ObjectStore<FunctionObj, ()> = ObjectStore::new();
    let method = ObjectArc::new(&mut world.heap, &mut store, FunctionObj::new());
    let attribute = ObjectArc::new(&mut world.heap, &mut store, FunctionObj::new());
    let method = Function::from_data(method);
    let attribute = Function::from_data(attribute);
    world.types.columns.push(TypeAttrColumn {
        name: "run".to_string(),
        begin_index: 80,
        data: vec![Function::copy_to_any_view(&attribute, &world.heap)],
    });
    let mut cell: Option<Function> = None;
    let found = Function::from_type_method(&mut world.heap, &world.types, 80, "run")
        .ok()
        .unwrap();
    assert!(found.same_as(&attribute));
    world.types.types[80].as_mut().unwrap().methods.push(MethodInfo {
        name: "run".to_string(),
        method: Function::copy_to_any_view(&method, &world.heap),
    });
    let found = Function::from_type_method_cached(
        &mut cell,
        &mut world.heap,
        &world.types,
        80,
        "run",
    )
    .ok()
    .unwrap();
    assert!(found.same_as(&method));
    assert_eq!(ObjectArc::strong_count(&method.data, &world.heap), 3);
    // What was found once is found again, whatever the table says.
    world.types.types[80].as_mut().unwrap().methods.clear();
    let again = Function::from_type_method_cached(
        &mut cell,
        &mut world.heap,
        &world.types,
        80,
        "run",
    )
    .ok()
    .unwrap();
    assert!(again.same_as(&method));

    world.types.columns[0].data[0] = TVMFFIAny::from_int(K_TVM_FFI_INT, 5);
    let error = error_of(Function::from_type_method(
        &mut world.heap,
        &world.types,
        80,
        "run",
    ));
    assert_eq!(
        error.message(),
        "type attribute `run` on type_index `80` is not a Function"
    );
}

#[test]
fn test_register_global_rejects_undefined_function() {
    let mut heap = ObjectHeap::new();
    let function = Function::from_data(ObjectArc::<FunctionObj>::from_raw(0));
    let error = error_of(Function::register_global(
        &mut heap,
        "testing.undefined_function",
        function,
        |_, _, _, _| panic!("an undefined Function must not enter the C++ global registry"),
    ));
    assert_eq!(error.kind(), VALUE_ERROR);
    assert_eq!(
        error.message(),
        "Cannot register undefined Function testing.undefined_function"
    );
}

#[test]
fn registration_hands_the_function_over_without_override() {
    let mut heap = ObjectHeap::new();
    let mut store: ObjectStore<FunctionObj, ()> = ObjectStore::new();
    let function = Function::from_data(ObjectArc::new(&mut heap, &mut store, FunctionObj::new()));
    let address = function.data.ptr;
    let kept = function.share(&mut heap);
    let result = Function::register_global(
        &mut heap,
        "testing.kept",
        function,
        |name, handle, can_override, heap| {
            assert_eq!((name, handle, can_override), ("testing.kept", address, 0));
            // The registry takes a reference of its own.
            let mut heap = heap;
            let registered = kept.share(&mut heap);
            assert_eq!(ObjectArc::into_raw(registered.data), address);
            (heap, Ok(()))
        },
    );
    assert!(result.is_ok());
    assert_eq!(ObjectArc::strong_count(&kept.data, &heap), 2);
}

#[test]
fn test_function_from_packed() {
    let mut world = World::new();
    let value = 2;
    let v2 = 4;
    let mut store = CallbackStore::new();
    let check_and_add_value =
        Function::from_packed(&mut world.heap, &mut store, move |args: &[AnyView], heap| {
            if args.len() != 1 {
                let message = format!("Expected 1 argument, got {}", args.len());
                return (heap, Err(Error::new(VALUE_ERROR, &message)));
            }
            let v0 = args[0].data.v_int64;
            if v0 != value {
                let message = format!("Expected {}, got {}", value, v0);
                return (heap, Err(Error::new(VALUE_ERROR, &message)));
            }
            (heap, Ok(any_int(v0 + v2)))
        });
    let result = call(&mut world, &store, &check_and_add_value, &[integer(value)]).ok().unwrap();
    assert_eq!(world.to_i32(result), 6);
    assert_eq!(
        error_of(call(&mut world, &store, &check_and_add_value, &[])).message(),
        "Expected 1 argument, got 0"
    );
    assert_eq!(
        error_of(call(&mut world, &store, &check_and_add_value, &[integer(3)])).message(),
        "Expected 2, got 3"
    );
    assert_eq!(
        world.heap.header(check_and_add_value.data.ptr).unwrap().type_index,
        K_TVM_FFI_FUNCTION
    );
}

#[test]
fn test_function_from_packed_accepts_zero_args() {
    let mut world = World::new();
    let mut store = CallbackStore::new();
    let function = Function::from_packed(&mut world.heap, &mut store, |args: &[AnyView], heap| {
        assert!(args.is_empty());
        (heap, Ok(any_int(7)))
    });
    let result = call(&mut world, &store, &function, &[]).ok().unwrap();
    assert_eq!(world.to_i32(result), 7);
}

#[test]
fn test_function_call_packed_with_kwargs_encodes_protocol() {
    let mut world = World::new();
    let mut sentinels: ObjectStore<Object, ()> = ObjectStore::new();
    let sentinel = ObjectRef::from_data(ObjectArc::new(
        &mut world.heap,
        &mut sentinels,
        Object::new(),
    ));
    let kwargs = ObjectRef::copy_to_any_view(&sentinel, &world.heap);
    // Texts are passed by their place in a list.
    let texts = RefCell::new(Vec::<String>::new());
    let text = |text: &str| {
        texts.borrow_mut().push(text.to_string());
        AnyView {
            data: TVMFFIAny::from_int(65, texts.borrow().len() as i64 - 1),
        }
    };
    let right = text("right");
    let text_of = |view: AnyView| texts.borrow()[view.data.v_int64 as usize].clone();
    let mut store = CallbackStore::new();
    let function = Function::from_packed(&mut world.heap, &mut store, |args: &[AnyView], heap| {
        assert_eq!(args.len(), 6);
        assert_eq!(args[0].data.v_int64, 7);
        assert_eq!(args[1].data, kwargs);
        assert_eq!(text_of(args[2]), "left");
        assert_eq!(args[3].data.v_int64, 11);
        assert_eq!(text_of(args[4]), "name");
        assert_eq!(text_of(args[5]), "right");
        (heap, Ok(any_int(23)))
    });

    let positional = 7;
    let left = 11;
    let result = function
        .call_packed_with_kwargs(
            &[integer(positional)],
            &[("left", integer(left)), ("name", right)],
            &mut world.heap,
            |heap| {
                let mut heap = heap;
                let shared = sentinel.share(&mut heap);
                (heap, Ok(shared))
            },
            text,
            |handle, args, num_args, heap| {
                // The sentinel is alive while the call lasts.
                assert_eq!(ObjectArc::strong_count(&sentinel.data, &heap), 2);
                call_native(&store, handle, args, num_args, heap)
            },
        )
        .ok()
        .unwrap();
    assert_eq!(world.to_i32(result), 23);

    // An error on the way to the sentinel ends the call.
    assert_eq!(ObjectArc::strong_count(&sentinel.data, &world.heap), 1);
    let error = error_of(function.call_packed_with_kwargs(
        &[],
        &[],
        &mut world.heap,
        |heap| (heap, Err(Error::new(RUNTIME_ERROR, "no sentinel"))),
        |_| AnyView::new(),
        |_, _, _, _| panic!("the function must not be called"),
    ));
    assert_eq!(error.message(), "no sentinel");
}

#[test]
fn the_sentinel_stands_between_positional_and_keyword_arguments() {
    let key = |text: &str| integer(text.len() as i64);
    assert_eq!(
        pack_kwargs(&[integer(1), integer(2)], integer(-1), &[("a", integer(3)), ("bc", integer(4))], key),
        vec![integer(1), integer(2), integer(-1), integer(1), integer(3), integer(2), integer(4)]
    );
    assert_eq!(pack_kwargs(&[], integer(-1), &[], key), vec![integer(-1)]);
}

#[test]
fn the_sentinel_is_fetched_once() {
    let mut world = World::new();
    let mut functions: ObjectStore<FunctionObj, ()> = ObjectStore::new();
    let getter = Function::from_data(ObjectArc::new(
        &mut world.heap,
        &mut functions,
        FunctionObj::new(),
    ));
    let registered = getter.share(&mut world.heap);
    let mut sentinels: ObjectStore<Object, ()> = ObjectStore::new();
    let sentinel = ObjectRef::from_data(ObjectArc::new(
        &mut world.heap,
        &mut sentinels,
        Object::new(),
    ));
    let mut cell = None;
    let handle = registered.data.ptr;
    let first = get_kwargs_object(
        &mut cell,
        &mut world.heap,
        &world.types,
        |name, heap| {
            assert_eq!(name, "ffi.GetKwargsObject");
            (heap, Ok(handle))
        },
        |function, args, num_args, heap| {
            assert_eq!((function, args.len(), num_args), (handle, 0, 0));
            // What is returned is a reference of its own.
            let mut heap = heap;
            let returned = ObjectRef::move_to_any(sentinel.share(&mut heap), &heap);
            (heap, Ok(returned))
        },
    )
    .ok()
    .unwrap();
    assert!(first.same_as(&sentinel));
    // The looked up function was given up again, and the sentinel is shared
    // with the cell.
    assert_eq!(ObjectArc::strong_count(&getter.data, &world.heap), 1);
    assert_eq!(ObjectArc::strong_count(&sentinel.data, &world.heap), 3);
    let second = get_kwargs_object(
        &mut cell,
        &mut world.heap,
        &world.types,
        |_, _| panic!("the sentinel is known"),
        |_, _, _, _| panic!("the sentinel is known"),
    )
    .ok()
    .unwrap();
    assert!(second.same_as(&sentinel));

    let mut other = None;
    let registered = getter.share(&mut world.heap);
    let error = error_of(get_kwargs_object(
        &mut other,
        &mut world.heap,
        &world.types,
        |_, heap| (heap, Ok(registered.data.ptr)),
        |_, _, _, heap| (heap, Ok(TVMFFIAny::from_int(K_TVM_FFI_INT, 1))),
    ));
    assert_eq!(error.kind(), TYPE_ERROR);
    assert_eq!(
        error.message(),
        "Cannot convert from type `int` to `ffi.Object`"
    );
    assert!(other.is_none());
}

#[test]
fn test_function_from_packed_contains_panics() {
    let mut world = World::new();
    let mut store = CallbackStore::new();
    let function =
        Function::from_packed(&mut world.heap, &mut store, |_: &[AnyView], heap| (heap, Ok(any_int(0))));
    let error = error_of(function.call_packed(
        &[],
        &mut world.heap,
        |handle, args, num_args, heap| {
            let panics = |_: &_, _: &[AnyView], heap| {
                let payload = PanicPayload::Text("callback failed".to_string());
                (heap, CallbackOutcome::Panicked(payload))
            };
            let mut heap = heap;
            let reply =
                invoke_callback(&store, handle, Some(args), num_args, true, &mut heap, panics);
            (heap, raw(reply))
        },
    ));
    assert_eq!(error.kind(), RUNTIME_ERROR);
    assert_eq!(error.message(), "callback failed");
}

#[test]
fn test_function_from_packed_contains_panicking_payload_destructors() {
    let mut world = World::new();
    let mut store = CallbackStore::new();
    let function =
        Function::from_packed(&mut world.heap, &mut store, |_: &[AnyView], heap| (heap, Ok(any_int(0))));
    let error = error_of(function.call_packed(
        &[],
        &mut world.heap,
        |handle, args, num_args, heap| {
            let panics =
                |_: &_, _: &[AnyView], heap| (heap, CallbackOutcome::Panicked(PanicPayload::Other));
            let mut heap = heap;
            let reply =
                invoke_callback(&store, handle, Some(args), num_args, true, &mut heap, panics);
            (heap, raw(reply))
        },
    ));
    assert_eq!(error.kind(), RUNTIME_ERROR);
    assert_eq!(error.message(), "Rust callback panicked");
}

struct Scopes {
    heap: ObjectHeap,
    functions: ObjectStore<FunctionObj, ()>,
}

impl Scopes {
    fn new() -> Self {
        Scopes {
            heap: ObjectHeap::new(),
            functions: ObjectStore::new(),
        }
    }

    fn function(&mut self) -> Function {
        Function::from_data(ObjectArc::new(
            &mut self.heap,
            &mut self.functions,
            FunctionObj::new(),
        ))
    }
}

/// The native runtime hands out a function that was made before.
fn made(
    function: Function,
) -> impl FnOnce(usize, ObjectHeap) -> (ObjectHeap, Result<usize, Error>) {
    move |_, heap| (heap, Ok(ObjectArc::into_raw(function.data)))
}

fn call_scoped(
    stack: &mut ScopedStack,
    heap: &mut ObjectHeap,
    handle: usize,
    callback: impl FnOnce(&mut ScopedStack, &mut ObjectHeap, &[AnyView]) -> CallbackOutcome,
) -> Result<i64, Error> {
    raw(call_scoped_packed(
        stack,
        handle,
        None,
        0,
        true,
        heap,
        |_, args, stack, heap| {
            let (mut stack, mut heap) = (stack, heap);
            let outcome = callback(&mut stack, &mut heap, args);
            (stack, heap, outcome)
        },
    ))
    .map(|data| data.v_int64)
}

#[test]
fn test_scoped_function_borrows_thread_bound_state_and_rejects_late_calls() {
    let mut scopes = Scopes::new();
    let function = scopes.function();
    let mut stack = ScopedStack::new();
    let calls = std::rc::Rc::new(Cell::new(0));
    let callback = |_: &mut ScopedStack, _: &mut ObjectHeap, args: &[AnyView]| {
        assert!(args.is_empty());
        calls.set(calls.get() + 1);
        CallbackOutcome::Returned(Ok(any_int(19)))
    };

    let retained = Function::with_scoped_packed(
        &mut stack,
        &mut scopes.heap,
        1000,
        made(function),
        |function, stack, heap| {
            let (mut stack, mut heap) = (stack, heap);
            let value = call_scoped(&mut stack, &mut heap, 1000, &callback);
            assert_eq!(value.ok(), Some(19));
            (stack, heap, Ok(function))
        },
    )
    .ok()
    .unwrap();
    assert_eq!(calls.get(), 1);
    assert_eq!(ObjectArc::strong_count(&retained.data, &scopes.heap), 1);

    let error = error_of(call_scoped(&mut stack, &mut scopes.heap, 1000, &callback));
    assert_eq!(error.kind(), RUNTIME_ERROR);
    assert!(error.message().contains("scoped callback is inactive"));
    assert_eq!(calls.get(), 1);
}

#[test]
fn a_scope_without_a_function_is_not_entered() {
    let mut scopes = Scopes::new();
    let mut stack = ScopedStack::new();
    let error = error_of(Function::with_scoped_packed::<_, _, ()>(
        &mut stack,
        &mut scopes.heap,
        1000,
        |handle, heap| {
            assert_eq!(handle, 1000);
            (heap, Err(Error::new(RUNTIME_ERROR, "no function")))
        },
        |_, _, _| panic!("there is no function to run with"),
    ));
    assert_eq!(error.message(), "no function");
    assert!(stack.entries.is_empty());
}

#[test]
fn test_scoped_function_rejects_recursion_and_resets_busy_state() {
    let mut scopes = Scopes::new();
    let function = scopes.function();
    let mut stack = ScopedStack::new();
    let calls = Cell::new(0);
    let callback = |stack: &mut ScopedStack, heap: &mut ObjectHeap, args: &[AnyView]| {
        assert!(args.is_empty());
        let call = calls.get();
        calls.set(call + 1);
        if call == 0 {
            let error = error_of(call_scoped(stack, heap, 1000, |_, _, _| {
                panic!("a scoped callback must reject recursive invocation")
            }));
            assert_eq!(error.kind(), RUNTIME_ERROR);
            assert!(error.message().contains("cannot be invoked recursively"));
        }
        CallbackOutcome::Returned(Ok(any_int(31)))
    };

    let result = Function::with_scoped_packed(
        &mut stack,
        &mut scopes.heap,
        1000,
        made(function),
        |_, stack, heap| {
            let (mut stack, mut heap) = (stack, heap);
            assert_eq!(call_scoped(&mut stack, &mut heap, 1000, &callback).ok(), Some(31));
            // The recursive error above must not leave the callback marked busy.
            assert_eq!(call_scoped(&mut stack, &mut heap, 1000, &callback).ok(), Some(31));
            (stack, heap, Ok(()))
        },
    );
    assert!(result.is_ok());
    assert_eq!(calls.get(), 2);
}

#[test]
fn test_scoped_function_resets_busy_state_after_callback_panic() {
    let mut scopes = Scopes::new();
    let function = scopes.function();
    let mut stack = ScopedStack::new();
    let calls = Cell::new(0);
    let callback = |_: &mut ScopedStack, _: &mut ObjectHeap, _: &[AnyView]| {
        let call = calls.get();
        calls.set(call + 1);
        if call == 0 {
            return CallbackOutcome::Panicked(PanicPayload::Text(
                "first scoped call failed".to_string(),
            ));
        }
        CallbackOutcome::Returned(Ok(any_int(43)))
    };

    let result = Function::with_scoped_packed(
        &mut stack,
        &mut scopes.heap,
        1000,
        made(function),
        |_, stack, heap| {
            let (mut stack, mut heap) = (stack, heap);
            let error = error_of(call_scoped(&mut stack, &mut heap, 1000, &callback));
            assert_eq!(error.kind(), RUNTIME_ERROR);
            assert_eq!(error.message(), "first scoped call failed");
            assert_eq!(call_scoped(&mut stack, &mut heap, 1000, &callback).ok(), Some(43));
            (stack, heap, Ok(()))
        },
    );
    assert!(result.is_ok());
    assert_eq!(calls.get(), 2);
}

#[test]
fn test_scoped_functions_nest_in_lifo_order() {
    let mut scopes = Scopes::new();
    let outer_function = scopes.function();
    let inner_function = scopes.function();
    let mut stack = ScopedStack::new();
    let events = RefCell::new(Vec::new());
    let outer_callback = |_: &mut ScopedStack, _: &mut ObjectHeap, _: &[AnyView]| {
        events.borrow_mut().push("outer");
        CallbackOutcome::Returned(Ok(any_int(7)))
    };
    let inner_callback = |_: &mut ScopedStack, _: &mut ObjectHeap, _: &[AnyView]| {
        events.borrow_mut().push("inner");
        CallbackOutcome::Returned(Ok(any_int(11)))
    };

    let result = Function::with_scoped_packed(
        &mut stack,
        &mut scopes.heap,
        1000,
        made(outer_function),
        |_, stack, heap| {
            let (mut stack, mut heap) = (stack, heap);
            let retained_inner = Function::with_scoped_packed(
                &mut stack,
                &mut heap,
                2000,
                made(inner_function),
                |inner, stack, heap| {
                    let (mut stack, mut heap) = (stack, heap);
                    assert_eq!(call_scoped(&mut stack, &mut heap, 2000, &inner_callback).ok(), Some(11));
                    // Looking up the outer token must walk past the active inner scope.
                    assert_eq!(call_scoped(&mut stack, &mut heap, 1000, &outer_callback).ok(), Some(7));
                    (stack, heap, Ok(inner))
                },
            );
            assert!(retained_inner.is_ok());
            assert!(call_scoped(&mut stack, &mut heap, 2000, &inner_callback).is_err());
            assert_eq!(call_scoped(&mut stack, &mut heap, 1000, &outer_callback).ok(), Some(7));
            (stack, heap, Ok(()))
        },
    );
    assert!(result.is_ok());

    assert_eq!(&*events.borrow(), &["inner", "outer", "outer"]);
}

fn call_typed<F: AsPackedCallable<I, O>, I, O>(
    world: &mut World,
    store: &CallbackStore<F>,
    function: &Function,
    args: &[AnyView],
) -> Result<Any, Error> {
    let types = &world.types;
    function.call_packed(args, &mut world.heap, |handle, args, num_args, heap| {
        call_native_typed(store, types, handle, args, num_args, heap)
    })
}

#[test]
fn test_function_from_typed() {
    let mut world = World::new();
    let offset = 2;
    // test one argument
    let mut adds = CallbackStore::new();
    let sum1 = Function::from_typed(&mut world.heap, &mut adds, move |x: i32, heap: ObjectHeap| {
        (heap, Ok::<i32, Error>(x + offset))
    });
    let result = call_typed(&mut world, &adds, &sum1, &[integer(1)]).ok().unwrap();
    assert_eq!(world.to_i32(result), 1 + offset);
    // test two arguments
    let mut sums = CallbackStore::new();
    let sum2 = Function::from_typed(
        &mut world.heap,
        &mut sums,
        move |x: i32, y: i32, heap: ObjectHeap| (heap, Ok::<i32, Error>(x + y)),
    );
    let result = call_typed(&mut world, &sums, &sum2, &[integer(1), integer(2)]).ok().unwrap();
    assert_eq!(world.to_i32(result), 3);
}

#[test]
fn functions_of_three_arguments_are_called() {
    let mut world = World::new();
    let types = type_table();
    let mut store = CallbackStore::new();
    let sum3 = Function::from_typed(
        &mut world.heap,
        &mut store,
        move |x: i32, y: i32, z: i64, heap: ObjectHeap| {
            (heap, Ok::<i64, Error>(i64::from(x + y) + z))
        },
    );
    let args = [integer(1), integer(2), integer(3)];
    let result = call_typed(&mut world, &store, &sum3, &args).ok().unwrap();
    assert_eq!(result.data, TVMFFIAny::from_int(K_TVM_FFI_INT, 6));
    let result = sum3
        .call_tuple_with_len::<3, _, _>(
            (&1, 2, 3_i64).into_arg_holder_tuple(),
            &mut world.heap,
            |handle, args, num_args, heap| {
                call_native_typed(&store, &types, handle, args, num_args, heap)
            },
        )
        .ok()
        .unwrap();
    assert_eq!(result.data, TVMFFIAny::from_int(K_TVM_FFI_INT, 6));
}

#[test]
fn typed_functions_check_their_arguments() {
    let mut world = World::new();
    let mut sums = CallbackStore::new();
    let sum = |x: i32, y: i32, heap: ObjectHeap| (heap, Ok::<i32, Error>(x + y));
    let sum2 = Function::from_typed(&mut world.heap, &mut sums, sum);

    let error = error_of(call_typed(&mut world, &sums, &sum2, &[integer(1)]));
    assert_eq!(error.kind(), VALUE_ERROR);
    assert_eq!(error.message(), "Expected 2 arguments, got 1");
    let error = error_of(call_typed(&mut world, &sums, &sum2, &[integer(1), AnyView::new()]));
    assert_eq!(error.kind(), TYPE_ERROR);
    assert_eq!(
        error.message(),
        "Argument #1: Cannot convert from type `None` to `int`"
    );
    let reply = invoke_typed_callback(
        &sums,
        0,
        Some(&[integer(1), integer(2)]),
        2,
        true,
        &world.types,
        &mut world.heap,
    );
    assert_eq!(error_of(raw(reply)).message(), "callback handle is null");
}

/// A plain object, and a view of it.
fn plain_object(world: &mut World, objects: &mut ObjectStore<Object, ()>) -> (ObjectRef, AnyView) {
    let object = ObjectRef::from_data(ObjectArc::new(&mut world.heap, objects, Object::new()));
    let view = AnyView {
        data: ObjectRef::copy_to_any_view(&object, &world.heap),
    };
    (object, view)
}

#[test]
fn typed_callbacks_own_their_arguments() {
    let mut world = World::new();
    let mut objects = ObjectStore::new();
    let (object, view) = plain_object(&mut world, &mut objects);
    let count = |world: &World| ObjectArc::strong_count(&object.data, &world.heap);

    // An argument that the callback gives up is as it was.
    let mut drops = CallbackStore::new();
    let drop = Function::from_typed(
        &mut world.heap,
        &mut drops,
        |x: ObjectRef, heap: ObjectHeap| {
            let mut heap = heap;
            assert_eq!(ObjectArc::strong_count(&x.data, &heap), 2);
            heap.release(ObjectArc::into_raw(x.data));
            (heap, Ok::<(), Error>(()))
        },
    );
    let result = call_typed(&mut world, &drops, &drop, &[view]).ok().unwrap();
    assert_eq!(result.data, TVMFFIAny::new());
    assert_eq!(count(&world), 1);

    // One that it returns has moved to the caller.
    let mut echoes = CallbackStore::new();
    let echo = Function::from_typed(
        &mut world.heap,
        &mut echoes,
        |x: ObjectRef, heap: ObjectHeap| (heap, Ok::<ObjectRef, Error>(x)),
    );
    let result = call_typed(&mut world, &echoes, &echo, &[view]).ok().unwrap();
    assert_eq!(count(&world), 2);
    result.drop(&mut world.heap);
    assert_eq!(count(&world), 1);

    // A callback that is not run leaves the counts alone.
    let error = error_of(call_typed(&mut world, &drops, &drop, &[view, view]));
    assert_eq!(error.message(), "Expected 1 arguments, got 2");
    assert_eq!(count(&world), 1);
}

#[test]
fn tuples_give_up_what_they_own() {
    let mut world = World::new();
    let mut objects = ObjectStore::new();
    let (object, view) = plain_object(&mut world, &mut objects);
    let mut store = CallbackStore::new();
    let first = Function::from_packed(&mut world.heap, &mut store, echo);
    let call = |handle: usize, args: &[AnyView], num_args: i32, heap: ObjectHeap| {
        assert_eq!(args[0], view);
        call_native(&store, handle, args, num_args, heap)
    };
    let kept = object.share(&mut world.heap);
    let again = object.share(&mut world.heap);
    assert_eq!(ObjectArc::strong_count(&kept.data, &world.heap), 3);

    // By reference, nothing is given up; the result is one more reference.
    let result = first.call_tuple((&kept,), &mut world.heap, call).ok().unwrap();
    assert_eq!(ObjectArc::strong_count(&kept.data, &world.heap), 4);
    result.drop(&mut world.heap);

    // By value, each element of the tuple is, also where it occurs twice.
    let result = first
        .call_tuple((object, again, 5), &mut world.heap, call)
        .ok()
        .unwrap();
    assert_eq!(ObjectArc::strong_count(&kept.data, &world.heap), 2);
    result.drop(&mut world.heap);

    // The last reference leaves the deletion behind.
    let result = first
        .call_tuple_with_len::<2, _, _>((kept,), &mut world.heap, call)
        .ok()
        .unwrap();
    assert_eq!(world.heap.next_pending(), None);
    result.drop(&mut world.heap);
    assert_eq!(world.heap.next_pending(), Some((view.data.v_obj, 3)));
}

#[test]
fn packed_callbacks_work_on_the_heap() {
    let mut world = World::new();
    let mut objects = ObjectStore::new();
    let (object, view) = plain_object(&mut world, &mut objects);
    let mut store = CallbackStore::new();
    let function = Function::from_packed(&mut world.heap, &mut store, echo);
    let result = call(&mut world, &store, &function, &[view]).ok().unwrap();
    assert_eq!(result.data, view.data);
    assert_eq!(ObjectArc::strong_count(&object.data, &world.heap), 2);
}

#[test]
fn functions_of_every_arity_are_packed() {
    let types = type_table();
    let mut heap = ObjectHeap::new();
    let args: Vec<AnyView> = (1..9).map(integer).collect();
    let none = |heap: ObjectHeap| (heap, Ok::<i64, Error>(0));
    let result = call_packed_callable(none, &[], &types, &mut heap);
    assert_eq!(result.ok().unwrap().data.v_int64, 0);
    let all = |a: i64, b: i64, c: i64, d: i64, e: i64, f: i64, g: i64, h: i64, heap: ObjectHeap| {
        let digits = [a, b, c, d, e, f, g, h];
        let number = digits.iter().rev().fold(0, |number, digit| 10 * number + digit);
        (heap, Ok::<i64, Error>(number))
    };
    let result = call_packed_callable(all, &args, &types, &mut heap);
    assert_eq!(result.ok().unwrap().data.v_int64, 87_654_321);
    let failing = |_: bool, heap: ObjectHeap| {
        (heap, Err::<i64, Error>(Error::new(ATTRIBUTE_ERROR, "refused")))
    };
    let error = error_of(call_packed_callable(failing, &args[..1], &types, &mut heap));
    assert_eq!(error.kind().as_str(), "AttributeError");
    assert_eq!(error.message(), "refused");
}

#[test]
fn test_function_call_tuple() {
    let mut world = World::new();
    let offset = 2;
    // test one argument
    let add = move |x: i32, heap: ObjectHeap| (heap, Ok::<i32, Error>(x + offset));
    let mut store = CallbackStore::new();
    let sum1 = Function::from_typed(&mut world.heap, &mut store, add);
    let types = type_table();
    let safe_call = |handle: usize, args: &[AnyView], num_args: i32, heap: ObjectHeap| {
        call_native_typed(&store, &types, handle, args, num_args, heap)
    };
    let result = sum1.call_tuple((1,), &mut world.heap, safe_call).ok().unwrap();
    assert_eq!(world.to_i32(result), 1 + offset);
    // test pass by reference
    let result = sum1
        .call_tuple_with_len::<1, _, _>((&1,), &mut world.heap, safe_call)
        .ok()
        .unwrap();
    assert_eq!(world.to_i32(result), 1 + offset);
    // Places that no element fills hold none.
    let error = error_of(sum1.call_tuple_with_len::<3, _, _>((&1,), &mut world.heap, safe_call));
    assert_eq!(error.message(), "Expected 1 arguments, got 3");
    let typed_fn = |world: &mut World, x: &i32| {
        let any = sum1.call_tuple((x,), &mut world.heap, safe_call).ok().unwrap();
        world.to_i32(any)
    };
    let result = typed_fn(&mut world, &1);
    assert_eq!(result, 1 + offset);
}

#[test]
fn test_function_into_typed_fn() {
    let mut world = World::new();
    let types = type_table();
    let offset = 2;
    let mut adds = CallbackStore::new();
    let sum1 = Function::from_typed(&mut world.heap, &mut adds, move |x: i32, heap: ObjectHeap| {
        (heap, Ok::<i32, Error>(x + offset))
    });
    let typed_sum1 = |world: &mut World, x: &i32| -> Result<i32, Error> {
        let any = sum1.call_tuple_with_len::<1, _, _>(
            (x,).into_arg_holder_tuple(),
            &mut world.heap,
            |handle, args, num_args, heap| {
                call_native_typed(&adds, &types, handle, args, num_args, heap)
            },
        )?;
        try_from_any(any, &types, &mut world.heap)
    };
    assert_eq!(typed_sum1(&mut world, &1).ok(), Some(1 + offset));
    // try to box the resulting function
    let mut sums = CallbackStore::new();
    let sum2 = Function::from_typed(
        &mut world.heap,
        &mut sums,
        move |x: i32, y: i32, heap: ObjectHeap| (heap, Ok::<i32, Error>(x + y)),
    );
    let typed_sum2 = Box::new(|world: &mut World, x: &i32, y: i32| -> Result<i32, Error> {
        let any = sum2.call_tuple_with_len::<2, _, _>(
            (x, y).into_arg_holder_tuple(),
            &mut world.heap,
            |handle, args, num_args, heap| {
                call_native_typed(&sums, &types, handle, args, num_args, heap)
            },
        )?;
        try_from_any(any, &types, &mut world.heap)
    });
    assert_eq!(typed_sum2(&mut world, &1, 2).ok(), Some(3));
}

#[test]
fn test_function_echo_tensor_typed() {
    let mut world = World::new();
    let mut tensors: TensorStore<CPUNDAlloc> = TensorStore::new();
    let mut memory = HostMemory::new();
    let bits = |value: f32| Float32 {
        bits: value.to_bits(),
    };
    let data = [bits(1.0), bits(2.0), bits(3.0), bits(4.0)];
    let tensor = Tensor::from_slice(
        &mut world.heap,
        &mut tensors,
        &mut memory,
        &data,
        &[1, 2, 2],
    )
    .ok()
    .unwrap();
    let mut store = CallbackStore::new();
    let registered = Function::from_packed(&mut world.heap, &mut store, echo);
    let fecho = get_global(&mut world, "testing.echo", &registered);
    let result = fecho
        .call_tuple_with_len::<1, _, _>(
            (&tensor,).into_arg_holder_tuple(),
            &mut world.heap,
            |handle, args, num_args, heap| call_native(&store, handle, args, num_args, heap),
        )
        .ok()
        .unwrap();
    let result = try_from_any::<Tensor>(result, &world.types, &mut world.heap)
        .ok()
        .unwrap();
    assert_eq!(result.data_ptr(&tensors), tensor.data_ptr(&tensors));
    assert_eq!(ObjectArc::strong_count(&result.data, &world.heap), 2);
    let result_data = result
        .data_as_slice_unchecked::<Float32, CPUNDAlloc>(&tensors, &memory)
        .ok()
        .unwrap();
    assert_eq!(result_data.len(), 4);
    assert_eq!(result_data[0], bits(1.0));
    assert_eq!(result_data[1], bits(2.0));
    assert_eq!(result_data[2], bits(3.0));
    assert_eq!(result_data[3], bits(4.0));
}

fn testing_no_args(heap: ObjectHeap) -> (ObjectHeap, Result<i32, Error>) {
    (heap, Ok(17))
}

fn exported_no_args(args: Option<&[AnyView]>, num_args: i32, has_result: bool) -> CallReply {
    let types = type_table();
    let mut heap = ObjectHeap::new();
    invoke_packed_c_abi(args, num_args, has_result, &mut heap, |args: &[AnyView], heap| {
        let mut heap = heap;
        let result = call_packed_callable(testing_no_args, args, &types, &mut heap);
        (heap, CallbackOutcome::Returned(result))
    })
}

#[test]
fn test_exported_c_trampoline_validates_raw_inputs_and_contains_panics() {
    let reply = exported_no_args(None, 0, true);
    assert_eq!(reply.status, 0);
    assert_eq!(reply.result, Some(TVMFFIAny::from_int(K_TVM_FFI_INT, 17)));

    let reply = exported_no_args(None, -1, true);
    assert_eq!(reply.status, -1);
    let error = reply.raised.unwrap();
    assert_eq!(error.kind(), VALUE_ERROR);
    assert_eq!(error.message(), "callback argument count is negative");

    let reply = exported_no_args(None, 1, true);
    assert_eq!(reply.status, -1);
    let error = reply.raised.unwrap();
    assert_eq!(error.kind(), VALUE_ERROR);
    assert_eq!(error.message(), "callback arguments are null");

    let reply = exported_no_args(None, 0, false);
    assert_eq!(reply.status, -1);
    assert_eq!(reply.result, None);
    let error = reply.raised.unwrap();
    assert_eq!(error.kind(), VALUE_ERROR);
    assert_eq!(error.message(), "callback result pointer is null");

    let mut heap = ObjectHeap::new();
    let reply = invoke_packed_c_abi(None, 0, true, &mut heap, |_: &[AnyView], heap| {
        let payload = PanicPayload::Text("exported callback failed".to_string());
        (heap, CallbackOutcome::Panicked(payload))
    });
    assert_eq!(reply.status, -1);
    let error = reply.raised.unwrap();
    assert_eq!(error.kind(), RUNTIME_ERROR);
    assert_eq!(error.message(), "exported callback failed");
}

#[test]
fn the_outermost_barrier_leaves_a_bare_failure() {
    let contained = contain(None);
    assert_eq!(contained.status, -1);
    assert!(contained.result.is_none() && contained.raised.is_none());
    assert_eq!(contain(Some(exported_no_args(None, 0, true))).status, 0);
}

fn testing_add_one(x: i32, heap: ObjectHeap) -> (ObjectHeap, Result<i32, Error>) {
    (heap, Ok(x + 1))
}

/// The native runtime makes a function object for an exported callback.
fn from_extern_c<F: AsPackedCallable<I, O>, I, O>(
    world: &mut World,
    store: &mut CallbackStore<F>,
    exported: F,
) -> Function {
    Function::from_extern_c(0, &mut world.heap, |handle, heap| {
        assert_eq!(handle, 0);
        let mut heap = heap;
        let made = Function::from_typed(&mut heap, store, exported);
        (heap, Ok(ObjectArc::into_raw(made.data)))
    })
}

#[test]
fn test_function_from_extern_c() {
    let mut world = World::new();
    let mut store = CallbackStore::new();
    let add_one = from_extern_c(&mut world, &mut store, testing_add_one);
    let types = &world.types;
    let result = add_one
        .call_tuple_with_len::<1, _, _>(
            (1,).into_arg_holder_tuple(),
            &mut world.heap,
            |handle, args, num_args, heap| {
                call_native_typed(&store, types, handle, args, num_args, heap)
            },
        )
        .ok()
        .unwrap();
    assert_eq!(world.to_i32(result), 2);
    let error = error_of(Function::try_from_extern_c(
        0,
        &mut world.heap,
        |_, heap| (heap, Err(Error::new(RUNTIME_ERROR, "refused"))),
    ));
    assert_eq!(error.message(), "refused");
}

#[test]
fn test_function_apply() {
    let mut world = World::new();
    let mut adds = CallbackStore::new();
    let add_one = Function::from_typed(&mut world.heap, &mut adds, testing_add_one);
    let kept = add_one.share(&mut world.heap);
    let types = type_table();
    // The native function applies its first argument to the others.
    let apply = |args: &[AnyView], heap: ObjectHeap| {
        let mut heap = heap;
        let function = Function::copy_from_any_view_after_check(&args[0].data, &mut heap);
        let result = function.call_packed(&args[1..], &mut heap, |handle, args, num_args, heap| {
            call_native_typed(&adds, &types, handle, args, num_args, heap)
        });
        heap.release(ObjectArc::into_raw(function.data));
        (heap, result)
    };
    let mut applies = CallbackStore::new();
    let registered = Function::from_packed(&mut world.heap, &mut applies, apply);
    let fapply = get_global(&mut world, "testing.apply", &registered);
    let result = fapply
        .call_tuple_with_len::<2, _, _>(
            (add_one, 3).into_arg_holder_tuple(),
            &mut world.heap,
            |handle, args, num_args, heap| call_native(&applies, handle, args, num_args, heap),
        )
        .ok()
        .unwrap();
    assert_eq!(world.to_i32(result), 4);
    // The function that was passed by value was given up.
    assert_eq!(ObjectArc::strong_count(&kept.data, &world.heap), 1);
    assert_eq!(ObjectArc::strong_count(&registered.data, &world.heap), 2);
}

#[test]
fn test_function_call_tensor_fn() {
    let mut world = World::new();
    let mut tensors: TensorStore<CPUNDAlloc> = TensorStore::new();
    let mut memory = HostMemory::new();
    let bits = |value: f32| Float32 {
        bits: value.to_bits(),
    };
    let mut tensor = |world: &mut World, values: &[f32]| {
        let values: Vec<Float32> = values.iter().map(|value| bits(*value)).collect();
        Tensor::from_slice(
            &mut world.heap,
            &mut tensors,
            &mut memory,
            &values,
            &[2, 2],
        )
        .ok()
        .unwrap()
    };
    let x = tensor(&mut world, &[0.0, 1.0, 2.0, 3.0]);
    let y = tensor(&mut world, &[0.0, 0.0, 0.0, 0.0]);
    let memory = RefCell::new(memory);
    let write_sum = |x: &Tensor, y: &mut Tensor| -> Result<(), Error> {
        let x_data =
            x.data_as_slice_unchecked::<Float32, CPUNDAlloc>(&tensors, &memory.borrow())?;
        let y_data: Vec<Float32> = x_data
            .iter()
            .map(|value| bits(f32::from_bits(value.bits) + 1.0))
            .collect();
        y.data_as_slice_mut_unchecked(&tensors, &mut memory.borrow_mut(), &y_data)
    };
    let test_add_one_tensor = |x: Tensor, mut y: Tensor, heap: ObjectHeap| {
        let mut heap = heap;
        let result = write_sum(&x, &mut y);
        heap.release(ObjectArc::into_raw(x.data));
        heap.release(ObjectArc::into_raw(y.data));
        (heap, result)
    };
    let mut store = CallbackStore::new();
    let add_one = from_extern_c(&mut world, &mut store, test_add_one_tensor);
    let types = &world.types;
    let result = add_one
        .call_tuple_with_len::<2, _, _>(
            (&x, &y).into_arg_holder_tuple(),
            &mut world.heap,
            |handle, args, num_args, heap| {
                call_native_typed(&store, types, handle, args, num_args, heap)
            },
        )
        .ok()
        .unwrap();
    assert!(try_from_any::<()>(result, &world.types, &mut world.heap).is_ok());
    // The callback gave its arguments up.
    assert_eq!(ObjectArc::strong_count(&x.data, &world.heap), 1);
    assert_eq!(ObjectArc::strong_count(&y.data, &world.heap), 1);
    let y_data = y
        .data_as_slice_unchecked::<Float32, CPUNDAlloc>(&tensors, &memory.borrow())
        .ok()
        .unwrap();
    assert_eq!(y_data[0], bits(1.0));
    assert_eq!(y_data[1], bits(2.0));
    assert_eq!(y_data[2], bits(3.0));
    assert_eq!(y_data[3], bits(4.0));
}

#[test]
fn global_functions_are_remembered() {
    let mut heap = ObjectHeap::new();
    let mut store: ObjectStore<FunctionObj, ()> = ObjectStore::new();
    let function = Function::from_data(ObjectArc::new(&mut heap, &mut store, FunctionObj::new()));
    let handle = function.data.ptr;
    let mut cell = None;
    let error = error_of(Function::get_global_cached(
        &mut cell,
        &mut heap,
        "testing.cached",
        |_, heap| (heap, Ok(0)),
    ));
    assert_eq!(error.message(), "Function testing.cached not found");
    assert!(cell.is_none());
    let first = Function::get_global_cached(
        &mut cell,
        &mut heap,
        "testing.cached",
        |_, heap| {
            // The registry hands out a reference of its own.
            let mut heap = heap;
            let found = function.share(&mut heap);
            (heap, Ok(ObjectArc::into_raw(found.data)))
        },
    )
    .ok()
    .unwrap();
    assert_eq!(first.data.ptr, handle);
    assert_eq!(ObjectArc::strong_count(&function.data, &heap), 3);
    let second = Function::get_global_cached(&mut cell, &mut heap, "testing.cached", |_, _| {
        panic!("the function is known")
    })
    .ok()
    .unwrap();
    assert_eq!(second.data.ptr, handle);
    assert_eq!(ObjectArc::strong_count(&function.data, &heap), 4);
}

#[test]
fn modules_are_loaded_and_searched_through_global_functions() {
    let World {
        mut heap, types, ..
    } = World::new();
    let mut functions: ObjectStore<FunctionObj, ()> = ObjectStore::new();
    let mut modules: ObjectStore<ModuleObj, ()> = ObjectStore::new();
    let global = Function::from_data(ObjectArc::new(
        &mut heap,
        &mut functions,
        FunctionObj::new(),
    ));
    let handle = global.data.ptr;
    let loaded = Module::from_data(ObjectArc::new(&mut heap, &mut modules, ModuleObj::new()));
    let address = loaded.data.ptr;
    let returned = Module::move_to_any(loaded, &heap);
    let text = |text: &str| integer(text.len() as i64);

    let mut cell = None;
    let error = error_of(Module::load_from_file(
        "lib.so",
        &mut cell,
        &types,
        &mut heap,
        |_, heap| (heap, Ok(0)),
        text,
        |_, _, _, _| panic!("there is no function to call"),
    ));
    assert_eq!(error.message(), "Function ffi.ModuleLoadFromFile not found");
    let module = Module::load_from_file(
        "lib.so",
        &mut cell,
        &types,
        &mut heap,
        |name, heap| {
            assert_eq!(name, "ffi.ModuleLoadFromFile");
            (heap, Ok(handle))
        },
        text,
        |loader, args, num_args, heap| {
            assert_eq!((loader, args, num_args), (handle, &[integer(6)][..], 1));
            (heap, Ok(returned))
        },
    )
    .ok()
    .unwrap();
    assert_eq!(module.data.ptr, address);
    let error = error_of(Module::load_from_file(
        "lib.so",
        &mut cell,
        &types,
        &mut heap,
        |_, _| panic!("the function is known"),
        text,
        |_, _, _, heap| (heap, Ok(TVMFFIAny::from_int(K_TVM_FFI_INT, 1))),
    ));
    assert_eq!(
        error.message(),
        "Cannot convert from type `int` to `ffi.Module`"
    );

    let mut cell = None;
    let function = module
        .get_function(
            "run",
            &mut cell,
            &types,
            &mut heap,
            |name, heap| {
                assert_eq!(name, "ffi.ModuleGetFunction");
                (heap, Ok(handle))
            },
            text,
            |getter, args, num_args, heap| {
                assert_eq!((getter, num_args), (handle, 3));
                assert_eq!(args[0].data, TVMFFIAny::from_object(K_TVM_FFI_MODULE, address));
                assert_eq!(args[1], integer(3));
                assert_eq!(args[2].data.v_int64, 1);
                let mut heap = heap;
                let found = Function::move_to_any(global.share(&mut heap), &heap);
                (heap, Ok(found))
            },
        )
        .ok()
        .unwrap();
    assert!(function.same_as(&global));
    assert_eq!(ObjectArc::strong_count(&global.data, &heap), 2);
}

#[test]
fn arguments_are_held_in_their_canonical_form() {
    assert_eq!("text".into_arg_holder(), "text".to_string());
    let bytes: &[u8] = &[1, 2];
    assert_eq!(bytes.into_arg_holder(), vec![1, 2]);
    assert_eq!((1_i32, "a", true).into_arg_holder_tuple(), (1, "a".to_string(), true));
    assert_eq!(*(&5_i64).to_ref(), 5);
    let heap = ObjectHeap::new();
    let mut views = [AnyView::new(); 3];
    (4_i32, &5_i64).fill_any_view(&mut views, &heap);
    assert_eq!(views, [integer(4), integer(5), AnyView::new()]);
    assert_eq!(<(i32, &i64)>::len(), 2);
}

#[test]
fn field_of_an_undefined_object_cannot_be_read() {
    let mut world = World::new();
    let null = ObjectRef::from_data(ObjectArc::<Object>::from_raw(0));
    let error = error_of(get_object_field::<i64, _, _>(
        &null,
        &mut world.heap,
        &world.types,
        K_TVM_FFI_OBJECT,
        "ty",
        |_, _, _| panic!("there is nothing to read"),
    ));
    assert_eq!(error.kind(), VALUE_ERROR);
    assert_eq!(
        error.message(),
        "cannot read field `ty` from an undefined object"
    );
}
