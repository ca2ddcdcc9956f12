use tvm_ffi::any::{Any, AnyView, TVMFFIAny};
use tvm_ffi::error::{Error, ErrorKind, ATTRIBUTE_ERROR, RUNTIME_ERROR, TYPE_ERROR, VALUE_ERROR};
use tvm_ffi::object::arc::ObjectArc;
use tvm_ffi::object::heap::{ObjectHeap, ObjectStore};
use tvm_ffi::object::reflection::{
    get_object_field, get_object_field_any, locate_object_field, try_from_any_strict,
};
use tvm_ffi::object::refs::{ObjectRef, ObjectRefCore};
use tvm_ffi::object::Object;
use tvm_ffi::type_index::{K_TVM_FFI_BOOL, K_TVM_FFI_INT, K_TVM_FFI_OBJECT};
use tvm_ffi::type_table::{FieldInfo, TypeInfo, TypeTable};
use tvm_ffi::type_traits::AnyCompatible;
use tvm_ffi::typed_expr::TypedExpr;

fn entry(type_index: i32, type_key: &str) -> Option<TypeInfo> {
    Some(TypeInfo {
        type_index,
        type_depth: 0,
        type_key: type_key.to_string(),
        ancestors: Vec::new(),
        fields: Vec::new(),
        methods: Vec::new(),
        total_size: None,
    })
}

fn field(name: &str, offset: i64, size: i64, alignment: i64, getter: Option<usize>) -> FieldInfo {
    FieldInfo {
        name: name.to_string(),
        offset,
        size,
        alignment,
        getter,
    }
}

struct World {
    heap: ObjectHeap,
    types: TypeTable,
    object: ObjectRef,
}

impl World {
    fn new() -> Self {
        let mut types: Vec<Option<TypeInfo>> = (0..100).map(|_| None).collect();
        types[0] = entry(0, "None");
        types[K_TVM_FFI_INT as usize] = entry(K_TVM_FFI_INT, "int");
        types[K_TVM_FFI_BOOL as usize] = entry(K_TVM_FFI_BOOL, "bool");
        let mut info = entry(K_TVM_FFI_OBJECT, "ffi.Object").unwrap();
        info.total_size = Some(40);
        info.fields = vec![
            field("ty", 24, 8, 8, Some(7)),
            field("getterless", 24, 8, 8, None),
            field("negative", -8, 8, 8, Some(7)),
            field("unsized", 24, -1, 8, Some(7)),
            field("unaligned", 24, 8, 0, Some(7)),
            field("between", 20, 8, 8, Some(7)),
            field("outside", 40, 8, 8, Some(7)),
            field("last", 39, 1, 1, Some(9)),
            field("page", 0, 8, 4096, Some(7)),
            field("ty", 32, 8, 8, Some(8)),
        ];
        types[K_TVM_FFI_OBJECT as usize] = Some(info);
        let mut heap = ObjectHeap::new();
        let mut store: ObjectStore<Object, ()> = ObjectStore::new();
        let object = ObjectRef::from_data(ObjectArc::new(&mut heap, &mut store, Object::new()));
        World {
            heap,
            types: TypeTable {
                types,
                columns: Vec::new(),
            },
            object,
        }
    }

    fn address(&self) -> usize {
        ObjectArc::as_raw(&self.object.data)
    }

    fn locate(&self, owner: i32, name: &str) -> Result<(usize, usize), (ErrorKind, String)> {
        locate_object_field(&self.heap, &self.types, self.address(), owner, name)
            .map_err(|error| (error.kind(), error.message().to_string()))
    }
}

#[test]
fn fields_are_located_by_their_layout() {
    let world = World::new();
    let address = world.address();
    assert_ne!(address % 4096, 0);
    assert_eq!(world.locate(K_TVM_FFI_OBJECT, "ty"), Ok((7, address + 24)));
    assert_eq!(world.locate(K_TVM_FFI_OBJECT, "last"), Ok((9, address + 39)));
    for (name, what) in [
        ("getterless", "has no getter"),
        ("negative", "has an invalid layout"),
        ("unsized", "has an invalid layout"),
        ("unaligned", "has an invalid layout"),
        ("between", "has an invalid layout"),
        ("outside", "extends beyond its owner object"),
        ("page", "is not correctly aligned"),
    ] {
        let message = format!("reflected field `{}` {}", name, what);
        assert_eq!(
            world.locate(K_TVM_FFI_OBJECT, name),
            Err((RUNTIME_ERROR, message))
        );
    }
    assert_eq!(
        world.locate(K_TVM_FFI_OBJECT, "missing"),
        Err((
            ATTRIBUTE_ERROR,
            "field `missing` is not registered on type `ffi.Object`".to_string()
        ))
    );
    assert_eq!(
        world.locate(99, "ty"),
        Err((
            TYPE_ERROR,
            format!(
                "runtime object type_index `{}` is not an instance of field owner `99`",
                K_TVM_FFI_OBJECT
            )
        ))
    );
}

#[test]
fn fields_of_an_owner_without_an_entry_cannot_be_read() {
    let mut world = World::new();
    world.types.types[K_TVM_FFI_OBJECT as usize] = None;
    assert_eq!(
        world.locate(K_TVM_FFI_OBJECT, "ty"),
        Err((
            TYPE_ERROR,
            format!(
                "no type info for field owner type_index `{}`",
                K_TVM_FFI_OBJECT
            )
        ))
    );
}

#[test]
fn fields_are_read_by_their_getter() {
    let mut world = World::new();
    let place = world.address() + 24;
    let read = |value: Result<i64, Error>| {
        move |getter: usize, at: usize, heap: ObjectHeap| {
            assert_eq!((getter, at), (7, place));
            let raw = value.map(|value| TVMFFIAny::from_int(K_TVM_FFI_INT, value));
            (heap, raw)
        }
    };
    let World {
        heap,
        types,
        object,
    } = &mut world;
    let owner = K_TVM_FFI_OBJECT;
    let any = get_object_field_any(object, heap, types, owner, "ty", read(Ok(5)));
    assert_eq!(any.ok().unwrap().data.v_int64, 5);
    let value = get_object_field::<i64, _, _>(object, heap, types, owner, "ty", read(Ok(5)));
    assert_eq!(value.ok(), Some(5));
    let value = get_object_field::<bool, _, _>(object, heap, types, owner, "ty", read(Ok(1)));
    assert_eq!(value.ok(), Some(true));
    let error = get_object_field::<ObjectRef, _, _>(object, heap, types, owner, "ty", read(Ok(1)))
        .err()
        .unwrap();
    assert_eq!(error.kind(), TYPE_ERROR);
    assert_eq!(
        error.message(),
        "Cannot convert from type `int` to `ffi.Object`"
    );
    let raised = Err(Error::new(VALUE_ERROR, "raised"));
    let error = get_object_field::<i64, _, _>(object, heap, types, owner, "ty", read(raised))
        .err()
        .unwrap();
    assert_eq!(error.message(), "raised");

    // Where only the type itself will do, an integer is no boolean.
    let strict = |heap: &mut ObjectHeap, index: i32| {
        let any = Any {
            data: TVMFFIAny::from_int(index, 1),
        };
        try_from_any_strict::<bool>(any, types, heap)
    };
    assert_eq!(strict(heap, K_TVM_FFI_BOOL).ok(), Some(true));
    let error = strict(heap, K_TVM_FFI_INT).err().unwrap();
    assert_eq!(error.message(), "Cannot convert from type `int` to `bool`");
}

/// A getter that returns an integer.
fn integer_ty(_: usize, _: usize, heap: ObjectHeap) -> (ObjectHeap, Result<TVMFFIAny, Error>) {
    (heap, Ok(TVMFFIAny::from_int(K_TVM_FFI_INT, 3)))
}

/// A getter that returns nothing.
fn no_ty(_: usize, _: usize, heap: ObjectHeap) -> (ObjectHeap, Result<TVMFFIAny, Error>) {
    (heap, Ok(TVMFFIAny::new()))
}

type IntExpr = TypedExpr<ObjectRef, i64>;

#[test]
fn expressions_are_refined_by_their_type() {
    let World {
        mut heap,
        types,
        object,
    } = World::new();
    let address = ObjectArc::as_raw(&object.data);
    let kept = object.share(&mut heap);
    let expr = IntExpr::try_from_base(object, &mut heap, &types, integer_ty)
        .ok()
        .unwrap();
    assert_eq!(ObjectArc::as_raw(&expr.as_base().data), address);
    assert_eq!(expr.ty(&mut heap, &types, integer_ty).ok(), Some(3));
    assert_eq!(ObjectArc::strong_count(&kept.data, &heap), 2);
    let other = expr.clone(&mut heap);
    assert_eq!(ObjectArc::strong_count(&kept.data, &heap), 3);
    assert_eq!(ObjectArc::as_raw(IntExpr::data(&other)), address);
    let handle = IntExpr::into_data(other);
    let again = IntExpr::from_data(handle, &mut heap, &types, integer_ty);
    assert_eq!(ObjectArc::as_raw(&again.deref().data), address);
    assert_eq!(ObjectArc::strong_count(&kept.data, &heap), 3);

    // An expression of another type is refused, and given up.
    let error = IntExpr::try_from_base(again.into_base(), &mut heap, &types, no_ty)
        .err()
        .unwrap();
    assert_eq!(error.message(), "Cannot convert from type `None` to `int`");
    assert_eq!(ObjectArc::strong_count(&kept.data, &heap), 2);
    assert!(!IntExpr::match_any_exact());
}

#[test]
fn values_are_converted_to_refined_expressions() {
    let World {
        mut heap,
        types,
        object,
    } = World::new();
    let kept = object.share(&mut heap);
    let view = AnyView {
        data: ObjectRef::copy_to_any_view(&object, &heap),
    };
    assert_eq!(IntExpr::type_str(), "TypedExpr<ffi.Object, int>");

    assert!(IntExpr::check_any_strict(&view.data, &mut heap, &types, integer_ty));
    assert!(!IntExpr::check_any_strict(&view.data, &mut heap, &types, no_ty));
    assert_eq!(ObjectArc::strong_count(&kept.data, &heap), 2);

    let expr = IntExpr::try_from_any_view(view, &mut heap, &types, integer_ty)
        .ok()
        .unwrap();
    assert_eq!(ObjectArc::strong_count(&kept.data, &heap), 3);
    let error = IntExpr::try_from_any_view(view, &mut heap, &types, no_ty)
        .err()
        .unwrap();
    assert_eq!(error.kind(), TYPE_ERROR);
    assert_eq!(
        error.message(),
        "Cannot convert from type `ffi.Object with incompatible `ty`` to `TypedExpr<ffi.Object, int>`"
    );
    assert_eq!(ObjectArc::strong_count(&kept.data, &heap), 3);

    // An owned value moves, or is given up.
    let any = Any {
        data: IntExpr::move_to_any(expr, &heap),
    };
    let expr = IntExpr::try_from_any(any, &mut heap, &types, integer_ty, no_ty)
        .ok()
        .unwrap();
    assert_eq!(ObjectArc::strong_count(&kept.data, &heap), 3);
    let any = Any {
        data: IntExpr::move_to_any(expr, &heap),
    };
    let result = IntExpr::try_from_any(any, &mut heap, &types, no_ty, no_ty);
    assert!(result.is_err());
    assert_eq!(ObjectArc::strong_count(&kept.data, &heap), 2);

    let integer = AnyView {
        data: TVMFFIAny::from_int(K_TVM_FFI_INT, 4),
    };
    let error = IntExpr::try_from_any_view(integer, &mut heap, &types, integer_ty)
        .err()
        .unwrap();
    assert_eq!(
        error.message(),
        "Cannot convert from type `int with incompatible `ty`` to `TypedExpr<ffi.Object, int>`"
    );
}
