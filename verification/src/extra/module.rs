//! Modules: dynamic libraries that functions are retrieved from.

use crate::any::{Any, AnyView, TVMFFIAny};
use crate::error::Error;
use crate::function::{call_allowed, cell_filled, packed_called, Function};
use crate::object::arc::{acquired, ObjectArc};
use crate::object::heap::ObjectHeap;
use crate::object::reflection::{conversion, convertible, try_from_any};
use crate::object::refs::{
    held_object, hold_object, lemma_instance_of, object_exists, share_held, ObjectRefAny,
    ObjectRefByType, ObjectRefCore,
};
use crate::object::{Object, ObjectCore};
use crate::type_index::{K_TVM_FFI_BOOL, K_TVM_FFI_MODULE};
use crate::type_table::{is_instance_of, TypeTable};
use crate::type_traits::{type_key, type_key_of, AnyCompatible};
use vstd::prelude::*;

verus! {

/// The payload of a module.
pub struct ModuleObj {
    pub object: Object,
}

impl ModuleObj {
    pub fn new() -> (module: ModuleObj)
        ensures
            module.object == Object::room(),
    {
        ModuleObj { object: Object::new() }
    }
}

/// A shared handle to a module.
pub struct Module {
    pub data: ObjectArc<ModuleObj>,
}

impl ObjectCore for ModuleObj {
    open spec fn key() -> Seq<char> {
        "ffi.Module"@
    }

    open spec fn depth() -> i32 {
        1
    }

    open spec fn is_final() -> bool {
        true
    }

    open spec fn index_is_static() -> bool {
        true
    }

    open spec fn index() -> i32 {
        K_TVM_FFI_MODULE
    }

    fn type_key() -> &'static str {
        "ffi.Module"
    }

    fn type_depth() -> i32 {
        1
    }

    fn type_final() -> bool {
        true
    }

    fn type_index_static() -> bool {
        true
    }

    fn type_index() -> i32 {
        K_TVM_FFI_MODULE
    }
}

impl ObjectRefCore for Module {
    type ContainerType = ModuleObj;

    open spec fn address(&self) -> usize {
        self.data.ptr
    }

    fn data(this: &Self) -> &ObjectArc<Self::ContainerType> {
        &this.data
    }

    fn into_data(this: Self) -> ObjectArc<Self::ContainerType> {
        this.data
    }

    fn from_data(data: ObjectArc<Self::ContainerType>) -> Self {
        Module { data }
    }
}

impl AnyCompatible for Module {
    open spec fn exact() -> bool {
        ModuleObj::is_final() && ModuleObj::index_is_static()
    }

    open spec fn exact_index() -> i32 {
        ModuleObj::index()
    }

    open spec fn name_of_type() -> Seq<char> {
        ModuleObj::key()
    }

    open spec fn holdable(&self, heap: &ObjectHeap) -> bool {
        object_exists(self.data.ptr, heap)
    }

    open spec fn held(&self, heap: &ObjectHeap) -> TVMFFIAny {
        held_object(self.data.ptr, heap)
    }

    open spec fn strict(data: TVMFFIAny, types: &TypeTable) -> bool {
        types.instance_of(data.type_index, ModuleObj::index())
    }

    open spec fn castable(data: TVMFFIAny, types: &TypeTable) -> bool {
        types.instance_of(data.type_index, ModuleObj::index())
    }

    open spec fn copyable(data: TVMFFIAny, heap: &ObjectHeap) -> bool {
        data.v_obj != 0 && heap.shareable(data.v_obj)
    }

    open spec fn copied(data: TVMFFIAny, before: &ObjectHeap, after: &ObjectHeap) -> bool {
        acquired(before, after, data.v_obj)
    }

    open spec fn is_value_of(&self, data: TVMFFIAny) -> bool {
        self.data.ptr == data.v_obj
    }

    open spec fn mismatch(data: TVMFFIAny, types: &TypeTable) -> Seq<char> {
        type_key_of(types, data.type_index)
    }

    fn match_any_exact() -> bool {
        ModuleObj::type_final() && ModuleObj::type_index_static()
    }

    fn match_any_exact_type_index() -> i32 {
        ModuleObj::type_index()
    }

    fn type_str() -> String {
        ModuleObj::type_key().to_owned()
    }

    fn copy_to_any_view(src: &Self, heap: &ObjectHeap) -> TVMFFIAny {
        hold_object(ObjectArc::as_raw(&src.data), heap)
    }

    fn move_to_any(src: Self, heap: &ObjectHeap) -> TVMFFIAny {
        hold_object(ObjectArc::into_raw(src.data), heap)
    }

    fn check_any_strict(data: &TVMFFIAny, types: &TypeTable) -> bool {
        is_instance_of::<ModuleObj>(types, data.type_index)
    }

    fn copy_from_any_view_after_check(data: &TVMFFIAny, heap: &mut ObjectHeap) -> Self {
        // The view does not own the object.
        share_held(data, heap);
        Module { data: ObjectArc::from_raw(data.v_obj) }
    }

    fn move_from_any_after_check(data: TVMFFIAny) -> Self {
        Module { data: ObjectArc::from_raw(data.v_obj) }
    }

    fn can_cast_from_any_view(data: &TVMFFIAny, types: &TypeTable) -> bool {
        is_instance_of::<ModuleObj>(types, data.type_index)
    }

    fn try_cast_from_any_view(
        data: &TVMFFIAny,
        types: &TypeTable,
        heap: &mut ObjectHeap,
    ) -> Result<Self, ()> {
        if is_instance_of::<ModuleObj>(types, data.type_index) {
            Ok(Self::copy_from_any_view_after_check(data, heap))
        } else {
            Err(())
        }
    }

    fn get_mismatch_type_info(data: &TVMFFIAny, types: &TypeTable) -> String {
        type_key(types, data.type_index)
    }
}

impl ObjectRefAny for Module {
    proof fn held_as_object(&self, heap: &ObjectHeap) {
    }

    proof fn taken_as_object(&self, data: TVMFFIAny) {
    }

    proof fn copied_as_object(data: TVMFFIAny, before: &ObjectHeap, after: &ObjectHeap) {
    }
}

impl ObjectRefByType for Module {
    proof fn decided_by_type(data: TVMFFIAny, types: &TypeTable) {
        lemma_instance_of(data.type_index, ModuleObj::index(), types);
    }
}

/// What calling a function at `handle` and converting its result returns and
/// does.
pub open spec fn call_converted<T: AnyCompatible, C>(
    safe_call: C,
    handle: usize,
    args: Seq<AnyView>,
    types: &TypeTable,
    before: ObjectHeap,
    after: ObjectHeap,
    result: Result<T, Error>,
) -> bool where
    C: FnOnce(usize, &[AnyView], i32, ObjectHeap) -> (ObjectHeap, Result<TVMFFIAny, Error>),
 {
    exists|called: ObjectHeap, returned: Result<Any, Error>|
        {
            &&& #[trigger] packed_called(safe_call, handle, args, before, called, returned)
            &&& match returned {
                Ok(any) => conversion(any.data, types, &called, &after, result),
                Err(error) => result == Err::<T, Error>(error) && after == called,
            }
        }
}

/// The function at `handle` may be called, and what it returns converted.
pub open spec fn call_convertible<T: AnyCompatible, C>(
    safe_call: C,
    handle: usize,
    args: Seq<AnyView>,
    types: &TypeTable,
    heap: ObjectHeap,
) -> bool where
    C: FnOnce(usize, &[AnyView], i32, ObjectHeap) -> (ObjectHeap, Result<TVMFFIAny, Error>),
 {
    &&& call_allowed(safe_call, handle, args, heap)
    &&& forall|called: ObjectHeap, any: Any| #[trigger]
        packed_called(safe_call, handle, args, heap, called, Ok(any)) ==> convertible::<T>(
            any.data,
            types,
            &called,
        )
}

fn call_and_convert<T: AnyCompatible, C>(
    function: &Function,
    packed_args: &[AnyView],
    types: &TypeTable,
    heap: &mut ObjectHeap,
    safe_call: C,
) -> (result: Result<T, Error>) where
    C: FnOnce(usize, &[AnyView], i32, ObjectHeap) -> (ObjectHeap, Result<TVMFFIAny, Error>),

    requires
        function.data.ptr != 0,
        packed_args@.len() <= i32::MAX,
        types.well_formed(),
        call_convertible::<T, C>(
            safe_call,
            function.data.ptr,
            packed_args@,
            types,
            *old(heap),
        ),
    ensures
        call_converted(
            safe_call,
            function.data.ptr,
            packed_args@,
            types,
            *old(heap),
            *final(heap),
            result,
        ),
{
    let returned: Result<Any, Error> = function.call_packed(packed_args, heap, safe_call);
    assert(packed_called(
        safe_call,
        function.data.ptr,
        packed_args@,
        *old(heap),
        *heap,
        returned,
    ));
    match returned {
        Ok(any) => try_from_any(any, types, heap),
        Err(error) => Err(error),
    }
}

/// The global function that loads modules.
pub const LOAD_FROM_FILE: &'static str = "ffi.ModuleLoadFromFile";

/// The global function that finds functions in modules.
pub const GET_FUNCTION: &'static str = "ffi.ModuleGetFunction";

/// The value true, as it is passed.
pub open spec fn passed_true() -> AnyView {
    AnyView { data: TVMFFIAny::integer(K_TVM_FFI_BOOL, 1) }
}

impl Module {
    /// Loads a module from a dynamic library.
    ///
    /// This is up to the global function `ffi.ModuleLoadFromFile`, which is
    /// remembered in `cell`. `make_str` makes a view of a text.
    pub fn load_from_file<L, S, C>(
        file_name: &str,
        cell: &mut Option<Function>,
        types: &TypeTable,
        heap: &mut ObjectHeap,
        lookup: L,
        make_str: S,
        safe_call: C,
    ) -> (result: Result<Module, Error>) where
        L: FnOnce(&str, ObjectHeap) -> (ObjectHeap, Result<usize, Error>),
        S: FnOnce(&str) -> AnyView,
        C: FnOnce(usize, &[AnyView], i32, ObjectHeap) -> (ObjectHeap, Result<TVMFFIAny, Error>),

        requires
            types.well_formed(),
            *old(cell) is None ==> call_requires(lookup, (LOAD_FROM_FILE, *old(heap))),
            call_requires(make_str, (file_name,)),
            forall|loader: Function, ready: ObjectHeap, name: AnyView|
                #[trigger] cell_filled(
                    lookup,
                    LOAD_FROM_FILE,
                    *old(cell),
                    Some(loader),
                    *old(heap),
                    ready,
                    Ok(()),
                ) && #[trigger] call_ensures(make_str, (file_name,), name) ==> {
                    &&& loader.data.ptr != 0
                    &&& call_convertible::<Module, C>(
                        safe_call,
                        loader.data.ptr,
                        seq![name],
                        types,
                        ready,
                    )
                },
        ensures
            exists|ready: ObjectHeap, filled: Result<(), Error>|
                {
                    &&& #[trigger] cell_filled(
                        lookup,
                        LOAD_FROM_FILE,
                        *old(cell),
                        *final(cell),
                        *old(heap),
                        ready,
                        filled,
                    )
                    &&& match filled {
                        Err(error) => {
                            &&& result == Err::<Module, Error>(error)
                            &&& *final(heap) == ready
                        },
                        Ok(_) => exists|name: AnyView|
                            {
                                &&& #[trigger] call_ensures(make_str, (file_name,), name)
                                &&& *final(cell) is Some
                                &&& call_converted(
                                    safe_call,
                                    final(cell)->0.data.ptr,
                                    seq![name],
                                    types,
                                    ready,
                                    *final(heap),
                                    result,
                                )
                            },
                    }
                },
    {
        let name: AnyView = make_str(file_name);
        if let Err(error) = Function::cache_global(cell, heap, LOAD_FROM_FILE, lookup) {
            return Err(error);
        }
        let packed_args: Vec<AnyView> = vec![name];
        assert(packed_args@ =~= seq![name]);
        match &*cell {
            Some(loader) => {
                assert(cell_filled(
                    lookup,
                    LOAD_FROM_FILE,
                    *old(cell),
                    Some(*loader),
                    *old(heap),
                    *heap,
                    Ok(()),
                ));
                call_and_convert(loader, packed_args.as_slice(), types, heap, safe_call)
            },
            None => vstd::pervasive::unreached(),
        }
    }

    /// Gets a function from the module by name, and from the modules that it
    /// imports.
    ///
    /// This is up to the global function `ffi.ModuleGetFunction`, which is
    /// remembered in `cell`. `make_str` makes a view of a text.
    pub fn get_function<L, S, C>(
        &self,
        name: &str,
        cell: &mut Option<Function>,
        types: &TypeTable,
        heap: &mut ObjectHeap,
        lookup: L,
        make_str: S,
        safe_call: C,
    ) -> (result: Result<Function, Error>) where
        L: FnOnce(&str, ObjectHeap) -> (ObjectHeap, Result<usize, Error>),
        S: FnOnce(&str) -> AnyView,
        C: FnOnce(usize, &[AnyView], i32, ObjectHeap) -> (ObjectHeap, Result<TVMFFIAny, Error>),

        requires
            types.well_formed(),
            *old(cell) is None ==> call_requires(lookup, (GET_FUNCTION, *old(heap))),
            call_requires(make_str, (name,)),
            forall|getter: Function, ready: ObjectHeap, text: AnyView|
                #[trigger] cell_filled(
                    lookup,
                    GET_FUNCTION,
                    *old(cell),
                    Some(getter),
                    *old(heap),
                    ready,
                    Ok(()),
                ) && #[trigger] call_ensures(make_str, (name,), text) ==> {
                    &&& getter.data.ptr != 0
                    &&& ready.well_formed()
                    &&& object_exists(self.data.ptr, &ready)
                    &&& call_convertible::<Function, C>(
                        safe_call,
                        getter.data.ptr,
                        query(self.data.ptr, text, &ready),
                        types,
                        ready,
                    )
                },
        ensures
            exists|ready: ObjectHeap, filled: Result<(), Error>|
                {
                    &&& #[trigger] cell_filled(
                        lookup,
                        GET_FUNCTION,
                        *old(cell),
                        *final(cell),
                        *old(heap),
                        ready,
                        filled,
                    )
                    &&& match filled {
                        Err(error) => {
                            &&& result == Err::<Function, Error>(error)
                            &&& *final(heap) == ready
                        },
                        Ok(_) => exists|text: AnyView|
                            {
                                &&& #[trigger] call_ensures(make_str, (name,), text)
                                &&& *final(cell) is Some
                                &&& call_converted(
                                    safe_call,
                                    final(cell)->0.data.ptr,
                                    query(self.data.ptr, text, &ready),
                                    types,
                                    ready,
                                    *final(heap),
                                    result,
                                )
                            },
                    }
                },
    {
        let text: AnyView = make_str(name);
        if let Err(error) = Function::cache_global(cell, heap, GET_FUNCTION, lookup) {
            return Err(error);
        }
        match &*cell {
            Some(getter) => {
                assert(cell_filled(
                    lookup,
                    GET_FUNCTION,
                    *old(cell),
                    Some(*getter),
                    *old(heap),
                    *heap,
                    Ok(()),
                ));
                let this: AnyView = AnyView { data: Module::copy_to_any_view(self, heap) };
                let query_imports: AnyView = AnyView { data: bool::copy_to_any_view(&true, heap) };
                let packed_args: Vec<AnyView> = vec![this, text, query_imports];
                assert(packed_args@ =~= query(self.data.ptr, text, heap));
                call_and_convert(getter, packed_args.as_slice(), types, heap, safe_call)
            },
            None => vstd::pervasive::unreached(),
        }
    }
}

/// What a module is asked with: the module, the name, and whether to look into
/// its imports.
pub open spec fn query(module: usize, name: AnyView, heap: &ObjectHeap) -> Seq<AnyView> {
    seq![AnyView { data: held_object(module, heap) }, name, passed_true()]
}

/// A module is asked for a function with three arguments: itself, the name, and true
/// for its imports.
pub proof fn law_query_is_for_the_name_in_the_module(
    module: &Module,
    name: AnyView,
    heap: &ObjectHeap,
    types: &TypeTable,
)
    ensures
        ({
            let args = query(module.data.ptr, name, heap);
            &&& args.len() == 3
            &&& args[0].data == module.held(heap)
            &&& args[1] == name
            &&& bool::strict(args[2].data, types)
            &&& forall|imports: bool| #[trigger] imports.is_value_of(args[2].data) ==> imports
        }),
{
}

} // verus!
