//! Functions: calls, lookup and construction.

use crate::any::{Any, AnyView, TVMFFIAny};
use crate::error::{
    error_view, outcome, Error, ErrorView, RUNTIME_ERROR, TYPE_ERROR, VALUE_ERROR,
};
use crate::function_internal::packed_args::TupleAsPackedArgs;
use crate::function_internal::{
    callback_ended, failed, invoke_packed_c_abi, receive_args, received_args, replies_to,
    reply_to, seen_args, AsPackedCallable, CallReply, CallbackOutcome,
};
use crate::object::arc::{acquired, allocation, fresh_header, ObjectArc};
use crate::object::heap::{given_up, payload_layout, ObjectHeap, ObjectStore};
use crate::object::reflection::{
    is_or_inherits, owns_alive, strict_conversion, try_from_any_strict,
};
use crate::object::refs::{
    held_object, hold_object, lemma_instance_of, object_exists, share_held, ObjectRef,
    ObjectRefAny, ObjectRefByType, ObjectRefCore,
};
use crate::object::unsafe_::ObjectDeleter;
use crate::object::{Object, ObjectCore};
use crate::text::{decimal, push_signed};
use crate::type_index::{K_TVM_FFI_FUNCTION, K_TVM_FFI_NONE};
use crate::type_table::{
    find_method, first_method, is_instance_of, law_first_method_is_found,
    law_instance_of_is_ancestry, named_method, TypeInfo, TypeTable,
};
use crate::type_traits::{type_key, type_key_of, AnyCompatible};
use vstd::prelude::*;

verus! {

/// The payload of a function, as every function has it.
pub struct FunctionObj {
    pub object: Object,
}

impl FunctionObj {
    pub fn new() -> (function: FunctionObj)
        ensures
            function.object == Object::room(),
    {
        FunctionObj { object: Object::new() }
    }
}

/// A shared handle to a function.
pub struct Function {
    pub data: ObjectArc<FunctionObj>,
}

impl ObjectCore for FunctionObj {
    open spec fn key() -> Seq<char> {
        "ffi.Function"@
    }

    open spec fn depth() -> i32 {
        1
    }

    open spec fn is_final() -> bool {
        false
    }

    open spec fn index_is_static() -> bool {
        true
    }

    open spec fn index() -> i32 {
        K_TVM_FFI_FUNCTION
    }

    fn type_key() -> &'static str {
        "ffi.Function"
    }

    fn type_depth() -> i32 {
        1
    }

    fn type_final() -> bool {
        false
    }

    fn type_index_static() -> bool {
        true
    }

    fn type_index() -> i32 {
        K_TVM_FFI_FUNCTION
    }
}

impl ObjectRefCore for Function {
    type ContainerType = FunctionObj;

    open spec fn address(&self) -> usize {
        self.data.ptr
    }

    fn data(this: &Self) -> &ObjectArc<Self::ContainerType> {
        &this.data
    }

    fn into_data(this: Self) -> ObjectArc<Self::ContainerType> {
        this.data
    }

    fn from_data(data: ObjectArc<Self::ContainerType>) -> Self {
        Function { data }
    }
}

impl AnyCompatible for Function {
    open spec fn exact() -> bool {
        FunctionObj::is_final() && FunctionObj::index_is_static()
    }

    open spec fn exact_index() -> i32 {
        FunctionObj::index()
    }

    open spec fn name_of_type() -> Seq<char> {
        FunctionObj::key()
    }

    open spec fn holdable(&self, heap: &ObjectHeap) -> bool {
        object_exists(self.data.ptr, heap)
    }

    open spec fn held(&self, heap: &ObjectHeap) -> TVMFFIAny {
        held_object(self.data.ptr, heap)
    }

    open spec fn strict(data: TVMFFIAny, types: &TypeTable) -> bool {
        types.instance_of(data.type_index, FunctionObj::index())
    }

    open spec fn castable(data: TVMFFIAny, types: &TypeTable) -> bool {
        types.instance_of(data.type_index, FunctionObj::index())
    }

    open spec fn copyable(data: TVMFFIAny, heap: &ObjectHeap) -> bool {
        data.v_obj != 0 && heap.shareable(data.v_obj)
    }

    open spec fn copied(data: TVMFFIAny, before: &ObjectHeap, after: &ObjectHeap) -> bool {
        acquired(before, after, data.v_obj)
    }

    open spec fn is_value_of(&self, data: TVMFFIAny) -> bool {
        self.data.ptr == data.v_obj
    }

    open spec fn mismatch(data: TVMFFIAny, types: &TypeTable) -> Seq<char> {
        type_key_of(types, data.type_index)
    }

    fn match_any_exact() -> bool {
        FunctionObj::type_final() && FunctionObj::type_index_static()
    }

    fn match_any_exact_type_index() -> i32 {
        FunctionObj::type_index()
    }

    fn type_str() -> String {
        FunctionObj::type_key().to_owned()
    }

    fn copy_to_any_view(src: &Self, heap: &ObjectHeap) -> TVMFFIAny {
        hold_object(ObjectArc::as_raw(&src.data), heap)
    }

    fn move_to_any(src: Self, heap: &ObjectHeap) -> TVMFFIAny {
        hold_object(ObjectArc::into_raw(src.data), heap)
    }

    fn check_any_strict(data: &TVMFFIAny, types: &TypeTable) -> bool {
        is_instance_of::<FunctionObj>(types, data.type_index)
    }

    fn copy_from_any_view_after_check(data: &TVMFFIAny, heap: &mut ObjectHeap) -> Self {
        // The view does not own the object.
        share_held(data, heap);
        Function { data: ObjectArc::from_raw(data.v_obj) }
    }

    fn move_from_any_after_check(data: TVMFFIAny) -> Self {
        Function { data: ObjectArc::from_raw(data.v_obj) }
    }

    fn can_cast_from_any_view(data: &TVMFFIAny, types: &TypeTable) -> bool {
        is_instance_of::<FunctionObj>(types, data.type_index)
    }

    fn try_cast_from_any_view(
        data: &TVMFFIAny,
        types: &TypeTable,
        heap: &mut ObjectHeap,
    ) -> Result<Self, ()> {
        if is_instance_of::<FunctionObj>(types, data.type_index) {
            Ok(Self::copy_from_any_view_after_check(data, heap))
        } else {
            Err(())
        }
    }

    fn get_mismatch_type_info(data: &TVMFFIAny, types: &TypeTable) -> String {
        type_key(types, data.type_index)
    }
}

impl ObjectRefAny for Function {
    proof fn held_as_object(&self, heap: &ObjectHeap) {
    }

    proof fn taken_as_object(&self, data: TVMFFIAny) {
    }

    proof fn copied_as_object(data: TVMFFIAny, before: &ObjectHeap, after: &ObjectHeap) {
    }
}

impl ObjectRefByType for Function {
    proof fn decided_by_type(data: TVMFFIAny, types: &TypeTable) {
        lemma_instance_of(data.type_index, FunctionObj::index(), types);
    }
}

//-----------------------------------------------------
// Calls
//-----------------------------------------------------
/// What a native call gives back: the value, or the error that was raised.
pub open spec fn call_result(raw: Result<TVMFFIAny, Error>, result: Result<Any, Error>) -> bool {
    match raw {
        Ok(data) => result matches Ok(any) && any.data == data,
        Err(error) => result == Err::<Any, Error>(error),
    }
}

/// A native call returned `raw`, and left the heap as `after`.
pub open spec fn native_call<C>(
    safe_call: C,
    handle: usize,
    packed_args: &[AnyView],
    num_args: i32,
    before: ObjectHeap,
    after: ObjectHeap,
    raw: Result<TVMFFIAny, Error>,
) -> bool where
    C: FnOnce(usize, &[AnyView], i32, ObjectHeap) -> (ObjectHeap, Result<TVMFFIAny, Error>),
 {
    call_ensures(safe_call, (handle, packed_args, num_args, before), (after, raw))
}

/// The native function at `handle` was called with these arguments.
pub open spec fn packed_called<C>(
    safe_call: C,
    handle: usize,
    args: Seq<AnyView>,
    before: ObjectHeap,
    after: ObjectHeap,
    result: Result<Any, Error>,
) -> bool where
    C: FnOnce(usize, &[AnyView], i32, ObjectHeap) -> (ObjectHeap, Result<TVMFFIAny, Error>),
 {
    exists|packed_args: &[AnyView], raw: Result<TVMFFIAny, Error>|
        {
            &&& packed_args@ == args
            &&& #[trigger] native_call(
                safe_call,
                handle,
                packed_args,
                args.len() as i32,
                before,
                after,
                raw,
            )
            &&& call_result(raw, result)
        }
}

pub open spec fn too_many_arguments() -> ErrorView {
    error_view(VALUE_ERROR, "packed argument count exceeds i32::MAX"@)
}

/// What a packed call returns and does.
pub open spec fn packed_result<C>(
    safe_call: C,
    handle: usize,
    args: Seq<AnyView>,
    before: ObjectHeap,
    after: ObjectHeap,
    result: Result<Any, Error>,
) -> bool where
    C: FnOnce(usize, &[AnyView], i32, ObjectHeap) -> (ObjectHeap, Result<TVMFFIAny, Error>),
 {
    if args.len() > i32::MAX {
        (result matches Err(error) && error@ == too_many_arguments()) && after == before
    } else {
        packed_called(safe_call, handle, args, before, after, result)
    }
}

/// The native function at `handle` may be called with these arguments.
pub open spec fn call_allowed<C>(
    safe_call: C,
    handle: usize,
    args: Seq<AnyView>,
    heap: ObjectHeap,
) -> bool where
    C: FnOnce(usize, &[AnyView], i32, ObjectHeap) -> (ObjectHeap, Result<TVMFFIAny, Error>),
 {
    forall|packed_args: &[AnyView]|
        packed_args@ == args ==> #[trigger] call_requires(
            safe_call,
            (handle, packed_args, args.len() as i32, heap),
        )
}

/// The native function at `handle` may be called with the packed form of a
/// tuple, and what the tuple owns can be given up after the call.
pub open spec fn tuple_callable<TupleType: TupleAsPackedArgs, C>(
    safe_call: C,
    handle: usize,
    tuple_args: TupleType,
    args: Seq<AnyView>,
    heap: ObjectHeap,
) -> bool where
    C: FnOnce(usize, &[AnyView], i32, ObjectHeap) -> (ObjectHeap, Result<TVMFFIAny, Error>),
 {
    &&& call_allowed(safe_call, handle, args, heap)
    &&& forall|called: ObjectHeap, result: Result<Any, Error>| #[trigger]
        packed_result(safe_call, handle, args, heap, called, result) ==> called.well_formed()
            && tuple_args.releasable(&called)
}

/// What a call with the packed form of a tuple returns and does: what the tuple
/// owned is given up after the call.
pub open spec fn tuple_result<TupleType: TupleAsPackedArgs, C>(
    safe_call: C,
    handle: usize,
    tuple_args: TupleType,
    args: Seq<AnyView>,
    before: ObjectHeap,
    after: ObjectHeap,
    result: Result<Any, Error>,
) -> bool where
    C: FnOnce(usize, &[AnyView], i32, ObjectHeap) -> (ObjectHeap, Result<TVMFFIAny, Error>),
 {
    exists|called: ObjectHeap|
        {
            &&& #[trigger] packed_result(safe_call, handle, args, before, called, result)
            &&& tuple_args.released(&called, &after)
        }
}

impl Function {
    /// Calls the function in packed format.
    ///
    /// `safe_call` makes the native call through the function's cell. It works
    /// on the heap, which it is lent for as long as the call takes.
    pub fn call_packed<C>(
        &self,
        packed_args: &[AnyView],
        heap: &mut ObjectHeap,
        safe_call: C,
    ) -> (result: Result<Any, Error>) where
        C: FnOnce(usize, &[AnyView], i32, ObjectHeap) -> (ObjectHeap, Result<TVMFFIAny, Error>),

        requires
            self.data.ptr != 0,
            call_allowed(safe_call, self.data.ptr, packed_args@, *old(heap)),
        ensures
            packed_result(
                safe_call,
                self.data.ptr,
                packed_args@,
                *old(heap),
                *final(heap),
                result,
            ),
    {
        if packed_args.len() > i32::MAX as usize {
            return Err(Error::new(VALUE_ERROR, "packed argument count exceeds i32::MAX"));
        }
        let num_args: i32 = packed_args.len() as i32;
        let mut lent: ObjectHeap = ObjectHeap::new();
        core::mem::swap(heap, &mut lent);
        let (after, raw): (ObjectHeap, Result<TVMFFIAny, Error>) = safe_call(
            ObjectArc::as_raw(&self.data),
            packed_args,
            num_args,
            lent,
        );
        *heap = after;
        assert(native_call(
            safe_call,
            self.data.ptr,
            packed_args,
            num_args,
            *old(heap),
            *heap,
            raw,
        ));
        match raw {
            Ok(data) => Ok(Any::from_raw_ffi_any(data)),
            Err(error) => Err(error),
        }
    }

    /// Calls the function with the elements of a tuple, which are given up after
    /// the call.
    pub fn call_tuple<TupleType: TupleAsPackedArgs, C>(
        &self,
        tuple_args: TupleType,
        heap: &mut ObjectHeap,
        safe_call: C,
    ) -> (result: Result<Any, Error>) where
        C: FnOnce(usize, &[AnyView], i32, ObjectHeap) -> (ObjectHeap, Result<TVMFFIAny, Error>),

        requires
            self.data.ptr != 0,
            old(heap).well_formed(),
            tuple_args.viewable(old(heap)),
            tuple_callable(
                safe_call,
                self.data.ptr,
                tuple_args,
                tuple_args.views(old(heap)),
                *old(heap),
            ),
        ensures
            tuple_result(
                safe_call,
                self.data.ptr,
                tuple_args,
                tuple_args.views(old(heap)),
                *old(heap),
                *final(heap),
                result,
            ),
    {
        let mut packed_args: Vec<AnyView> = vec![AnyView::new(); TupleType::len()];
        let ghost empty = packed_args@;
        tuple_args.fill_any_view(packed_args.as_mut_slice(), heap);
        assert(packed_args@ =~= tuple_args.views(heap)) by {
            assert(empty.skip(TupleType::arity() as int) =~= Seq::empty());
        }
        let result: Result<Any, Error> = self.call_packed(packed_args.as_slice(), heap, safe_call);
        let ghost called = *heap;
        assert(packed_result(
            safe_call,
            self.data.ptr,
            tuple_args.views(old(heap)),
            *old(heap),
            called,
            result,
        ));
        tuple_args.give_up(heap);
        result
    }

    /// Calls the function with the elements of a tuple, in `LEN` places. Places
    /// after the last element hold none. The elements are given up after the
    /// call.
    pub fn call_tuple_with_len<const LEN: usize, TupleType: TupleAsPackedArgs, C>(
        &self,
        tuple_args: TupleType,
        heap: &mut ObjectHeap,
        safe_call: C,
    ) -> (result: Result<Any, Error>) where
        C: FnOnce(usize, &[AnyView], i32, ObjectHeap) -> (ObjectHeap, Result<TVMFFIAny, Error>),

        requires
            self.data.ptr != 0,
            old(heap).well_formed(),
            tuple_args.viewable(old(heap)),
            TupleType::arity() <= LEN,
            tuple_callable(
                safe_call,
                self.data.ptr,
                tuple_args,
                tuple_args.views(old(heap)) + no_values((LEN - TupleType::arity()) as nat),
                *old(heap),
            ),
        ensures
            tuple_result(
                safe_call,
                self.data.ptr,
                tuple_args,
                tuple_args.views(old(heap)) + no_values((LEN - TupleType::arity()) as nat),
                *old(heap),
                *final(heap),
                result,
            ),
    {
        let mut packed_args: Vec<AnyView> = vec![AnyView::new(); LEN];
        let ghost empty = packed_args@;
        tuple_args.fill_any_view(packed_args.as_mut_slice(), heap);
        assert(packed_args@ =~= tuple_args.views(heap) + no_values(
            (LEN - TupleType::arity()) as nat,
        ));
        let result: Result<Any, Error> = self.call_packed(packed_args.as_slice(), heap, safe_call);
        let ghost called = *heap;
        assert(packed_result(
            safe_call,
            self.data.ptr,
            packed_args@,
            *old(heap),
            called,
            result,
        ));
        tuple_args.give_up(heap);
        result
    }
}

/// Places that hold none.
pub open spec fn no_values(count: nat) -> Seq<AnyView> {
    Seq::new(count, |i: int| AnyView { data: TVMFFIAny::none() })
}

//-----------------------------------------------------
// Keyword arguments
//-----------------------------------------------------
/// Keys and values in turn.
pub open spec fn interleaved(keys: Seq<AnyView>, values: Seq<AnyView>) -> Seq<AnyView> {
    Seq::new(
        keys.len() * 2,
        |i: int|
            if i % 2 == 0 {
                keys[i / 2]
            } else {
                values[i / 2]
            },
    )
}

/// The packed form of a call with keyword arguments: the positional arguments,
/// the sentinel, then each keyword and its value.
pub open spec fn kwargs_packed(
    positional: Seq<AnyView>,
    sentinel: AnyView,
    keys: Seq<AnyView>,
    values: Seq<AnyView>,
) -> Seq<AnyView> {
    positional + seq![sentinel] + interleaved(keys, values)
}

/// The packed arguments that `named` stands for; `keys` are what `make_key`
/// made of the keywords.
pub open spec fn keys_made<S>(
    make_key: S,
    named: Seq<(&str, AnyView)>,
    keys: Seq<AnyView>,
) -> bool where S: Fn(&str) -> AnyView {
    &&& keys.len() == named.len()
    &&& forall|i: int|
        0 <= i < named.len() ==> call_ensures(make_key, (named[i].0,), #[trigger] keys[i])
}

pub open spec fn named_values(named: Seq<(&str, AnyView)>) -> Seq<AnyView> {
    Seq::new(named.len(), |i: int| named[i].1)
}

/// The number of arguments of a call with keyword arguments, or what is wrong
/// with it.
pub open spec fn kwargs_count(positional: nat, named: nat) -> Result<usize, ErrorView> {
    let total = positional + named * 2 + 1;
    if total > usize::MAX {
        Err(error_view(VALUE_ERROR, "packed argument count overflow"@))
    } else if total > i32::MAX {
        Err(too_many_arguments())
    } else {
        Ok(total as usize)
    }
}

fn checked_kwargs_count(positional: usize, named: usize) -> (total: Result<usize, Error>)
    ensures
        outcome(total) == kwargs_count(positional as nat, named as nat),
{
    let slots: Option<usize> = match named.checked_mul(2) {
        Some(slots) => match positional.checked_add(slots) {
            Some(slots) => slots.checked_add(1),
            None => None,
        },
        None => None,
    };
    match slots {
        None => Err(Error::new(VALUE_ERROR, "packed argument count overflow")),
        Some(total) => if total > i32::MAX as usize {
            Err(Error::new(VALUE_ERROR, "packed argument count exceeds i32::MAX"))
        } else {
            Ok(total)
        },
    }
}

/// Packs positional and keyword arguments around the sentinel.
pub fn pack_kwargs<S>(
    positional: &[AnyView],
    sentinel: AnyView,
    named: &[(&str, AnyView)],
    make_key: S,
) -> (packed_args: Vec<AnyView>) where S: Fn(&str) -> AnyView
    requires
        forall|i: int|
            0 <= i < named@.len() ==> call_requires(make_key, ((#[trigger] named@[i]).0,)),
    ensures
        exists|keys: Seq<AnyView>|
            {
                &&& #[trigger] keys_made(make_key, named@, keys)
                &&& packed_args@ == kwargs_packed(
                    positional@,
                    sentinel,
                    keys,
                    named_values(named@),
                )
                &&& packs_keywords(
                    packed_args@,
                    positional@,
                    sentinel,
                    keys,
                    named_values(named@),
                )
            },
{
    let mut packed_args: Vec<AnyView> = Vec::new();
    packed_args.extend_from_slice(positional);
    packed_args.push(sentinel);
    let ghost mut keys: Seq<AnyView> = Seq::empty();
    let mut index: usize = 0;
    while index < named.len()
        invariant
            index <= named@.len(),
            forall|i: int|
                0 <= i < named@.len() ==> call_requires(make_key, ((#[trigger] named@[i]).0,)),
            keys_made(make_key, named@.take(index as int), keys),
            packed_args@ == kwargs_packed(
                positional@,
                sentinel,
                keys,
                named_values(named@.take(index as int)),
            ),
        decreases named@.len() - index,
    {
        let key: AnyView = make_key(named[index].0);
        packed_args.push(key);
        packed_args.push(named[index].1);
        proof {
            let before = keys;
            keys = keys.push(key);
            let (short, long) = (named@.take(index as int), named@.take(index + 1));
            assert forall|i: int| 0 <= i < long.len() implies call_ensures(
                make_key,
                (long[i].0,),
                #[trigger] keys[i],
            ) by {
                if i < index {
                    assert(keys[i] == before[i]);
                    assert(long[i] == short[i]);
                }
            }
            assert(packed_args@ =~= kwargs_packed(
                positional@,
                sentinel,
                keys,
                named_values(long),
            ));
        }
        index = index + 1;
    }
    assert(named@.take(index as int) =~= named@);
    proof {
        law_keywords_follow_the_sentinel(positional@, sentinel, keys, named_values(named@));
    }
    packed_args
}

/// Obtaining the sentinel returned `sentinel`, and left the heap as `after`.
pub open spec fn kwargs_obtained<K>(
    get_kwargs: K,
    before: ObjectHeap,
    after: ObjectHeap,
    sentinel: Result<ObjectRef, Error>,
) -> bool where K: FnOnce(ObjectHeap) -> (ObjectHeap, Result<ObjectRef, Error>) {
    call_ensures(get_kwargs, (before,), (after, sentinel))
}

/// The function at `handle` may be called with keyword arguments, whatever the
/// sentinel is. The sentinel stays alive until the call is over.
pub open spec fn kwargs_callable<S, C>(
    handle: usize,
    positional: Seq<AnyView>,
    named: Seq<(&str, AnyView)>,
    sentinel: ObjectRef,
    make_key: S,
    safe_call: C,
    heap: ObjectHeap,
) -> bool where
    S: Fn(&str) -> AnyView,
    C: FnOnce(usize, &[AnyView], i32, ObjectHeap) -> (ObjectHeap, Result<TVMFFIAny, Error>),
 {
    &&& heap.well_formed()
    &&& object_exists(sentinel.data.ptr, &heap)
    &&& forall|keys: Seq<AnyView>| #[trigger]
        keys_made(make_key, named, keys) ==> {
            let args = kwargs_packed(
                positional,
                AnyView { data: held_object(sentinel.data.ptr, &heap) },
                keys,
                named_values(named),
            );
            &&& call_allowed(safe_call, handle, args, heap)
            &&& forall|after: ObjectHeap, result: Result<Any, Error>| #[trigger]
                packed_called(safe_call, handle, args, heap, after, result) ==> {
                    &&& after.well_formed()
                    &&& sentinel.data.ptr != 0 ==> after.alive(sentinel.data.ptr)
                }
        }
}

/// What a call with keyword arguments returns and does once the sentinel is
/// obtained: it is given up after the call.
pub open spec fn kwargs_called<S, C>(
    handle: usize,
    positional: Seq<AnyView>,
    named: Seq<(&str, AnyView)>,
    sentinel: ObjectRef,
    make_key: S,
    safe_call: C,
    before: ObjectHeap,
    after: ObjectHeap,
    result: Result<Any, Error>,
) -> bool where
    S: Fn(&str) -> AnyView,
    C: FnOnce(usize, &[AnyView], i32, ObjectHeap) -> (ObjectHeap, Result<TVMFFIAny, Error>),
 {
    exists|keys: Seq<AnyView>, called: ObjectHeap|
        {
            &&& #[trigger] keys_made(make_key, named, keys)
            &&& packed_called(
                safe_call,
                handle,
                kwargs_packed(
                    positional,
                    AnyView { data: held_object(sentinel.data.ptr, &before) },
                    keys,
                    named_values(named),
                ),
                before,
                called,
                result,
            )
            &&& #[trigger] given_up(&called, &after, sentinel.data.ptr)
        }
}

impl Function {
    /// Calls this function with positional and keyword arguments.
    ///
    /// `get_kwargs` obtains the sentinel, and `make_key` a view of a keyword.
    pub fn call_packed_with_kwargs<K, S, C>(
        &self,
        positional: &[AnyView],
        named: &[(&str, AnyView)],
        heap: &mut ObjectHeap,
        get_kwargs: K,
        make_key: S,
        safe_call: C,
    ) -> (result: Result<Any, Error>) where
        K: FnOnce(ObjectHeap) -> (ObjectHeap, Result<ObjectRef, Error>),
        S: Fn(&str) -> AnyView,
        C: FnOnce(usize, &[AnyView], i32, ObjectHeap) -> (ObjectHeap, Result<TVMFFIAny, Error>),

        requires
            self.data.ptr != 0,
            call_requires(get_kwargs, (*old(heap),)),
            forall|i: int|
                0 <= i < named@.len() ==> call_requires(make_key, ((#[trigger] named@[i]).0,)),
            forall|ready: ObjectHeap, sentinel: ObjectRef| #[trigger]
                kwargs_obtained(get_kwargs, *old(heap), ready, Ok(sentinel)) ==> kwargs_callable(
                    self.data.ptr,
                    positional@,
                    named@,
                    sentinel,
                    make_key,
                    safe_call,
                    ready,
                ),
        ensures
            match kwargs_count(positional@.len(), named@.len()) {
                Err(error) => {
                    &&& result matches Err(e) && e@ == error
                    &&& *final(heap) == *old(heap)
                },
                Ok(_) => exists|ready: ObjectHeap, sentinel: Result<ObjectRef, Error>|
                    {
                        &&& #[trigger] kwargs_obtained(get_kwargs, *old(heap), ready, sentinel)
                        &&& match sentinel {
                            Err(error) => {
                                &&& result == Err::<Any, Error>(error)
                                &&& *final(heap) == ready
                            },
                            Ok(sentinel) => kwargs_called(
                                self.data.ptr,
                                positional@,
                                named@,
                                sentinel,
                                make_key,
                                safe_call,
                                ready,
                                *final(heap),
                                result,
                            ),
                        }
                    },
            },
    {
        match checked_kwargs_count(positional.len(), named.len()) {
            Ok(_) => {},
            Err(error) => return Err(error),
        }
        let mut lent: ObjectHeap = ObjectHeap::new();
        core::mem::swap(heap, &mut lent);
        let (after, sentinel): (ObjectHeap, Result<ObjectRef, Error>) = get_kwargs(lent);
        *heap = after;
        let ghost ready = *heap;
        assert(kwargs_obtained(get_kwargs, *old(heap), ready, sentinel));
        match sentinel {
            Err(error) => Err(error),
            Ok(kwargs) => {
                let view: AnyView = AnyView { data: ObjectRef::copy_to_any_view(&kwargs, heap) };
                let packed_args: Vec<AnyView> = pack_kwargs(positional, view, named, make_key);
                let result: Result<Any, Error> = self.call_packed(
                    packed_args.as_slice(),
                    heap,
                    safe_call,
                );
                let ghost called = *heap;
                proof {
                    let keys = choose|keys: Seq<AnyView>|
                        {
                            &&& #[trigger] keys_made(make_key, named@, keys)
                            &&& packed_args@ == kwargs_packed(
                                positional@,
                                view,
                                keys,
                                named_values(named@),
                            )
                        };
                    assert(packed_called(
                        safe_call,
                        self.data.ptr,
                        packed_args@,
                        ready,
                        called,
                        result,
                    ));
                }
                heap.release(ObjectArc::into_raw(kwargs.data));
                result
            },
        }
    }
}

//-----------------------------------------------------
// Lookup
//-----------------------------------------------------
pub open spec fn not_found_message(name: Seq<char>) -> Seq<char> {
    "Function "@ + name + " not found"@
}

/// The native registry answered a lookup with `handle`, and left the heap as
/// `after`.
pub open spec fn looked_up<L>(
    lookup: L,
    name: &str,
    before: ObjectHeap,
    after: ObjectHeap,
    handle: Result<usize, Error>,
) -> bool where L: FnOnce(&str, ObjectHeap) -> (ObjectHeap, Result<usize, Error>) {
    call_ensures(lookup, (name, before), (after, handle))
}

/// What a lookup of a global function returns and does.
pub open spec fn global_found<L>(
    lookup: L,
    name: &str,
    before: ObjectHeap,
    after: ObjectHeap,
    result: Result<Function, Error>,
) -> bool where L: FnOnce(&str, ObjectHeap) -> (ObjectHeap, Result<usize, Error>) {
    exists|handle: Result<usize, Error>|
        {
            &&& #[trigger] looked_up(lookup, name, before, after, handle)
            &&& match handle {
                Err(error) => result == Err::<Function, Error>(error),
                Ok(handle) => if handle == 0 {
                    result matches Err(error) && error@ == error_view(
                        RUNTIME_ERROR,
                        not_found_message(name@),
                    )
                } else {
                    result matches Ok(function) && function.data.ptr == handle
                },
            }
        }
}

/// What filling a cell with a global function returns and does. A cell that is
/// filled is left alone.
pub open spec fn cell_filled<L>(
    lookup: L,
    name: &str,
    cell: Option<Function>,
    cell_after: Option<Function>,
    before: ObjectHeap,
    after: ObjectHeap,
    result: Result<(), Error>,
) -> bool where L: FnOnce(&str, ObjectHeap) -> (ObjectHeap, Result<usize, Error>) {
    if cell is Some {
        result is Ok && cell_after == cell && after == before
    } else {
        exists|found: Result<Function, Error>|
            {
                &&& #[trigger] global_found(lookup, name, before, after, found)
                &&& match found {
                    Ok(function) => result is Ok && cell_after == Some(function),
                    Err(error) => result == Err::<(), Error>(error) && cell_after is None,
                }
            }
    }
}

/// A message about a name and a type index.
pub open spec fn named_message(
    before: Seq<char>,
    name: Seq<char>,
    between: Seq<char>,
    type_index: i32,
    after: Seq<char>,
) -> Seq<char> {
    before + name + between + decimal(type_index as int) + after
}

fn named_error(
    before: &str,
    name: &str,
    between: &str,
    type_index: i32,
    after: &str,
) -> (error: Error)
    ensures
        error@ == error_view(
            TYPE_ERROR,
            named_message(before@, name@, between@, type_index, after@),
        ),
{
    let mut text: String = before.to_owned();
    text.append(name);
    text.append(between);
    push_signed(&mut text, type_index as i64);
    text.append(after);
    Error::from_message(TYPE_ERROR, text)
}

/// The value is a function, or what is wrong with it.
pub open spec fn function_value(
    types: &TypeTable,
    data: TVMFFIAny,
    what: Seq<char>,
    name: Seq<char>,
    type_index: i32,
) -> Result<TVMFFIAny, ErrorView> {
    if !types.instance_of(data.type_index, FunctionObj::index()) {
        Err(
            error_view(
                TYPE_ERROR,
                named_message(
                    what + " `"@,
                    name,
                    "` on type_index `"@,
                    type_index,
                    "` is not a Function"@,
                ),
            ),
        )
    } else if data.v_obj == 0 {
        Err(
            error_view(
                TYPE_ERROR,
                named_message(what + " `"@, name, "` on type_index `"@, type_index, "` is null"@),
            ),
        )
    } else {
        Ok(data)
    }
}

/// The function that a reflected method or attribute of a type leads to.
///
/// Methods take precedence over attributes.
pub open spec fn reflected_function(
    types: &TypeTable,
    type_index: i32,
    name: Seq<char>,
) -> Result<TVMFFIAny, ErrorView> {
    match types.info(type_index) {
        None => Err(
            error_view(
                TYPE_ERROR,
                "no type info for type_index `"@ + decimal(type_index as int) + "`"@,
            ),
        ),
        Some(info) => match first_method(info.methods@, name) {
            Some(method) => function_value(types, method, "method"@, name, type_index),
            None => match types.attribute(name, type_index) {
                Some(attr) if attr.type_index != K_TVM_FFI_NONE => function_value(
                    types,
                    attr,
                    "type attribute"@,
                    name,
                    type_index,
                ),
                _ => Err(
                    error_view(
                        TYPE_ERROR,
                        named_message(
                            "method `"@,
                            name,
                            "` not found on type_index `"@,
                            type_index,
                            "`"@,
                        ),
                    ),
                ),
            },
        },
    }
}

fn check_function_value(
    types: &TypeTable,
    data: TVMFFIAny,
    what: &str,
    name: &str,
    type_index: i32,
) -> (result: Result<TVMFFIAny, Error>)
    requires
        types.well_formed(),
    ensures
        outcome(result) == function_value(types, data, what@, name@, type_index),
{
    let mut before: String = what.to_owned();
    before.append(" `");
    if !Function::check_any_strict(&data, types) {
        return Err(
            named_error(
                before.as_str(),
                name,
                "` on type_index `",
                type_index,
                "` is not a Function",
            ),
        );
    }
    if data.v_obj == 0 {
        return Err(
            named_error(before.as_str(), name, "` on type_index `", type_index, "` is null"),
        );
    }
    Ok(data)
}

/// Finds the function that a reflected method or attribute of a type leads to.
pub fn find_reflected_function(
    types: &TypeTable,
    type_index: i32,
    method_name: &str,
) -> (result: Result<TVMFFIAny, Error>)
    requires
        types.well_formed(),
    ensures
        outcome(result) == reflected_function(types, type_index, method_name@),
        types.is_tree() ==> is_function_of_type(
            types,
            type_index,
            method_name@,
            outcome(result),
        ),
{
    proof {
        if types.is_tree() {
            law_methods_come_before_attributes(types, type_index, method_name@);
        }
    }
    let info: &TypeInfo = match types.get(type_index) {
        Some(info) => info,
        None => {
            let mut text: String = "no type info for type_index `".to_owned();
            push_signed(&mut text, type_index as i64);
            text.append("`");
            return Err(Error::from_message(TYPE_ERROR, text));
        },
    };
    if let Some(method) = find_method(&info.methods, method_name) {
        return check_function_value(types, method, "method", method_name, type_index);
    }
    if let Some(attr) = types.get_attribute(method_name, type_index) {
        if attr.type_index != K_TVM_FFI_NONE {
            return check_function_value(types, attr, "type attribute", method_name, type_index);
        }
    }
    Err(
        named_error(
            "method `",
            method_name,
            "` not found on type_index `",
            type_index,
            "`",
        ),
    )
}

/// What looking a reflected function up returns and does.
pub open spec fn reflected_found(
    types: &TypeTable,
    type_index: i32,
    name: Seq<char>,
    before: &ObjectHeap,
    after: &ObjectHeap,
    result: Result<Function, Error>,
) -> bool {
    match reflected_function(types, type_index, name) {
        Err(error) => (result matches Err(e) && e@ == error) && *after == *before,
        Ok(data) => {
            &&& result matches Ok(function) && function.data.ptr == data.v_obj
            &&& acquired(before, after, data.v_obj)
        },
    }
}

impl Function {
    /// Gets a global function by name.
    ///
    /// `lookup` asks the native registry, which answers with null where it has
    /// no such function.
    pub fn get_global<L>(name: &str, heap: &mut ObjectHeap, lookup: L) -> (result: Result<
        Function,
        Error,
    >) where L: FnOnce(&str, ObjectHeap) -> (ObjectHeap, Result<usize, Error>)
        requires
            call_requires(lookup, (name, *old(heap))),
        ensures
            global_found(lookup, name, *old(heap), *final(heap), result),
    {
        let mut lent: ObjectHeap = ObjectHeap::new();
        core::mem::swap(heap, &mut lent);
        let (after, handle): (ObjectHeap, Result<usize, Error>) = lookup(name, lent);
        *heap = after;
        assert(looked_up(lookup, name, *old(heap), *heap, handle));
        match handle {
            Err(error) => Err(error),
            Ok(handle) => if handle == 0 {
                let mut text: String = "Function ".to_owned();
                text.append(name);
                text.append(" not found");
                Err(Error::from_message(RUNTIME_ERROR, text))
            } else {
                Ok(Function { data: ObjectArc::from_raw(handle) })
            },
        }
    }

    /// Fills a cell with a global function, unless it is filled already.
    pub fn cache_global<L>(
        cell: &mut Option<Function>,
        heap: &mut ObjectHeap,
        name: &str,
        lookup: L,
    ) -> (result: Result<(), Error>) where
        L: FnOnce(&str, ObjectHeap) -> (ObjectHeap, Result<usize, Error>),

        requires
            *old(cell) is None ==> call_requires(lookup, (name, *old(heap))),
        ensures
            cell_filled(
                lookup,
                name,
                *old(cell),
                *final(cell),
                *old(heap),
                *final(heap),
                result,
            ),
    {
        if cell.is_some() {
            return Ok(());
        }
        let found: Result<Function, Error> = Function::get_global(name, heap, lookup);
        assert(global_found(lookup, name, *old(heap), *heap, found));
        match found {
            Ok(function) => {
                *cell = Some(function);
                Ok(())
            },
            Err(error) => Err(error),
        }
    }

    /// Gets a global function by name, and remembers it.
    pub fn get_global_cached<L>(
        cell: &mut Option<Function>,
        heap: &mut ObjectHeap,
        name: &str,
        lookup: L,
    ) -> (result: Result<Function, Error>) where
        L: FnOnce(&str, ObjectHeap) -> (ObjectHeap, Result<usize, Error>),

        requires
            *old(cell) is None ==> call_requires(lookup, (name, *old(heap))),
            forall|filled: Function, ready: ObjectHeap| #[trigger]
                cell_filled(
                    lookup,
                    name,
                    *old(cell),
                    Some(filled),
                    *old(heap),
                    ready,
                    Ok(()),
                ) ==> {
                    &&& ready.well_formed()
                    &&& filled.data.ptr == 0 || ready.shareable(filled.data.ptr)
                },
        ensures
            exists|ready: ObjectHeap, filled: Result<(), Error>|
                {
                    &&& #[trigger] cell_filled(
                        lookup,
                        name,
                        *old(cell),
                        *final(cell),
                        *old(heap),
                        ready,
                        filled,
                    )
                    &&& match filled {
                        Ok(_) => {
                            &&& *final(cell) matches Some(cached) && (result matches Ok(function)
                                && function.data.ptr == cached.data.ptr)
                            &&& acquired(&ready, final(heap), final(cell)->0.data.ptr)
                        },
                        Err(error) => {
                            &&& result == Err::<Function, Error>(error)
                            &&& *final(heap) == ready
                        },
                    }
                },
    {
        let filled: Result<(), Error> = Function::cache_global(cell, heap, name, lookup);
        let ghost ready = *heap;
        match filled {
            Ok(_) => match &*cell {
                Some(cached) => {
                    assert(cell_filled(
                        lookup,
                        name,
                        *old(cell),
                        Some(*cached),
                        *old(heap),
                        ready,
                        Ok(()),
                    ));
                    Ok(cached.share(heap))
                },
                None => vstd::pervasive::unreached(),
            },
            Err(error) => Err(error),
        }
    }

    /// Looks a reflected method or type attribute up as a function.
    pub fn from_type_method(
        heap: &mut ObjectHeap,
        types: &TypeTable,
        type_index: i32,
        method_name: &str,
    ) -> (result: Result<Function, Error>)
        requires
            old(heap).well_formed(),
            types.well_formed(),
            reflected_function(types, type_index, method_name@) matches Ok(data) ==> old(
                heap,
            ).shareable(data.v_obj),
        ensures
            reflected_found(
                types,
                type_index,
                method_name@,
                old(heap),
                final(heap),
                result,
            ),
    {
        match find_reflected_function(types, type_index, method_name) {
            Ok(data) => Ok(Function::copy_from_any_view_after_check(&data, heap)),
            Err(error) => Err(error),
        }
    }

    /// Looks a reflected function up, and remembers it.
    pub fn from_type_method_cached(
        cell: &mut Option<Function>,
        heap: &mut ObjectHeap,
        types: &TypeTable,
        type_index: i32,
        method_name: &str,
    ) -> (result: Result<Function, Error>)
        requires
            old(heap).well_formed(),
            types.well_formed(),
            *old(cell) matches Some(function) ==> function.data.ptr == 0 || old(heap).shareable(
                function.data.ptr,
            ),
            reflected_function(types, type_index, method_name@) matches Ok(data) ==> old(
                heap,
            ).shareable(data.v_obj) && shareable_twice(old(heap), data.v_obj),
        ensures
            match *old(cell) {
                Some(cached) => {
                    &&& result matches Ok(function) && function.data.ptr == cached.data.ptr
                    &&& acquired(old(heap), final(heap), cached.data.ptr)
                    &&& *final(cell) == *old(cell)
                },
                None => exists|found: ObjectHeap|
                    {
                        &&& #[trigger] reflected_found(
                            types,
                            type_index,
                            method_name@,
                            old(heap),
                            &found,
                            result,
                        )
                        &&& match result {
                            Ok(function) => {
                                &&& *final(cell) matches Some(cached) && cached.data.ptr
                                    == function.data.ptr
                                &&& acquired(&found, final(heap), function.data.ptr)
                            },
                            Err(_) => *final(cell) is None && *final(heap) == found,
                        }
                    },
            },
    {
        if let Some(cached) = &*cell {
            return Ok(cached.share(heap));
        }
        let result: Result<Function, Error> = Function::from_type_method(
            heap,
            types,
            type_index,
            method_name,
        );
        let ghost found = *heap;
        match result {
            Ok(function) => {
                proof {
                    crate::object::unsafe_::lemma_counts(
                        old(heap).headers()[function.data.ptr].combined_ref_count,
                    );
                }
                *cell = Some(function.share(heap));
                Ok(function)
            },
            Err(error) => Err(error),
        }
    }
}

/// Two more references to the object can be counted.
pub open spec fn shareable_twice(heap: &ObjectHeap, address: usize) -> bool {
    crate::object::unsafe_::strong(heap.headers()[address].combined_ref_count) + 1 < u32::MAX
}

//-----------------------------------------------------
// Registration and construction
//-----------------------------------------------------
/// The native registry answered a registration with `result`, and left the heap
/// as `after`.
pub open spec fn registered<R>(
    register: R,
    name: &str,
    handle: usize,
    can_override: i32,
    before: ObjectHeap,
    after: ObjectHeap,
    result: Result<(), Error>,
) -> bool where R: FnOnce(&str, usize, i32, ObjectHeap) -> (ObjectHeap, Result<(), Error>) {
    call_ensures(register, (name, handle, can_override, before), (after, result))
}

pub open spec fn undefined_function_message(name: Seq<char>) -> Seq<char> {
    "Cannot register undefined Function "@ + name
}

/// A function whose behaviour is a Rust callback.
pub struct CallbackFunctionObjImpl<F> {
    pub function: FunctionObj,
    pub callback: F,
}

impl<F> ObjectCore for CallbackFunctionObjImpl<F> {
    open spec fn key() -> Seq<char> {
        FunctionObj::key()
    }

    open spec fn depth() -> i32 {
        FunctionObj::depth()
    }

    open spec fn is_final() -> bool {
        FunctionObj::is_final()
    }

    open spec fn index_is_static() -> bool {
        FunctionObj::index_is_static()
    }

    open spec fn index() -> i32 {
        FunctionObj::index()
    }

    fn type_key() -> &'static str {
        FunctionObj::type_key()
    }

    fn type_depth() -> i32 {
        FunctionObj::type_depth()
    }

    fn type_final() -> bool {
        FunctionObj::type_final()
    }

    fn type_index_static() -> bool {
        FunctionObj::type_index_static()
    }

    fn type_index() -> i32 {
        FunctionObj::type_index()
    }
}

/// The callbacks of one type that functions were made of.
pub type CallbackStore<F> = ObjectStore<CallbackFunctionObjImpl<F>, ()>;

impl<F> CallbackFunctionObjImpl<F> {
    pub fn from_callback(callback: F) -> (this: Self)
        ensures
            this.function.object == Object::room(),
            this.callback == callback,
    {
        CallbackFunctionObjImpl { function: FunctionObj::new(), callback }
    }
}

/// What `run` did with a callback and these arguments.
pub open spec fn callback_run<F, R>(
    run: R,
    callback: &F,
    args: Seq<AnyView>,
    before: ObjectHeap,
    after: ObjectHeap,
    outcome: CallbackOutcome,
) -> bool where R: FnOnce(&F, &[AnyView], ObjectHeap) -> (ObjectHeap, CallbackOutcome) {
    exists|packed_args: &[AnyView]|
        packed_args@ == args && #[trigger] call_ensures(
            run,
            (callback, packed_args, before),
            (after, outcome),
        )
}

/// Runs the callback of the function at `handle` for a native caller.
///
/// `run` calls the callback, lends it the heap, and reports a panic as an
/// outcome.
pub fn invoke_callback<F, R>(
    store: &CallbackStore<F>,
    handle: usize,
    args: Option<&[AnyView]>,
    num_args: i32,
    has_result: bool,
    heap: &mut ObjectHeap,
    run: R,
) -> (reply: CallReply) where
    R: FnOnce(&F, &[AnyView], ObjectHeap) -> (ObjectHeap, CallbackOutcome),

    requires
        store.well_formed(),
        handle != 0 ==> store.holds(handle),
        args matches Some(args) ==> num_args <= args@.len(),
        received_args(seen_args(args), num_args, has_result) matches Ok(expected) ==> forall|
            packed_args: &[AnyView],
        |
            handle != 0 && packed_args@ == expected ==> #[trigger] call_requires(
                run,
                (&store.payload(handle).callback, packed_args, *old(heap)),
            ),
    ensures
        match received_args(seen_args(args), num_args, has_result) {
            Err(error) => failed(reply, error) && *final(heap) == *old(heap),
            Ok(expected) => if handle == 0 {
                &&& failed(reply, error_view(VALUE_ERROR, "callback handle is null"@))
                &&& *final(heap) == *old(heap)
            } else {
                exists|outcome: CallbackOutcome|
                    {
                        &&& #[trigger] callback_run(
                            run,
                            &store.payload(handle).callback,
                            expected,
                            *old(heap),
                            *final(heap),
                            outcome,
                        )
                        &&& replies_to(reply, outcome)
                    }
            },
        },
{
    if handle == 0 {
        let reject = |packed_args: &[AnyView], lent: ObjectHeap| -> (ended: (
            ObjectHeap,
            CallbackOutcome,
        ))
            ensures
                ended.0 == lent,
                ended.1 matches CallbackOutcome::Returned(Err(error)) && error@ == error_view(
                    VALUE_ERROR,
                    "callback handle is null"@,
                ),
        {
            let error: Error = Error::new(VALUE_ERROR, "callback handle is null");
            (lent, CallbackOutcome::Returned(Err(error)))
        };
        return invoke_packed_c_abi(args, num_args, has_result, heap, reject);
    }
    let callback: &F = &store.get(handle).callback;
    let call = |packed_args: &[AnyView], lent: ObjectHeap| -> (ended: (
        ObjectHeap,
        CallbackOutcome,
    ))
        requires
            call_requires(run, (callback, packed_args, lent)),
        ensures
            call_ensures(run, (callback, packed_args, lent), ended),
    {
        run(callback, packed_args, lent)
    };
    let reply: CallReply = invoke_packed_c_abi(args, num_args, has_result, heap, call);
    proof {
        if let Ok(expected) = received_args(seen_args(args), num_args, has_result) {
            let outcome = choose|outcome: CallbackOutcome|
                {
                    &&& #[trigger] callback_ended(call, expected, *old(heap), *heap, outcome)
                    &&& replies_to(reply, outcome)
                };
            let packed_args = choose|packed_args: &[AnyView]|
                packed_args@ == expected && #[trigger] call_ensures(
                    call,
                    (packed_args, *old(heap)),
                    (*heap, outcome),
                );
            assert(call_ensures(run, (callback, packed_args, *old(heap)), (*heap, outcome)));
            assert(callback_run(run, callback, expected, *old(heap), *heap, outcome));
        }
    }
    reply
}

impl Function {
    /// Registers a function under a global name, and gives it up.
    ///
    /// `register` asks the native registry, without leave to override. Where the
    /// registry keeps the function, it takes a reference of its own.
    pub fn register_global<R>(
        heap: &mut ObjectHeap,
        name: &str,
        func: Function,
        register: R,
    ) -> (result: Result<(), Error>) where
        R: FnOnce(&str, usize, i32, ObjectHeap) -> (ObjectHeap, Result<(), Error>),

        requires
            func.data.ptr != 0 ==> {
                &&& call_requires(register, (name, func.data.ptr, 0i32, *old(heap)))
                &&& forall|after: ObjectHeap, result: Result<(), Error>| #[trigger]
                    registered(register, name, func.data.ptr, 0, *old(heap), after, result)
                        ==> after.well_formed() && after.alive(func.data.ptr)
            },
        ensures
            if func.data.ptr == 0 {
                &&& result matches Err(error) && error@ == error_view(
                    VALUE_ERROR,
                    undefined_function_message(name@),
                )
                &&& *final(heap) == *old(heap)
            } else {
                exists|after: ObjectHeap|
                    {
                        &&& #[trigger] registered(
                            register,
                            name,
                            func.data.ptr,
                            0,
                            *old(heap),
                            after,
                            result,
                        )
                        &&& given_up(&after, final(heap), func.data.ptr)
                    }
            },
    {
        let handle: usize = ObjectArc::into_raw(func.data);
        if handle == 0 {
            let mut text: String = "Cannot register undefined Function ".to_owned();
            text.append(name);
            return Err(Error::from_message(VALUE_ERROR, text));
        }
        let mut lent: ObjectHeap = ObjectHeap::new();
        core::mem::swap(heap, &mut lent);
        let (after, result): (ObjectHeap, Result<(), Error>) = register(name, handle, 0, lent);
        *heap = after;
        assert(registered(register, name, handle, 0, *old(heap), *heap, result));
        heap.release(handle);
        result
    }

    /// Makes a function of a packed callback, which is lent the heap when it is
    /// called.
    pub fn from_packed<F>(
        heap: &mut ObjectHeap,
        store: &mut CallbackStore<F>,
        func: F,
    ) -> (function: Function) where
        F: Fn(&[AnyView], ObjectHeap) -> (ObjectHeap, Result<Any, Error>),

        requires
            old(heap).well_formed(),
            old(store).well_formed(),
            old(store).linked(old(heap)),
            old(heap).has_room(payload_layout::<CallbackFunctionObjImpl<F>>()),
        ensures
            final(store).linked(final(heap)),
            final(store).owns(final(heap), function.data.ptr),
            final(heap).alive(function.data.ptr),
            function_made(
                old(heap),
                final(heap),
                old(store),
                final(store),
                function,
                func,
            ),
    {
        Function::from_callback(heap, store, func)
    }

    /// Makes a function of a typed callback, which owns its arguments and is lent
    /// the heap when it is called.
    pub fn from_typed<F, I, O>(
        heap: &mut ObjectHeap,
        store: &mut CallbackStore<F>,
        func: F,
    ) -> (function: Function) where F: AsPackedCallable<I, O>
        requires
            old(heap).well_formed(),
            old(store).well_formed(),
            old(store).linked(old(heap)),
            old(heap).has_room(payload_layout::<CallbackFunctionObjImpl<F>>()),
        ensures
            final(store).linked(final(heap)),
            final(store).owns(final(heap), function.data.ptr),
            final(heap).alive(function.data.ptr),
            function_made(
                old(heap),
                final(heap),
                old(store),
                final(store),
                function,
                func,
            ),
    {
        Function::from_callback(heap, store, func)
    }

    fn from_callback<F>(
        heap: &mut ObjectHeap,
        store: &mut CallbackStore<F>,
        callback: F,
    ) -> (function: Function)
        requires
            old(heap).well_formed(),
            old(store).well_formed(),
            old(store).linked(old(heap)),
            old(heap).has_room(payload_layout::<CallbackFunctionObjImpl<F>>()),
        ensures
            final(store).linked(final(heap)),
            final(store).owns(final(heap), function.data.ptr),
            final(heap).alive(function.data.ptr),
            function_made(
                old(heap),
                final(heap),
                old(store),
                final(store),
                function,
                callback,
            ),
    {
        let payload = CallbackFunctionObjImpl::from_callback(callback);
        let arc: ObjectArc<CallbackFunctionObjImpl<F>> = ObjectArc::new(heap, store, payload);
        assert(fresh_header::<CallbackFunctionObjImpl<F>>(ObjectDeleter::New) == fresh_header::<
            FunctionObj,
        >(ObjectDeleter::New));
        Function { data: ObjectArc::from_raw(ObjectArc::into_raw(arc)) }
    }

    /// Makes a function of a native one.
    ///
    /// `create` asks the native runtime for a function object that calls on
    /// `handle`.
    pub fn try_from_extern_c<N>(handle: usize, heap: &mut ObjectHeap, create: N) -> (result: Result<
        Function,
        Error,
    >) where N: FnOnce(usize, ObjectHeap) -> (ObjectHeap, Result<usize, Error>)
        requires
            call_requires(create, (handle, *old(heap))),
        ensures
            exists|created: Result<usize, Error>|
                {
                    &&& #[trigger] function_created(
                        create,
                        handle,
                        *old(heap),
                        *final(heap),
                        created,
                    )
                    &&& match created {
                        Ok(address) => result matches Ok(function) && function.data.ptr == address,
                        Err(error) => result == Err::<Function, Error>(error),
                    }
                },
    {
        let mut lent: ObjectHeap = ObjectHeap::new();
        core::mem::swap(heap, &mut lent);
        let (after, created): (ObjectHeap, Result<usize, Error>) = create(handle, lent);
        *heap = after;
        assert(function_created(create, handle, *old(heap), *heap, created));
        match created {
            Ok(address) => Ok(Function { data: ObjectArc::from_raw(address) }),
            Err(error) => Err(error),
        }
    }

    /// Makes a function of a native one that the runtime is known to accept.
    pub fn from_extern_c<N>(handle: usize, heap: &mut ObjectHeap, create: N) -> (function:
        Function) where N: FnOnce(usize, ObjectHeap) -> (ObjectHeap, Result<usize, Error>)
        requires
            call_requires(create, (handle, *old(heap))),
            forall|after: ObjectHeap, created: Result<usize, Error>| #[trigger]
                function_created(create, handle, *old(heap), after, created) ==> created is Ok,
        ensures
            function_created(
                create,
                handle,
                *old(heap),
                *final(heap),
                Ok(function.data.ptr),
            ),
    {
        match Function::try_from_extern_c(handle, heap, create) {
            Ok(function) => function,
            Err(_) => vstd::pervasive::unreached(),
        }
    }
}

/// The native runtime was asked for a function object, and left the heap as
/// `after`.
pub open spec fn function_created<N>(
    create: N,
    handle: usize,
    before: ObjectHeap,
    after: ObjectHeap,
    created: Result<usize, Error>,
) -> bool where N: FnOnce(usize, ObjectHeap) -> (ObjectHeap, Result<usize, Error>) {
    call_ensures(create, (handle, before), (after, created))
}

/// A function object was made that holds the callback.
pub open spec fn function_made<F>(
    heap: &ObjectHeap,
    heap_after: &ObjectHeap,
    store: &CallbackStore<F>,
    store_after: &CallbackStore<F>,
    function: Function,
    callback: F,
) -> bool {
    allocation(
        (heap, heap_after),
        (store, store_after),
        function.data.ptr,
        CallbackFunctionObjImpl { function: FunctionObj { object: Object::room() }, callback },
        fresh_header::<FunctionObj>(ObjectDeleter::New),
        payload_layout::<CallbackFunctionObjImpl<F>>(),
    )
}

//-----------------------------------------------------
// The keyword sentinel
//-----------------------------------------------------
/// The sentinel that a call returned, if it is an object, and the heap after
/// that. The function that was called is given up.
pub open spec fn sentinel_received(
    types: &TypeTable,
    function: usize,
    returned: Result<Any, Error>,
    before: ObjectHeap,
    after: ObjectHeap,
    result: Result<ObjectRef, Error>,
) -> bool {
    match returned {
        Err(error) => {
            &&& result == Err::<ObjectRef, Error>(error)
            &&& given_up(&before, &after, function)
        },
        Ok(any) => exists|converted: ObjectHeap|
            {
                &&& #[trigger] strict_conversion(any.data, types, &before, &converted, result)
                &&& given_up(&converted, &after, function)
            },
    }
}

/// What obtaining the sentinel through the global function at `function` returns
/// and does.
pub open spec fn sentinel_obtained<C>(
    safe_call: C,
    types: &TypeTable,
    function: usize,
    before: ObjectHeap,
    after: ObjectHeap,
    result: Result<ObjectRef, Error>,
) -> bool where
    C: FnOnce(usize, &[AnyView], i32, ObjectHeap) -> (ObjectHeap, Result<TVMFFIAny, Error>),
 {
    exists|called: ObjectHeap, returned: Result<Any, Error>|
        {
            &&& #[trigger] packed_called(
                safe_call,
                function,
                Seq::empty(),
                before,
                called,
                returned,
            )
            &&& sentinel_received(types, function, returned, called, after, result)
        }
}

/// The call behind the sentinel keeps the heap in order: the function stays
/// alive, and so is what it returns.
pub open spec fn sentinel_safe<C>(
    safe_call: C,
    types: &TypeTable,
    function: usize,
    heap: ObjectHeap,
) -> bool where
    C: FnOnce(usize, &[AnyView], i32, ObjectHeap) -> (ObjectHeap, Result<TVMFFIAny, Error>),
 {
    &&& call_allowed(safe_call, function, Seq::empty(), heap)
    &&& forall|called: ObjectHeap, returned: Result<Any, Error>| #[trigger]
        packed_called(safe_call, function, Seq::empty(), heap, called, returned) ==> {
            &&& called.well_formed()
            &&& match returned {
                Err(_) => called.alive(function),
                Ok(any) => {
                    &&& owns_alive(any.data, &called)
                    &&& forall|converted: ObjectHeap, result: Result<ObjectRef, Error>| #[trigger]
                        strict_conversion(any.data, types, &called, &converted, result)
                            ==> converted.well_formed() && converted.alive(function)
                },
            }
        }
    &&& forall|after: ObjectHeap, sentinel: ObjectRef| #[trigger]
        sentinel_obtained(safe_call, types, function, heap, after, Ok(sentinel)) ==> {
            &&& after.well_formed()
            &&& sentinel.data.ptr == 0 || after.shareable(sentinel.data.ptr)
        }
}

/// The process-wide sentinel of calls with keyword arguments.
///
/// It is remembered in `cell`.
pub fn get_kwargs_object<L, C>(
    cell: &mut Option<ObjectRef>,
    heap: &mut ObjectHeap,
    types: &TypeTable,
    lookup: L,
    safe_call: C,
) -> (result: Result<ObjectRef, Error>) where
    L: FnOnce(&str, ObjectHeap) -> (ObjectHeap, Result<usize, Error>),
    C: FnOnce(usize, &[AnyView], i32, ObjectHeap) -> (ObjectHeap, Result<TVMFFIAny, Error>),

    requires
        types.well_formed(),
        match *old(cell) {
            Some(value) => {
                &&& old(heap).well_formed()
                &&& value.data.ptr == 0 || old(heap).shareable(value.data.ptr)
            },
            None => {
                &&& call_requires(lookup, ("ffi.GetKwargsObject", *old(heap)))
                &&& forall|found: ObjectHeap, function: Function| #[trigger]
                    global_found(
                        lookup,
                        "ffi.GetKwargsObject",
                        *old(heap),
                        found,
                        Ok(function),
                    ) ==> sentinel_safe(safe_call, types, function.data.ptr, found)
            },
        },
    ensures
        match *old(cell) {
            Some(cached) => {
                &&& result matches Ok(value) && value.data.ptr == cached.data.ptr
                &&& acquired(old(heap), final(heap), cached.data.ptr)
                &&& *final(cell) == *old(cell)
            },
            None => exists|found: ObjectHeap, function: Result<Function, Error>|
                {
                    &&& #[trigger] global_found(
                        lookup,
                        "ffi.GetKwargsObject",
                        *old(heap),
                        found,
                        function,
                    )
                    &&& match function {
                        Err(error) => {
                            &&& result == Err::<ObjectRef, Error>(error)
                            &&& *final(heap) == found
                            &&& *final(cell) is None
                        },
                        Ok(function) => exists|obtained: ObjectHeap|
                            {
                                &&& #[trigger] sentinel_obtained(
                                    safe_call,
                                    types,
                                    function.data.ptr,
                                    found,
                                    obtained,
                                    result,
                                )
                                &&& match result {
                                    Ok(value) => {
                                        &&& *final(cell) matches Some(cached) && cached.data.ptr
                                            == value.data.ptr
                                        &&& acquired(&obtained, final(heap), value.data.ptr)
                                    },
                                    Err(_) => *final(cell) is None && *final(heap) == obtained,
                                }
                            },
                    }
                },
        },
{
    if let Some(cached) = &*cell {
        return Ok(cached.share(heap));
    }
    let function: Function = match Function::get_global("ffi.GetKwargsObject", heap, lookup) {
        Ok(function) => function,
        Err(error) => return Err(error),
    };
    let ghost handle = function.data.ptr;
    let ghost found = *heap;
    assert(global_found(lookup, "ffi.GetKwargsObject", *old(heap), found, Ok(function)));
    let empty: &[AnyView] = &[];
    assert(empty@ =~= Seq::empty());
    let returned: Result<Any, Error> = function.call_packed(empty, heap, safe_call);
    let ghost called = *heap;
    let ghost seen = returned;
    assert(packed_called(safe_call, handle, Seq::empty(), found, called, returned));
    let result: Result<ObjectRef, Error> = match returned {
        Ok(any) => try_from_any_strict(any, types, heap),
        Err(error) => Err(error),
    };
    heap.release(ObjectArc::into_raw(function.data));
    let ghost obtained = *heap;
    assert(sentinel_received(types, handle, seen, called, obtained, result));
    assert(sentinel_obtained(safe_call, types, handle, found, obtained, result));
    match result {
        Ok(value) => {
            *cell = Some(value.share(heap));
            Ok(value)
        },
        Err(error) => Err(error),
    }
}

//-----------------------------------------------------
// Typed callbacks
//-----------------------------------------------------
/// Runs the typed callback of the function at `handle` for a native caller.
pub fn invoke_typed_callback<F, I, O>(
    store: &CallbackStore<F>,
    handle: usize,
    args: Option<&[AnyView]>,
    num_args: i32,
    has_result: bool,
    types: &TypeTable,
    heap: &mut ObjectHeap,
) -> (reply: CallReply) where F: AsPackedCallable<I, O>
    requires
        store.well_formed(),
        old(heap).well_formed(),
        types.well_formed(),
        handle != 0 ==> store.holds(handle),
        args matches Some(args) ==> num_args <= args@.len(),
        received_args(seen_args(args), num_args, has_result) matches Ok(expected) ==> handle != 0
            ==> store.payload(handle).callback.callable(expected, types, *old(heap)),
    ensures
        match received_args(seen_args(args), num_args, has_result) {
            Err(error) => failed(reply, error) && *final(heap) == *old(heap),
            Ok(expected) => if handle == 0 {
                &&& failed(reply, error_view(VALUE_ERROR, "callback handle is null"@))
                &&& *final(heap) == *old(heap)
            } else {
                exists|result: Result<Any, Error>|
                    {
                        &&& #[trigger] store.payload(handle).callback.called(
                            expected,
                            types,
                            *old(heap),
                            *final(heap),
                            result,
                        )
                        &&& replies_to(reply, CallbackOutcome::Returned(result))
                    }
            },
        },
{
    let packed_args: &[AnyView] = match receive_args(args, num_args, has_result) {
        Ok(packed_args) => packed_args,
        Err(error) => return reply_to(CallbackOutcome::Returned(Err(error))),
    };
    if handle == 0 {
        return reply_to(
            CallbackOutcome::Returned(Err(Error::new(VALUE_ERROR, "callback handle is null"))),
        );
    }
    let callback: &F = &store.get(handle).callback;
    let result: Result<Any, Error> = callback.call_packed(packed_args, types, heap);
    assert(callback.called(packed_args@, types, *old(heap), *heap, result));
    reply_to(CallbackOutcome::Returned(result))
}

//-----------------------------------------------------
// Laws
//-----------------------------------------------------
/// A call with no more arguments than can be counted reaches the function behind the
/// handle, with all of its arguments in order, and what that returns is returned.
pub proof fn law_call_reaches_the_callee<C>(
    safe_call: C,
    handle: usize,
    args: Seq<AnyView>,
    before: ObjectHeap,
    after: ObjectHeap,
    result: Result<Any, Error>,
) where C: FnOnce(usize, &[AnyView], i32, ObjectHeap) -> (ObjectHeap, Result<TVMFFIAny, Error>)
    requires
        packed_result(safe_call, handle, args, before, after, result),
        args.len() <= i32::MAX,
    ensures
        exists|packed_args: &[AnyView], raw: Result<TVMFFIAny, Error>|
            {
                &&& #[trigger] call_ensures(
                    safe_call,
                    (handle, packed_args, args.len() as i32, before),
                    (after, raw),
                )
                &&& packed_args@ == args
                &&& raw is Ok ==> result is Ok && result->Ok_0.data == raw->Ok_0
                &&& raw is Err ==> result is Err && result->Err_0 == raw->Err_0
            },
{
    let (packed_args, raw) = choose|packed_args: &[AnyView], raw: Result<TVMFFIAny, Error>|
        {
            &&& packed_args@ == args
            &&& #[trigger] native_call(
                safe_call,
                handle,
                packed_args,
                args.len() as i32,
                before,
                after,
                raw,
            )
            &&& call_result(raw, result)
        };
    assert(call_ensures(
        safe_call,
        (handle, packed_args, args.len() as i32, before),
        (after, raw),
    ));
}

/// A call with more arguments than can be counted is refused, and nothing is called.
pub proof fn law_uncountable_arguments_are_refused<C>(
    safe_call: C,
    handle: usize,
    args: Seq<AnyView>,
    before: ObjectHeap,
    after: ObjectHeap,
    result: Result<Any, Error>,
) where C: FnOnce(usize, &[AnyView], i32, ObjectHeap) -> (ObjectHeap, Result<TVMFFIAny, Error>)
    requires
        packed_result(safe_call, handle, args, before, after, result),
        args.len() > i32::MAX,
    ensures
        result is Err,
        result->Err_0@.kind == VALUE_ERROR,
        after == before,
{
}

/// `packed` holds the positional arguments in order, then the sentinel, then each
/// keyword with its value right after it.
pub open spec fn packs_keywords(
    packed: Seq<AnyView>,
    positional: Seq<AnyView>,
    sentinel: AnyView,
    keys: Seq<AnyView>,
    values: Seq<AnyView>,
) -> bool {
    let n = positional.len() as int;
    &&& packed.len() == n + 1 + 2 * keys.len()
    &&& forall|i: int| 0 <= i < n ==> #[trigger] packed[i] == positional[i]
    &&& packed[n] == sentinel
    &&& forall|i: int|
        0 <= i < keys.len() ==> packed[n + 1 + 2 * i] == #[trigger] keys[i] && packed[n + 2 + 2 * i]
            == values[i]
}

/// Keywords follow the sentinel, each with its value, however many there are.
pub proof fn law_keywords_follow_the_sentinel(
    positional: Seq<AnyView>,
    sentinel: AnyView,
    keys: Seq<AnyView>,
    values: Seq<AnyView>,
)
    requires
        keys.len() == values.len(),
    ensures
        packs_keywords(
            kwargs_packed(positional, sentinel, keys, values),
            positional,
            sentinel,
            keys,
            values,
        ),
        kwargs_count(positional.len(), keys.len()) matches Ok(count) ==> count == kwargs_packed(
            positional,
            sentinel,
            keys,
            values,
        ).len(),
{
    let packed = kwargs_packed(positional, sentinel, keys, values);
    let n = positional.len() as int;
    assert forall|i: int| 0 <= i < keys.len() implies packed[n + 1 + 2 * i] == #[trigger] keys[i]
        && packed[n + 2 + 2 * i] == values[i] by {
        assert((2 * i) / 2 == i && (2 * i + 1) / 2 == i);
        assert(interleaved(keys, values)[2 * i] == keys[i]);
        assert(interleaved(keys, values)[2 * i + 1] == values[i]);
    }
}

/// The arguments of a call are counted exactly if the count is one that can be
/// passed on.
pub proof fn law_keyword_calls_are_counted(positional: nat, named: nat)
    ensures
        kwargs_count(positional, named) is Ok <==> positional + 1 + 2 * named <= i32::MAX
            && positional + 1 + 2 * named <= usize::MAX,
        kwargs_count(positional, named) matches Ok(count) ==> count == positional + 1 + 2 * named,
        kwargs_count(positional, named) matches Err(error) ==> error.kind == VALUE_ERROR,
{
}

/// A value that a function can be made of: a reference to a function, or to an object
/// of a type that derives from it.
pub open spec fn is_function_value(types: &TypeTable, data: TVMFFIAny) -> bool {
    is_or_inherits(types, data.type_index, FunctionObj::index()) && data.v_obj != 0
}

/// `found` is the function that a type has under that name: its first method of that
/// name, or failing that its attribute.
pub open spec fn is_function_of_type(
    types: &TypeTable,
    type_index: i32,
    name: Seq<char>,
    found: Result<TVMFFIAny, ErrorView>,
) -> bool {
    &&& found matches Err(error) ==> error.kind == TYPE_ERROR
    &&& match types.info(type_index) {
        None => found is Err,
        Some(info) => {
            let methods = info.methods@;
            &&& forall|at: int| #[trigger]
                named_method(methods, name, at) ==> if is_function_value(
                    types,
                    methods[at].method,
                ) {
                    found == Ok::<TVMFFIAny, ErrorView>(methods[at].method)
                } else {
                    found is Err
                }
            &&& (forall|i: int|
                0 <= i < methods.len() ==> (#[trigger] methods[i]).name@ != name)
                ==> match types.attribute(name, type_index) {
                Some(attr) => if attr.type_index != K_TVM_FFI_NONE && is_function_value(
                    types,
                    attr,
                ) {
                    found == Ok::<TVMFFIAny, ErrorView>(attr)
                } else {
                    found is Err
                },
                None => found is Err,
            }
        },
    }
}

proof fn lemma_function_value(
    types: &TypeTable,
    data: TVMFFIAny,
    what: Seq<char>,
    name: Seq<char>,
    type_index: i32,
)
    requires
        types.well_formed(),
        types.is_tree(),
    ensures
        is_function_value(types, data) ==> function_value(types, data, what, name, type_index)
            == Ok::<TVMFFIAny, ErrorView>(data),
        !is_function_value(types, data) ==> {
            &&& function_value(types, data, what, name, type_index) is Err
            &&& function_value(types, data, what, name, type_index)->Err_0.kind == TYPE_ERROR
        },
{
    if types.info(data.type_index) is Some {
        law_instance_of_is_ancestry(types, data.type_index, FunctionObj::index());
    }
}

/// The function of a type is its first method of that name, or failing that its
/// attribute, whatever else the table holds.
pub proof fn law_methods_come_before_attributes(
    types: &TypeTable,
    type_index: i32,
    name: Seq<char>,
)
    requires
        types.well_formed(),
        types.is_tree(),
    ensures
        is_function_of_type(types, type_index, name, reflected_function(types, type_index, name)),
{
    if let Some(info) = types.info(type_index) {
        let methods = info.methods@;
        law_first_method_is_found(methods, name);
        if let Some(method) = first_method(methods, name) {
            lemma_function_value(types, method, "method"@, name, type_index);
        } else if let Some(attr) = types.attribute(name, type_index) {
            lemma_function_value(types, attr, "type attribute"@, name, type_index);
        }
    }
}

/// A lookup asks the registry for the very name, once. It finds what the registry
/// answers with, unless that is null.
pub proof fn law_lookup_answers_as_the_registry<L>(
    lookup: L,
    name: &str,
    before: ObjectHeap,
    after: ObjectHeap,
    result: Result<Function, Error>,
) where L: FnOnce(&str, ObjectHeap) -> (ObjectHeap, Result<usize, Error>)
    requires
        global_found(lookup, name, before, after, result),
    ensures
        exists|handle: Result<usize, Error>|
            {
                &&& #[trigger] call_ensures(lookup, (name, before), (after, handle))
                &&& result is Ok <==> handle is Ok && handle->Ok_0 != 0
                &&& result is Ok ==> result->Ok_0.data.ptr == handle->Ok_0
                &&& handle is Err ==> result->Err_0 == handle->Err_0
            },
{
    let handle = choose|handle: Result<usize, Error>|
        {
            &&& #[trigger] looked_up(lookup, name, before, after, handle)
            &&& match handle {
                Err(error) => result == Err::<Function, Error>(error),
                Ok(handle) => if handle == 0 {
                    result matches Err(error) && error@ == error_view(
                        RUNTIME_ERROR,
                        not_found_message(name@),
                    )
                } else {
                    result matches Ok(function) && function.data.ptr == handle
                },
            }
        };
    assert(call_ensures(lookup, (name, before), (after, handle)));
}

/// A cell is filled once: a filled one answers without a lookup, and an empty one keeps
/// what the lookup finds, or stays empty.
pub proof fn law_cell_is_filled_once<L>(
    lookup: L,
    name: &str,
    cell: Option<Function>,
    cell_after: Option<Function>,
    before: ObjectHeap,
    after: ObjectHeap,
    result: Result<(), Error>,
) where L: FnOnce(&str, ObjectHeap) -> (ObjectHeap, Result<usize, Error>)
    requires
        cell_filled(lookup, name, cell, cell_after, before, after, result),
    ensures
        cell is Some ==> cell_after == cell && after == before && result is Ok,
        cell is None ==> exists|handle: Result<usize, Error>|
            {
                &&& #[trigger] call_ensures(lookup, (name, before), (after, handle))
                &&& result is Ok <==> handle is Ok && handle->Ok_0 != 0
                &&& result is Ok ==> cell_after is Some && cell_after->0.data.ptr == handle->Ok_0
                &&& result is Err ==> cell_after is None
            },
{
    if cell is None {
        let found = choose|found: Result<Function, Error>|
            {
                &&& #[trigger] global_found(lookup, name, before, after, found)
                &&& match found {
                    Ok(function) => result is Ok && cell_after == Some(function),
                    Err(error) => result == Err::<(), Error>(error) && cell_after is None,
                }
            };
        law_lookup_answers_as_the_registry(lookup, name, before, after, found);
        let handle = choose|handle: Result<usize, Error>|
            {
                &&& #[trigger] call_ensures(lookup, (name, before), (after, handle))
                &&& found is Ok <==> handle is Ok && handle->Ok_0 != 0
                &&& found is Ok ==> found->Ok_0.data.ptr == handle->Ok_0
                &&& handle is Err ==> found->Err_0 == handle->Err_0
            };
        assert(call_ensures(lookup, (name, before), (after, handle)));
    }
}

/// What a tuple owns is given up after its call is over, and the call sees all of its
/// elements.
pub proof fn law_tuple_is_given_up_after_the_call<TupleType: TupleAsPackedArgs, C>(
    safe_call: C,
    handle: usize,
    tuple_args: TupleType,
    args: Seq<AnyView>,
    before: ObjectHeap,
    after: ObjectHeap,
    result: Result<Any, Error>,
) where C: FnOnce(usize, &[AnyView], i32, ObjectHeap) -> (ObjectHeap, Result<TVMFFIAny, Error>)
    requires
        tuple_result(safe_call, handle, tuple_args, args, before, after, result),
        args.len() <= i32::MAX,
    ensures
        exists|packed_args: &[AnyView], called: ObjectHeap, raw: Result<TVMFFIAny, Error>|
            {
                &&& #[trigger] call_ensures(
                    safe_call,
                    (handle, packed_args, args.len() as i32, before),
                    (called, raw),
                )
                &&& packed_args@ == args
                &&& tuple_args.released(&called, &after)
                &&& raw is Ok ==> result is Ok && result->Ok_0.data == raw->Ok_0
                &&& raw is Err ==> result is Err && result->Err_0 == raw->Err_0
            },
{
    let called = choose|called: ObjectHeap|
        {
            &&& #[trigger] packed_result(safe_call, handle, args, before, called, result)
            &&& tuple_args.released(&called, &after)
        };
    law_call_reaches_the_callee(safe_call, handle, args, before, called, result);
    let (packed_args, raw) = choose|packed_args: &[AnyView], raw: Result<TVMFFIAny, Error>|
        {
            &&& #[trigger] call_ensures(
                safe_call,
                (handle, packed_args, args.len() as i32, before),
                (called, raw),
            )
            &&& packed_args@ == args
            &&& raw is Ok ==> result is Ok && result->Ok_0.data == raw->Ok_0
            &&& raw is Err ==> result is Err && result->Err_0 == raw->Err_0
        };
    assert(call_ensures(
        safe_call,
        (handle, packed_args, args.len() as i32, before),
        (called, raw),
    ));
}

/// In a call with more places than elements, the elements come first, and every place
/// after them holds none.
pub proof fn law_spare_places_hold_none(
    views: Seq<AnyView>,
    places: nat,
)
    requires
        views.len() <= places,
    ensures
        ({
            let args = views + no_values((places - views.len()) as nat);
            &&& args.len() == places
            &&& forall|i: int| 0 <= i < views.len() ==> #[trigger] args[i] == views[i]
            &&& forall|i: int|
                views.len() <= i < places ==> (#[trigger] args[i]).data == TVMFFIAny::none()
        }),
{
}

} // verus!
