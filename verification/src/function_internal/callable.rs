//! Rust functions as packed functions, by the number of their arguments.
//!
//! Each argument is copied out of its view, which is a new reference where it is
//! an object. It moves into the function with the heap, and what becomes of it
//! is up to the function.

use crate::any::{Any, AnyView};
use crate::error::{error_view, Error, VALUE_ERROR};
use crate::function_internal::{
    argument_converted, argument_count_error, argument_count_message, argument_error,
    argument_error_view, returned, AsPackedCallable,
};
use crate::object::heap::ObjectHeap;
use crate::type_table::TypeTable;
use crate::type_traits::AnyCompatible;
use vstd::prelude::*;

verus! {

impl<Fun, Out> AsPackedCallable<(), Out> for Fun where
    Fun: Fn(ObjectHeap) -> (ObjectHeap, Result<Out, Error>),
    Out: AnyCompatible,
{
    open spec fn callable(&self, args: Seq<AnyView>, types: &TypeTable, heap: ObjectHeap) -> bool {
        args.len() == 0 ==> {
            &&& call_requires(*self, (heap,))
            &&& forall|after: ObjectHeap, out: Out| #[trigger]
                call_ensures(*self, (heap,), (after, Ok::<Out, Error>(out)))
                    ==> after.well_formed() && out.holdable(&after)
        }
    }

    open spec fn called(
        &self,
        args: Seq<AnyView>,
        types: &TypeTable,
        before: ObjectHeap,
        after: ObjectHeap,
        result: Result<Any, Error>,
    ) -> bool {
        if args.len() != 0 {
            &&& result matches Err(error) && error@ == error_view(
                VALUE_ERROR,
                argument_count_message(0, args.len() as int),
            )
            &&& after == before
        } else {
            exists|out: Result<Out, Error>| #[trigger]
                call_ensures(*self, (before,), (after, out)) && returned(out, &after, result)
        }
    }

    fn call_packed(
        &self,
        packed_args: &[AnyView],
        types: &TypeTable,
        heap: &mut ObjectHeap,
    ) -> Result<Any, Error> {
        if packed_args.len() != 0 {
            return Err(argument_count_error(0, packed_args.len()));
        }
        let mut lent: ObjectHeap = ObjectHeap::new();
        core::mem::swap(heap, &mut lent);
        let (after, out): (ObjectHeap, Result<Out, Error>) = self(lent);
        *heap = after;
        assert(call_ensures(*self, (*old(heap),), (*heap, out)));
        match out {
            Ok(value) => Ok(Any::from_raw_ffi_any(Out::move_to_any(value, heap))),
            Err(error) => Err(error),
        }
    }
}

impl<Fun, T0, Out> AsPackedCallable<(T0,), Out> for Fun where
    Fun: Fn(T0, ObjectHeap) -> (ObjectHeap, Result<Out, Error>),
    T0: AnyCompatible,
    Out: AnyCompatible,
{
    open spec fn callable(&self, args: Seq<AnyView>, types: &TypeTable, heap: ObjectHeap) -> bool {
        args.len() == 1
            && T0::castable(args[0].data, types)
            ==> {
            &&& T0::copyable(args[0].data, &heap)
            &&& forall|h1: ObjectHeap| #[trigger]
                T0::copied(args[0].data, &heap, &h1) ==> {
                &&& h1.well_formed()
                &&& forall|v0: T0|
                    v0.is_value_of(args[0].data)
                        ==> #[trigger] call_requires(*self, (v0, h1))
                &&& forall|v0: T0, after: ObjectHeap, out: Out|
                    v0.is_value_of(args[0].data)
                        && #[trigger] call_ensures(
                            *self,
                            (v0, h1),
                            (after, Ok::<Out, Error>(out)),
                        )
                        ==> after.well_formed() && out.holdable(&after)
            }
        }
    }

    open spec fn called(
        &self,
        args: Seq<AnyView>,
        types: &TypeTable,
        before: ObjectHeap,
        after: ObjectHeap,
        result: Result<Any, Error>,
    ) -> bool {
        if args.len() != 1 {
            &&& result matches Err(error) && error@ == error_view(
                VALUE_ERROR,
                argument_count_message(1, args.len() as int),
            )
            &&& after == before
        } else if !T0::castable(args[0].data, types) {
            &&& result matches Err(error) && error@ == argument_error_view::<T0>(
                args[0].data,
                types,
                0,
            )
            &&& after == before
        } else {
            exists|h1: ObjectHeap, v0: T0, out: Result<Out, Error>|
                {
                    &&& #[trigger] argument_converted(args[0].data, before, h1, v0)
                    &&& #[trigger] call_ensures(*self, (v0, h1), (after, out))
                    &&& returned(out, &after, result)
                }
        }
    }

    fn call_packed(
        &self,
        packed_args: &[AnyView],
        types: &TypeTable,
        heap: &mut ObjectHeap,
    ) -> Result<Any, Error> {
        if packed_args.len() != 1 {
            return Err(argument_count_error(1, packed_args.len()));
        }
        if !T0::can_cast_from_any_view(&packed_args[0].data, types) {
            return Err(argument_error::<T0>(&packed_args[0].data, types, 0));
        }
        let v0: T0 = T0::copy_from_any_view_after_check(&packed_args[0].data, heap);
        let ghost h1 = *heap;
        assert(argument_converted(packed_args@[0].data, *old(heap), h1, v0));
        let mut lent: ObjectHeap = ObjectHeap::new();
        core::mem::swap(heap, &mut lent);
        let (after, out): (ObjectHeap, Result<Out, Error>) = self(v0, lent);
        *heap = after;
        assert(call_ensures(*self, (v0, h1), (*heap, out)));
        match out {
            Ok(value) => Ok(Any::from_raw_ffi_any(Out::move_to_any(value, heap))),
            Err(error) => Err(error),
        }
    }
}

impl<Fun, T0, T1, Out> AsPackedCallable<(T0, T1), Out> for Fun where
    Fun: Fn(T0, T1, ObjectHeap) -> (ObjectHeap, Result<Out, Error>),
    T0: AnyCompatible,
    T1: AnyCompatible,
    Out: AnyCompatible,
{
    open spec fn callable(&self, args: Seq<AnyView>, types: &TypeTable, heap: ObjectHeap) -> bool {
        args.len() == 2
            && T0::castable(args[0].data, types)
            && T1::castable(args[1].data, types)
            ==> {
            &&& T0::copyable(args[0].data, &heap)
            &&& forall|h1: ObjectHeap| #[trigger]
                T0::copied(args[0].data, &heap, &h1) ==> {
                &&& h1.well_formed()
                &&& T1::copyable(args[1].data, &h1)
                &&& forall|h2: ObjectHeap| #[trigger]
                    T1::copied(args[1].data, &h1, &h2) ==> {
                    &&& h2.well_formed()
                    &&& forall|v0: T0, v1: T1|
                        v0.is_value_of(args[0].data)
                            && v1.is_value_of(args[1].data)
                            ==> #[trigger] call_requires(*self, (v0, v1, h2))
                    &&& forall|v0: T0, v1: T1, after: ObjectHeap, out: Out|
                        v0.is_value_of(args[0].data)
                            && v1.is_value_of(args[1].data)
                            && #[trigger] call_ensures(
                                *self,
                                (v0, v1, h2),
                                (after, Ok::<Out, Error>(out)),
                            )
                            ==> after.well_formed() && out.holdable(&after)
                }
            }
        }
    }

    open spec fn called(
        &self,
        args: Seq<AnyView>,
        types: &TypeTable,
        before: ObjectHeap,
        after: ObjectHeap,
        result: Result<Any, Error>,
    ) -> bool {
        if args.len() != 2 {
            &&& result matches Err(error) && error@ == error_view(
                VALUE_ERROR,
                argument_count_message(2, args.len() as int),
            )
            &&& after == before
        } else if !T0::castable(args[0].data, types) {
            &&& result matches Err(error) && error@ == argument_error_view::<T0>(
                args[0].data,
                types,
                0,
            )
            &&& after == before
        } else if !T1::castable(args[1].data, types) {
            &&& result matches Err(error) && error@ == argument_error_view::<T1>(
                args[1].data,
                types,
                1,
            )
            &&& after == before
        } else {
            exists|h1: ObjectHeap, h2: ObjectHeap, v0: T0, v1: T1, out: Result<Out, Error>|
                {
                    &&& #[trigger] argument_converted(args[0].data, before, h1, v0)
                    &&& #[trigger] argument_converted(args[1].data, h1, h2, v1)
                    &&& #[trigger] call_ensures(*self, (v0, v1, h2), (after, out))
                    &&& returned(out, &after, result)
                }
        }
    }

    fn call_packed(
        &self,
        packed_args: &[AnyView],
        types: &TypeTable,
        heap: &mut ObjectHeap,
    ) -> Result<Any, Error> {
        if packed_args.len() != 2 {
            return Err(argument_count_error(2, packed_args.len()));
        }
        if !T0::can_cast_from_any_view(&packed_args[0].data, types) {
            return Err(argument_error::<T0>(&packed_args[0].data, types, 0));
        }
        if !T1::can_cast_from_any_view(&packed_args[1].data, types) {
            return Err(argument_error::<T1>(&packed_args[1].data, types, 1));
        }
        let v0: T0 = T0::copy_from_any_view_after_check(&packed_args[0].data, heap);
        let ghost h1 = *heap;
        assert(argument_converted(packed_args@[0].data, *old(heap), h1, v0));
        let v1: T1 = T1::copy_from_any_view_after_check(&packed_args[1].data, heap);
        let ghost h2 = *heap;
        assert(argument_converted(packed_args@[1].data, h1, h2, v1));
        let mut lent: ObjectHeap = ObjectHeap::new();
        core::mem::swap(heap, &mut lent);
        let (after, out): (ObjectHeap, Result<Out, Error>) = self(v0, v1, lent);
        *heap = after;
        assert(call_ensures(*self, (v0, v1, h2), (*heap, out)));
        match out {
            Ok(value) => Ok(Any::from_raw_ffi_any(Out::move_to_any(value, heap))),
            Err(error) => Err(error),
        }
    }
}

impl<Fun, T0, T1, T2, Out> AsPackedCallable<(T0, T1, T2), Out> for Fun where
    Fun: Fn(T0, T1, T2, ObjectHeap) -> (ObjectHeap, Result<Out, Error>),
    T0: AnyCompatible,
    T1: AnyCompatible,
    T2: AnyCompatible,
    Out: AnyCompatible,
{
    open spec fn callable(&self, args: Seq<AnyView>, types: &TypeTable, heap: ObjectHeap) -> bool {
        args.len() == 3
            && T0::castable(args[0].data, types)
            && T1::castable(args[1].data, types)
            && T2::castable(args[2].data, types)
            ==> {
            &&& T0::copyable(args[0].data, &heap)
            &&& forall|h1: ObjectHeap| #[trigger]
                T0::copied(args[0].data, &heap, &h1) ==> {
                &&& h1.well_formed()
                &&& T1::copyable(args[1].data, &h1)
                &&& forall|h2: ObjectHeap| #[trigger]
                    T1::copied(args[1].data, &h1, &h2) ==> {
                    &&& h2.well_formed()
                    &&& T2::copyable(args[2].data, &h2)
                    &&& forall|h3: ObjectHeap| #[trigger]
                        T2::copied(args[2].data, &h2, &h3) ==> {
                        &&& h3.well_formed()
                        &&& forall|v0: T0, v1: T1, v2: T2|
                            v0.is_value_of(args[0].data)
                                && v1.is_value_of(args[1].data)
                                && v2.is_value_of(args[2].data)
                                ==> #[trigger] call_requires(*self, (v0, v1, v2, h3))
                        &&& forall|v0: T0, v1: T1, v2: T2, after: ObjectHeap, out: Out|
                            v0.is_value_of(args[0].data)
                                && v1.is_value_of(args[1].data)
                                && v2.is_value_of(args[2].data)
                                && #[trigger] call_ensures(
                                    *self,
                                    (v0, v1, v2, h3),
                                    (after, Ok::<Out, Error>(out)),
                                )
                                ==> after.well_formed() && out.holdable(&after)
                    }
                }
            }
        }
    }

    open spec fn called(
        &self,
        args: Seq<AnyView>,
        types: &TypeTable,
        before: ObjectHeap,
        after: ObjectHeap,
        result: Result<Any, Error>,
    ) -> bool {
        if args.len() != 3 {
            &&& result matches Err(error) && error@ == error_view(
                VALUE_ERROR,
                argument_count_message(3, args.len() as int),
            )
            &&& after == before
        } else if !T0::castable(args[0].data, types) {
            &&& result matches Err(error) && error@ == argument_error_view::<T0>(
                args[0].data,
                types,
                0,
            )
            &&& after == before
        } else if !T1::castable(args[1].data, types) {
            &&& result matches Err(error) && error@ == argument_error_view::<T1>(
                args[1].data,
                types,
                1,
            )
            &&& after == before
        } else if !T2::castable(args[2].data, types) {
            &&& result matches Err(error) && error@ == argument_error_view::<T2>(
                args[2].data,
                types,
                2,
            )
            &&& after == before
        } else {
            exists|
                h1: ObjectHeap,
                h2: ObjectHeap,
                h3: ObjectHeap,
                v0: T0,
                v1: T1,
                v2: T2,
                out: Result<Out, Error>,
            |
                {
                    &&& #[trigger] argument_converted(args[0].data, before, h1, v0)
                    &&& #[trigger] argument_converted(args[1].data, h1, h2, v1)
                    &&& #[trigger] argument_converted(args[2].data, h2, h3, v2)
                    &&& #[trigger] call_ensures(*self, (v0, v1, v2, h3), (after, out))
                    &&& returned(out, &after, result)
                }
        }
    }

    fn call_packed(
        &self,
        packed_args: &[AnyView],
        types: &TypeTable,
        heap: &mut ObjectHeap,
    ) -> Result<Any, Error> {
        if packed_args.len() != 3 {
            return Err(argument_count_error(3, packed_args.len()));
        }
        if !T0::can_cast_from_any_view(&packed_args[0].data, types) {
            return Err(argument_error::<T0>(&packed_args[0].data, types, 0));
        }
        if !T1::can_cast_from_any_view(&packed_args[1].data, types) {
            return Err(argument_error::<T1>(&packed_args[1].data, types, 1));
        }
        if !T2::can_cast_from_any_view(&packed_args[2].data, types) {
            return Err(argument_error::<T2>(&packed_args[2].data, types, 2));
        }
        let v0: T0 = T0::copy_from_any_view_after_check(&packed_args[0].data, heap);
        let ghost h1 = *heap;
        assert(argument_converted(packed_args@[0].data, *old(heap), h1, v0));
        let v1: T1 = T1::copy_from_any_view_after_check(&packed_args[1].data, heap);
        let ghost h2 = *heap;
        assert(argument_converted(packed_args@[1].data, h1, h2, v1));
        let v2: T2 = T2::copy_from_any_view_after_check(&packed_args[2].data, heap);
        let ghost h3 = *heap;
        assert(argument_converted(packed_args@[2].data, h2, h3, v2));
        let mut lent: ObjectHeap = ObjectHeap::new();
        core::mem::swap(heap, &mut lent);
        let (after, out): (ObjectHeap, Result<Out, Error>) = self(v0, v1, v2, lent);
        *heap = after;
        assert(call_ensures(*self, (v0, v1, v2, h3), (*heap, out)));
        match out {
            Ok(value) => Ok(Any::from_raw_ffi_any(Out::move_to_any(value, heap))),
            Err(error) => Err(error),
        }
    }
}

impl<Fun, T0, T1, T2, T3, Out> AsPackedCallable<(T0, T1, T2, T3), Out> for Fun where
    Fun: Fn(T0, T1, T2, T3, ObjectHeap) -> (ObjectHeap, Result<Out, Error>),
    T0: AnyCompatible,
    T1: AnyCompatible,
    T2: AnyCompatible,
    T3: AnyCompatible,
    Out: AnyCompatible,
{
    open spec fn callable(&self, args: Seq<AnyView>, types: &TypeTable, heap: ObjectHeap) -> bool {
        args.len() == 4
            && T0::castable(args[0].data, types)
            && T1::castable(args[1].data, types)
            && T2::castable(args[2].data, types)
            && T3::castable(args[3].data, types)
            ==> {
            &&& T0::copyable(args[0].data, &heap)
            &&& forall|h1: ObjectHeap| #[trigger]
                T0::copied(args[0].data, &heap, &h1) ==> {
                &&& h1.well_formed()
                &&& T1::copyable(args[1].data, &h1)
                &&& forall|h2: ObjectHeap| #[trigger]
                    T1::copied(args[1].data, &h1, &h2) ==> {
                    &&& h2.well_formed()
                    &&& T2::copyable(args[2].data, &h2)
                    &&& forall|h3: ObjectHeap| #[trigger]
                        T2::copied(args[2].data, &h2, &h3) ==> {
                        &&& h3.well_formed()
                        &&& T3::copyable(args[3].data, &h3)
                        &&& forall|h4: ObjectHeap| #[trigger]
                            T3::copied(args[3].data, &h3, &h4) ==> {
                            &&& h4.well_formed()
                            &&& forall|v0: T0, v1: T1, v2: T2, v3: T3|
                                v0.is_value_of(args[0].data)
                                    && v1.is_value_of(args[1].data)
                                    && v2.is_value_of(args[2].data)
                                    && v3.is_value_of(args[3].data)
                                    ==> #[trigger] call_requires(*self, (v0, v1, v2, v3, h4))
                            &&& forall|
                                v0: T0,
                                v1: T1,
                                v2: T2,
                                v3: T3,
                                after: ObjectHeap,
                                out: Out,
                            |
                                v0.is_value_of(args[0].data)
                                    && v1.is_value_of(args[1].data)
                                    && v2.is_value_of(args[2].data)
                                    && v3.is_value_of(args[3].data)
                                    && #[trigger] call_ensures(
                                        *self,
                                        (v0, v1, v2, v3, h4),
                                        (after, Ok::<Out, Error>(out)),
                                    )
                                    ==> after.well_formed() && out.holdable(&after)
                        }
                    }
                }
            }
        }
    }

    open spec fn called(
        &self,
        args: Seq<AnyView>,
        types: &TypeTable,
        before: ObjectHeap,
        after: ObjectHeap,
        result: Result<Any, Error>,
    ) -> bool {
        if args.len() != 4 {
            &&& result matches Err(error) && error@ == error_view(
                VALUE_ERROR,
                argument_count_message(4, args.len() as int),
            )
            &&& after == before
        } else if !T0::castable(args[0].data, types) {
            &&& result matches Err(error) && error@ == argument_error_view::<T0>(
                args[0].data,
                types,
                0,
            )
            &&& after == before
        } else if !T1::castable(args[1].data, types) {
            &&& result matches Err(error) && error@ == argument_error_view::<T1>(
                args[1].data,
                types,
                1,
            )
            &&& after == before
        } else if !T2::castable(args[2].data, types) {
            &&& result matches Err(error) && error@ == argument_error_view::<T2>(
                args[2].data,
                types,
                2,
            )
            &&& after == before
        } else if !T3::castable(args[3].data, types) {
            &&& result matches Err(error) && error@ == argument_error_view::<T3>(
                args[3].data,
                types,
                3,
            )
            &&& after == before
        } else {
            exists|
                h1: ObjectHeap,
                h2: ObjectHeap,
                h3: ObjectHeap,
                h4: ObjectHeap,
                v0: T0,
                v1: T1,
                v2: T2,
                v3: T3,
                out: Result<Out, Error>,
            |
                {
                    &&& #[trigger] argument_converted(args[0].data, before, h1, v0)
                    &&& #[trigger] argument_converted(args[1].data, h1, h2, v1)
                    &&& #[trigger] argument_converted(args[2].data, h2, h3, v2)
                    &&& #[trigger] argument_converted(args[3].data, h3, h4, v3)
                    &&& #[trigger] call_ensures(*self, (v0, v1, v2, v3, h4), (after, out))
                    &&& returned(out, &after, result)
                }
        }
    }

    fn call_packed(
        &self,
        packed_args: &[AnyView],
        types: &TypeTable,
        heap: &mut ObjectHeap,
    ) -> Result<Any, Error> {
        if packed_args.len() != 4 {
            return Err(argument_count_error(4, packed_args.len()));
        }
        if !T0::can_cast_from_any_view(&packed_args[0].data, types) {
            return Err(argument_error::<T0>(&packed_args[0].data, types, 0));
        }
        if !T1::can_cast_from_any_view(&packed_args[1].data, types) {
            return Err(argument_error::<T1>(&packed_args[1].data, types, 1));
        }
        if !T2::can_cast_from_any_view(&packed_args[2].data, types) {
            return Err(argument_error::<T2>(&packed_args[2].data, types, 2));
        }
        if !T3::can_cast_from_any_view(&packed_args[3].data, types) {
            return Err(argument_error::<T3>(&packed_args[3].data, types, 3));
        }
        let v0: T0 = T0::copy_from_any_view_after_check(&packed_args[0].data, heap);
        let ghost h1 = *heap;
        assert(argument_converted(packed_args@[0].data, *old(heap), h1, v0));
        let v1: T1 = T1::copy_from_any_view_after_check(&packed_args[1].data, heap);
        let ghost h2 = *heap;
        assert(argument_converted(packed_args@[1].data, h1, h2, v1));
        let v2: T2 = T2::copy_from_any_view_after_check(&packed_args[2].data, heap);
        let ghost h3 = *heap;
        assert(argument_converted(packed_args@[2].data, h2, h3, v2));
        let v3: T3 = T3::copy_from_any_view_after_check(&packed_args[3].data, heap);
        let ghost h4 = *heap;
        assert(argument_converted(packed_args@[3].data, h3, h4, v3));
        let mut lent: ObjectHeap = ObjectHeap::new();
        core::mem::swap(heap, &mut lent);
        let (after, out): (ObjectHeap, Result<Out, Error>) = self(v0, v1, v2, v3, lent);
        *heap = after;
        assert(call_ensures(*self, (v0, v1, v2, v3, h4), (*heap, out)));
        match out {
            Ok(value) => Ok(Any::from_raw_ffi_any(Out::move_to_any(value, heap))),
            Err(error) => Err(error),
        }
    }
}

impl<Fun, T0, T1, T2, T3, T4, Out> AsPackedCallable<(T0, T1, T2, T3, T4), Out> for Fun where
    Fun: Fn(T0, T1, T2, T3, T4, ObjectHeap) -> (ObjectHeap, Result<Out, Error>),
    T0: AnyCompatible,
    T1: AnyCompatible,
    T2: AnyCompatible,
    T3: AnyCompatible,
    T4: AnyCompatible,
    Out: AnyCompatible,
{
    open spec fn callable(&self, args: Seq<AnyView>, types: &TypeTable, heap: ObjectHeap) -> bool {
        args.len() == 5
            && T0::castable(args[0].data, types)
            && T1::castable(args[1].data, types)
            && T2::castable(args[2].data, types)
            && T3::castable(args[3].data, types)
            && T4::castable(args[4].data, types)
            ==> {
            &&& T0::copyable(args[0].data, &heap)
            &&& forall|h1: ObjectHeap| #[trigger]
                T0::copied(args[0].data, &heap, &h1) ==> {
                &&& h1.well_formed()
                &&& T1::copyable(args[1].data, &h1)
                &&& forall|h2: ObjectHeap| #[trigger]
                    T1::copied(args[1].data, &h1, &h2) ==> {
                    &&& h2.well_formed()
                    &&& T2::copyable(args[2].data, &h2)
                    &&& forall|h3: ObjectHeap| #[trigger]
                        T2::copied(args[2].data, &h2, &h3) ==> {
                        &&& h3.well_formed()
                        &&& T3::copyable(args[3].data, &h3)
                        &&& forall|h4: ObjectHeap| #[trigger]
                            T3::copied(args[3].data, &h3, &h4) ==> {
                            &&& h4.well_formed()
                            &&& T4::copyable(args[4].data, &h4)
                            &&& forall|h5: ObjectHeap| #[trigger]
                                T4::copied(args[4].data, &h4, &h5) ==> {
                                &&& h5.well_formed()
                                &&& forall|v0: T0, v1: T1, v2: T2, v3: T3, v4: T4|
                                    v0.is_value_of(args[0].data)
                                        && v1.is_value_of(args[1].data)
                                        && v2.is_value_of(args[2].data)
                                        && v3.is_value_of(args[3].data)
                                        && v4.is_value_of(args[4].data)
                                        ==> #[trigger] call_requires(*self, (v0, v1, v2, v3, v4, h5))
                                &&& forall|
                                    v0: T0,
                                    v1: T1,
                                    v2: T2,
                                    v3: T3,
                                    v4: T4,
                                    after: ObjectHeap,
                                    out: Out,
                                |
                                    v0.is_value_of(args[0].data)
                                        && v1.is_value_of(args[1].data)
                                        && v2.is_value_of(args[2].data)
                                        && v3.is_value_of(args[3].data)
                                        && v4.is_value_of(args[4].data)
                                        && #[trigger] call_ensures(
                                            *self,
                                            (v0, v1, v2, v3, v4, h5),
                                            (after, Ok::<Out, Error>(out)),
                                        )
                                        ==> after.well_formed() && out.holdable(&after)
                            }
                        }
                    }
                }
            }
        }
    }

    open spec fn called(
        &self,
        args: Seq<AnyView>,
        types: &TypeTable,
        before: ObjectHeap,
        after: ObjectHeap,
        result: Result<Any, Error>,
    ) -> bool {
        if args.len() != 5 {
            &&& result matches Err(error) && error@ == error_view(
                VALUE_ERROR,
                argument_count_message(5, args.len() as int),
            )
            &&& after == before
        } else if !T0::castable(args[0].data, types) {
            &&& result matches Err(error) && error@ == argument_error_view::<T0>(
                args[0].data,
                types,
                0,
            )
            &&& after == before
        } else if !T1::castable(args[1].data, types) {
            &&& result matches Err(error) && error@ == argument_error_view::<T1>(
                args[1].data,
                types,
                1,
            )
            &&& after == before
        } else if !T2::castable(args[2].data, types) {
            &&& result matches Err(error) && error@ == argument_error_view::<T2>(
                args[2].data,
                types,
                2,
            )
            &&& after == before
        } else if !T3::castable(args[3].data, types) {
            &&& result matches Err(error) && error@ == argument_error_view::<T3>(
                args[3].data,
                types,
                3,
            )
            &&& after == before
        } else if !T4::castable(args[4].data, types) {
            &&& result matches Err(error) && error@ == argument_error_view::<T4>(
                args[4].data,
                types,
                4,
            )
            &&& after == before
        } else {
            exists|
                h1: ObjectHeap,
                h2: ObjectHeap,
                h3: ObjectHeap,
                h4: ObjectHeap,
                h5: ObjectHeap,
                v0: T0,
                v1: T1,
                v2: T2,
                v3: T3,
                v4: T4,
                out: Result<Out, Error>,
            |
                {
                    &&& #[trigger] argument_converted(args[0].data, before, h1, v0)
                    &&& #[trigger] argument_converted(args[1].data, h1, h2, v1)
                    &&& #[trigger] argument_converted(args[2].data, h2, h3, v2)
                    &&& #[trigger] argument_converted(args[3].data, h3, h4, v3)
                    &&& #[trigger] argument_converted(args[4].data, h4, h5, v4)
                    &&& #[trigger] call_ensures(*self, (v0, v1, v2, v3, v4, h5), (after, out))
                    &&& returned(out, &after, result)
                }
        }
    }

    fn call_packed(
        &self,
        packed_args: &[AnyView],
        types: &TypeTable,
        heap: &mut ObjectHeap,
    ) -> Result<Any, Error> {
        if packed_args.len() != 5 {
            return Err(argument_count_error(5, packed_args.len()));
        }
        if !T0::can_cast_from_any_view(&packed_args[0].data, types) {
            return Err(argument_error::<T0>(&packed_args[0].data, types, 0));
        }
        if !T1::can_cast_from_any_view(&packed_args[1].data, types) {
            return Err(argument_error::<T1>(&packed_args[1].data, types, 1));
        }
        if !T2::can_cast_from_any_view(&packed_args[2].data, types) {
            return Err(argument_error::<T2>(&packed_args[2].data, types, 2));
        }
        if !T3::can_cast_from_any_view(&packed_args[3].data, types) {
            return Err(argument_error::<T3>(&packed_args[3].data, types, 3));
        }
        if !T4::can_cast_from_any_view(&packed_args[4].data, types) {
            return Err(argument_error::<T4>(&packed_args[4].data, types, 4));
        }
        let v0: T0 = T0::copy_from_any_view_after_check(&packed_args[0].data, heap);
        let ghost h1 = *heap;
        assert(argument_converted(packed_args@[0].data, *old(heap), h1, v0));
        let v1: T1 = T1::copy_from_any_view_after_check(&packed_args[1].data, heap);
        let ghost h2 = *heap;
        assert(argument_converted(packed_args@[1].data, h1, h2, v1));
        let v2: T2 = T2::copy_from_any_view_after_check(&packed_args[2].data, heap);
        let ghost h3 = *heap;
        assert(argument_converted(packed_args@[2].data, h2, h3, v2));
        let v3: T3 = T3::copy_from_any_view_after_check(&packed_args[3].data, heap);
        let ghost h4 = *heap;
        assert(argument_converted(packed_args@[3].data, h3, h4, v3));
        let v4: T4 = T4::copy_from_any_view_after_check(&packed_args[4].data, heap);
        let ghost h5 = *heap;
        assert(argument_converted(packed_args@[4].data, h4, h5, v4));
        let mut lent: ObjectHeap = ObjectHeap::new();
        core::mem::swap(heap, &mut lent);
        let (after, out): (ObjectHeap, Result<Out, Error>) = self(v0, v1, v2, v3, v4, lent);
        *heap = after;
        assert(call_ensures(*self, (v0, v1, v2, v3, v4, h5), (*heap, out)));
        match out {
            Ok(value) => Ok(Any::from_raw_ffi_any(Out::move_to_any(value, heap))),
            Err(error) => Err(error),
        }
    }
}

impl<Fun, T0, T1, T2, T3, T4, T5, Out> AsPackedCallable<(T0, T1, T2, T3, T4, T5), Out> for Fun where
    Fun: Fn(T0, T1, T2, T3, T4, T5, ObjectHeap) -> (ObjectHeap, Result<Out, Error>),
    T0: AnyCompatible,
    T1: AnyCompatible,
    T2: AnyCompatible,
    T3: AnyCompatible,
    T4: AnyCompatible,
    T5: AnyCompatible,
    Out: AnyCompatible,
{
    open spec fn callable(&self, args: Seq<AnyView>, types: &TypeTable, heap: ObjectHeap) -> bool {
        args.len() == 6
            && T0::castable(args[0].data, types)
            && T1::castable(args[1].data, types)
            && T2::castable(args[2].data, types)
            && T3::castable(args[3].data, types)
            && T4::castable(args[4].data, types)
            && T5::castable(args[5].data, types)
            ==> {
            &&& T0::copyable(args[0].data, &heap)
            &&& forall|h1: ObjectHeap| #[trigger]
                T0::copied(args[0].data, &heap, &h1) ==> {
                &&& h1.well_formed()
                &&& T1::copyable(args[1].data, &h1)
                &&& forall|h2: ObjectHeap| #[trigger]
                    T1::copied(args[1].data, &h1, &h2) ==> {
                    &&& h2.well_formed()
                    &&& T2::copyable(args[2].data, &h2)
                    &&& forall|h3: ObjectHeap| #[trigger]
                        T2::copied(args[2].data, &h2, &h3) ==> {
                        &&& h3.well_formed()
                        &&& T3::copyable(args[3].data, &h3)
                        &&& forall|h4: ObjectHeap| #[trigger]
                            T3::copied(args[3].data, &h3, &h4) ==> {
                            &&& h4.well_formed()
                            &&& T4::copyable(args[4].data, &h4)
                            &&& forall|h5: ObjectHeap| #[trigger]
                                T4::copied(args[4].data, &h4, &h5) ==> {
                                &&& h5.well_formed()
                                &&& T5::copyable(args[5].data, &h5)
                                &&& forall|h6: ObjectHeap| #[trigger]
                                    T5::copied(args[5].data, &h5, &h6) ==> {
                                    &&& h6.well_formed()
                                    &&& forall|
                                        v0: T0,
                                        v1: T1,
                                        v2: T2,
                                        v3: T3,
                                        v4: T4,
                                        v5: T5,
                                    |
                                        v0.is_value_of(args[0].data)
                                            && v1.is_value_of(args[1].data)
                                            && v2.is_value_of(args[2].data)
                                            && v3.is_value_of(args[3].data)
                                            && v4.is_value_of(args[4].data)
                                            && v5.is_value_of(args[5].data)
                                            ==> #[trigger] call_requires(*self, (v0, v1, v2, v3, v4, v5, h6))
                                    &&& forall|
                                        v0: T0,
                                        v1: T1,
                                        v2: T2,
                                        v3: T3,
                                        v4: T4,
                                        v5: T5,
                                        after: ObjectHeap,
                                        out: Out,
                                    |
                                        v0.is_value_of(args[0].data)
                                            && v1.is_value_of(args[1].data)
                                            && v2.is_value_of(args[2].data)
                                            && v3.is_value_of(args[3].data)
                                            && v4.is_value_of(args[4].data)
                                            && v5.is_value_of(args[5].data)
                                            && #[trigger] call_ensures(
                                                *self,
                                                (v0, v1, v2, v3, v4, v5, h6),
                                                (after, Ok::<Out, Error>(out)),
                                            )
                                            ==> after.well_formed() && out.holdable(&after)
                                }
                            }
                        }
                    }
                }
            }
        }
    }

    open spec fn called(
        &self,
        args: Seq<AnyView>,
        types: &TypeTable,
        before: ObjectHeap,
        after: ObjectHeap,
        result: Result<Any, Error>,
    ) -> bool {
        if args.len() != 6 {
            &&& result matches Err(error) && error@ == error_view(
                VALUE_ERROR,
                argument_count_message(6, args.len() as int),
            )
            &&& after == before
        } else if !T0::castable(args[0].data, types) {
            &&& result matches Err(error) && error@ == argument_error_view::<T0>(
                args[0].data,
                types,
                0,
            )
            &&& after == before
        } else if !T1::castable(args[1].data, types) {
            &&& result matches Err(error) && error@ == argument_error_view::<T1>(
                args[1].data,
                types,
                1,
            )
            &&& after == before
        } else if !T2::castable(args[2].data, types) {
            &&& result matches Err(error) && error@ == argument_error_view::<T2>(
                args[2].data,
                types,
                2,
            )
            &&& after == before
        } else if !T3::castable(args[3].data, types) {
            &&& result matches Err(error) && error@ == argument_error_view::<T3>(
                args[3].data,
                types,
                3,
            )
            &&& after == before
        } else if !T4::castable(args[4].data, types) {
            &&& result matches Err(error) && error@ == argument_error_view::<T4>(
                args[4].data,
                types,
                4,
            )
            &&& after == before
        } else if !T5::castable(args[5].data, types) {
            &&& result matches Err(error) && error@ == argument_error_view::<T5>(
                args[5].data,
                types,
                5,
            )
            &&& after == before
        } else {
            exists|
                h1: ObjectHeap,
                h2: ObjectHeap,
                h3: ObjectHeap,
                h4: ObjectHeap,
                h5: ObjectHeap,
                h6: ObjectHeap,
                v0: T0,
                v1: T1,
                v2: T2,
                v3: T3,
                v4: T4,
                v5: T5,
                out: Result<Out, Error>,
            |
                {
                    &&& #[trigger] argument_converted(args[0].data, before, h1, v0)
                    &&& #[trigger] argument_converted(args[1].data, h1, h2, v1)
                    &&& #[trigger] argument_converted(args[2].data, h2, h3, v2)
                    &&& #[trigger] argument_converted(args[3].data, h3, h4, v3)
                    &&& #[trigger] argument_converted(args[4].data, h4, h5, v4)
                    &&& #[trigger] argument_converted(args[5].data, h5, h6, v5)
                    &&& #[trigger] call_ensures(*self, (v0, v1, v2, v3, v4, v5, h6), (after, out))
                    &&& returned(out, &after, result)
                }
        }
    }

    fn call_packed(
        &self,
        packed_args: &[AnyView],
        types: &TypeTable,
        heap: &mut ObjectHeap,
    ) -> Result<Any, Error> {
        if packed_args.len() != 6 {
            return Err(argument_count_error(6, packed_args.len()));
        }
        if !T0::can_cast_from_any_view(&packed_args[0].data, types) {
            return Err(argument_error::<T0>(&packed_args[0].data, types, 0));
        }
        if !T1::can_cast_from_any_view(&packed_args[1].data, types) {
            return Err(argument_error::<T1>(&packed_args[1].data, types, 1));
        }
        if !T2::can_cast_from_any_view(&packed_args[2].data, types) {
            return Err(argument_error::<T2>(&packed_args[2].data, types, 2));
        }
        if !T3::can_cast_from_any_view(&packed_args[3].data, types) {
            return Err(argument_error::<T3>(&packed_args[3].data, types, 3));
        }
        if !T4::can_cast_from_any_view(&packed_args[4].data, types) {
            return Err(argument_error::<T4>(&packed_args[4].data, types, 4));
        }
        if !T5::can_cast_from_any_view(&packed_args[5].data, types) {
            return Err(argument_error::<T5>(&packed_args[5].data, types, 5));
        }
        let v0: T0 = T0::copy_from_any_view_after_check(&packed_args[0].data, heap);
        let ghost h1 = *heap;
        assert(argument_converted(packed_args@[0].data, *old(heap), h1, v0));
        let v1: T1 = T1::copy_from_any_view_after_check(&packed_args[1].data, heap);
        let ghost h2 = *heap;
        assert(argument_converted(packed_args@[1].data, h1, h2, v1));
        let v2: T2 = T2::copy_from_any_view_after_check(&packed_args[2].data, heap);
        let ghost h3 = *heap;
        assert(argument_converted(packed_args@[2].data, h2, h3, v2));
        let v3: T3 = T3::copy_from_any_view_after_check(&packed_args[3].data, heap);
        let ghost h4 = *heap;
        assert(argument_converted(packed_args@[3].data, h3, h4, v3));
        let v4: T4 = T4::copy_from_any_view_after_check(&packed_args[4].data, heap);
        let ghost h5 = *heap;
        assert(argument_converted(packed_args@[4].data, h4, h5, v4));
        let v5: T5 = T5::copy_from_any_view_after_check(&packed_args[5].data, heap);
        let ghost h6 = *heap;
        assert(argument_converted(packed_args@[5].data, h5, h6, v5));
        let mut lent: ObjectHeap = ObjectHeap::new();
        core::mem::swap(heap, &mut lent);
        let (after, out): (ObjectHeap, Result<Out, Error>) = self(v0, v1, v2, v3, v4, v5, lent);
        *heap = after;
        assert(call_ensures(*self, (v0, v1, v2, v3, v4, v5, h6), (*heap, out)));
        match out {
            Ok(value) => Ok(Any::from_raw_ffi_any(Out::move_to_any(value, heap))),
            Err(error) => Err(error),
        }
    }
}

impl<Fun, T0, T1, T2, T3, T4, T5, T6, Out> AsPackedCallable<
    (T0, T1, T2, T3, T4, T5, T6),
    Out,
> for Fun where
    Fun: Fn(T0, T1, T2, T3, T4, T5, T6, ObjectHeap) -> (ObjectHeap, Result<Out, Error>),
    T0: AnyCompatible,
    T1: AnyCompatible,
    T2: AnyCompatible,
    T3: AnyCompatible,
    T4: AnyCompatible,
    T5: AnyCompatible,
    T6: AnyCompatible,
    Out: AnyCompatible,
{
    open spec fn callable(&self, args: Seq<AnyView>, types: &TypeTable, heap: ObjectHeap) -> bool {
        args.len() == 7
            && T0::castable(args[0].data, types)
            && T1::castable(args[1].data, types)
            && T2::castable(args[2].data, types)
            && T3::castable(args[3].data, types)
            && T4::castable(args[4].data, types)
            && T5::castable(args[5].data, types)
            && T6::castable(args[6].data, types)
            ==> {
            &&& T0::copyable(args[0].data, &heap)
            &&& forall|h1: ObjectHeap| #[trigger]
                T0::copied(args[0].data, &heap, &h1) ==> {
                &&& h1.well_formed()
                &&& T1::copyable(args[1].data, &h1)
                &&& forall|h2: ObjectHeap| #[trigger]
                    T1::copied(args[1].data, &h1, &h2) ==> {
                    &&& h2.well_formed()
                    &&& T2::copyable(args[2].data, &h2)
                    &&& forall|h3: ObjectHeap| #[trigger]
                        T2::copied(args[2].data, &h2, &h3) ==> {
                        &&& h3.well_formed()
                        &&& T3::copyable(args[3].data, &h3)
                        &&& forall|h4: ObjectHeap| #[trigger]
                            T3::copied(args[3].data, &h3, &h4) ==> {
                            &&& h4.well_formed()
                            &&& T4::copyable(args[4].data, &h4)
                            &&& forall|h5: ObjectHeap| #[trigger]
                                T4::copied(args[4].data, &h4, &h5) ==> {
                                &&& h5.well_formed()
                                &&& T5::copyable(args[5].data, &h5)
                                &&& forall|h6: ObjectHeap| #[trigger]
                                    T5::copied(args[5].data, &h5, &h6) ==> {
                                    &&& h6.well_formed()
                                    &&& T6::copyable(args[6].data, &h6)
                                    &&& forall|h7: ObjectHeap| #[trigger]
                                        T6::copied(args[6].data, &h6, &h7) ==> {
                                        &&& h7.well_formed()
                                        &&& forall|
                                            v0: T0,
                                            v1: T1,
                                            v2: T2,
                                            v3: T3,
                                            v4: T4,
                                            v5: T5,
                                            v6: T6,
                                        |
                                            v0.is_value_of(args[0].data)
                                                && v1.is_value_of(args[1].data)
                                                && v2.is_value_of(args[2].data)
                                                && v3.is_value_of(args[3].data)
                                                && v4.is_value_of(args[4].data)
                                                && v5.is_value_of(args[5].data)
                                                && v6.is_value_of(args[6].data)
                                                ==> #[trigger] call_requires(*self, (v0, v1, v2, v3, v4, v5, v6, h7))
                                        &&& forall|
                                            v0: T0,
                                            v1: T1,
                                            v2: T2,
                                            v3: T3,
                                            v4: T4,
                                            v5: T5,
                                            v6: T6,
                                            after: ObjectHeap,
                                            out: Out,
                                        |
                                            v0.is_value_of(args[0].data)
                                                && v1.is_value_of(args[1].data)
                                                && v2.is_value_of(args[2].data)
                                                && v3.is_value_of(args[3].data)
                                                && v4.is_value_of(args[4].data)
                                                && v5.is_value_of(args[5].data)
                                                && v6.is_value_of(args[6].data)
                                                && #[trigger] call_ensures(
                                                    *self,
                                                    (v0, v1, v2, v3, v4, v5, v6, h7),
                                                    (after, Ok::<Out, Error>(out)),
                                                )
                                                ==> after.well_formed() && out.holdable(&after)
                                    }
                                }
                            }
                        }
                    }
                }
            }
        }
    }

    open spec fn called(
        &self,
        args: Seq<AnyView>,
        types: &TypeTable,
        before: ObjectHeap,
        after: ObjectHeap,
        result: Result<Any, Error>,
    ) -> bool {
        if args.len() != 7 {
            &&& result matches Err(error) && error@ == error_view(
                VALUE_ERROR,
                argument_count_message(7, args.len() as int),
            )
            &&& after == before
        } else if !T0::castable(args[0].data, types) {
            &&& result matches Err(error) && error@ == argument_error_view::<T0>(
                args[0].data,
                types,
                0,
            )
            &&& after == before
        } else if !T1::castable(args[1].data, types) {
            &&& result matches Err(error) && error@ == argument_error_view::<T1>(
                args[1].data,
                types,
                1,
            )
            &&& after == before
        } else if !T2::castable(args[2].data, types) {
            &&& result matches Err(error) && error@ == argument_error_view::<T2>(
                args[2].data,
                types,
                2,
            )
            &&& after == before
        } else if !T3::castable(args[3].data, types) {
            &&& result matches Err(error) && error@ == argument_error_view::<T3>(
                args[3].data,
                types,
                3,
            )
            &&& after == before
        } else if !T4::castable(args[4].data, types) {
            &&& result matches Err(error) && error@ == argument_error_view::<T4>(
                args[4].data,
                types,
                4,
            )
            &&& after == before
        } else if !T5::castable(args[5].data, types) {
            &&& result matches Err(error) && error@ == argument_error_view::<T5>(
                args[5].data,
                types,
                5,
            )
            &&& after == before
        } else if !T6::castable(args[6].data, types) {
            &&& result matches Err(error) && error@ == argument_error_view::<T6>(
                args[6].data,
                types,
                6,
            )
            &&& after == before
        } else {
            exists|
                h1: ObjectHeap,
                h2: ObjectHeap,
                h3: ObjectHeap,
                h4: ObjectHeap,
                h5: ObjectHeap,
                h6: ObjectHeap,
                h7: ObjectHeap,
                v0: T0,
                v1: T1,
                v2: T2,
                v3: T3,
                v4: T4,
                v5: T5,
                v6: T6,
                out: Result<Out, Error>,
            |
                {
                    &&& #[trigger] argument_converted(args[0].data, before, h1, v0)
                    &&& #[trigger] argument_converted(args[1].data, h1, h2, v1)
                    &&& #[trigger] argument_converted(args[2].data, h2, h3, v2)
                    &&& #[trigger] argument_converted(args[3].data, h3, h4, v3)
                    &&& #[trigger] argument_converted(args[4].data, h4, h5, v4)
                    &&& #[trigger] argument_converted(args[5].data, h5, h6, v5)
                    &&& #[trigger] argument_converted(args[6].data, h6, h7, v6)
                    &&& #[trigger] call_ensures(*self, (v0, v1, v2, v3, v4, v5, v6, h7), (after, out))
                    &&& returned(out, &after, result)
                }
        }
    }

    fn call_packed(
        &self,
        packed_args: &[AnyView],
        types: &TypeTable,
        heap: &mut ObjectHeap,
    ) -> Result<Any, Error> {
        if packed_args.len() != 7 {
            return Err(argument_count_error(7, packed_args.len()));
        }
        if !T0::can_cast_from_any_view(&packed_args[0].data, types) {
            return Err(argument_error::<T0>(&packed_args[0].data, types, 0));
        }
        if !T1::can_cast_from_any_view(&packed_args[1].data, types) {
            return Err(argument_error::<T1>(&packed_args[1].data, types, 1));
        }
        if !T2::can_cast_from_any_view(&packed_args[2].data, types) {
            return Err(argument_error::<T2>(&packed_args[2].data, types, 2));
        }
        if !T3::can_cast_from_any_view(&packed_args[3].data, types) {
            return Err(argument_error::<T3>(&packed_args[3].data, types, 3));
        }
        if !T4::can_cast_from_any_view(&packed_args[4].data, types) {
            return Err(argument_error::<T4>(&packed_args[4].data, types, 4));
        }
        if !T5::can_cast_from_any_view(&packed_args[5].data, types) {
            return Err(argument_error::<T5>(&packed_args[5].data, types, 5));
        }
        if !T6::can_cast_from_any_view(&packed_args[6].data, types) {
            return Err(argument_error::<T6>(&packed_args[6].data, types, 6));
        }
        let v0: T0 = T0::copy_from_any_view_after_check(&packed_args[0].data, heap);
        let ghost h1 = *heap;
        assert(argument_converted(packed_args@[0].data, *old(heap), h1, v0));
        let v1: T1 = T1::copy_from_any_view_after_check(&packed_args[1].data, heap);
        let ghost h2 = *heap;
        assert(argument_converted(packed_args@[1].data, h1, h2, v1));
        let v2: T2 = T2::copy_from_any_view_after_check(&packed_args[2].data, heap);
        let ghost h3 = *heap;
        assert(argument_converted(packed_args@[2].data, h2, h3, v2));
        let v3: T3 = T3::copy_from_any_view_after_check(&packed_args[3].data, heap);
        let ghost h4 = *heap;
        assert(argument_converted(packed_args@[3].data, h3, h4, v3));
        let v4: T4 = T4::copy_from_any_view_after_check(&packed_args[4].data, heap);
        let ghost h5 = *heap;
        assert(argument_converted(packed_args@[4].data, h4, h5, v4));
        let v5: T5 = T5::copy_from_any_view_after_check(&packed_args[5].data, heap);
        let ghost h6 = *heap;
        assert(argument_converted(packed_args@[5].data, h5, h6, v5));
        let v6: T6 = T6::copy_from_any_view_after_check(&packed_args[6].data, heap);
        let ghost h7 = *heap;
        assert(argument_converted(packed_args@[6].data, h6, h7, v6));
        let mut lent: ObjectHeap = ObjectHeap::new();
        core::mem::swap(heap, &mut lent);
        let (after, out): (ObjectHeap, Result<Out, Error>) = self(v0, v1, v2, v3, v4, v5, v6, lent);
        *heap = after;
        assert(call_ensures(*self, (v0, v1, v2, v3, v4, v5, v6, h7), (*heap, out)));
        match out {
            Ok(value) => Ok(Any::from_raw_ffi_any(Out::move_to_any(value, heap))),
            Err(error) => Err(error),
        }
    }
}

impl<Fun, T0, T1, T2, T3, T4, T5, T6, T7, Out> AsPackedCallable<
    (T0, T1, T2, T3, T4, T5, T6, T7),
    Out,
> for Fun where
    Fun: Fn(T0, T1, T2, T3, T4, T5, T6, T7, ObjectHeap) -> (ObjectHeap, Result<Out, Error>),
    T0: AnyCompatible,
    T1: AnyCompatible,
    T2: AnyCompatible,
    T3: AnyCompatible,
    T4: AnyCompatible,
    T5: AnyCompatible,
    T6: AnyCompatible,
    T7: AnyCompatible,
    Out: AnyCompatible,
{
    open spec fn callable(&self, args: Seq<AnyView>, types: &TypeTable, heap: ObjectHeap) -> bool {
        args.len() == 8
            && T0::castable(args[0].data, types)
            && T1::castable(args[1].data, types)
            && T2::castable(args[2].data, types)
            && T3::castable(args[3].data, types)
            && T4::castable(args[4].data, types)
            && T5::castable(args[5].data, types)
            && T6::castable(args[6].data, types)
            && T7::castable(args[7].data, types)
            ==> {
            &&& T0::copyable(args[0].data, &heap)
            &&& forall|h1: ObjectHeap| #[trigger]
                T0::copied(args[0].data, &heap, &h1) ==> {
                &&& h1.well_formed()
                &&& T1::copyable(args[1].data, &h1)
                &&& forall|h2: ObjectHeap| #[trigger]
                    T1::copied(args[1].data, &h1, &h2) ==> {
                    &&& h2.well_formed()
                    &&& T2::copyable(args[2].data, &h2)
                    &&& forall|h3: ObjectHeap| #[trigger]
                        T2::copied(args[2].data, &h2, &h3) ==> {
                        &&& h3.well_formed()
                        &&& T3::copyable(args[3].data, &h3)
                        &&& forall|h4: ObjectHeap| #[trigger]
                            T3::copied(args[3].data, &h3, &h4) ==> {
                            &&& h4.well_formed()
                            &&& T4::copyable(args[4].data, &h4)
                            &&& forall|h5: ObjectHeap| #[trigger]
                                T4::copied(args[4].data, &h4, &h5) ==> {
                                &&& h5.well_formed()
                                &&& T5::copyable(args[5].data, &h5)
                                &&& forall|h6: ObjectHeap| #[trigger]
                                    T5::copied(args[5].data, &h5, &h6) ==> {
                                    &&& h6.well_formed()
                                    &&& T6::copyable(args[6].data, &h6)
                                    &&& forall|h7: ObjectHeap| #[trigger]
                                        T6::copied(args[6].data, &h6, &h7) ==> {
                                        &&& h7.well_formed()
                                        &&& T7::copyable(args[7].data, &h7)
                                        &&& forall|h8: ObjectHeap| #[trigger]
                                            T7::copied(args[7].data, &h7, &h8) ==> {
                                            &&& h8.well_formed()
                                            &&& forall|
                                                v0: T0,
                                                v1: T1,
                                                v2: T2,
                                                v3: T3,
                                                v4: T4,
                                                v5: T5,
                                                v6: T6,
                                                v7: T7,
                                            |
                                                v0.is_value_of(args[0].data)
                                                    && v1.is_value_of(args[1].data)
                                                    && v2.is_value_of(args[2].data)
                                                    && v3.is_value_of(args[3].data)
                                                    && v4.is_value_of(args[4].data)
                                                    && v5.is_value_of(args[5].data)
                                                    && v6.is_value_of(args[6].data)
                                                    && v7.is_value_of(args[7].data)
                                                    ==> #[trigger] call_requires(*self, (v0, v1, v2, v3, v4, v5, v6, v7, h8))
                                            &&& forall|
                                                v0: T0,
                                                v1: T1,
                                                v2: T2,
                                                v3: T3,
                                                v4: T4,
                                                v5: T5,
                                                v6: T6,
                                                v7: T7,
                                                after: ObjectHeap,
                                                out: Out,
                                            |
                                                v0.is_value_of(args[0].data)
                                                    && v1.is_value_of(args[1].data)
                                                    && v2.is_value_of(args[2].data)
                                                    && v3.is_value_of(args[3].data)
                                                    && v4.is_value_of(args[4].data)
                                                    && v5.is_value_of(args[5].data)
                                                    && v6.is_value_of(args[6].data)
                                                    && v7.is_value_of(args[7].data)
                                                    && #[trigger] call_ensures(
                                                        *self,
                                                        (v0, v1, v2, v3, v4, v5, v6, v7, h8),
                                                        (after, Ok::<Out, Error>(out)),
                                                    )
                                                    ==> after.well_formed() && out.holdable(&after)
                                        }
                                    }
                                }
                            }
                        }
                    }
                }
            }
        }
    }

    open spec fn called(
        &self,
        args: Seq<AnyView>,
        types: &TypeTable,
        before: ObjectHeap,
        after: ObjectHeap,
        result: Result<Any, Error>,
    ) -> bool {
        if args.len() != 8 {
            &&& result matches Err(error) && error@ == error_view(
                VALUE_ERROR,
                argument_count_message(8, args.len() as int),
            )
            &&& after == before
        } else if !T0::castable(args[0].data, types) {
            &&& result matches Err(error) && error@ == argument_error_view::<T0>(
                args[0].data,
                types,
                0,
            )
            &&& after == before
        } else if !T1::castable(args[1].data, types) {
            &&& result matches Err(error) && error@ == argument_error_view::<T1>(
                args[1].data,
                types,
                1,
            )
            &&& after == before
        } else if !T2::castable(args[2].data, types) {
            &&& result matches Err(error) && error@ == argument_error_view::<T2>(
                args[2].data,
                types,
                2,
            )
            &&& after == before
        } else if !T3::castable(args[3].data, types) {
            &&& result matches Err(error) && error@ == argument_error_view::<T3>(
                args[3].data,
                types,
                3,
            )
            &&& after == before
        } else if !T4::castable(args[4].data, types) {
            &&& result matches Err(error) && error@ == argument_error_view::<T4>(
                args[4].data,
                types,
                4,
            )
            &&& after == before
        } else if !T5::castable(args[5].data, types) {
            &&& result matches Err(error) && error@ == argument_error_view::<T5>(
                args[5].data,
                types,
                5,
            )
            &&& after == before
        } else if !T6::castable(args[6].data, types) {
            &&& result matches Err(error) && error@ == argument_error_view::<T6>(
                args[6].data,
                types,
                6,
            )
            &&& after == before
        } else if !T7::castable(args[7].data, types) {
            &&& result matches Err(error) && error@ == argument_error_view::<T7>(
                args[7].data,
                types,
                7,
            )
            &&& after == before
        } else {
            exists|
                h1: ObjectHeap,
                h2: ObjectHeap,
                h3: ObjectHeap,
                h4: ObjectHeap,
                h5: ObjectHeap,
                h6: ObjectHeap,
                h7: ObjectHeap,
                h8: ObjectHeap,
                v0: T0,
                v1: T1,
                v2: T2,
                v3: T3,
                v4: T4,
                v5: T5,
                v6: T6,
                v7: T7,
                out: Result<Out, Error>,
            |
                {
                    &&& #[trigger] argument_converted(args[0].data, before, h1, v0)
                    &&& #[trigger] argument_converted(args[1].data, h1, h2, v1)
                    &&& #[trigger] argument_converted(args[2].data, h2, h3, v2)
                    &&& #[trigger] argument_converted(args[3].data, h3, h4, v3)
                    &&& #[trigger] argument_converted(args[4].data, h4, h5, v4)
                    &&& #[trigger] argument_converted(args[5].data, h5, h6, v5)
                    &&& #[trigger] argument_converted(args[6].data, h6, h7, v6)
                    &&& #[trigger] argument_converted(args[7].data, h7, h8, v7)
                    &&& #[trigger] call_ensures(*self, (v0, v1, v2, v3, v4, v5, v6, v7, h8), (after, out))
                    &&& returned(out, &after, result)
                }
        }
    }

    fn call_packed(
        &self,
        packed_args: &[AnyView],
        types: &TypeTable,
        heap: &mut ObjectHeap,
    ) -> Result<Any, Error> {
        if packed_args.len() != 8 {
            return Err(argument_count_error(8, packed_args.len()));
        }
        if !T0::can_cast_from_any_view(&packed_args[0].data, types) {
            return Err(argument_error::<T0>(&packed_args[0].data, types, 0));
        }
        if !T1::can_cast_from_any_view(&packed_args[1].data, types) {
            return Err(argument_error::<T1>(&packed_args[1].data, types, 1));
        }
        if !T2::can_cast_from_any_view(&packed_args[2].data, types) {
            return Err(argument_error::<T2>(&packed_args[2].data, types, 2));
        }
        if !T3::can_cast_from_any_view(&packed_args[3].data, types) {
            return Err(argument_error::<T3>(&packed_args[3].data, types, 3));
        }
        if !T4::can_cast_from_any_view(&packed_args[4].data, types) {
            return Err(argument_error::<T4>(&packed_args[4].data, types, 4));
        }
        if !T5::can_cast_from_any_view(&packed_args[5].data, types) {
            return Err(argument_error::<T5>(&packed_args[5].data, types, 5));
        }
        if !T6::can_cast_from_any_view(&packed_args[6].data, types) {
            return Err(argument_error::<T6>(&packed_args[6].data, types, 6));
        }
        if !T7::can_cast_from_any_view(&packed_args[7].data, types) {
            return Err(argument_error::<T7>(&packed_args[7].data, types, 7));
        }
        let v0: T0 = T0::copy_from_any_view_after_check(&packed_args[0].data, heap);
        let ghost h1 = *heap;
        assert(argument_converted(packed_args@[0].data, *old(heap), h1, v0));
        let v1: T1 = T1::copy_from_any_view_after_check(&packed_args[1].data, heap);
        let ghost h2 = *heap;
        assert(argument_converted(packed_args@[1].data, h1, h2, v1));
        let v2: T2 = T2::copy_from_any_view_after_check(&packed_args[2].data, heap);
        let ghost h3 = *heap;
        assert(argument_converted(packed_args@[2].data, h2, h3, v2));
        let v3: T3 = T3::copy_from_any_view_after_check(&packed_args[3].data, heap);
        let ghost h4 = *heap;
        assert(argument_converted(packed_args@[3].data, h3, h4, v3));
        let v4: T4 = T4::copy_from_any_view_after_check(&packed_args[4].data, heap);
        let ghost h5 = *heap;
        assert(argument_converted(packed_args@[4].data, h4, h5, v4));
        let v5: T5 = T5::copy_from_any_view_after_check(&packed_args[5].data, heap);
        let ghost h6 = *heap;
        assert(argument_converted(packed_args@[5].data, h5, h6, v5));
        let v6: T6 = T6::copy_from_any_view_after_check(&packed_args[6].data, heap);
        let ghost h7 = *heap;
        assert(argument_converted(packed_args@[6].data, h6, h7, v6));
        let v7: T7 = T7::copy_from_any_view_after_check(&packed_args[7].data, heap);
        let ghost h8 = *heap;
        assert(argument_converted(packed_args@[7].data, h7, h8, v7));
        let mut lent: ObjectHeap = ObjectHeap::new();
        core::mem::swap(heap, &mut lent);
        let (after, out): (ObjectHeap, Result<Out, Error>) = self(v0, v1, v2, v3, v4, v5, v6, v7, lent);
        *heap = after;
        assert(call_ensures(*self, (v0, v1, v2, v3, v4, v5, v6, v7, h8), (*heap, out)));
        match out {
            Ok(value) => Ok(Any::from_raw_ffi_any(Out::move_to_any(value, heap))),
            Err(error) => Err(error),
        }
    }
}

} // verus!
