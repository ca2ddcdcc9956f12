//! The order in which a Rust function is given its packed arguments.
//!
//! Whatever the number of arguments, value `i` comes from argument `i`.

use crate::any::{Any, AnyView};
use crate::error::{error_view, Error, ErrorView, VALUE_ERROR};
use crate::function_internal::{
    argument_converted, argument_count_message, argument_error_view, returned, AsPackedCallable,
};
use crate::object::heap::ObjectHeap;
use crate::type_table::TypeTable;
use crate::type_traits::AnyCompatible;
use vstd::prelude::*;

verus! {

/// A tuple of values that packed arguments are converted to.
pub trait ConvertedArgs: Sized {
    /// The number of values.
    spec fn count() -> nat;

    /// The error about the first argument that cannot be converted.
    spec fn refusal(args: Seq<AnyView>, types: &TypeTable) -> Option<ErrorView>;

    /// The values were converted from as many arguments, one after the other.
    spec fn taken_from(self, args: Seq<AnyView>, before: ObjectHeap, after: ObjectHeap) -> bool;
}

/// The error about the first argument that cannot be converted, where the last goes
/// to `Last` and those before it to `Front`.
pub open spec fn refused_in_turn<Front: ConvertedArgs, Last: AnyCompatible>(
    args: Seq<AnyView>,
    types: &TypeTable,
) -> Option<ErrorView> {
    match Front::refusal(args.drop_last(), types) {
        Some(error) => Some(error),
        None => if Last::castable(args.last().data, types) {
            None
        } else {
            Some(argument_error_view::<Last>(args.last().data, types, args.len() - 1))
        },
    }
}

/// The first values were converted from the first arguments, then the last value
/// from the last argument.
pub open spec fn taken_in_turn<Front: ConvertedArgs, Last: AnyCompatible>(
    front: Front,
    last: Last,
    args: Seq<AnyView>,
    before: ObjectHeap,
    after: ObjectHeap,
) -> bool {
    &&& args.len() > 0
    &&& exists|between: ObjectHeap| #[trigger]
        front.taken_from(args.drop_last(), before, between) && argument_converted(
            args.last().data,
            between,
            after,
            last,
        )
}

proof fn lemma_refusal<Front: ConvertedArgs, Last: AnyCompatible>(
    args: Seq<AnyView>,
    types: &TypeTable,
    count: int,
)
    requires
        0 < count <= args.len(),
    ensures
        refused_in_turn::<Front, Last>(args.take(count), types) == match Front::refusal(
            args.take(count - 1),
            types,
        ) {
            Some(error) => Some(error),
            None => if Last::castable(args[count - 1].data, types) {
                None
            } else {
                Some(argument_error_view::<Last>(args[count - 1].data, types, count - 1))
            },
        },
{
    assert(args.take(count).drop_last() =~= args.take(count - 1));
}

proof fn lemma_taken<Front: ConvertedArgs, Last: AnyCompatible>(
    front: Front,
    last: Last,
    args: Seq<AnyView>,
    count: int,
    before: ObjectHeap,
    between: ObjectHeap,
    after: ObjectHeap,
)
    requires
        0 < count <= args.len(),
        front.taken_from(args.take(count - 1), before, between),
        argument_converted(args[count - 1].data, between, after, last),
    ensures
        taken_in_turn(front, last, args.take(count), before, after),
{
    assert(args.take(count).drop_last() =~= args.take(count - 1));
}

/// A Rust function that is called with its packed arguments in order.
pub trait InOrderCallable<I: ConvertedArgs, O: AnyCompatible>: AsPackedCallable<I, O> {
    /// The function, called with these values, leaves the heap like this and returns
    /// `out`.
    spec fn ran(
        &self,
        values: I,
        entry: ObjectHeap,
        after: ObjectHeap,
        out: Result<O, Error>,
    ) -> bool;

    /// A packed call fails if the number of arguments is wrong, or with the first
    /// argument that cannot be converted. Otherwise the function runs on the values
    /// of the arguments, in their order, and what it returns is returned.
    proof fn law_arguments_are_taken_in_order(
        &self,
        args: Seq<AnyView>,
        types: &TypeTable,
        before: ObjectHeap,
        after: ObjectHeap,
        result: Result<Any, Error>,
    )
        requires
            self.called(args, types, before, after, result),
        ensures
            args.len() != I::count() ==> {
                &&& result is Err
                &&& result->Err_0@ == error_view(
                    VALUE_ERROR,
                    argument_count_message(I::count() as int, args.len() as int),
                )
                &&& after == before
            },
            args.len() == I::count() ==> match I::refusal(args, types) {
                Some(error) => {
                    &&& result is Err
                    &&& result->Err_0@ == error
                    &&& after == before
                },
                None => exists|values: I, entry: ObjectHeap, out: Result<O, Error>|
                    {
                        &&& #[trigger] values.taken_from(args, before, entry)
                        &&& #[trigger] self.ran(values, entry, after, out)
                        &&& returned(out, &after, result)
                    },
            },
    ;
}

impl ConvertedArgs for () {
    open spec fn count() -> nat {
        0
    }

    open spec fn refusal(args: Seq<AnyView>, types: &TypeTable) -> Option<ErrorView> {
        None
    }

    open spec fn taken_from(
        self,
        args: Seq<AnyView>,
        before: ObjectHeap,
        after: ObjectHeap,
    ) -> bool {
        args.len() == 0 && after == before
    }
}

impl<T0: AnyCompatible> ConvertedArgs for (T0,) {
    open spec fn count() -> nat {
        <() as ConvertedArgs>::count() + 1
    }

    open spec fn refusal(args: Seq<AnyView>, types: &TypeTable) -> Option<ErrorView> {
        refused_in_turn::<(), T0>(args, types)
    }

    open spec fn taken_from(
        self,
        args: Seq<AnyView>,
        before: ObjectHeap,
        after: ObjectHeap,
    ) -> bool {
        taken_in_turn((), self.0, args, before, after)
    }
}

impl<T0: AnyCompatible, T1: AnyCompatible> ConvertedArgs for (T0, T1) {
    open spec fn count() -> nat {
        <(T0,) as ConvertedArgs>::count() + 1
    }

    open spec fn refusal(args: Seq<AnyView>, types: &TypeTable) -> Option<ErrorView> {
        refused_in_turn::<(T0,), T1>(args, types)
    }

    open spec fn taken_from(
        self,
        args: Seq<AnyView>,
        before: ObjectHeap,
        after: ObjectHeap,
    ) -> bool {
        taken_in_turn((self.0,), self.1, args, before, after)
    }
}

impl<T0: AnyCompatible, T1: AnyCompatible, T2: AnyCompatible> ConvertedArgs for (T0, T1, T2) {
    open spec fn count() -> nat {
        <(T0, T1) as ConvertedArgs>::count() + 1
    }

    open spec fn refusal(args: Seq<AnyView>, types: &TypeTable) -> Option<ErrorView> {
        refused_in_turn::<(T0, T1), T2>(args, types)
    }

    open spec fn taken_from(
        self,
        args: Seq<AnyView>,
        before: ObjectHeap,
        after: ObjectHeap,
    ) -> bool {
        taken_in_turn((self.0, self.1), self.2, args, before, after)
    }
}

impl<
    T0: AnyCompatible,
    T1: AnyCompatible,
    T2: AnyCompatible,
    T3: AnyCompatible,
> ConvertedArgs for (T0, T1, T2, T3) {
    open spec fn count() -> nat {
        <(T0, T1, T2) as ConvertedArgs>::count() + 1
    }

    open spec fn refusal(args: Seq<AnyView>, types: &TypeTable) -> Option<ErrorView> {
        refused_in_turn::<(T0, T1, T2), T3>(args, types)
    }

    open spec fn taken_from(
        self,
        args: Seq<AnyView>,
        before: ObjectHeap,
        after: ObjectHeap,
    ) -> bool {
        taken_in_turn((self.0, self.1, self.2), self.3, args, before, after)
    }
}

impl<
    T0: AnyCompatible,
    T1: AnyCompatible,
    T2: AnyCompatible,
    T3: AnyCompatible,
    T4: AnyCompatible,
> ConvertedArgs for (T0, T1, T2, T3, T4) {
    open spec fn count() -> nat {
        <(T0, T1, T2, T3) as ConvertedArgs>::count() + 1
    }

    open spec fn refusal(args: Seq<AnyView>, types: &TypeTable) -> Option<ErrorView> {
        refused_in_turn::<(T0, T1, T2, T3), T4>(args, types)
    }

    open spec fn taken_from(
        self,
        args: Seq<AnyView>,
        before: ObjectHeap,
        after: ObjectHeap,
    ) -> bool {
        taken_in_turn((self.0, self.1, self.2, self.3), self.4, args, before, after)
    }
}

impl<
    T0: AnyCompatible,
    T1: AnyCompatible,
    T2: AnyCompatible,
    T3: AnyCompatible,
    T4: AnyCompatible,
    T5: AnyCompatible,
> ConvertedArgs for (T0, T1, T2, T3, T4, T5) {
    open spec fn count() -> nat {
        <(T0, T1, T2, T3, T4) as ConvertedArgs>::count() + 1
    }

    open spec fn refusal(args: Seq<AnyView>, types: &TypeTable) -> Option<ErrorView> {
        refused_in_turn::<(T0, T1, T2, T3, T4), T5>(args, types)
    }

    open spec fn taken_from(
        self,
        args: Seq<AnyView>,
        before: ObjectHeap,
        after: ObjectHeap,
    ) -> bool {
        taken_in_turn((self.0, self.1, self.2, self.3, self.4), self.5, args, before, after)
    }
}

impl<
    T0: AnyCompatible,
    T1: AnyCompatible,
    T2: AnyCompatible,
    T3: AnyCompatible,
    T4: AnyCompatible,
    T5: AnyCompatible,
    T6: AnyCompatible,
> ConvertedArgs for (T0, T1, T2, T3, T4, T5, T6) {
    open spec fn count() -> nat {
        <(T0, T1, T2, T3, T4, T5) as ConvertedArgs>::count() + 1
    }

    open spec fn refusal(args: Seq<AnyView>, types: &TypeTable) -> Option<ErrorView> {
        refused_in_turn::<(T0, T1, T2, T3, T4, T5), T6>(args, types)
    }

    open spec fn taken_from(
        self,
        args: Seq<AnyView>,
        before: ObjectHeap,
        after: ObjectHeap,
    ) -> bool {
        taken_in_turn((self.0, self.1, self.2, self.3, self.4, self.5), self.6, args, before, after)
    }
}

impl<
    T0: AnyCompatible,
    T1: AnyCompatible,
    T2: AnyCompatible,
    T3: AnyCompatible,
    T4: AnyCompatible,
    T5: AnyCompatible,
    T6: AnyCompatible,
    T7: AnyCompatible,
> ConvertedArgs for (T0, T1, T2, T3, T4, T5, T6, T7) {
    open spec fn count() -> nat {
        <(T0, T1, T2, T3, T4, T5, T6) as ConvertedArgs>::count() + 1
    }

    open spec fn refusal(args: Seq<AnyView>, types: &TypeTable) -> Option<ErrorView> {
        refused_in_turn::<(T0, T1, T2, T3, T4, T5, T6), T7>(args, types)
    }

    open spec fn taken_from(
        self,
        args: Seq<AnyView>,
        before: ObjectHeap,
        after: ObjectHeap,
    ) -> bool {
        taken_in_turn((self.0, self.1, self.2, self.3, self.4, self.5, self.6), self.7, args, before, after)
    }
}

impl<Fun, Out> InOrderCallable<(), Out> for Fun where
    Fun: Fn(ObjectHeap) -> (ObjectHeap, Result<Out, Error>),
    Out: AnyCompatible,
{
    open spec fn ran(
        &self,
        values: (),
        entry: ObjectHeap,
        after: ObjectHeap,
        out: Result<Out, Error>,
    ) -> bool {
        call_ensures(*self, (entry,), (after, out))
    }

    proof fn law_arguments_are_taken_in_order(
        &self,
        args: Seq<AnyView>,
        types: &TypeTable,
        before: ObjectHeap,
        after: ObjectHeap,
        result: Result<Any, Error>,
    ) {
        if args.len() == 0 {
            let out = choose|out: Result<Out, Error>| #[trigger]
                call_ensures(*self, (before,), (after, out)) && returned(out, &after, result);
            assert(<Fun as InOrderCallable<(), Out>>::ran(self, (), before, after, out));
            assert(<() as ConvertedArgs>::taken_from((), args, before, before));
        }
    }
}

impl<Fun, T0, Out> InOrderCallable<(T0,), Out> for Fun where
    Fun: Fn(T0, ObjectHeap) -> (ObjectHeap, Result<Out, Error>),
    T0: AnyCompatible,
    Out: AnyCompatible,
{
    open spec fn ran(
        &self,
        values: (T0,),
        entry: ObjectHeap,
        after: ObjectHeap,
        out: Result<Out, Error>,
    ) -> bool {
        call_ensures(*self, (values.0, entry), (after, out))
    }

    proof fn law_arguments_are_taken_in_order(
        &self,
        args: Seq<AnyView>,
        types: &TypeTable,
        before: ObjectHeap,
        after: ObjectHeap,
        result: Result<Any, Error>,
    ) {
        assert(args.len() == 1 ==> args.take(1) =~= args);
        if args.len() == 1 {
            lemma_refusal::<(), T0>(args, types, 1);
            if T0::castable(args[0].data, types) {
                let (h1, v0, out) = choose|
                    h1: ObjectHeap,
                    v0: T0,
                    out: Result<Out, Error>,
                |
                    {
                        &&& #[trigger] argument_converted(args[0].data, before, h1, v0)
                        &&& #[trigger] call_ensures(*self, (v0, h1), (after, out))
                        &&& returned(out, &after, result)
                    };
                assert(<() as ConvertedArgs>::taken_from((), args.take(0), before, before));
                lemma_taken((), v0, args, 1, before, before, h1);
                let values: (T0,) = (v0,);
                assert(values.taken_from(args, before, h1));
                assert(<Fun as InOrderCallable<(T0,), Out>>::ran(self, values, h1, after, out));
            }
        }
    }
}

impl<Fun, T0, T1, Out> InOrderCallable<(T0, T1), Out> for Fun where
    Fun: Fn(T0, T1, ObjectHeap) -> (ObjectHeap, Result<Out, Error>),
    T0: AnyCompatible,
    T1: AnyCompatible,
    Out: AnyCompatible,
{
    open spec fn ran(
        &self,
        values: (T0, T1),
        entry: ObjectHeap,
        after: ObjectHeap,
        out: Result<Out, Error>,
    ) -> bool {
        call_ensures(*self, (values.0, values.1, entry), (after, out))
    }

    proof fn law_arguments_are_taken_in_order(
        &self,
        args: Seq<AnyView>,
        types: &TypeTable,
        before: ObjectHeap,
        after: ObjectHeap,
        result: Result<Any, Error>,
    ) {
        assert(args.len() == 2 ==> args.take(2) =~= args);
        if args.len() == 2 {
            lemma_refusal::<(), T0>(args, types, 1);
            lemma_refusal::<(T0,), T1>(args, types, 2);
            if T0::castable(args[0].data, types)
                && T1::castable(args[1].data, types) {
                let (h1, h2, v0, v1, out) = choose|
                    h1: ObjectHeap,
                    h2: ObjectHeap,
                    v0: T0,
                    v1: T1,
                    out: Result<Out, Error>,
                |
                    {
                        &&& #[trigger] argument_converted(args[0].data, before, h1, v0)
                        &&& #[trigger] argument_converted(args[1].data, h1, h2, v1)
                        &&& #[trigger] call_ensures(*self, (v0, v1, h2), (after, out))
                        &&& returned(out, &after, result)
                    };
                assert(<() as ConvertedArgs>::taken_from((), args.take(0), before, before));
                lemma_taken((), v0, args, 1, before, before, h1);
                lemma_taken((v0,), v1, args, 2, before, h1, h2);
                let values: (T0, T1) = (v0, v1);
                assert(values.taken_from(args, before, h2));
                assert(<Fun as InOrderCallable<(T0, T1), Out>>::ran(self, values, h2, after, out));
            }
        }
    }
}

impl<Fun, T0, T1, T2, Out> InOrderCallable<(T0, T1, T2), Out> for Fun where
    Fun: Fn(T0, T1, T2, ObjectHeap) -> (ObjectHeap, Result<Out, Error>),
    T0: AnyCompatible,
    T1: AnyCompatible,
    T2: AnyCompatible,
    Out: AnyCompatible,
{
    open spec fn ran(
        &self,
        values: (T0, T1, T2),
        entry: ObjectHeap,
        after: ObjectHeap,
        out: Result<Out, Error>,
    ) -> bool {
        call_ensures(*self, (values.0, values.1, values.2, entry), (after, out))
    }

    proof fn law_arguments_are_taken_in_order(
        &self,
        args: Seq<AnyView>,
        types: &TypeTable,
        before: ObjectHeap,
        after: ObjectHeap,
        result: Result<Any, Error>,
    ) {
        assert(args.len() == 3 ==> args.take(3) =~= args);
        if args.len() == 3 {
            lemma_refusal::<(), T0>(args, types, 1);
            lemma_refusal::<(T0,), T1>(args, types, 2);
            lemma_refusal::<(T0, T1), T2>(args, types, 3);
            if T0::castable(args[0].data, types)
                && T1::castable(args[1].data, types)
                && T2::castable(args[2].data, types) {
                let (h1, h2, h3, v0, v1, v2, out) = choose|
                    h1: ObjectHeap,
                    h2: ObjectHeap,
                    h3: ObjectHeap,
                    v0: T0,
                    v1: T1,
                    v2: T2,
                    out: Result<Out, Error>,
                |
                    {
                        &&& #[trigger] argument_converted(args[0].data, before, h1, v0)
                        &&& #[trigger] argument_converted(args[1].data, h1, h2, v1)
                        &&& #[trigger] argument_converted(args[2].data, h2, h3, v2)
                        &&& #[trigger] call_ensures(*self, (v0, v1, v2, h3), (after, out))
                        &&& returned(out, &after, result)
                    };
                assert(<() as ConvertedArgs>::taken_from((), args.take(0), before, before));
                lemma_taken((), v0, args, 1, before, before, h1);
                lemma_taken((v0,), v1, args, 2, before, h1, h2);
                lemma_taken((v0, v1), v2, args, 3, before, h2, h3);
                let values: (T0, T1, T2) = (v0, v1, v2);
                assert(values.taken_from(args, before, h3));
                assert(<Fun as InOrderCallable<(T0, T1, T2), Out>>::ran(
                    self,
                    values,
                    h3,
                    after,
                    out,
                ));
            }
        }
    }
}

impl<Fun, T0, T1, T2, T3, Out> InOrderCallable<(T0, T1, T2, T3), Out> for Fun where
    Fun: Fn(T0, T1, T2, T3, ObjectHeap) -> (ObjectHeap, Result<Out, Error>),
    T0: AnyCompatible,
    T1: AnyCompatible,
    T2: AnyCompatible,
    T3: AnyCompatible,
    Out: AnyCompatible,
{
    open spec fn ran(
        &self,
        values: (T0, T1, T2, T3),
        entry: ObjectHeap,
        after: ObjectHeap,
        out: Result<Out, Error>,
    ) -> bool {
        call_ensures(*self, (values.0, values.1, values.2, values.3, entry), (after, out))
    }

    proof fn law_arguments_are_taken_in_order(
        &self,
        args: Seq<AnyView>,
        types: &TypeTable,
        before: ObjectHeap,
        after: ObjectHeap,
        result: Result<Any, Error>,
    ) {
        assert(args.len() == 4 ==> args.take(4) =~= args);
        if args.len() == 4 {
            lemma_refusal::<(), T0>(args, types, 1);
            lemma_refusal::<(T0,), T1>(args, types, 2);
            lemma_refusal::<(T0, T1), T2>(args, types, 3);
            lemma_refusal::<(T0, T1, T2), T3>(args, types, 4);
            if T0::castable(args[0].data, types)
                && T1::castable(args[1].data, types)
                && T2::castable(args[2].data, types)
                && T3::castable(args[3].data, types) {
                let (h1, h2, h3, h4, v0, v1, v2, v3, out) = choose|
                    h1: ObjectHeap,
                    h2: ObjectHeap,
                    h3: ObjectHeap,
                    h4: ObjectHeap,
                    v0: T0,
                    v1: T1,
                    v2: T2,
                    v3: T3,
                    out: Result<Out, Error>,
                |
                    {
                        &&& #[trigger] argument_converted(args[0].data, before, h1, v0)
                        &&& #[trigger] argument_converted(args[1].data, h1, h2, v1)
                        &&& #[trigger] argument_converted(args[2].data, h2, h3, v2)
                        &&& #[trigger] argument_converted(args[3].data, h3, h4, v3)
                        &&& #[trigger] call_ensures(*self, (v0, v1, v2, v3, h4), (after, out))
                        &&& returned(out, &after, result)
                    };
                assert(<() as ConvertedArgs>::taken_from((), args.take(0), before, before));
                lemma_taken((), v0, args, 1, before, before, h1);
                lemma_taken((v0,), v1, args, 2, before, h1, h2);
                lemma_taken((v0, v1), v2, args, 3, before, h2, h3);
                lemma_taken((v0, v1, v2), v3, args, 4, before, h3, h4);
                let values: (T0, T1, T2, T3) = (v0, v1, v2, v3);
                assert(values.taken_from(args, before, h4));
                assert(<Fun as InOrderCallable<(T0, T1, T2, T3), Out>>::ran(
                    self,
                    values,
                    h4,
                    after,
                    out,
                ));
            }
        }
    }
}

impl<Fun, T0, T1, T2, T3, T4, Out> InOrderCallable<(T0, T1, T2, T3, T4), Out> for Fun where
    Fun: Fn(T0, T1, T2, T3, T4, ObjectHeap) -> (ObjectHeap, Result<Out, Error>),
    T0: AnyCompatible,
    T1: AnyCompatible,
    T2: AnyCompatible,
    T3: AnyCompatible,
    T4: AnyCompatible,
    Out: AnyCompatible,
{
    open spec fn ran(
        &self,
        values: (T0, T1, T2, T3, T4),
        entry: ObjectHeap,
        after: ObjectHeap,
        out: Result<Out, Error>,
    ) -> bool {
        call_ensures(*self, (values.0, values.1, values.2, values.3, values.4, entry), (after, out))
    }

    proof fn law_arguments_are_taken_in_order(
        &self,
        args: Seq<AnyView>,
        types: &TypeTable,
        before: ObjectHeap,
        after: ObjectHeap,
        result: Result<Any, Error>,
    ) {
        assert(args.len() == 5 ==> args.take(5) =~= args);
        if args.len() == 5 {
            lemma_refusal::<(), T0>(args, types, 1);
            lemma_refusal::<(T0,), T1>(args, types, 2);
            lemma_refusal::<(T0, T1), T2>(args, types, 3);
            lemma_refusal::<(T0, T1, T2), T3>(args, types, 4);
            lemma_refusal::<(T0, T1, T2, T3), T4>(args, types, 5);
            if T0::castable(args[0].data, types)
                && T1::castable(args[1].data, types)
                && T2::castable(args[2].data, types)
                && T3::castable(args[3].data, types)
                && T4::castable(args[4].data, types) {
                let (h1, h2, h3, h4, h5, v0, v1, v2, v3, v4, out) = choose|
                    h1: ObjectHeap,
                    h2: ObjectHeap,
                    h3: ObjectHeap,
                    h4: ObjectHeap,
                    h5: ObjectHeap,
                    v0: T0,
                    v1: T1,
                    v2: T2,
                    v3: T3,
                    v4: T4,
                    out: Result<Out, Error>,
                |
                    {
                        &&& #[trigger] argument_converted(args[0].data, before, h1, v0)
                        &&& #[trigger] argument_converted(args[1].data, h1, h2, v1)
                        &&& #[trigger] argument_converted(args[2].data, h2, h3, v2)
                        &&& #[trigger] argument_converted(args[3].data, h3, h4, v3)
                        &&& #[trigger] argument_converted(args[4].data, h4, h5, v4)
                        &&& #[trigger] call_ensures(*self, (v0, v1, v2, v3, v4, h5), (after, out))
                        &&& returned(out, &after, result)
                    };
                assert(<() as ConvertedArgs>::taken_from((), args.take(0), before, before));
                lemma_taken((), v0, args, 1, before, before, h1);
                lemma_taken((v0,), v1, args, 2, before, h1, h2);
                lemma_taken((v0, v1), v2, args, 3, before, h2, h3);
                lemma_taken((v0, v1, v2), v3, args, 4, before, h3, h4);
                lemma_taken((v0, v1, v2, v3), v4, args, 5, before, h4, h5);
                let values: (T0, T1, T2, T3, T4) = (v0, v1, v2, v3, v4);
                assert(values.taken_from(args, before, h5));
                assert(<Fun as InOrderCallable<(T0, T1, T2, T3, T4), Out>>::ran(
                    self,
                    values,
                    h5,
                    after,
                    out,
                ));
            }
        }
    }
}

impl<Fun, T0, T1, T2, T3, T4, T5, Out> InOrderCallable<(T0, T1, T2, T3, T4, T5), Out> for Fun where
    Fun: Fn(T0, T1, T2, T3, T4, T5, ObjectHeap) -> (ObjectHeap, Result<Out, Error>),
    T0: AnyCompatible,
    T1: AnyCompatible,
    T2: AnyCompatible,
    T3: AnyCompatible,
    T4: AnyCompatible,
    T5: AnyCompatible,
    Out: AnyCompatible,
{
    open spec fn ran(
        &self,
        values: (T0, T1, T2, T3, T4, T5),
        entry: ObjectHeap,
        after: ObjectHeap,
        out: Result<Out, Error>,
    ) -> bool {
        call_ensures(*self, (values.0, values.1, values.2, values.3, values.4, values.5, entry), (after, out))
    }

    proof fn law_arguments_are_taken_in_order(
        &self,
        args: Seq<AnyView>,
        types: &TypeTable,
        before: ObjectHeap,
        after: ObjectHeap,
        result: Result<Any, Error>,
    ) {
        assert(args.len() == 6 ==> args.take(6) =~= args);
        if args.len() == 6 {
            lemma_refusal::<(), T0>(args, types, 1);
            lemma_refusal::<(T0,), T1>(args, types, 2);
            lemma_refusal::<(T0, T1), T2>(args, types, 3);
            lemma_refusal::<(T0, T1, T2), T3>(args, types, 4);
            lemma_refusal::<(T0, T1, T2, T3), T4>(args, types, 5);
            lemma_refusal::<(T0, T1, T2, T3, T4), T5>(args, types, 6);
            if T0::castable(args[0].data, types)
                && T1::castable(args[1].data, types)
                && T2::castable(args[2].data, types)
                && T3::castable(args[3].data, types)
                && T4::castable(args[4].data, types)
                && T5::castable(args[5].data, types) {
                let (h1, h2, h3, h4, h5, h6, v0, v1, v2, v3, v4, v5, out) = choose|
                    h1: ObjectHeap,
                    h2: ObjectHeap,
                    h3: ObjectHeap,
                    h4: ObjectHeap,
                    h5: ObjectHeap,
                    h6: ObjectHeap,
                    v0: T0,
                    v1: T1,
                    v2: T2,
                    v3: T3,
                    v4: T4,
                    v5: T5,
                    out: Result<Out, Error>,
                |
                    {
                        &&& #[trigger] argument_converted(args[0].data, before, h1, v0)
                        &&& #[trigger] argument_converted(args[1].data, h1, h2, v1)
                        &&& #[trigger] argument_converted(args[2].data, h2, h3, v2)
                        &&& #[trigger] argument_converted(args[3].data, h3, h4, v3)
                        &&& #[trigger] argument_converted(args[4].data, h4, h5, v4)
                        &&& #[trigger] argument_converted(args[5].data, h5, h6, v5)
                        &&& #[trigger] call_ensures(*self, (v0, v1, v2, v3, v4, v5, h6), (after, out))
                        &&& returned(out, &after, result)
                    };
                assert(<() as ConvertedArgs>::taken_from((), args.take(0), before, before));
                lemma_taken((), v0, args, 1, before, before, h1);
                lemma_taken((v0,), v1, args, 2, before, h1, h2);
                lemma_taken((v0, v1), v2, args, 3, before, h2, h3);
                lemma_taken((v0, v1, v2), v3, args, 4, before, h3, h4);
                lemma_taken((v0, v1, v2, v3), v4, args, 5, before, h4, h5);
                lemma_taken((v0, v1, v2, v3, v4), v5, args, 6, before, h5, h6);
                let values: (T0, T1, T2, T3, T4, T5) = (v0, v1, v2, v3, v4, v5);
                assert(values.taken_from(args, before, h6));
                assert(<Fun as InOrderCallable<(T0, T1, T2, T3, T4, T5), Out>>::ran(
                    self,
                    values,
                    h6,
                    after,
                    out,
                ));
            }
        }
    }
}

impl<Fun, T0, T1, T2, T3, T4, T5, T6, Out> InOrderCallable<(T0, T1, T2, T3, T4, T5, T6), Out> for Fun where
    Fun: Fn(T0, T1, T2, T3, T4, T5, T6, ObjectHeap) -> (ObjectHeap, Result<Out, Error>),
    T0: AnyCompatible,
    T1: AnyCompatible,
    T2: AnyCompatible,
    T3: AnyCompatible,
    T4: AnyCompatible,
    T5: AnyCompatible,
    T6: AnyCompatible,
    Out: AnyCompatible,
{
    open spec fn ran(
        &self,
        values: (T0, T1, T2, T3, T4, T5, T6),
        entry: ObjectHeap,
        after: ObjectHeap,
        out: Result<Out, Error>,
    ) -> bool {
        call_ensures(*self, (values.0, values.1, values.2, values.3, values.4, values.5, values.6, entry), (after, out))
    }

    proof fn law_arguments_are_taken_in_order(
        &self,
        args: Seq<AnyView>,
        types: &TypeTable,
        before: ObjectHeap,
        after: ObjectHeap,
        result: Result<Any, Error>,
    ) {
        assert(args.len() == 7 ==> args.take(7) =~= args);
        if args.len() == 7 {
            lemma_refusal::<(), T0>(args, types, 1);
            lemma_refusal::<(T0,), T1>(args, types, 2);
            lemma_refusal::<(T0, T1), T2>(args, types, 3);
            lemma_refusal::<(T0, T1, T2), T3>(args, types, 4);
            lemma_refusal::<(T0, T1, T2, T3), T4>(args, types, 5);
            lemma_refusal::<(T0, T1, T2, T3, T4), T5>(args, types, 6);
            lemma_refusal::<(T0, T1, T2, T3, T4, T5), T6>(args, types, 7);
            if T0::castable(args[0].data, types)
                && T1::castable(args[1].data, types)
                && T2::castable(args[2].data, types)
                && T3::castable(args[3].data, types)
                && T4::castable(args[4].data, types)
                && T5::castable(args[5].data, types)
                && T6::castable(args[6].data, types) {
                let (h1, h2, h3, h4, h5, h6, h7, v0, v1, v2, v3, v4, v5, v6, out) = choose|
                    h1: ObjectHeap,
                    h2: ObjectHeap,
                    h3: ObjectHeap,
                    h4: ObjectHeap,
                    h5: ObjectHeap,
                    h6: ObjectHeap,
                    h7: ObjectHeap,
                    v0: T0,
                    v1: T1,
                    v2: T2,
                    v3: T3,
                    v4: T4,
                    v5: T5,
                    v6: T6,
                    out: Result<Out, Error>,
                |
                    {
                        &&& #[trigger] argument_converted(args[0].data, before, h1, v0)
                        &&& #[trigger] argument_converted(args[1].data, h1, h2, v1)
                        &&& #[trigger] argument_converted(args[2].data, h2, h3, v2)
                        &&& #[trigger] argument_converted(args[3].data, h3, h4, v3)
                        &&& #[trigger] argument_converted(args[4].data, h4, h5, v4)
                        &&& #[trigger] argument_converted(args[5].data, h5, h6, v5)
                        &&& #[trigger] argument_converted(args[6].data, h6, h7, v6)
                        &&& #[trigger] call_ensures(*self, (v0, v1, v2, v3, v4, v5, v6, h7), (after, out))
                        &&& returned(out, &after, result)
                    };
                assert(<() as ConvertedArgs>::taken_from((), args.take(0), before, before));
                lemma_taken((), v0, args, 1, before, before, h1);
                lemma_taken((v0,), v1, args, 2, before, h1, h2);
                lemma_taken((v0, v1), v2, args, 3, before, h2, h3);
                lemma_taken((v0, v1, v2), v3, args, 4, before, h3, h4);
                lemma_taken((v0, v1, v2, v3), v4, args, 5, before, h4, h5);
                lemma_taken((v0, v1, v2, v3, v4), v5, args, 6, before, h5, h6);
                lemma_taken((v0, v1, v2, v3, v4, v5), v6, args, 7, before, h6, h7);
                let values: (T0, T1, T2, T3, T4, T5, T6) = (v0, v1, v2, v3, v4, v5, v6);
                assert(values.taken_from(args, before, h7));
                assert(<Fun as InOrderCallable<(T0, T1, T2, T3, T4, T5, T6), Out>>::ran(
                    self,
                    values,
                    h7,
                    after,
                    out,
                ));
            }
        }
    }
}

impl<Fun, T0, T1, T2, T3, T4, T5, T6, T7, Out> InOrderCallable<(T0, T1, T2, T3, T4, T5, T6, T7), Out> for Fun where
    Fun: Fn(T0, T1, T2, T3, T4, T5, T6, T7, ObjectHeap) -> (ObjectHeap, Result<Out, Error>),
    T0: AnyCompatible,
    T1: AnyCompatible,
    T2: AnyCompatible,
    T3: AnyCompatible,
    T4: AnyCompatible,
    T5: AnyCompatible,
    T6: AnyCompatible,
    T7: AnyCompatible,
    Out: AnyCompatible,
{
    open spec fn ran(
        &self,
        values: (T0, T1, T2, T3, T4, T5, T6, T7),
        entry: ObjectHeap,
        after: ObjectHeap,
        out: Result<Out, Error>,
    ) -> bool {
        call_ensures(*self, (values.0, values.1, values.2, values.3, values.4, values.5, values.6, values.7, entry), (after, out))
    }

    proof fn law_arguments_are_taken_in_order(
        &self,
        args: Seq<AnyView>,
        types: &TypeTable,
        before: ObjectHeap,
        after: ObjectHeap,
        result: Result<Any, Error>,
    ) {
        assert(args.len() == 8 ==> args.take(8) =~= args);
        if args.len() == 8 {
            lemma_refusal::<(), T0>(args, types, 1);
            lemma_refusal::<(T0,), T1>(args, types, 2);
            lemma_refusal::<(T0, T1), T2>(args, types, 3);
            lemma_refusal::<(T0, T1, T2), T3>(args, types, 4);
            lemma_refusal::<(T0, T1, T2, T3), T4>(args, types, 5);
            lemma_refusal::<(T0, T1, T2, T3, T4), T5>(args, types, 6);
            lemma_refusal::<(T0, T1, T2, T3, T4, T5), T6>(args, types, 7);
            lemma_refusal::<(T0, T1, T2, T3, T4, T5, T6), T7>(args, types, 8);
            if T0::castable(args[0].data, types)
                && T1::castable(args[1].data, types)
                && T2::castable(args[2].data, types)
                && T3::castable(args[3].data, types)
                && T4::castable(args[4].data, types)
                && T5::castable(args[5].data, types)
                && T6::castable(args[6].data, types)
                && T7::castable(args[7].data, types) {
                let (h1, h2, h3, h4, h5, h6, h7, h8, v0, v1, v2, v3, v4, v5, v6, v7, out) = choose|
                    h1: ObjectHeap,
                    h2: ObjectHeap,
                    h3: ObjectHeap,
                    h4: ObjectHeap,
                    h5: ObjectHeap,
                    h6: ObjectHeap,
                    h7: ObjectHeap,
                    h8: ObjectHeap,
                    v0: T0,
                    v1: T1,
                    v2: T2,
                    v3: T3,
                    v4: T4,
                    v5: T5,
                    v6: T6,
                    v7: T7,
                    out: Result<Out, Error>,
                |
                    {
                        &&& #[trigger] argument_converted(args[0].data, before, h1, v0)
                        &&& #[trigger] argument_converted(args[1].data, h1, h2, v1)
                        &&& #[trigger] argument_converted(args[2].data, h2, h3, v2)
                        &&& #[trigger] argument_converted(args[3].data, h3, h4, v3)
                        &&& #[trigger] argument_converted(args[4].data, h4, h5, v4)
                        &&& #[trigger] argument_converted(args[5].data, h5, h6, v5)
                        &&& #[trigger] argument_converted(args[6].data, h6, h7, v6)
                        &&& #[trigger] argument_converted(args[7].data, h7, h8, v7)
                        &&& #[trigger] call_ensures(*self, (v0, v1, v2, v3, v4, v5, v6, v7, h8), (after, out))
                        &&& returned(out, &after, result)
                    };
                assert(<() as ConvertedArgs>::taken_from((), args.take(0), before, before));
                lemma_taken((), v0, args, 1, before, before, h1);
                lemma_taken((v0,), v1, args, 2, before, h1, h2);
                lemma_taken((v0, v1), v2, args, 3, before, h2, h3);
                lemma_taken((v0, v1, v2), v3, args, 4, before, h3, h4);
                lemma_taken((v0, v1, v2, v3), v4, args, 5, before, h4, h5);
                lemma_taken((v0, v1, v2, v3, v4), v5, args, 6, before, h5, h6);
                lemma_taken((v0, v1, v2, v3, v4, v5), v6, args, 7, before, h6, h7);
                lemma_taken((v0, v1, v2, v3, v4, v5, v6), v7, args, 8, before, h7, h8);
                let values: (T0, T1, T2, T3, T4, T5, T6, T7) = (v0, v1, v2, v3, v4, v5, v6, v7);
                assert(values.taken_from(args, before, h8));
                assert(<Fun as InOrderCallable<(T0, T1, T2, T3, T4, T5, T6, T7), Out>>::ran(
                    self,
                    values,
                    h8,
                    after,
                    out,
                ));
            }
        }
    }
}

} // verus!
