//! Packed calling convention: validation, arguments and results.

pub mod callable;
pub mod holder;
pub mod in_order;
pub mod packed_args;

use crate::any::{Any, AnyView, TVMFFIAny};
use crate::error::{error_view, Error, ErrorView, RUNTIME_ERROR, TYPE_ERROR, VALUE_ERROR};
use crate::object::heap::ObjectHeap;
use crate::object::refs::{conversion_message, format_conversion};
use crate::text::{decimal, push_unsigned};
use crate::type_table::TypeTable;
use crate::type_traits::AnyCompatible;
use vstd::prelude::*;
use vstd::slice::slice_subrange;

verus! {

//-----------------------------------------------------
// Arguments
//-----------------------------------------------------
pub open spec fn argument_count_message(expected: int, actual: int) -> Seq<char> {
    "Expected "@ + decimal(expected) + " arguments, got "@ + decimal(actual)
}

pub(crate) fn argument_count_error(expected: usize, actual: usize) -> (error: Error)
    ensures
        error@ == error_view(
            VALUE_ERROR,
            argument_count_message(expected as int, actual as int),
        ),
{
    let mut text: String = "Expected ".to_owned();
    push_unsigned(&mut text, expected as u64);
    text.append(" arguments, got ");
    push_unsigned(&mut text, actual as u64);
    Error::from_message(VALUE_ERROR, text)
}

/// The error about an argument that cannot be converted to `T`.
pub open spec fn argument_error_view<T: AnyCompatible>(
    data: TVMFFIAny,
    types: &TypeTable,
    index: int,
) -> ErrorView {
    error_view(
        TYPE_ERROR,
        "Argument #"@ + decimal(index) + ": "@ + conversion_message(
            T::mismatch(data, types),
            T::name_of_type(),
        ),
    )
}

pub(crate) fn argument_error<T: AnyCompatible>(
    data: &TVMFFIAny,
    types: &TypeTable,
    index: usize,
) -> (error: Error)
    ensures
        error@ == argument_error_view::<T>(*data, types, index as int),
{
    let mut text: String = "Argument #".to_owned();
    push_unsigned(&mut text, index as u64);
    text.append(": ");
    let from: String = T::get_mismatch_type_info(data, types);
    let to: String = T::type_str();
    let message: String = format_conversion(from.as_str(), to.as_str());
    text.append(message.as_str());
    Error::from_message(TYPE_ERROR, text)
}

/// The argument was converted to a value of type `T`.
pub open spec fn argument_converted<T: AnyCompatible>(
    data: TVMFFIAny,
    before: ObjectHeap,
    after: ObjectHeap,
    value: T,
) -> bool {
    T::copied(data, &before, &after) && value.is_value_of(data)
}

/// What a callee returned, as a value that owns what it refers to.
pub open spec fn returned<Out: AnyCompatible>(
    out: Result<Out, Error>,
    heap: &ObjectHeap,
    result: Result<Any, Error>,
) -> bool {
    match out {
        Ok(value) => result matches Ok(any) && any.data == value.held(heap),
        Err(error) => result == Err::<Any, Error>(error),
    }
}

/// A function that can be called in packed convention.
///
/// It owns the arguments that it is given, and is lent the heap to work on and
/// to give them up with.
pub trait AsPackedCallable<I, O> {
    /// The call can be made.
    spec fn callable(&self, args: Seq<AnyView>, types: &TypeTable, heap: ObjectHeap) -> bool;

    /// What the call returns and does.
    spec fn called(
        &self,
        args: Seq<AnyView>,
        types: &TypeTable,
        before: ObjectHeap,
        after: ObjectHeap,
        result: Result<Any, Error>,
    ) -> bool;

    /// Calls the function in packed convention.
    fn call_packed(
        &self,
        packed_args: &[AnyView],
        types: &TypeTable,
        heap: &mut ObjectHeap,
    ) -> (result: Result<Any, Error>)
        requires
            types.well_formed(),
            old(heap).well_formed(),
            self.callable(packed_args@, types, *old(heap)),
        ensures
            self.called(packed_args@, types, *old(heap), *final(heap), result),
    ;
}

/// Calls a function in packed convention.
pub fn call_packed_callable<Fun, I, O>(
    func: Fun,
    packed_args: &[AnyView],
    types: &TypeTable,
    heap: &mut ObjectHeap,
) -> (result: Result<Any, Error>) where Fun: AsPackedCallable<I, O>
    requires
        types.well_formed(),
        old(heap).well_formed(),
        func.callable(packed_args@, types, *old(heap)),
    ensures
        func.called(packed_args@, types, *old(heap), *final(heap), result),
{
    func.call_packed(packed_args, types, heap)
}

//-----------------------------------------------------
// Callbacks behind the C interface
//-----------------------------------------------------
/// What a panic carried, if it was text.
pub enum PanicPayload {
    Text(String),
    Other,
}

/// How a callback ended.
pub enum CallbackOutcome {
    Returned(Result<Any, Error>),
    Panicked(PanicPayload),
}

/// What a callback leaves behind for its native caller.
pub struct CallReply {
    pub status: i32,
    /// The value written to the result, if one was.
    pub result: Option<TVMFFIAny>,
    /// The error that was raised, if one was.
    pub raised: Option<Error>,
}

/// The size of a dynamically typed value across the C interface.
pub const ANY_SIZE: usize = 16;

/// The arguments that a native caller passed, or what is wrong with them.
///
/// `args` is what the argument pointer leads to, with `None` for null.
pub open spec fn received_args(
    args: Option<Seq<AnyView>>,
    num_args: i32,
    has_result: bool,
) -> Result<Seq<AnyView>, ErrorView> {
    if !has_result {
        Err(error_view(VALUE_ERROR, "callback result pointer is null"@))
    } else if num_args < 0 {
        Err(error_view(VALUE_ERROR, "callback argument count is negative"@))
    } else if num_args > isize::MAX as int / ANY_SIZE as int {
        Err(error_view(VALUE_ERROR, "callback argument span exceeds Rust slice limits"@))
    } else if num_args == 0 {
        Ok(Seq::empty())
    } else {
        match args {
            None => Err(error_view(VALUE_ERROR, "callback arguments are null"@)),
            Some(args) => Ok(args.take(num_args as int)),
        }
    }
}

pub open spec fn seen_args(args: Option<&[AnyView]>) -> Option<Seq<AnyView>> {
    match args {
        Some(args) => Some(args@),
        None => None,
    }
}

/// The reply is a success with this value.
pub open spec fn replied(reply: CallReply, value: Any) -> bool {
    &&& reply.status == 0
    &&& reply.result == Some(value.data)
    &&& reply.raised is None
}

/// The reply is a failure with this error.
pub open spec fn failed(reply: CallReply, error: ErrorView) -> bool {
    &&& reply.status == -1
    &&& reply.result is None
    &&& reply.raised matches Some(raised) && raised@ == error
}

/// The message of a panic.
pub open spec fn panic_message(payload: PanicPayload) -> Seq<char> {
    match payload {
        PanicPayload::Text(text) => text@,
        PanicPayload::Other => "Rust callback panicked"@,
    }
}

/// The reply to the way a callback ended.
pub open spec fn replies_to(reply: CallReply, outcome: CallbackOutcome) -> bool {
    match outcome {
        CallbackOutcome::Returned(Ok(value)) => replied(reply, value),
        CallbackOutcome::Returned(Err(error)) => failed(reply, error@),
        CallbackOutcome::Panicked(payload) => failed(
            reply,
            error_view(RUNTIME_ERROR, panic_message(payload)),
        ),
    }
}

/// Checks the arguments that a native caller passed.
pub fn receive_args(
    args: Option<&[AnyView]>,
    num_args: i32,
    has_result: bool,
) -> (result: Result<&[AnyView], Error>)
    requires
        args matches Some(args) ==> num_args <= args@.len(),
    ensures
        match result {
            Ok(packed_args) => received_args(seen_args(args), num_args, has_result) == Ok::<
                Seq<AnyView>,
                ErrorView,
            >(packed_args@),
            Err(error) => received_args(seen_args(args), num_args, has_result) == Err::<
                Seq<AnyView>,
                ErrorView,
            >(error@),
        },
        match result {
            Ok(packed_args) => receives(
                seen_args(args),
                num_args,
                has_result,
                Ok(packed_args@),
            ),
            Err(error) => receives(seen_args(args), num_args, has_result, Err(error@)),
        },
{
    proof {
        law_arguments_are_received_as_passed(seen_args(args), num_args, has_result);
    }
    if !has_result {
        return Err(Error::new(VALUE_ERROR, "callback result pointer is null"));
    }
    if num_args < 0 {
        return Err(Error::new(VALUE_ERROR, "callback argument count is negative"));
    }
    let num_args: usize = num_args as usize;
    if num_args > isize::MAX as usize / ANY_SIZE {
        return Err(Error::new(VALUE_ERROR, "callback argument span exceeds Rust slice limits"));
    }
    if num_args == 0 {
        let empty: &[AnyView] = &[];
        assert(empty@ =~= Seq::empty());
        return Ok(empty);
    }
    match args {
        None => Err(Error::new(VALUE_ERROR, "callback arguments are null")),
        Some(args) => Ok(slice_subrange(args, 0, num_args)),
    }
}

/// The reply to the way a callback ended.
pub fn reply_to(outcome: CallbackOutcome) -> (reply: CallReply)
    ensures
        replies_to(reply, outcome),
{
    match outcome {
        CallbackOutcome::Returned(Ok(value)) => CallReply {
            status: 0,
            result: Some(Any::into_raw_ffi_any(value)),
            raised: None,
        },
        CallbackOutcome::Returned(Err(error)) => CallReply {
            status: -1,
            result: None,
            raised: Some(error),
        },
        CallbackOutcome::Panicked(payload) => {
            let message: String = match payload {
                PanicPayload::Text(text) => text,
                PanicPayload::Other => "Rust callback panicked".to_owned(),
            };
            CallReply {
                status: -1,
                result: None,
                raised: Some(Error::from_message(RUNTIME_ERROR, message)),
            }
        },
    }
}

/// What a callback did when it was run on these arguments.
pub open spec fn callback_ended<F>(
    callback: F,
    args: Seq<AnyView>,
    before: ObjectHeap,
    after: ObjectHeap,
    outcome: CallbackOutcome,
) -> bool where F: FnOnce(&[AnyView], ObjectHeap) -> (ObjectHeap, CallbackOutcome) {
    exists|packed_args: &[AnyView]|
        packed_args@ == args && #[trigger] call_ensures(
            callback,
            (packed_args, before),
            (after, outcome),
        )
}

/// Validates and runs one implementation of the packed C interface.
///
/// `callback` runs only on valid arguments, and reports a panic as an outcome.
/// It is lent the heap for as long as it runs.
pub fn invoke_packed_c_abi<F>(
    args: Option<&[AnyView]>,
    num_args: i32,
    has_result: bool,
    heap: &mut ObjectHeap,
    callback: F,
) -> (reply: CallReply) where F: FnOnce(&[AnyView], ObjectHeap) -> (ObjectHeap, CallbackOutcome)
    requires
        args matches Some(args) ==> num_args <= args@.len(),
        received_args(seen_args(args), num_args, has_result) matches Ok(expected) ==> forall|
            packed_args: &[AnyView],
        |
            packed_args@ == expected ==> #[trigger] call_requires(
                callback,
                (packed_args, *old(heap)),
            ),
    ensures
        match received_args(seen_args(args), num_args, has_result) {
            Err(error) => failed(reply, error) && *final(heap) == *old(heap),
            Ok(expected) => exists|outcome: CallbackOutcome|
                {
                    &&& #[trigger] callback_ended(
                        callback,
                        expected,
                        *old(heap),
                        *final(heap),
                        outcome,
                    )
                    &&& replies_to(reply, outcome)
                },
        },
{
    let packed_args: &[AnyView] = match receive_args(args, num_args, has_result) {
        Ok(packed_args) => packed_args,
        Err(error) => return reply_to(CallbackOutcome::Returned(Err(error))),
    };
    let mut lent: ObjectHeap = ObjectHeap::new();
    core::mem::swap(heap, &mut lent);
    let (after, outcome): (ObjectHeap, CallbackOutcome) = callback(packed_args, lent);
    *heap = after;
    assert(call_ensures(callback, (packed_args, *old(heap)), (*heap, outcome)));
    assert(callback_ended(callback, packed_args@, *old(heap), *heap, outcome));
    reply_to(outcome)
}

/// The outermost barrier: where even reporting a failure panicked, the caller
/// still gets a failure status, and nothing else.
pub fn contain(reply: Option<CallReply>) -> (contained: CallReply)
    ensures
        match reply {
            Some(reply) => contained == reply,
            None => contained.status == -1 && contained.result is None && contained.raised is None,
        },
{
    match reply {
        Some(reply) => reply,
        None => CallReply { status: -1, result: None, raised: None },
    }
}

/// Every reply either succeeds with a value and raises nothing, or fails with
/// an error and writes nothing.
pub proof fn law_reply_is_value_or_error(reply: CallReply, outcome: CallbackOutcome)
    requires
        replies_to(reply, outcome),
    ensures
        reply.status == 0 <==> reply.result is Some,
        reply.status == -1 <==> reply.raised is Some,
        reply.status == 0 || reply.status == -1,
{
}

/// What was received is what the caller passed: as many arguments as it counted, in
/// order.
pub open spec fn receives(
    args: Option<Seq<AnyView>>,
    num_args: i32,
    has_result: bool,
    received: Result<Seq<AnyView>, ErrorView>,
) -> bool {
    &&& received is Ok <==> has_result && 0 <= num_args <= isize::MAX as int / ANY_SIZE as int && (
    num_args == 0 || args is Some)
    &&& received matches Ok(packed_args) ==> {
        &&& packed_args.len() == num_args
        &&& forall|i: int| 0 <= i < num_args ==> #[trigger] packed_args[i] == args->0[i]
    }
    &&& received matches Err(error) ==> error.kind == VALUE_ERROR
}

/// Arguments are received as they were passed, however many there are.
pub proof fn law_arguments_are_received_as_passed(
    args: Option<Seq<AnyView>>,
    num_args: i32,
    has_result: bool,
)
    requires
        args matches Some(args) ==> num_args <= args.len(),
    ensures
        receives(args, num_args, has_result, received_args(args, num_args, has_result)),
{
}

/// A reply carries what the callback returned: its value as it is, its error as it is,
/// or an error with the text of its panic.
pub proof fn law_reply_carries_the_outcome(reply: CallReply, outcome: CallbackOutcome)
    requires
        replies_to(reply, outcome),
    ensures
        reply.status == 0 <==> outcome matches CallbackOutcome::Returned(Ok(_)),
        outcome matches CallbackOutcome::Returned(Ok(value)) ==> reply.result == Some(value.data),
        outcome matches CallbackOutcome::Returned(Err(error)) ==> reply.raised is Some
            && reply.raised->0@ == error@,
        outcome matches CallbackOutcome::Panicked(payload) ==> {
            &&& reply.raised is Some
            &&& reply.raised->0@.kind == RUNTIME_ERROR
            &&& payload matches PanicPayload::Text(text) ==> reply.raised->0@.message == text@
        },
{
}

/// What a callee returns is passed on: its value as it is held, or its error.
pub proof fn law_result_is_passed_on<Out: AnyCompatible>(
    out: Result<Out, Error>,
    heap: &ObjectHeap,
    result: Result<Any, Error>,
)
    requires
        returned(out, heap, result),
    ensures
        out is Ok <==> result is Ok,
        out matches Ok(value) ==> result->Ok_0.data == value.held(heap),
        out matches Err(error) ==> result->Err_0 == error,
{
}

} // verus!
