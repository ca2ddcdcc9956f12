//! Callbacks that are active only while a lexical scope lasts.

use crate::any::AnyView;
use crate::error::{error_view, outcome, Error, ErrorView, RUNTIME_ERROR};
use crate::function::{function_created, Function};
use crate::function_internal::{
    failed, receive_args, received_args, replies_to, reply_to, seen_args, CallReply,
    CallbackOutcome,
};
use crate::object::arc::{acquired, ObjectArc};
use crate::object::heap::{given_up, ObjectHeap};
use crate::object::refs::ObjectRefCore;
use vstd::prelude::*;

verus! {

/// A callback that is registered for the duration of a scope.
#[derive(Clone, Copy, PartialEq, Eq, Structural, Debug)]
pub struct ScopedPackedEntry {
    /// Identifies the callback to native code.
    pub handle: usize,
    /// A call of the callback is in progress.
    pub active: bool,
}

/// The callbacks of the scopes that are open on a thread, innermost last.
pub struct ScopedStack {
    pub entries: Vec<ScopedPackedEntry>,
}

impl View for ScopedStack {
    type V = Seq<ScopedPackedEntry>;

    open spec fn view(&self) -> Seq<ScopedPackedEntry> {
        self.entries@
    }
}

/// The place of the innermost callback with this handle.
pub open spec fn innermost(entries: Seq<ScopedPackedEntry>, handle: usize) -> Option<int>
    decreases entries.len(),
{
    if entries.len() == 0 {
        None
    } else if entries.last().handle == handle {
        Some(entries.len() - 1)
    } else {
        innermost(entries.drop_last(), handle)
    }
}

pub open spec fn inactive_error() -> ErrorView {
    error_view(
        RUNTIME_ERROR,
        "scoped callback is inactive or was invoked from another thread"@,
    )
}

pub open spec fn recursion_error() -> ErrorView {
    error_view(RUNTIME_ERROR, "scoped callback cannot be invoked recursively"@)
}

/// The place of the callback to run, or why it must not run.
pub open spec fn admission(entries: Seq<ScopedPackedEntry>, handle: usize) -> Result<
    int,
    ErrorView,
> {
    match innermost(entries, handle) {
        None => Err(inactive_error()),
        Some(place) => if entries[place].active {
            Err(recursion_error())
        } else {
            Ok(place)
        },
    }
}

/// The entries with one callback marked as running or not.
pub open spec fn marked(
    entries: Seq<ScopedPackedEntry>,
    place: int,
    active: bool,
) -> Seq<ScopedPackedEntry> {
    entries.update(place, ScopedPackedEntry { handle: entries[place].handle, active })
}

proof fn lemma_innermost(entries: Seq<ScopedPackedEntry>, handle: usize, from: int)
    requires
        0 <= from <= entries.len(),
        forall|i: int| from <= i < entries.len() ==> (#[trigger] entries[i]).handle != handle,
    ensures
        innermost(entries, handle) == innermost(entries.take(from), handle),
    decreases entries.len(),
{
    if from < entries.len() {
        lemma_innermost(entries.drop_last(), handle, from);
        assert(entries.drop_last().take(from) =~= entries.take(from));
    } else {
        assert(entries.take(from) =~= entries);
    }
}

impl ScopedStack {
    pub fn new() -> (stack: ScopedStack)
        ensures
            stack@ == Seq::<ScopedPackedEntry>::empty(),
    {
        ScopedStack { entries: Vec::new() }
    }

    /// Admits a call of a callback: it becomes the one that runs.
    pub fn begin_call(&mut self, handle: usize) -> (result: Result<usize, Error>)
        ensures
            match admission(old(self)@, handle) {
                Ok(place) => {
                    &&& result matches Ok(p) && p == place
                    &&& 0 <= place < old(self)@.len()
                    &&& final(self)@ == marked(old(self)@, place, true)
                },
                Err(error) => {
                    &&& result matches Err(e) && e@ == error
                    &&& *final(self) == *old(self)
                },
            },
    {
        let mut index: usize = self.entries.len();
        while index > 0
            invariant
                index <= self@.len(),
                *self == *old(self),
                forall|i: int| index <= i < self@.len() ==> (#[trigger] self@[i]).handle != handle,
            decreases index,
        {
            index = index - 1;
            let entry: ScopedPackedEntry = self.entries[index];
            if entry.handle == handle {
                proof {
                    lemma_innermost(self@, handle, index + 1);
                    assert(self@.take(index + 1).last() == entry);
                }
                if entry.active {
                    return Err(
                        Error::new(RUNTIME_ERROR, "scoped callback cannot be invoked recursively"),
                    );
                }
                self.entries.set(index, ScopedPackedEntry { handle: entry.handle, active: true });
                return Ok(index);
            }
        }
        proof {
            lemma_innermost(self@, handle, 0);
        }
        Err(
            Error::new(
                RUNTIME_ERROR,
                "scoped callback is inactive or was invoked from another thread",
            ),
        )
    }

    /// Ends the call of a callback, however it ended.
    pub fn end_call(&mut self, place: usize)
        requires
            place < old(self)@.len(),
        ensures
            final(self)@ == marked(old(self)@, place as int, false),
    {
        let entry: ScopedPackedEntry = self.entries[place];
        self.entries.set(place, ScopedPackedEntry { handle: entry.handle, active: false });
    }
}

/// What the callback at `place` did when it was run on these arguments.
pub open spec fn callback_ran<R>(
    run: R,
    place: usize,
    args: Seq<AnyView>,
    entries: Seq<ScopedPackedEntry>,
    before: ObjectHeap,
    after: ObjectHeap,
    outcome: CallbackOutcome,
) -> bool where
    R: FnOnce(usize, &[AnyView], ScopedStack, ObjectHeap) -> (
        ScopedStack,
        ObjectHeap,
        CallbackOutcome,
    ),
 {
    exists|packed_args: &[AnyView], stack: ScopedStack, left: ScopedStack|
        {
            &&& packed_args@ == args
            &&& stack@ == entries
            &&& #[trigger] call_ensures(
                run,
                (place, packed_args, stack, before),
                (left, after, outcome),
            )
        }
}

/// The callback at `place` can be run while these scopes are open, and leaves
/// them as they were.
pub open spec fn keeps_scopes<R>(
    run: R,
    place: usize,
    args: Seq<AnyView>,
    entries: Seq<ScopedPackedEntry>,
    heap: ObjectHeap,
) -> bool where
    R: FnOnce(usize, &[AnyView], ScopedStack, ObjectHeap) -> (
        ScopedStack,
        ObjectHeap,
        CallbackOutcome,
    ),
 {
    forall|packed_args: &[AnyView], stack: ScopedStack|
        packed_args@ == args && stack@ == entries ==> {
            &&& #[trigger] call_requires(run, (place, packed_args, stack, heap))
            &&& forall|left: ScopedStack, after: ObjectHeap, outcome: CallbackOutcome| #[trigger]
                call_ensures(
                    run,
                    (place, packed_args, stack, heap),
                    (left, after, outcome),
                ) ==> left@ == entries
        }
}

/// Runs a scoped callback for a native caller.
///
/// `run` calls the callback at the given place, which may itself call scoped
/// callbacks, lends it the heap, and reports a panic as an outcome.
pub fn call_scoped_packed<R>(
    stack: &mut ScopedStack,
    handle: usize,
    args: Option<&[AnyView]>,
    num_args: i32,
    has_result: bool,
    heap: &mut ObjectHeap,
    run: R,
) -> (reply: CallReply) where
    R: FnOnce(usize, &[AnyView], ScopedStack, ObjectHeap) -> (
        ScopedStack,
        ObjectHeap,
        CallbackOutcome,
    ),

    requires
        args matches Some(args) ==> num_args <= args@.len(),
        received_args(seen_args(args), num_args, has_result) matches Ok(expected) ==> admission(
            old(stack)@,
            handle,
        ) matches Ok(place) ==> keeps_scopes(
            run,
            place as usize,
            expected,
            marked(old(stack)@, place, true),
            *old(heap),
        ),
    ensures
        final(stack)@ == old(stack)@,
        match received_args(seen_args(args), num_args, has_result) {
            Err(error) => failed(reply, error) && *final(heap) == *old(heap),
            Ok(expected) => match admission(old(stack)@, handle) {
                Err(error) => failed(reply, error) && *final(heap) == *old(heap),
                Ok(place) => exists|outcome: CallbackOutcome|
                    {
                        &&& #[trigger] callback_ran(
                            run,
                            place as usize,
                            expected,
                            marked(old(stack)@, place, true),
                            *old(heap),
                            *final(heap),
                            outcome,
                        )
                        &&& replies_to(reply, outcome)
                    },
            },
        },
{
    let packed_args: &[AnyView] = match receive_args(args, num_args, has_result) {
        Ok(packed_args) => packed_args,
        Err(error) => return reply_to(CallbackOutcome::Returned(Err(error))),
    };
    let place: usize = match stack.begin_call(handle) {
        Ok(place) => place,
        Err(error) => return reply_to(CallbackOutcome::Returned(Err(error))),
    };
    let ghost running = stack@;
    let mut lent_stack: ScopedStack = ScopedStack::new();
    core::mem::swap(stack, &mut lent_stack);
    let mut lent_heap: ObjectHeap = ObjectHeap::new();
    core::mem::swap(heap, &mut lent_heap);
    let (left, after, outcome): (ScopedStack, ObjectHeap, CallbackOutcome) = run(
        place,
        packed_args,
        lent_stack,
        lent_heap,
    );
    *stack = left;
    *heap = after;
    stack.end_call(place);
    assert(callback_ran(run, place, packed_args@, running, *old(heap), *heap, outcome));
    assert(stack@ =~= old(stack)@);
    proof {
        let admitted = admission(old(stack)@, handle)->Ok_0;
        assert(callback_ran(
            run,
            admitted as usize,
            received_args(seen_args(args), num_args, has_result)->Ok_0,
            marked(old(stack)@, admitted, true),
            *old(heap),
            *heap,
            outcome,
        ));
    }
    reply_to(outcome)
}

/// What a scope body did with its function.
pub open spec fn body_ran<B, T>(
    body: B,
    handle: usize,
    before: Seq<ScopedPackedEntry>,
    heap: ObjectHeap,
    heap_after: ObjectHeap,
    result: Result<T, Error>,
) -> bool where
    B: FnOnce(Function, ScopedStack, ObjectHeap) -> (ScopedStack, ObjectHeap, Result<T, Error>),
 {
    exists|function: Function, stack: ScopedStack, after: ScopedStack|
        {
            &&& function.data.ptr == handle
            &&& stack@ == before
            &&& #[trigger] call_ensures(
                body,
                (function, stack, heap),
                (after, heap_after, result),
            )
        }
}

/// A scope body can be run while these scopes are open, closes the scopes that
/// it opens, and leaves the scoped function alive.
pub open spec fn closes_scopes<B, T>(
    body: B,
    function: usize,
    entries: Seq<ScopedPackedEntry>,
    before: ObjectHeap,
) -> bool where
    B: FnOnce(Function, ScopedStack, ObjectHeap) -> (ScopedStack, ObjectHeap, Result<T, Error>),
 {
    forall|f: Function, stack: ScopedStack, heap: ObjectHeap|
        f.data.ptr == function && stack@ == entries && acquired(&before, &heap, function) ==> {
            &&& #[trigger] call_requires(body, (f, stack, heap))
            &&& forall|after: ScopedStack, heap_after: ObjectHeap, result: Result<T, Error>|
                #[trigger] call_ensures(body, (f, stack, heap), (after, heap_after, result)) ==> {
                    &&& after@ == entries
                    &&& heap_after.well_formed()
                    &&& heap_after.alive(function)
                }
        }
}

/// What running `body` in a scope returned and did: the body got a reference of
/// its own to the function, which is given up after it.
pub open spec fn scope_ran<B, T>(
    body: B,
    function: usize,
    entries: Seq<ScopedPackedEntry>,
    before: ObjectHeap,
    after: ObjectHeap,
    result: Result<T, Error>,
) -> bool where
    B: FnOnce(Function, ScopedStack, ObjectHeap) -> (ScopedStack, ObjectHeap, Result<T, Error>),
 {
    exists|shared: ObjectHeap, used: ObjectHeap|
        {
            &&& acquired(&before, &shared, function)
            &&& #[trigger] body_ran(body, function, entries, shared, used, result)
            &&& given_up(&used, &after, function)
        }
}

impl Function {
    /// Runs `body` in a scope in which the callback of `function` is active.
    ///
    /// `function` is given up in the end; `body` gets a reference of its own.
    pub fn run_in_scope<B, T>(
        stack: &mut ScopedStack,
        heap: &mut ObjectHeap,
        handle: usize,
        function: Function,
        body: B,
    ) -> (result: Result<T, Error>) where
        B: FnOnce(Function, ScopedStack, ObjectHeap) -> (ScopedStack, ObjectHeap, Result<T, Error>),

        requires
            old(heap).well_formed(),
            function.data.ptr != 0,
            old(heap).shareable(function.data.ptr),
            closes_scopes::<B, T>(
                body,
                function.data.ptr,
                old(stack)@.push(ScopedPackedEntry { handle, active: false }),
                *old(heap),
            ),
        ensures
            final(stack)@ == old(stack)@,
            scope_ran::<B, T>(
                body,
                function.data.ptr,
                old(stack)@.push(ScopedPackedEntry { handle, active: false }),
                *old(heap),
                *final(heap),
                result,
            ),
    {
        stack.entries.push(ScopedPackedEntry { handle, active: false });
        let ghost open = stack@;
        let clone: Function = function.share(heap);
        let ghost shared = *heap;
        let mut lent_stack: ScopedStack = ScopedStack::new();
        core::mem::swap(stack, &mut lent_stack);
        let mut lent_heap: ObjectHeap = ObjectHeap::new();
        core::mem::swap(heap, &mut lent_heap);
        let (after, used, result): (ScopedStack, ObjectHeap, Result<T, Error>) = body(
            clone,
            lent_stack,
            lent_heap,
        );
        assert(body_ran(body, function.data.ptr, open, shared, used, result));
        assert(after@ == open) by {
            assert(call_requires(body, (clone, lent_stack, lent_heap)));
            assert(call_ensures(body, (clone, lent_stack, lent_heap), (after, used, result)));
        }
        *stack = after;
        *heap = used;
        let _ = stack.entries.pop();
        assert(stack@ =~= old(stack)@);
        heap.release(ObjectArc::into_raw(function.data));
        result
    }

    /// Runs `body` with a function whose callback may borrow local state.
    ///
    /// `handle` identifies the callback, and `create` asks the native runtime
    /// for a function object for it. The callback is active only while `body`
    /// runs. A call that comes later, or while the callback is running, gets an
    /// error.
    pub fn with_scoped_packed<N, B, T>(
        stack: &mut ScopedStack,
        heap: &mut ObjectHeap,
        handle: usize,
        create: N,
        body: B,
    ) -> (result: Result<T, Error>) where
        N: FnOnce(usize, ObjectHeap) -> (ObjectHeap, Result<usize, Error>),
        B: FnOnce(Function, ScopedStack, ObjectHeap) -> (ScopedStack, ObjectHeap, Result<T, Error>),

        requires
            call_requires(create, (handle, *old(heap))),
            forall|made: ObjectHeap, created: Result<usize, Error>| #[trigger]
                function_created(create, handle, *old(heap), made, created) ==> match created {
                    Ok(function) => {
                        &&& made.well_formed()
                        &&& function != 0
                        &&& made.shareable(function)
                        &&& closes_scopes::<B, T>(
                            body,
                            function,
                            old(stack)@.push(ScopedPackedEntry { handle, active: false }),
                            made,
                        )
                    },
                    Err(_) => true,
                },
        ensures
            final(stack)@ == old(stack)@,
            exists|made: ObjectHeap, created: Result<usize, Error>|
                {
                    &&& #[trigger] function_created(create, handle, *old(heap), made, created)
                    &&& match created {
                        Ok(function) => scope_ran::<B, T>(
                            body,
                            function,
                            old(stack)@.push(ScopedPackedEntry { handle, active: false }),
                            made,
                            *final(heap),
                            result,
                        ),
                        Err(error) => {
                            &&& result == Err::<T, Error>(error)
                            &&& *final(heap) == made
                        },
                    }
                },
    {
        match Function::try_from_extern_c(handle, heap, create) {
            Ok(function) => {
                assert(function_created(
                    create,
                    handle,
                    *old(heap),
                    *heap,
                    Ok(function.data.ptr),
                ));
                Function::run_in_scope(stack, heap, handle, function, body)
            },
            Err(error) => Err(error),
        }
    }
}

//-----------------------------------------------------
// Laws of scopes
//-----------------------------------------------------
/// The entry that is found is the innermost one with its handle.
pub proof fn law_innermost_is_last(entries: Seq<ScopedPackedEntry>, handle: usize)
    ensures
        match innermost(entries, handle) {
            Some(place) => {
                &&& 0 <= place < entries.len()
                &&& entries[place].handle == handle
                &&& forall|i: int|
                    place < i < entries.len() ==> (#[trigger] entries[i]).handle != handle
            },
            None => forall|i: int|
                0 <= i < entries.len() ==> (#[trigger] entries[i]).handle != handle,
        },
    decreases entries.len(),
{
    if entries.len() > 0 {
        law_innermost_is_last(entries.drop_last(), handle);
        let rest = entries.drop_last();
        assert(forall|i: int| 0 <= i < rest.len() ==> #[trigger] entries[i] == rest[i]);
    }
}

/// Outside its scope a callback is refused.
pub proof fn law_inactive_outside_scope(entries: Seq<ScopedPackedEntry>, handle: usize)
    requires
        forall|i: int| 0 <= i < entries.len() ==> (#[trigger] entries[i]).handle != handle,
    ensures
        admission(entries, handle) == Err::<int, ErrorView>(inactive_error()),
{
    law_innermost_is_last(entries, handle);
}

/// Inside its scope a callback that is not running is admitted, and one that is
/// running is refused.
pub proof fn law_no_recursion(entries: Seq<ScopedPackedEntry>, handle: usize)
    ensures
        admission(entries.push(ScopedPackedEntry { handle, active: false }), handle) == Ok::<
            int,
            ErrorView,
        >(entries.len() as int),
        admission(entries.push(ScopedPackedEntry { handle, active: true }), handle) == Err::<
            int,
            ErrorView,
        >(recursion_error()),
{
    assert(entries.push(ScopedPackedEntry { handle, active: false }).last().handle == handle);
    assert(entries.push(ScopedPackedEntry { handle, active: true }).last().handle == handle);
}

/// Opening a scope does not affect the callbacks of the scopes around it.
pub proof fn law_inner_scope_keeps_outer(
    entries: Seq<ScopedPackedEntry>,
    inner: ScopedPackedEntry,
    handle: usize,
)
    requires
        inner.handle != handle,
    ensures
        admission(entries.push(inner), handle) == admission(entries, handle),
{
    let opened = entries.push(inner);
    assert(opened.drop_last() =~= entries);
    law_innermost_is_last(entries, handle);
}

/// Marking a callback touches nothing but whether it runs, and is undone by marking it
/// back.
pub proof fn law_marking_is_undone(entries: Seq<ScopedPackedEntry>, place: int, active: bool)
    requires
        0 <= place < entries.len(),
    ensures
        marked(entries, place, active).len() == entries.len(),
        marked(entries, place, active)[place].active == active,
        marked(entries, place, active)[place].handle == entries[place].handle,
        forall|i: int|
            0 <= i < entries.len() && i != place ==> #[trigger] marked(
                entries,
                place,
                active,
            )[i] == entries[i],
        marked(marked(entries, place, active), place, entries[place].active) == entries,
{
    assert(marked(marked(entries, place, active), place, entries[place].active) =~= entries);
}

/// While a callback runs, it is refused, and every other callback is treated as
/// before.
pub proof fn law_running_callback_is_refused(entries: Seq<ScopedPackedEntry>, handle: usize)
    requires
        admission(entries, handle) is Ok,
    ensures
        ({
            let running = marked(entries, admission(entries, handle)->Ok_0, true);
            &&& admission(running, handle) is Err
            &&& forall|other: usize|
                other != handle ==> #[trigger] admission(running, other) == admission(
                    entries,
                    other,
                )
        }),
{
    let place = admission(entries, handle)->Ok_0;
    let running = marked(entries, place, true);
    law_innermost_is_last(entries, handle);
    law_innermost_is_last(running, handle);
    assert(running[place].handle == handle);
    assert forall|other: usize| other != handle implies #[trigger] admission(running, other)
        == admission(entries, other) by {
        law_innermost_is_last(entries, other);
        law_innermost_is_last(running, other);
        if let Some(at) = innermost(running, other) {
            assert(entries[at].handle == other);
        }
        if let Some(at) = innermost(entries, other) {
            assert(running[at].handle == other);
        }
    }
}

} // verus!
