//! Tuples as packed arguments.

use crate::any::AnyView;
use crate::function_internal::holder::ArgIntoRef;
use crate::object::heap::ObjectHeap;
use crate::type_traits::AnyCompatible;
use vstd::prelude::*;

verus! {

/// A tuple of arguments.
pub trait TupleAsPackedArgs: Sized {
    /// The number of arguments.
    spec fn arity() -> nat;

    /// The arguments refer to objects that exist.
    spec fn viewable(&self, heap: &ObjectHeap) -> bool;

    /// The arguments as they are passed.
    spec fn views(&self, heap: &ObjectHeap) -> Seq<AnyView>;

    /// What the arguments own can be given up, one after the other.
    spec fn releasable(&self, heap: &ObjectHeap) -> bool;

    /// What the arguments owned was given up, one after the other.
    spec fn released(&self, before: &ObjectHeap, after: &ObjectHeap) -> bool;

    fn len() -> (len: usize)
        ensures
            len == Self::arity(),
    ;

    /// Writes a view of each argument.
    fn fill_any_view(&self, any_view: &mut [AnyView], heap: &ObjectHeap)
        requires
            heap.well_formed(),
            self.viewable(heap),
            old(any_view)@.len() >= Self::arity(),
        ensures
            final(any_view)@ == self.views(heap) + old(any_view)@.skip(Self::arity() as int),
    ;

    /// Gives up what the arguments own.
    fn give_up(self, heap: &mut ObjectHeap)
        requires
            old(heap).well_formed(),
            self.releasable(old(heap)),
        ensures
            final(heap).well_formed(),
            self.released(old(heap), final(heap)),
    ;
}

impl TupleAsPackedArgs for () {
    open spec fn arity() -> nat {
        0
    }

    open spec fn viewable(&self, heap: &ObjectHeap) -> bool {
        true
    }

    open spec fn views(&self, heap: &ObjectHeap) -> Seq<AnyView> {
        Seq::empty()
    }

    open spec fn releasable(&self, heap: &ObjectHeap) -> bool {
        true
    }

    open spec fn released(&self, before: &ObjectHeap, after: &ObjectHeap) -> bool {
        *after == *before
    }

    fn len() -> usize {
        0
    }

    fn fill_any_view(&self, any_view: &mut [AnyView], heap: &ObjectHeap) {
        assert(any_view@ =~= self.views(heap) + old(any_view)@.skip(Self::arity() as int));
    }

    fn give_up(self, heap: &mut ObjectHeap) {
    }
}

impl<T0: ArgIntoRef> TupleAsPackedArgs for (T0,) where
    T0::Target: AnyCompatible,
{
    open spec fn arity() -> nat {
        1
    }

    open spec fn viewable(&self, heap: &ObjectHeap) -> bool {
        &&& self.0.target().holdable(heap)
    }

    open spec fn views(&self, heap: &ObjectHeap) -> Seq<AnyView> {
        seq![AnyView { data: self.0.target().held(heap) }]
    }

    open spec fn releasable(&self, heap: &ObjectHeap) -> bool {
        &&& self.0.releasable(heap)
    }

    open spec fn released(&self, before: &ObjectHeap, after: &ObjectHeap) -> bool {
        self.0.released(before, after)
    }

    fn len() -> usize {
        1
    }

    fn fill_any_view(&self, any_view: &mut [AnyView], heap: &ObjectHeap) {
        any_view[0] = AnyView { data: T0::Target::copy_to_any_view(self.0.to_ref(), heap) };
        assert(any_view@ =~= self.views(heap) + old(any_view)@.skip(Self::arity() as int));
    }

    fn give_up(self, heap: &mut ObjectHeap) {
        self.0.give_up(heap);
    }
}

impl<T0: ArgIntoRef, T1: ArgIntoRef> TupleAsPackedArgs for (T0, T1) where
    T0::Target: AnyCompatible,
    T1::Target: AnyCompatible,
{
    open spec fn arity() -> nat {
        2
    }

    open spec fn viewable(&self, heap: &ObjectHeap) -> bool {
        &&& self.0.target().holdable(heap)
        &&& self.1.target().holdable(heap)
    }

    open spec fn views(&self, heap: &ObjectHeap) -> Seq<AnyView> {
        seq![
            AnyView { data: self.0.target().held(heap) },
            AnyView { data: self.1.target().held(heap) },
        ]
    }

    open spec fn releasable(&self, heap: &ObjectHeap) -> bool {
        &&& self.0.releasable(heap)
        &&& forall|h1: ObjectHeap|
            h1.well_formed() && #[trigger] self.0.released(heap, &h1) ==> {
                &&& self.1.releasable(&h1)
            }
    }

    open spec fn released(&self, before: &ObjectHeap, after: &ObjectHeap) -> bool {
        exists|h1: ObjectHeap|
            {
                &&& #[trigger] self.0.released(before, &h1)
                &&& #[trigger] self.1.released(&h1, after)
            }
    }

    fn len() -> usize {
        2
    }

    fn fill_any_view(&self, any_view: &mut [AnyView], heap: &ObjectHeap) {
        any_view[0] = AnyView { data: T0::Target::copy_to_any_view(self.0.to_ref(), heap) };
        any_view[1] = AnyView { data: T1::Target::copy_to_any_view(self.1.to_ref(), heap) };
        assert(any_view@ =~= self.views(heap) + old(any_view)@.skip(Self::arity() as int));
    }

    fn give_up(self, heap: &mut ObjectHeap) {
        self.0.give_up(heap);
        let ghost h1 = *heap;
        assert(self.0.released(old(heap), &h1));
        self.1.give_up(heap);
        assert(self.1.released(&h1, heap));
    }
}

impl<T0: ArgIntoRef, T1: ArgIntoRef, T2: ArgIntoRef> TupleAsPackedArgs for (T0, T1, T2) where
    T0::Target: AnyCompatible,
    T1::Target: AnyCompatible,
    T2::Target: AnyCompatible,
{
    open spec fn arity() -> nat {
        3
    }

    open spec fn viewable(&self, heap: &ObjectHeap) -> bool {
        &&& self.0.target().holdable(heap)
        &&& self.1.target().holdable(heap)
        &&& self.2.target().holdable(heap)
    }

    open spec fn views(&self, heap: &ObjectHeap) -> Seq<AnyView> {
        seq![
            AnyView { data: self.0.target().held(heap) },
            AnyView { data: self.1.target().held(heap) },
            AnyView { data: self.2.target().held(heap) },
        ]
    }

    open spec fn releasable(&self, heap: &ObjectHeap) -> bool {
        &&& self.0.releasable(heap)
        &&& forall|h1: ObjectHeap|
            h1.well_formed() && #[trigger] self.0.released(heap, &h1) ==> {
                &&& self.1.releasable(&h1)
                &&& forall|h2: ObjectHeap|
                    h2.well_formed() && #[trigger] self.1.released(&h1, &h2) ==> {
                        &&& self.2.releasable(&h2)
                    }
            }
    }

    open spec fn released(&self, before: &ObjectHeap, after: &ObjectHeap) -> bool {
        exists|h1: ObjectHeap, h2: ObjectHeap|
            {
                &&& #[trigger] self.0.released(before, &h1)
                &&& #[trigger] self.1.released(&h1, &h2)
                &&& #[trigger] self.2.released(&h2, after)
            }
    }

    fn len() -> usize {
        3
    }

    fn fill_any_view(&self, any_view: &mut [AnyView], heap: &ObjectHeap) {
        any_view[0] = AnyView { data: T0::Target::copy_to_any_view(self.0.to_ref(), heap) };
        any_view[1] = AnyView { data: T1::Target::copy_to_any_view(self.1.to_ref(), heap) };
        any_view[2] = AnyView { data: T2::Target::copy_to_any_view(self.2.to_ref(), heap) };
        assert(any_view@ =~= self.views(heap) + old(any_view)@.skip(Self::arity() as int));
    }

    fn give_up(self, heap: &mut ObjectHeap) {
        self.0.give_up(heap);
        let ghost h1 = *heap;
        assert(self.0.released(old(heap), &h1));
        self.1.give_up(heap);
        let ghost h2 = *heap;
        assert(self.1.released(&h1, &h2));
        self.2.give_up(heap);
        assert(self.2.released(&h2, heap));
    }
}

impl<
    T0: ArgIntoRef,
    T1: ArgIntoRef,
    T2: ArgIntoRef,
    T3: ArgIntoRef,
> TupleAsPackedArgs for (T0, T1, T2, T3) where
    T0::Target: AnyCompatible,
    T1::Target: AnyCompatible,
    T2::Target: AnyCompatible,
    T3::Target: AnyCompatible,
{
    open spec fn arity() -> nat {
        4
    }

    open spec fn viewable(&self, heap: &ObjectHeap) -> bool {
        &&& self.0.target().holdable(heap)
        &&& self.1.target().holdable(heap)
        &&& self.2.target().holdable(heap)
        &&& self.3.target().holdable(heap)
    }

    open spec fn views(&self, heap: &ObjectHeap) -> Seq<AnyView> {
        seq![
            AnyView { data: self.0.target().held(heap) },
            AnyView { data: self.1.target().held(heap) },
            AnyView { data: self.2.target().held(heap) },
            AnyView { data: self.3.target().held(heap) },
        ]
    }

    open spec fn releasable(&self, heap: &ObjectHeap) -> bool {
        &&& self.0.releasable(heap)
        &&& forall|h1: ObjectHeap|
            h1.well_formed() && #[trigger] self.0.released(heap, &h1) ==> {
                &&& self.1.releasable(&h1)
                &&& forall|h2: ObjectHeap|
                    h2.well_formed() && #[trigger] self.1.released(&h1, &h2) ==> {
                        &&& self.2.releasable(&h2)
                        &&& forall|h3: ObjectHeap|
                            h3.well_formed() && #[trigger] self.2.released(&h2, &h3) ==> {
                                &&& self.3.releasable(&h3)
                            }
                    }
            }
    }

    open spec fn released(&self, before: &ObjectHeap, after: &ObjectHeap) -> bool {
        exists|h1: ObjectHeap, h2: ObjectHeap, h3: ObjectHeap|
            {
                &&& #[trigger] self.0.released(before, &h1)
                &&& #[trigger] self.1.released(&h1, &h2)
                &&& #[trigger] self.2.released(&h2, &h3)
                &&& #[trigger] self.3.released(&h3, after)
            }
    }

    fn len() -> usize {
        4
    }

    fn fill_any_view(&self, any_view: &mut [AnyView], heap: &ObjectHeap) {
        any_view[0] = AnyView { data: T0::Target::copy_to_any_view(self.0.to_ref(), heap) };
        any_view[1] = AnyView { data: T1::Target::copy_to_any_view(self.1.to_ref(), heap) };
        any_view[2] = AnyView { data: T2::Target::copy_to_any_view(self.2.to_ref(), heap) };
        any_view[3] = AnyView { data: T3::Target::copy_to_any_view(self.3.to_ref(), heap) };
        assert(any_view@ =~= self.views(heap) + old(any_view)@.skip(Self::arity() as int));
    }

    fn give_up(self, heap: &mut ObjectHeap) {
        self.0.give_up(heap);
        let ghost h1 = *heap;
        assert(self.0.released(old(heap), &h1));
        self.1.give_up(heap);
        let ghost h2 = *heap;
        assert(self.1.released(&h1, &h2));
        self.2.give_up(heap);
        let ghost h3 = *heap;
        assert(self.2.released(&h2, &h3));
        self.3.give_up(heap);
        assert(self.3.released(&h3, heap));
    }
}

impl<
    T0: ArgIntoRef,
    T1: ArgIntoRef,
    T2: ArgIntoRef,
    T3: ArgIntoRef,
    T4: ArgIntoRef,
> TupleAsPackedArgs for (T0, T1, T2, T3, T4) where
    T0::Target: AnyCompatible,
    T1::Target: AnyCompatible,
    T2::Target: AnyCompatible,
    T3::Target: AnyCompatible,
    T4::Target: AnyCompatible,
{
    open spec fn arity() -> nat {
        5
    }

    open spec fn viewable(&self, heap: &ObjectHeap) -> bool {
        &&& self.0.target().holdable(heap)
        &&& self.1.target().holdable(heap)
        &&& self.2.target().holdable(heap)
        &&& self.3.target().holdable(heap)
        &&& self.4.target().holdable(heap)
    }

    open spec fn views(&self, heap: &ObjectHeap) -> Seq<AnyView> {
        seq![
            AnyView { data: self.0.target().held(heap) },
            AnyView { data: self.1.target().held(heap) },
            AnyView { data: self.2.target().held(heap) },
            AnyView { data: self.3.target().held(heap) },
            AnyView { data: self.4.target().held(heap) },
        ]
    }

    open spec fn releasable(&self, heap: &ObjectHeap) -> bool {
        &&& self.0.releasable(heap)
        &&& forall|h1: ObjectHeap|
            h1.well_formed() && #[trigger] self.0.released(heap, &h1) ==> {
                &&& self.1.releasable(&h1)
                &&& forall|h2: ObjectHeap|
                    h2.well_formed() && #[trigger] self.1.released(&h1, &h2) ==> {
                        &&& self.2.releasable(&h2)
                        &&& forall|h3: ObjectHeap|
                            h3.well_formed() && #[trigger] self.2.released(&h2, &h3) ==> {
                                &&& self.3.releasable(&h3)
                                &&& forall|h4: ObjectHeap|
                                    h4.well_formed() && #[trigger] self.3.released(&h3, &h4) ==> {
                                        &&& self.4.releasable(&h4)
                                    }
                            }
                    }
            }
    }

    open spec fn released(&self, before: &ObjectHeap, after: &ObjectHeap) -> bool {
        exists|h1: ObjectHeap, h2: ObjectHeap, h3: ObjectHeap, h4: ObjectHeap|
            {
                &&& #[trigger] self.0.released(before, &h1)
                &&& #[trigger] self.1.released(&h1, &h2)
                &&& #[trigger] self.2.released(&h2, &h3)
                &&& #[trigger] self.3.released(&h3, &h4)
                &&& #[trigger] self.4.released(&h4, after)
            }
    }

    fn len() -> usize {
        5
    }

    fn fill_any_view(&self, any_view: &mut [AnyView], heap: &ObjectHeap) {
        any_view[0] = AnyView { data: T0::Target::copy_to_any_view(self.0.to_ref(), heap) };
        any_view[1] = AnyView { data: T1::Target::copy_to_any_view(self.1.to_ref(), heap) };
        any_view[2] = AnyView { data: T2::Target::copy_to_any_view(self.2.to_ref(), heap) };
        any_view[3] = AnyView { data: T3::Target::copy_to_any_view(self.3.to_ref(), heap) };
        any_view[4] = AnyView { data: T4::Target::copy_to_any_view(self.4.to_ref(), heap) };
        assert(any_view@ =~= self.views(heap) + old(any_view)@.skip(Self::arity() as int));
    }

    fn give_up(self, heap: &mut ObjectHeap) {
        self.0.give_up(heap);
        let ghost h1 = *heap;
        assert(self.0.released(old(heap), &h1));
        self.1.give_up(heap);
        let ghost h2 = *heap;
        assert(self.1.released(&h1, &h2));
        self.2.give_up(heap);
        let ghost h3 = *heap;
        assert(self.2.released(&h2, &h3));
        self.3.give_up(heap);
        let ghost h4 = *heap;
        assert(self.3.released(&h3, &h4));
        self.4.give_up(heap);
        assert(self.4.released(&h4, heap));
    }
}

impl<
    T0: ArgIntoRef,
    T1: ArgIntoRef,
    T2: ArgIntoRef,
    T3: ArgIntoRef,
    T4: ArgIntoRef,
    T5: ArgIntoRef,
> TupleAsPackedArgs for (T0, T1, T2, T3, T4, T5) where
    T0::Target: AnyCompatible,
    T1::Target: AnyCompatible,
    T2::Target: AnyCompatible,
    T3::Target: AnyCompatible,
    T4::Target: AnyCompatible,
    T5::Target: AnyCompatible,
{
    open spec fn arity() -> nat {
        6
    }

    open spec fn viewable(&self, heap: &ObjectHeap) -> bool {
        &&& self.0.target().holdable(heap)
        &&& self.1.target().holdable(heap)
        &&& self.2.target().holdable(heap)
        &&& self.3.target().holdable(heap)
        &&& self.4.target().holdable(heap)
        &&& self.5.target().holdable(heap)
    }

    open spec fn views(&self, heap: &ObjectHeap) -> Seq<AnyView> {
        seq![
            AnyView { data: self.0.target().held(heap) },
            AnyView { data: self.1.target().held(heap) },
            AnyView { data: self.2.target().held(heap) },
            AnyView { data: self.3.target().held(heap) },
            AnyView { data: self.4.target().held(heap) },
            AnyView { data: self.5.target().held(heap) },
        ]
    }

    open spec fn releasable(&self, heap: &ObjectHeap) -> bool {
        &&& self.0.releasable(heap)
        &&& forall|h1: ObjectHeap|
            h1.well_formed() && #[trigger] self.0.released(heap, &h1) ==> {
                &&& self.1.releasable(&h1)
                &&& forall|h2: ObjectHeap|
                    h2.well_formed() && #[trigger] self.1.released(&h1, &h2) ==> {
                        &&& self.2.releasable(&h2)
                        &&& forall|h3: ObjectHeap|
                            h3.well_formed() && #[trigger] self.2.released(&h2, &h3) ==> {
                                &&& self.3.releasable(&h3)
                                &&& forall|h4: ObjectHeap|
                                    h4.well_formed() && #[trigger] self.3.released(&h3, &h4) ==> {
                                        &&& self.4.releasable(&h4)
                                        &&& forall|h5: ObjectHeap|
                                            h5.well_formed() && #[trigger] self.4.released(&h4, &h5) ==> {
                                                &&& self.5.releasable(&h5)
                                            }
                                    }
                            }
                    }
            }
    }

    open spec fn released(&self, before: &ObjectHeap, after: &ObjectHeap) -> bool {
        exists|
            h1: ObjectHeap,
            h2: ObjectHeap,
            h3: ObjectHeap,
            h4: ObjectHeap,
            h5: ObjectHeap,
        |
            {
                &&& #[trigger] self.0.released(before, &h1)
                &&& #[trigger] self.1.released(&h1, &h2)
                &&& #[trigger] self.2.released(&h2, &h3)
                &&& #[trigger] self.3.released(&h3, &h4)
                &&& #[trigger] self.4.released(&h4, &h5)
                &&& #[trigger] self.5.released(&h5, after)
            }
    }

    fn len() -> usize {
        6
    }

    fn fill_any_view(&self, any_view: &mut [AnyView], heap: &ObjectHeap) {
        any_view[0] = AnyView { data: T0::Target::copy_to_any_view(self.0.to_ref(), heap) };
        any_view[1] = AnyView { data: T1::Target::copy_to_any_view(self.1.to_ref(), heap) };
        any_view[2] = AnyView { data: T2::Target::copy_to_any_view(self.2.to_ref(), heap) };
        any_view[3] = AnyView { data: T3::Target::copy_to_any_view(self.3.to_ref(), heap) };
        any_view[4] = AnyView { data: T4::Target::copy_to_any_view(self.4.to_ref(), heap) };
        any_view[5] = AnyView { data: T5::Target::copy_to_any_view(self.5.to_ref(), heap) };
        assert(any_view@ =~= self.views(heap) + old(any_view)@.skip(Self::arity() as int));
    }

    fn give_up(self, heap: &mut ObjectHeap) {
        self.0.give_up(heap);
        let ghost h1 = *heap;
        assert(self.0.released(old(heap), &h1));
        self.1.give_up(heap);
        let ghost h2 = *heap;
        assert(self.1.released(&h1, &h2));
        self.2.give_up(heap);
        let ghost h3 = *heap;
        assert(self.2.released(&h2, &h3));
        self.3.give_up(heap);
        let ghost h4 = *heap;
        assert(self.3.released(&h3, &h4));
        self.4.give_up(heap);
        let ghost h5 = *heap;
        assert(self.4.released(&h4, &h5));
        self.5.give_up(heap);
        assert(self.5.released(&h5, heap));
    }
}

impl<
    T0: ArgIntoRef,
    T1: ArgIntoRef,
    T2: ArgIntoRef,
    T3: ArgIntoRef,
    T4: ArgIntoRef,
    T5: ArgIntoRef,
    T6: ArgIntoRef,
> TupleAsPackedArgs for (T0, T1, T2, T3, T4, T5, T6) where
    T0::Target: AnyCompatible,
    T1::Target: AnyCompatible,
    T2::Target: AnyCompatible,
    T3::Target: AnyCompatible,
    T4::Target: AnyCompatible,
    T5::Target: AnyCompatible,
    T6::Target: AnyCompatible,
{
    open spec fn arity() -> nat {
        7
    }

    open spec fn viewable(&self, heap: &ObjectHeap) -> bool {
        &&& self.0.target().holdable(heap)
        &&& self.1.target().holdable(heap)
        &&& self.2.target().holdable(heap)
        &&& self.3.target().holdable(heap)
        &&& self.4.target().holdable(heap)
        &&& self.5.target().holdable(heap)
        &&& self.6.target().holdable(heap)
    }

    open spec fn views(&self, heap: &ObjectHeap) -> Seq<AnyView> {
        seq![
            AnyView { data: self.0.target().held(heap) },
            AnyView { data: self.1.target().held(heap) },
            AnyView { data: self.2.target().held(heap) },
            AnyView { data: self.3.target().held(heap) },
            AnyView { data: self.4.target().held(heap) },
            AnyView { data: self.5.target().held(heap) },
            AnyView { data: self.6.target().held(heap) },
        ]
    }

    open spec fn releasable(&self, heap: &ObjectHeap) -> bool {
        &&& self.0.releasable(heap)
        &&& forall|h1: ObjectHeap|
            h1.well_formed() && #[trigger] self.0.released(heap, &h1) ==> {
                &&& self.1.releasable(&h1)
                &&& forall|h2: ObjectHeap|
                    h2.well_formed() && #[trigger] self.1.released(&h1, &h2) ==> {
                        &&& self.2.releasable(&h2)
                        &&& forall|h3: ObjectHeap|
                            h3.well_formed() && #[trigger] self.2.released(&h2, &h3) ==> {
                                &&& self.3.releasable(&h3)
                                &&& forall|h4: ObjectHeap|
                                    h4.well_formed() && #[trigger] self.3.released(&h3, &h4) ==> {
                                        &&& self.4.releasable(&h4)
                                        &&& forall|h5: ObjectHeap|
                                            h5.well_formed() && #[trigger] self.4.released(&h4, &h5) ==> {
                                                &&& self.5.releasable(&h5)
                                                &&& forall|h6: ObjectHeap|
                                                    h6.well_formed() && #[trigger] self.5.released(&h5, &h6) ==> {
                                                        &&& self.6.releasable(&h6)
                                                    }
                                            }
                                    }
                            }
                    }
            }
    }

    open spec fn released(&self, before: &ObjectHeap, after: &ObjectHeap) -> bool {
        exists|
            h1: ObjectHeap,
            h2: ObjectHeap,
            h3: ObjectHeap,
            h4: ObjectHeap,
            h5: ObjectHeap,
            h6: ObjectHeap,
        |
            {
                &&& #[trigger] self.0.released(before, &h1)
                &&& #[trigger] self.1.released(&h1, &h2)
                &&& #[trigger] self.2.released(&h2, &h3)
                &&& #[trigger] self.3.released(&h3, &h4)
                &&& #[trigger] self.4.released(&h4, &h5)
                &&& #[trigger] self.5.released(&h5, &h6)
                &&& #[trigger] self.6.released(&h6, after)
            }
    }

    fn len() -> usize {
        7
    }

    fn fill_any_view(&self, any_view: &mut [AnyView], heap: &ObjectHeap) {
        any_view[0] = AnyView { data: T0::Target::copy_to_any_view(self.0.to_ref(), heap) };
        any_view[1] = AnyView { data: T1::Target::copy_to_any_view(self.1.to_ref(), heap) };
        any_view[2] = AnyView { data: T2::Target::copy_to_any_view(self.2.to_ref(), heap) };
        any_view[3] = AnyView { data: T3::Target::copy_to_any_view(self.3.to_ref(), heap) };
        any_view[4] = AnyView { data: T4::Target::copy_to_any_view(self.4.to_ref(), heap) };
        any_view[5] = AnyView { data: T5::Target::copy_to_any_view(self.5.to_ref(), heap) };
        any_view[6] = AnyView { data: T6::Target::copy_to_any_view(self.6.to_ref(), heap) };
        assert(any_view@ =~= self.views(heap) + old(any_view)@.skip(Self::arity() as int));
    }

    fn give_up(self, heap: &mut ObjectHeap) {
        self.0.give_up(heap);
        let ghost h1 = *heap;
        assert(self.0.released(old(heap), &h1));
        self.1.give_up(heap);
        let ghost h2 = *heap;
        assert(self.1.released(&h1, &h2));
        self.2.give_up(heap);
        let ghost h3 = *heap;
        assert(self.2.released(&h2, &h3));
        self.3.give_up(heap);
        let ghost h4 = *heap;
        assert(self.3.released(&h3, &h4));
        self.4.give_up(heap);
        let ghost h5 = *heap;
        assert(self.4.released(&h4, &h5));
        self.5.give_up(heap);
        let ghost h6 = *heap;
        assert(self.5.released(&h5, &h6));
        self.6.give_up(heap);
        assert(self.6.released(&h6, heap));
    }
}

impl<
    T0: ArgIntoRef,
    T1: ArgIntoRef,
    T2: ArgIntoRef,
    T3: ArgIntoRef,
    T4: ArgIntoRef,
    T5: ArgIntoRef,
    T6: ArgIntoRef,
    T7: ArgIntoRef,
> TupleAsPackedArgs for (T0, T1, T2, T3, T4, T5, T6, T7) where
    T0::Target: AnyCompatible,
    T1::Target: AnyCompatible,
    T2::Target: AnyCompatible,
    T3::Target: AnyCompatible,
    T4::Target: AnyCompatible,
    T5::Target: AnyCompatible,
    T6::Target: AnyCompatible,
    T7::Target: AnyCompatible,
{
    open spec fn arity() -> nat {
        8
    }

    open spec fn viewable(&self, heap: &ObjectHeap) -> bool {
        &&& self.0.target().holdable(heap)
        &&& self.1.target().holdable(heap)
        &&& self.2.target().holdable(heap)
        &&& self.3.target().holdable(heap)
        &&& self.4.target().holdable(heap)
        &&& self.5.target().holdable(heap)
        &&& self.6.target().holdable(heap)
        &&& self.7.target().holdable(heap)
    }

    open spec fn views(&self, heap: &ObjectHeap) -> Seq<AnyView> {
        seq![
            AnyView { data: self.0.target().held(heap) },
            AnyView { data: self.1.target().held(heap) },
            AnyView { data: self.2.target().held(heap) },
            AnyView { data: self.3.target().held(heap) },
            AnyView { data: self.4.target().held(heap) },
            AnyView { data: self.5.target().held(heap) },
            AnyView { data: self.6.target().held(heap) },
            AnyView { data: self.7.target().held(heap) },
        ]
    }

    open spec fn releasable(&self, heap: &ObjectHeap) -> bool {
        &&& self.0.releasable(heap)
        &&& forall|h1: ObjectHeap|
            h1.well_formed() && #[trigger] self.0.released(heap, &h1) ==> {
                &&& self.1.releasable(&h1)
                &&& forall|h2: ObjectHeap|
                    h2.well_formed() && #[trigger] self.1.released(&h1, &h2) ==> {
                        &&& self.2.releasable(&h2)
                        &&& forall|h3: ObjectHeap|
                            h3.well_formed() && #[trigger] self.2.released(&h2, &h3) ==> {
                                &&& self.3.releasable(&h3)
                                &&& forall|h4: ObjectHeap|
                                    h4.well_formed() && #[trigger] self.3.released(&h3, &h4) ==> {
                                        &&& self.4.releasable(&h4)
                                        &&& forall|h5: ObjectHeap|
                                            h5.well_formed() && #[trigger] self.4.released(&h4, &h5) ==> {
                                                &&& self.5.releasable(&h5)
                                                &&& forall|h6: ObjectHeap|
                                                    h6.well_formed() && #[trigger] self.5.released(&h5, &h6) ==> {
                                                        &&& self.6.releasable(&h6)
                                                        &&& forall|h7: ObjectHeap|
                                                            h7.well_formed() && #[trigger] self.6.released(&h6, &h7) ==> {
                                                                &&& self.7.releasable(&h7)
                                                            }
                                                    }
                                            }
                                    }
                            }
                    }
            }
    }

    open spec fn released(&self, before: &ObjectHeap, after: &ObjectHeap) -> bool {
        exists|
            h1: ObjectHeap,
            h2: ObjectHeap,
            h3: ObjectHeap,
            h4: ObjectHeap,
            h5: ObjectHeap,
            h6: ObjectHeap,
            h7: ObjectHeap,
        |
            {
                &&& #[trigger] self.0.released(before, &h1)
                &&& #[trigger] self.1.released(&h1, &h2)
                &&& #[trigger] self.2.released(&h2, &h3)
                &&& #[trigger] self.3.released(&h3, &h4)
                &&& #[trigger] self.4.released(&h4, &h5)
                &&& #[trigger] self.5.released(&h5, &h6)
                &&& #[trigger] self.6.released(&h6, &h7)
                &&& #[trigger] self.7.released(&h7, after)
            }
    }

    fn len() -> usize {
        8
    }

    fn fill_any_view(&self, any_view: &mut [AnyView], heap: &ObjectHeap) {
        any_view[0] = AnyView { data: T0::Target::copy_to_any_view(self.0.to_ref(), heap) };
        any_view[1] = AnyView { data: T1::Target::copy_to_any_view(self.1.to_ref(), heap) };
        any_view[2] = AnyView { data: T2::Target::copy_to_any_view(self.2.to_ref(), heap) };
        any_view[3] = AnyView { data: T3::Target::copy_to_any_view(self.3.to_ref(), heap) };
        any_view[4] = AnyView { data: T4::Target::copy_to_any_view(self.4.to_ref(), heap) };
        any_view[5] = AnyView { data: T5::Target::copy_to_any_view(self.5.to_ref(), heap) };
        any_view[6] = AnyView { data: T6::Target::copy_to_any_view(self.6.to_ref(), heap) };
        any_view[7] = AnyView { data: T7::Target::copy_to_any_view(self.7.to_ref(), heap) };
        assert(any_view@ =~= self.views(heap) + old(any_view)@.skip(Self::arity() as int));
    }

    fn give_up(self, heap: &mut ObjectHeap) {
        self.0.give_up(heap);
        let ghost h1 = *heap;
        assert(self.0.released(old(heap), &h1));
        self.1.give_up(heap);
        let ghost h2 = *heap;
        assert(self.1.released(&h1, &h2));
        self.2.give_up(heap);
        let ghost h3 = *heap;
        assert(self.2.released(&h2, &h3));
        self.3.give_up(heap);
        let ghost h4 = *heap;
        assert(self.3.released(&h3, &h4));
        self.4.give_up(heap);
        let ghost h5 = *heap;
        assert(self.4.released(&h4, &h5));
        self.5.give_up(heap);
        let ghost h6 = *heap;
        assert(self.5.released(&h5, &h6));
        self.6.give_up(heap);
        let ghost h7 = *heap;
        assert(self.6.released(&h6, &h7));
        self.7.give_up(heap);
        assert(self.7.released(&h7, heap));
    }
}

/// What the first elements own was given up, then what the last owns.
pub open spec fn released_in_turn<Front: TupleAsPackedArgs, Last: ArgIntoRef>(
    front: Front,
    last: Last,
    before: &ObjectHeap,
    after: &ObjectHeap,
) -> bool {
    exists|between: ObjectHeap| #[trigger]
        front.released(before, &between) && last.released(&between, after)
}

/// A tuple of arguments, seen as its first elements and its last.
///
/// The arguments of a longer tuple are those of its first elements, followed by
/// that of its last. From the empty tuple up, argument `i` is therefore the held
/// form of element `i`, however many there are.
pub trait ArgumentsAndLast: TupleAsPackedArgs {
    type Front: TupleAsPackedArgs;

    type Held: AnyCompatible;

    type Last: ArgIntoRef<Target = Self::Held>;

    /// The elements before the last.
    spec fn front(&self) -> Self::Front;

    /// The last element.
    spec fn last(&self) -> Self::Last;

    /// The last argument comes after the others, and is the held form of the last
    /// element.
    proof fn law_last_argument_follows(&self, heap: &ObjectHeap)
        ensures
            Self::arity() == Self::Front::arity() + 1,
            self.views(heap) == self.front().views(heap).push(
                AnyView { data: self.last().target().held(heap) },
            ),
            self.viewable(heap) == (self.front().viewable(heap) && self.last().target().holdable(
                heap,
            )),
    ;

    /// What the last element owns is given up after what the others own.
    proof fn law_last_argument_is_released_last(&self, before: &ObjectHeap, after: &ObjectHeap)
        ensures
            self.released(before, after) == released_in_turn(
                self.front(),
                self.last(),
                before,
                after,
            ),
    ;
}

impl<T0: ArgIntoRef> ArgumentsAndLast for (T0,) where
    T0::Target: AnyCompatible,
{
    type Front = ();

    type Held = T0::Target;

    type Last = T0;

    open spec fn front(&self) -> () {
        ()
    }

    open spec fn last(&self) -> T0 {
        self.0
    }

    proof fn law_last_argument_follows(&self, heap: &ObjectHeap) {
        assert(self.views(heap) =~= self.front().views(heap).push(
            AnyView { data: self.last().target().held(heap) },
        ));
    }

    proof fn law_last_argument_is_released_last(&self, before: &ObjectHeap, after: &ObjectHeap) {
        if self.released(before, after) {
            assert(self.front().released(before, before));
        }
    }
}

impl<T0: ArgIntoRef, T1: ArgIntoRef> ArgumentsAndLast for (T0, T1) where
    T0::Target: AnyCompatible,
    T1::Target: AnyCompatible,
{
    type Front = (T0,);

    type Held = T1::Target;

    type Last = T1;

    open spec fn front(&self) -> (T0,) {
        (self.0,)
    }

    open spec fn last(&self) -> T1 {
        self.1
    }

    proof fn law_last_argument_follows(&self, heap: &ObjectHeap) {
        assert(self.views(heap) =~= self.front().views(heap).push(
            AnyView { data: self.last().target().held(heap) },
        ));
    }

    proof fn law_last_argument_is_released_last(&self, before: &ObjectHeap, after: &ObjectHeap) {
        if self.released(before, after) {
            let h1 = choose|h1: ObjectHeap|
                {
                    &&& #[trigger] self.0.released(before, &h1)
                    &&& #[trigger] self.1.released(&h1, after)
                };
            assert(self.0.released(before, &h1));
            assert(self.front().released(before, &h1));
        }
        if released_in_turn(self.front(), self.last(), before, after) {
            let between = choose|between: ObjectHeap| #[trigger]
                self.front().released(before, &between) && self.last().released(&between, after);
            assert(self.0.released(before, &between));
            assert(self.1.released(&between, after));
        }
    }
}

impl<T0: ArgIntoRef, T1: ArgIntoRef, T2: ArgIntoRef> ArgumentsAndLast for (T0, T1, T2) where
    T0::Target: AnyCompatible,
    T1::Target: AnyCompatible,
    T2::Target: AnyCompatible,
{
    type Front = (T0, T1);

    type Held = T2::Target;

    type Last = T2;

    open spec fn front(&self) -> (T0, T1) {
        (self.0, self.1)
    }

    open spec fn last(&self) -> T2 {
        self.2
    }

    proof fn law_last_argument_follows(&self, heap: &ObjectHeap) {
        assert(self.views(heap) =~= self.front().views(heap).push(
            AnyView { data: self.last().target().held(heap) },
        ));
    }

    proof fn law_last_argument_is_released_last(&self, before: &ObjectHeap, after: &ObjectHeap) {
        if self.released(before, after) {
            let (h1, h2) = choose|h1: ObjectHeap, h2: ObjectHeap|
                {
                    &&& #[trigger] self.0.released(before, &h1)
                    &&& #[trigger] self.1.released(&h1, &h2)
                    &&& #[trigger] self.2.released(&h2, after)
                };
            assert(self.0.released(before, &h1));
            assert(self.1.released(&h1, &h2));
            assert(self.2.released(&h2, after));
            let front: (T0, T1) = self.front();
            assert(front == (self.0, self.1));
            assert(front.0.released(before, &h1));
            assert(front.1.released(&h1, &h2));
            assert(front.released(before, &h2));
        }
        if released_in_turn(self.front(), self.last(), before, after) {
            let between = choose|between: ObjectHeap| #[trigger]
                self.front().released(before, &between) && self.last().released(&between, after);
            let h1 = choose|h1: ObjectHeap|
                {
                    &&& #[trigger] self.0.released(before, &h1)
                    &&& #[trigger] self.1.released(&h1, &between)
                };
            assert(self.2.released(&between, after));
        }
    }
}

impl<
    T0: ArgIntoRef,
    T1: ArgIntoRef,
    T2: ArgIntoRef,
    T3: ArgIntoRef,
> ArgumentsAndLast for (T0, T1, T2, T3) where
    T0::Target: AnyCompatible,
    T1::Target: AnyCompatible,
    T2::Target: AnyCompatible,
    T3::Target: AnyCompatible,
{
    type Front = (T0, T1, T2);

    type Held = T3::Target;

    type Last = T3;

    open spec fn front(&self) -> (T0, T1, T2) {
        (self.0, self.1, self.2)
    }

    open spec fn last(&self) -> T3 {
        self.3
    }

    proof fn law_last_argument_follows(&self, heap: &ObjectHeap) {
        assert(self.views(heap) =~= self.front().views(heap).push(
            AnyView { data: self.last().target().held(heap) },
        ));
    }

    proof fn law_last_argument_is_released_last(&self, before: &ObjectHeap, after: &ObjectHeap) {
        if self.released(before, after) {
            let (h1, h2, h3) = choose|h1: ObjectHeap, h2: ObjectHeap, h3: ObjectHeap|
                {
                    &&& #[trigger] self.0.released(before, &h1)
                    &&& #[trigger] self.1.released(&h1, &h2)
                    &&& #[trigger] self.2.released(&h2, &h3)
                    &&& #[trigger] self.3.released(&h3, after)
                };
            assert(self.0.released(before, &h1));
            assert(self.1.released(&h1, &h2));
            assert(self.2.released(&h2, &h3));
            assert(self.3.released(&h3, after));
            let front: (T0, T1, T2) = self.front();
            assert(front == (self.0, self.1, self.2));
            assert(front.0.released(before, &h1));
            assert(front.1.released(&h1, &h2));
            assert(front.2.released(&h2, &h3));
            assert(front.released(before, &h3));
        }
        if released_in_turn(self.front(), self.last(), before, after) {
            let between = choose|between: ObjectHeap| #[trigger]
                self.front().released(before, &between) && self.last().released(&between, after);
            let (h1, h2) = choose|h1: ObjectHeap, h2: ObjectHeap|
                {
                    &&& #[trigger] self.0.released(before, &h1)
                    &&& #[trigger] self.1.released(&h1, &h2)
                    &&& #[trigger] self.2.released(&h2, &between)
                };
            assert(self.3.released(&between, after));
        }
    }
}

impl<
    T0: ArgIntoRef,
    T1: ArgIntoRef,
    T2: ArgIntoRef,
    T3: ArgIntoRef,
    T4: ArgIntoRef,
> ArgumentsAndLast for (T0, T1, T2, T3, T4) where
    T0::Target: AnyCompatible,
    T1::Target: AnyCompatible,
    T2::Target: AnyCompatible,
    T3::Target: AnyCompatible,
    T4::Target: AnyCompatible,
{
    type Front = (T0, T1, T2, T3);

    type Held = T4::Target;

    type Last = T4;

    open spec fn front(&self) -> (T0, T1, T2, T3) {
        (self.0, self.1, self.2, self.3)
    }

    open spec fn last(&self) -> T4 {
        self.4
    }

    proof fn law_last_argument_follows(&self, heap: &ObjectHeap) {
        assert(self.views(heap) =~= self.front().views(heap).push(
            AnyView { data: self.last().target().held(heap) },
        ));
    }

    proof fn law_last_argument_is_released_last(&self, before: &ObjectHeap, after: &ObjectHeap) {
        if self.released(before, after) {
            let (h1, h2, h3, h4) = choose|
                h1: ObjectHeap,
                h2: ObjectHeap,
                h3: ObjectHeap,
                h4: ObjectHeap,
            |
                {
                    &&& #[trigger] self.0.released(before, &h1)
                    &&& #[trigger] self.1.released(&h1, &h2)
                    &&& #[trigger] self.2.released(&h2, &h3)
                    &&& #[trigger] self.3.released(&h3, &h4)
                    &&& #[trigger] self.4.released(&h4, after)
                };
            assert(self.0.released(before, &h1));
            assert(self.1.released(&h1, &h2));
            assert(self.2.released(&h2, &h3));
            assert(self.3.released(&h3, &h4));
            assert(self.4.released(&h4, after));
            let front: (T0, T1, T2, T3) = self.front();
            assert(front == (self.0, self.1, self.2, self.3));
            assert(front.0.released(before, &h1));
            assert(front.1.released(&h1, &h2));
            assert(front.2.released(&h2, &h3));
            assert(front.3.released(&h3, &h4));
            assert(front.released(before, &h4));
        }
        if released_in_turn(self.front(), self.last(), before, after) {
            let between = choose|between: ObjectHeap| #[trigger]
                self.front().released(before, &between) && self.last().released(&between, after);
            let (h1, h2, h3) = choose|h1: ObjectHeap, h2: ObjectHeap, h3: ObjectHeap|
                {
                    &&& #[trigger] self.0.released(before, &h1)
                    &&& #[trigger] self.1.released(&h1, &h2)
                    &&& #[trigger] self.2.released(&h2, &h3)
                    &&& #[trigger] self.3.released(&h3, &between)
                };
            assert(self.4.released(&between, after));
        }
    }
}

impl<
    T0: ArgIntoRef,
    T1: ArgIntoRef,
    T2: ArgIntoRef,
    T3: ArgIntoRef,
    T4: ArgIntoRef,
    T5: ArgIntoRef,
> ArgumentsAndLast for (T0, T1, T2, T3, T4, T5) where
    T0::Target: AnyCompatible,
    T1::Target: AnyCompatible,
    T2::Target: AnyCompatible,
    T3::Target: AnyCompatible,
    T4::Target: AnyCompatible,
    T5::Target: AnyCompatible,
{
    type Front = (T0, T1, T2, T3, T4);

    type Held = T5::Target;

    type Last = T5;

    open spec fn front(&self) -> (T0, T1, T2, T3, T4) {
        (self.0, self.1, self.2, self.3, self.4)
    }

    open spec fn last(&self) -> T5 {
        self.5
    }

    proof fn law_last_argument_follows(&self, heap: &ObjectHeap) {
        assert(self.views(heap) =~= self.front().views(heap).push(
            AnyView { data: self.last().target().held(heap) },
        ));
    }

    proof fn law_last_argument_is_released_last(&self, before: &ObjectHeap, after: &ObjectHeap) {
        if self.released(before, after) {
            let (h1, h2, h3, h4, h5) = choose|
                h1: ObjectHeap,
                h2: ObjectHeap,
                h3: ObjectHeap,
                h4: ObjectHeap,
                h5: ObjectHeap,
            |
                {
                    &&& #[trigger] self.0.released(before, &h1)
                    &&& #[trigger] self.1.released(&h1, &h2)
                    &&& #[trigger] self.2.released(&h2, &h3)
                    &&& #[trigger] self.3.released(&h3, &h4)
                    &&& #[trigger] self.4.released(&h4, &h5)
                    &&& #[trigger] self.5.released(&h5, after)
                };
            assert(self.0.released(before, &h1));
            assert(self.1.released(&h1, &h2));
            assert(self.2.released(&h2, &h3));
            assert(self.3.released(&h3, &h4));
            assert(self.4.released(&h4, &h5));
            assert(self.5.released(&h5, after));
            let front: (T0, T1, T2, T3, T4) = self.front();
            assert(front == (self.0, self.1, self.2, self.3, self.4));
            assert(front.0.released(before, &h1));
            assert(front.1.released(&h1, &h2));
            assert(front.2.released(&h2, &h3));
            assert(front.3.released(&h3, &h4));
            assert(front.4.released(&h4, &h5));
            assert(front.released(before, &h5));
        }
        if released_in_turn(self.front(), self.last(), before, after) {
            let between = choose|between: ObjectHeap| #[trigger]
                self.front().released(before, &between) && self.last().released(&between, after);
            let (h1, h2, h3, h4) = choose|
                h1: ObjectHeap,
                h2: ObjectHeap,
                h3: ObjectHeap,
                h4: ObjectHeap,
            |
                {
                    &&& #[trigger] self.0.released(before, &h1)
                    &&& #[trigger] self.1.released(&h1, &h2)
                    &&& #[trigger] self.2.released(&h2, &h3)
                    &&& #[trigger] self.3.released(&h3, &h4)
                    &&& #[trigger] self.4.released(&h4, &between)
                };
            assert(self.5.released(&between, after));
        }
    }
}

impl<
    T0: ArgIntoRef,
    T1: ArgIntoRef,
    T2: ArgIntoRef,
    T3: ArgIntoRef,
    T4: ArgIntoRef,
    T5: ArgIntoRef,
    T6: ArgIntoRef,
> ArgumentsAndLast for (T0, T1, T2, T3, T4, T5, T6) where
    T0::Target: AnyCompatible,
    T1::Target: AnyCompatible,
    T2::Target: AnyCompatible,
    T3::Target: AnyCompatible,
    T4::Target: AnyCompatible,
    T5::Target: AnyCompatible,
    T6::Target: AnyCompatible,
{
    type Front = (T0, T1, T2, T3, T4, T5);

    type Held = T6::Target;

    type Last = T6;

    open spec fn front(&self) -> (T0, T1, T2, T3, T4, T5) {
        (self.0, self.1, self.2, self.3, self.4, self.5)
    }

    open spec fn last(&self) -> T6 {
        self.6
    }

    proof fn law_last_argument_follows(&self, heap: &ObjectHeap) {
        assert(self.views(heap) =~= self.front().views(heap).push(
            AnyView { data: self.last().target().held(heap) },
        ));
    }

    proof fn law_last_argument_is_released_last(&self, before: &ObjectHeap, after: &ObjectHeap) {
        if self.released(before, after) {
            let (h1, h2, h3, h4, h5, h6) = choose|
                h1: ObjectHeap,
                h2: ObjectHeap,
                h3: ObjectHeap,
                h4: ObjectHeap,
                h5: ObjectHeap,
                h6: ObjectHeap,
            |
                {
                    &&& #[trigger] self.0.released(before, &h1)
                    &&& #[trigger] self.1.released(&h1, &h2)
                    &&& #[trigger] self.2.released(&h2, &h3)
                    &&& #[trigger] self.3.released(&h3, &h4)
                    &&& #[trigger] self.4.released(&h4, &h5)
                    &&& #[trigger] self.5.released(&h5, &h6)
                    &&& #[trigger] self.6.released(&h6, after)
                };
            assert(self.0.released(before, &h1));
            assert(self.1.released(&h1, &h2));
            assert(self.2.released(&h2, &h3));
            assert(self.3.released(&h3, &h4));
            assert(self.4.released(&h4, &h5));
            assert(self.5.released(&h5, &h6));
            assert(self.6.released(&h6, after));
            let front: (T0, T1, T2, T3, T4, T5) = self.front();
            assert(front == (self.0, self.1, self.2, self.3, self.4, self.5));
            assert(front.0.released(before, &h1));
            assert(front.1.released(&h1, &h2));
            assert(front.2.released(&h2, &h3));
            assert(front.3.released(&h3, &h4));
            assert(front.4.released(&h4, &h5));
            assert(front.5.released(&h5, &h6));
            assert(front.released(before, &h6));
        }
        if released_in_turn(self.front(), self.last(), before, after) {
            let between = choose|between: ObjectHeap| #[trigger]
                self.front().released(before, &between) && self.last().released(&between, after);
            let (h1, h2, h3, h4, h5) = choose|
                h1: ObjectHeap,
                h2: ObjectHeap,
                h3: ObjectHeap,
                h4: ObjectHeap,
                h5: ObjectHeap,
            |
                {
                    &&& #[trigger] self.0.released(before, &h1)
                    &&& #[trigger] self.1.released(&h1, &h2)
                    &&& #[trigger] self.2.released(&h2, &h3)
                    &&& #[trigger] self.3.released(&h3, &h4)
                    &&& #[trigger] self.4.released(&h4, &h5)
                    &&& #[trigger] self.5.released(&h5, &between)
                };
            assert(self.6.released(&between, after));
        }
    }
}

impl<
    T0: ArgIntoRef,
    T1: ArgIntoRef,
    T2: ArgIntoRef,
    T3: ArgIntoRef,
    T4: ArgIntoRef,
    T5: ArgIntoRef,
    T6: ArgIntoRef,
    T7: ArgIntoRef,
> ArgumentsAndLast for (T0, T1, T2, T3, T4, T5, T6, T7) where
    T0::Target: AnyCompatible,
    T1::Target: AnyCompatible,
    T2::Target: AnyCompatible,
    T3::Target: AnyCompatible,
    T4::Target: AnyCompatible,
    T5::Target: AnyCompatible,
    T6::Target: AnyCompatible,
    T7::Target: AnyCompatible,
{
    type Front = (T0, T1, T2, T3, T4, T5, T6);

    type Held = T7::Target;

    type Last = T7;

    open spec fn front(&self) -> (T0, T1, T2, T3, T4, T5, T6) {
        (self.0, self.1, self.2, self.3, self.4, self.5, self.6)
    }

    open spec fn last(&self) -> T7 {
        self.7
    }

    proof fn law_last_argument_follows(&self, heap: &ObjectHeap) {
        assert(self.views(heap) =~= self.front().views(heap).push(
            AnyView { data: self.last().target().held(heap) },
        ));
    }

    proof fn law_last_argument_is_released_last(&self, before: &ObjectHeap, after: &ObjectHeap) {
        if self.released(before, after) {
            let (h1, h2, h3, h4, h5, h6, h7) = choose|
                h1: ObjectHeap,
                h2: ObjectHeap,
                h3: ObjectHeap,
                h4: ObjectHeap,
                h5: ObjectHeap,
                h6: ObjectHeap,
                h7: ObjectHeap,
            |
                {
                    &&& #[trigger] self.0.released(before, &h1)
                    &&& #[trigger] self.1.released(&h1, &h2)
                    &&& #[trigger] self.2.released(&h2, &h3)
                    &&& #[trigger] self.3.released(&h3, &h4)
                    &&& #[trigger] self.4.released(&h4, &h5)
                    &&& #[trigger] self.5.released(&h5, &h6)
                    &&& #[trigger] self.6.released(&h6, &h7)
                    &&& #[trigger] self.7.released(&h7, after)
                };
            assert(self.0.released(before, &h1));
            assert(self.1.released(&h1, &h2));
            assert(self.2.released(&h2, &h3));
            assert(self.3.released(&h3, &h4));
            assert(self.4.released(&h4, &h5));
            assert(self.5.released(&h5, &h6));
            assert(self.6.released(&h6, &h7));
            assert(self.7.released(&h7, after));
            let front: (T0, T1, T2, T3, T4, T5, T6) = self.front();
            assert(front == (self.0, self.1, self.2, self.3, self.4, self.5, self.6));
            assert(front.0.released(before, &h1));
            assert(front.1.released(&h1, &h2));
            assert(front.2.released(&h2, &h3));
            assert(front.3.released(&h3, &h4));
            assert(front.4.released(&h4, &h5));
            assert(front.5.released(&h5, &h6));
            assert(front.6.released(&h6, &h7));
            assert(front.released(before, &h7));
        }
        if released_in_turn(self.front(), self.last(), before, after) {
            let between = choose|between: ObjectHeap| #[trigger]
                self.front().released(before, &between) && self.last().released(&between, after);
            let (h1, h2, h3, h4, h5, h6) = choose|
                h1: ObjectHeap,
                h2: ObjectHeap,
                h3: ObjectHeap,
                h4: ObjectHeap,
                h5: ObjectHeap,
                h6: ObjectHeap,
            |
                {
                    &&& #[trigger] self.0.released(before, &h1)
                    &&& #[trigger] self.1.released(&h1, &h2)
                    &&& #[trigger] self.2.released(&h2, &h3)
                    &&& #[trigger] self.3.released(&h3, &h4)
                    &&& #[trigger] self.4.released(&h4, &h5)
                    &&& #[trigger] self.5.released(&h5, &h6)
                    &&& #[trigger] self.6.released(&h6, &between)
                };
            assert(self.7.released(&between, after));
        }
    }
}

} // verus!
