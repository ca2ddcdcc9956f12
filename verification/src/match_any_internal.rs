//! Support for the arms of a dynamic match.

use crate::any::AnyView;
use crate::match_any::{
    first_arm, identifies, is_dense, ExactDispatchPlan, ObjectPatternList,
    PatternListMetadata, PatternListProbe,
};
use crate::object::arc::acquired;
use crate::object::heap::ObjectHeap;
use crate::object::reflection::is_or_inherits;
use crate::object::refs::{law_copy_shares_the_object, ObjectRefAny, ObjectRefByType};
use crate::object::ObjectCore;
use crate::type_table::TypeTable;
use crate::type_traits::AnyCompatible;
use core::any::TypeId;
use core::marker::PhantomData;
use vstd::prelude::*;

verus! {

/// The place of an arm in its match.
pub type ArmId = usize;

/// Lookup table for the arms of a match on leaf types.
pub struct LeafLookupTable {
    plan: ExactDispatchPlan,
}

impl LeafLookupTable {
    pub closed spec fn decision(&self, pattern_list_id: TypeId, type_index: i32) -> Result<
        Option<ArmId>,
        (),
    > {
        self.plan.decision(pattern_list_id, type_index)
    }

    pub fn build<const N: usize>(pattern_list_id: TypeId, type_indices: [i32; N]) -> (table: Self)
        ensures
            forall|id: TypeId, type_index: i32| #[trigger]
                table.decision(id, type_index) == (if id == pattern_list_id && is_dense(
                    type_indices@,
                ) {
                    Ok::<Option<ArmId>, ()>(first_arm(type_indices@, type_index))
                } else {
                    Err(())
                }),
    {
        LeafLookupTable { plan: ExactDispatchPlan::build(pattern_list_id, type_indices.as_slice()) }
    }

    pub fn lookup(&self, pattern_list_id: TypeId, type_index: i32) -> (decision: Result<
        Option<ArmId>,
        (),
    >)
        ensures
            decision == self.decision(pattern_list_id, type_index),
    {
        self.plan.lookup(pattern_list_id, type_index)
    }
}

/// Probe for the metadata of a list of leaf patterns.
pub struct LeafPatternProbe<T> {
    probe: PatternListProbe<T>,
}

impl<T> LeafPatternProbe<T> {
    pub fn new() -> (probe: Self) {
        LeafPatternProbe { probe: PatternListProbe::new() }
    }
}

/// Metadata of a list of leaf patterns. A list that has none falls back to
/// matching in order.
pub trait LeafPatternMetadata {
    spec fn is_leaf_list(&self) -> bool;

    /// `id` stands for this list of patterns.
    spec fn identified_by(&self, id: TypeId) -> bool;

    /// There is room for the type indices.
    spec fn accepts(&self, room: nat) -> bool;

    spec fn filled(&self, before: Seq<i32>) -> Seq<i32>;

    /// The identity of the list, if its patterns can be looked up.
    fn leaf_pattern_list_id(&self) -> (id: Option<TypeId>)
        ensures
            id is Some <==> self.is_leaf_list(),
            id matches Some(id) ==> self.identified_by(id),
    ;

    /// Writes the type indices of the patterns.
    fn fill_leaf_type_indices(&self, out: &mut [i32])
        requires
            self.accepts(old(out)@.len()),
        ensures
            final(out)@ == self.filled(old(out)@),
    ;
}

impl<T: ObjectPatternList> LeafPatternMetadata for LeafPatternProbe<T> {
    open spec fn is_leaf_list(&self) -> bool {
        T::exact()
    }

    open spec fn identified_by(&self, id: TypeId) -> bool {
        identifies::<T>(id)
    }

    open spec fn accepts(&self, room: nat) -> bool {
        room == T::indices().len()
    }

    open spec fn filled(&self, before: Seq<i32>) -> Seq<i32> {
        T::indices()
    }

    fn leaf_pattern_list_id(&self) -> Option<TypeId> {
        self.probe.pattern_list_id()
    }

    fn fill_leaf_type_indices(&self, out: &mut [i32]) {
        self.probe.fill_exact_type_indices(out);
    }
}

impl<T> LeafPatternMetadata for &LeafPatternProbe<T> {
    open spec fn is_leaf_list(&self) -> bool {
        false
    }

    open spec fn identified_by(&self, id: TypeId) -> bool {
        false
    }

    open spec fn accepts(&self, room: nat) -> bool {
        true
    }

    open spec fn filled(&self, before: Seq<i32>) -> Seq<i32> {
        before
    }

    fn leaf_pattern_list_id(&self) -> Option<TypeId> {
        None
    }

    fn fill_leaf_type_indices(&self, out: &mut [i32]) {
    }
}

//-----------------------------------------------------
// Conversion of typed arms
//-----------------------------------------------------
/// Conversion adapter for typed arms.
pub struct PatternConversionProbe<T> {
    target: PhantomData<T>,
}

impl<T> PatternConversionProbe<T> {
    pub fn new() -> (probe: Self) {
        PatternConversionProbe { target: PhantomData }
    }
}

/// A value of this type is selected: by its type index alone where that
/// decides, else by conversion.
pub open spec fn selected<T: AnyCompatible>(view: AnyView, types: &TypeTable) -> bool {
    if T::exact() {
        view.data.type_index == T::exact_index()
    } else {
        T::castable(view.data, types)
    }
}

/// Conversion of a viewed value to the type of an arm.
pub trait PatternConversion<T> {
    /// The conversion can be tried.
    spec fn convertible(view: AnyView, types: &TypeTable, heap: &ObjectHeap) -> bool;

    /// What the conversion returns and does.
    spec fn converted(
        view: AnyView,
        types: &TypeTable,
        before: &ObjectHeap,
        after: &ObjectHeap,
        result: Result<T, ()>,
    ) -> bool;

    fn try_convert(&self, view: AnyView, types: &TypeTable, heap: &mut ObjectHeap) -> (result: Result<
        T,
        (),
    >)
        requires
            types.well_formed(),
            old(heap).well_formed(),
            Self::convertible(view, types, old(heap)),
        ensures
            Self::converted(view, types, old(heap), final(heap), result),
    ;
}

impl<T: AnyCompatible> PatternConversion<T> for PatternConversionProbe<T> {
    open spec fn convertible(view: AnyView, types: &TypeTable, heap: &ObjectHeap) -> bool {
        selected::<T>(view, types) ==> T::copyable(view.data, heap)
    }

    open spec fn converted(
        view: AnyView,
        types: &TypeTable,
        before: &ObjectHeap,
        after: &ObjectHeap,
        result: Result<T, ()>,
    ) -> bool {
        match result {
            Ok(value) => {
                &&& selected::<T>(view, types)
                &&& value.is_value_of(view.data)
                &&& T::copied(view.data, before, after)
            },
            Err(_) => !selected::<T>(view, types) && *after == *before,
        }
    }

    fn try_convert(&self, view: AnyView, types: &TypeTable, heap: &mut ObjectHeap) -> Result<
        T,
        (),
    > {
        if T::match_any_exact() {
            if view.type_index() == T::match_any_exact_type_index() {
                Ok(T::copy_from_any_view_after_check(&view.data, heap))
            } else {
                Err(())
            }
        } else {
            T::try_cast_from_any_view(&view.data, types, heap)
        }
    }
}

/// A value of an object reference type is converted exactly if it is selected,
/// and is then the object of the view with one new strong reference to it.
pub proof fn law_converted_object_is_shared<T: ObjectRefAny>(
    view: AnyView,
    types: &TypeTable,
    before: &ObjectHeap,
    after: &ObjectHeap,
    result: Result<T, ()>,
)
    requires
        <PatternConversionProbe<T> as PatternConversion<T>>::converted(
            view,
            types,
            before,
            after,
            result,
        ),
    ensures
        T::exact() ==> (result is Ok <==> view.data.type_index == T::exact_index()),
        !T::exact() ==> (result is Ok <==> T::castable(view.data, types)),
        match result {
            Ok(value) => {
                &&& value.address() == view.data.v_obj
                &&& acquired(before, after, view.data.v_obj)
            },
            Err(_) => *after == *before,
        },
{
    if let Ok(value) = result {
        law_copy_shares_the_object(value, view.data, before, after);
    }
}

/// Types that say themselves how they are converted from a viewed value.
impl<T> PatternConversion<T> for &PatternConversionProbe<T> where AnyView: TryInto<T> {
    open spec fn convertible(view: AnyView, types: &TypeTable, heap: &ObjectHeap) -> bool {
        call_requires(<AnyView as TryInto<T>>::try_into, (view,))
    }

    open spec fn converted(
        view: AnyView,
        types: &TypeTable,
        before: &ObjectHeap,
        after: &ObjectHeap,
        result: Result<T, ()>,
    ) -> bool {
        &&& *after == *before
        &&& exists|own: Result<T, <AnyView as TryInto<T>>::Error>| #[trigger]
            call_ensures(<AnyView as TryInto<T>>::try_into, (view,), own) && match own {
                Ok(value) => result == Ok::<T, ()>(value),
                Err(_) => result is Err,
            }
    }

    fn try_convert(&self, view: AnyView, types: &TypeTable, heap: &mut ObjectHeap) -> Result<
        T,
        (),
    > {
        let own: Result<T, <AnyView as TryInto<T>>::Error> = view.try_into();
        match own {
            Ok(value) => Ok(value),
            Err(_) => Err(()),
        }
    }
}

/// An arm for a type of object references takes every object of that type or of one
/// that derives from it, unless the type has no descendants and its index decides.
pub proof fn law_arm_takes_every_instance<T: ObjectRefByType>(
    view: AnyView,
    types: &TypeTable,
    before: &ObjectHeap,
    after: &ObjectHeap,
    result: Result<T, ()>,
)
    requires
        types.well_formed(),
        types.is_tree(),
        !T::exact(),
        <PatternConversionProbe<T> as PatternConversion<T>>::converted(
            view,
            types,
            before,
            after,
            result,
        ),
    ensures
        result is Ok <==> is_or_inherits(types, view.data.type_index, T::ContainerType::index()),
{
    T::decided_by_type(view.data, types);
}

} // verus!
