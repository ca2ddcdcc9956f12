//! Types whose values can be held as dynamically typed values.

use crate::any::TVMFFIAny;
use crate::object::heap::ObjectHeap;
use crate::type_index::{K_TVM_FFI_BOOL, K_TVM_FFI_INT, K_TVM_FFI_NONE};
use crate::type_table::TypeTable;
use vstd::prelude::*;

verus! {

/// The text by which a value of the wrong type is described: the key of its
/// type.
pub open spec fn type_key_of(types: &TypeTable, type_index: i32) -> Seq<char> {
    match types.info(type_index) {
        Some(info) => info.type_key@,
        None => Seq::empty(),
    }
}

/// The key of a type; empty if it is not registered.
pub fn type_key(types: &TypeTable, type_index: i32) -> (key: String)
    ensures
        key@ == type_key_of(types, type_index),
{
    match types.get(type_index) {
        Some(info) => info.type_key.clone(),
        None => String::new(),
    }
}

/// A type whose values can be held as dynamically typed values.
pub trait AnyCompatible: Sized {
    /// Whether the type index alone decides if a value is of this type.
    spec fn exact() -> bool;

    /// The type index of every value of an exact type.
    spec fn exact_index() -> i32;

    spec fn name_of_type() -> Seq<char>;

    /// The value can be held: what it refers to exists.
    spec fn holdable(&self, heap: &ObjectHeap) -> bool;

    /// The value as it is held.
    spec fn held(&self, heap: &ObjectHeap) -> TVMFFIAny;

    /// The held value is one of this type.
    spec fn strict(data: TVMFFIAny, types: &TypeTable) -> bool;

    /// The held value can be converted to this type.
    spec fn castable(data: TVMFFIAny, types: &TypeTable) -> bool;

    /// The held value can be copied out: what it refers to can be shared.
    spec fn copyable(data: TVMFFIAny, heap: &ObjectHeap) -> bool;

    /// What copying a held value out does to reference counts.
    spec fn copied(data: TVMFFIAny, before: &ObjectHeap, after: &ObjectHeap) -> bool;

    /// The value is the one that is held.
    spec fn is_value_of(&self, data: TVMFFIAny) -> bool;

    /// How a held value of another type is described.
    spec fn mismatch(data: TVMFFIAny, types: &TypeTable) -> Seq<char>;

    fn match_any_exact() -> (exact: bool)
        ensures
            exact == Self::exact(),
    ;

    fn match_any_exact_type_index() -> (index: i32)
        ensures
            index == Self::exact_index(),
    ;

    fn type_str() -> (name: String)
        ensures
            name@ == Self::name_of_type(),
    ;

    /// A view that owns nothing.
    fn copy_to_any_view(src: &Self, heap: &ObjectHeap) -> (data: TVMFFIAny)
        requires
            heap.well_formed(),
            src.holdable(heap),
        ensures
            data == src.held(heap),
    ;

    /// A held value that owns what the value owned.
    fn move_to_any(src: Self, heap: &ObjectHeap) -> (data: TVMFFIAny)
        requires
            heap.well_formed(),
            src.holdable(heap),
        ensures
            data == src.held(heap),
    ;

    /// Whether a held value is of this type.
    fn check_any_strict(data: &TVMFFIAny, types: &TypeTable) -> (strict: bool)
        requires
            types.well_formed(),
        ensures
            strict == Self::strict(*data, types),
    ;

    /// Copies a held value that is of this type.
    fn copy_from_any_view_after_check(data: &TVMFFIAny, heap: &mut ObjectHeap) -> (value: Self)
        requires
            old(heap).well_formed(),
            Self::copyable(*data, old(heap)),
        ensures
            value.is_value_of(*data),
            Self::copied(*data, old(heap), final(heap)),
    ;

    /// Takes over a held value that is of this type.
    fn move_from_any_after_check(data: TVMFFIAny) -> (value: Self)
        ensures
            value.is_value_of(data),
    ;

    /// Whether a held value can be converted to this type.
    fn can_cast_from_any_view(data: &TVMFFIAny, types: &TypeTable) -> (castable: bool)
        requires
            types.well_formed(),
        ensures
            castable == Self::castable(*data, types),
    ;

    /// Converts a copy of a held value.
    fn try_cast_from_any_view(
        data: &TVMFFIAny,
        types: &TypeTable,
        heap: &mut ObjectHeap,
    ) -> (result: Result<Self, ()>)
        requires
            types.well_formed(),
            old(heap).well_formed(),
            Self::castable(*data, types) ==> Self::copyable(*data, old(heap)),
        ensures
            match result {
                Ok(value) => {
                    &&& Self::castable(*data, types)
                    &&& value.is_value_of(*data)
                    &&& Self::copied(*data, old(heap), final(heap))
                },
                Err(_) => !Self::castable(*data, types) && *final(heap) == *old(heap),
            },
    ;

    fn get_mismatch_type_info(data: &TVMFFIAny, types: &TypeTable) -> (text: String)
        ensures
            text@ == Self::mismatch(*data, types),
    ;
}

impl AnyCompatible for i64 {
    open spec fn exact() -> bool {
        false
    }

    open spec fn exact_index() -> i32 {
        K_TVM_FFI_INT
    }

    open spec fn name_of_type() -> Seq<char> {
        "int"@
    }

    open spec fn holdable(&self, heap: &ObjectHeap) -> bool {
        true
    }

    open spec fn held(&self, heap: &ObjectHeap) -> TVMFFIAny {
        TVMFFIAny::integer(K_TVM_FFI_INT, *self)
    }

    open spec fn strict(data: TVMFFIAny, types: &TypeTable) -> bool {
        data.type_index == K_TVM_FFI_INT
    }

    open spec fn castable(data: TVMFFIAny, types: &TypeTable) -> bool {
        data.type_index == K_TVM_FFI_INT || data.type_index == K_TVM_FFI_BOOL
    }

    open spec fn copyable(data: TVMFFIAny, heap: &ObjectHeap) -> bool {
        true
    }

    open spec fn copied(data: TVMFFIAny, before: &ObjectHeap, after: &ObjectHeap) -> bool {
        *after == *before
    }

    open spec fn is_value_of(&self, data: TVMFFIAny) -> bool {
        *self == data.v_int64
    }

    open spec fn mismatch(data: TVMFFIAny, types: &TypeTable) -> Seq<char> {
        type_key_of(types, data.type_index)
    }

    fn match_any_exact() -> bool {
        false
    }

    fn match_any_exact_type_index() -> i32 {
        K_TVM_FFI_INT
    }

    fn type_str() -> String {
        "int".to_owned()
    }

    fn copy_to_any_view(src: &Self, heap: &ObjectHeap) -> TVMFFIAny {
        TVMFFIAny::from_int(K_TVM_FFI_INT, *src)
    }

    fn move_to_any(src: Self, heap: &ObjectHeap) -> TVMFFIAny {
        TVMFFIAny::from_int(K_TVM_FFI_INT, src)
    }

    fn check_any_strict(data: &TVMFFIAny, types: &TypeTable) -> bool {
        data.type_index == K_TVM_FFI_INT
    }

    fn copy_from_any_view_after_check(data: &TVMFFIAny, heap: &mut ObjectHeap) -> Self {
        data.v_int64
    }

    fn move_from_any_after_check(data: TVMFFIAny) -> Self {
        data.v_int64
    }

    fn can_cast_from_any_view(data: &TVMFFIAny, types: &TypeTable) -> bool {
        data.type_index == K_TVM_FFI_INT || data.type_index == K_TVM_FFI_BOOL
    }

    fn try_cast_from_any_view(
        data: &TVMFFIAny,
        types: &TypeTable,
        heap: &mut ObjectHeap,
    ) -> Result<Self, ()> {
        if data.type_index == K_TVM_FFI_INT || data.type_index == K_TVM_FFI_BOOL {
            Ok(data.v_int64)
        } else {
            Err(())
        }
    }

    fn get_mismatch_type_info(data: &TVMFFIAny, types: &TypeTable) -> String {
        type_key(types, data.type_index)
    }
}

impl AnyCompatible for i32 {
    open spec fn exact() -> bool {
        false
    }

    open spec fn exact_index() -> i32 {
        K_TVM_FFI_INT
    }

    open spec fn name_of_type() -> Seq<char> {
        "int"@
    }

    open spec fn holdable(&self, heap: &ObjectHeap) -> bool {
        true
    }

    open spec fn held(&self, heap: &ObjectHeap) -> TVMFFIAny {
        TVMFFIAny::integer(K_TVM_FFI_INT, *self as i64)
    }

    open spec fn strict(data: TVMFFIAny, types: &TypeTable) -> bool {
        data.type_index == K_TVM_FFI_INT
    }

    open spec fn castable(data: TVMFFIAny, types: &TypeTable) -> bool {
        data.type_index == K_TVM_FFI_INT || data.type_index == K_TVM_FFI_BOOL
    }

    open spec fn copyable(data: TVMFFIAny, heap: &ObjectHeap) -> bool {
        true
    }

    open spec fn copied(data: TVMFFIAny, before: &ObjectHeap, after: &ObjectHeap) -> bool {
        *after == *before
    }

    open spec fn is_value_of(&self, data: TVMFFIAny) -> bool {
        *self == data.v_int64 as i32
    }

    open spec fn mismatch(data: TVMFFIAny, types: &TypeTable) -> Seq<char> {
        type_key_of(types, data.type_index)
    }

    fn match_any_exact() -> bool {
        false
    }

    fn match_any_exact_type_index() -> i32 {
        K_TVM_FFI_INT
    }

    fn type_str() -> String {
        "int".to_owned()
    }

    fn copy_to_any_view(src: &Self, heap: &ObjectHeap) -> TVMFFIAny {
        TVMFFIAny::from_int(K_TVM_FFI_INT, *src as i64)
    }

    fn move_to_any(src: Self, heap: &ObjectHeap) -> TVMFFIAny {
        TVMFFIAny::from_int(K_TVM_FFI_INT, src as i64)
    }

    fn check_any_strict(data: &TVMFFIAny, types: &TypeTable) -> bool {
        data.type_index == K_TVM_FFI_INT
    }

    fn copy_from_any_view_after_check(data: &TVMFFIAny, heap: &mut ObjectHeap) -> Self {
        data.v_int64 as i32
    }

    fn move_from_any_after_check(data: TVMFFIAny) -> Self {
        data.v_int64 as i32
    }

    fn can_cast_from_any_view(data: &TVMFFIAny, types: &TypeTable) -> bool {
        data.type_index == K_TVM_FFI_INT || data.type_index == K_TVM_FFI_BOOL
    }

    fn try_cast_from_any_view(
        data: &TVMFFIAny,
        types: &TypeTable,
        heap: &mut ObjectHeap,
    ) -> Result<Self, ()> {
        if data.type_index == K_TVM_FFI_INT || data.type_index == K_TVM_FFI_BOOL {
            Ok(data.v_int64 as i32)
        } else {
            Err(())
        }
    }

    fn get_mismatch_type_info(data: &TVMFFIAny, types: &TypeTable) -> String {
        type_key(types, data.type_index)
    }
}

impl AnyCompatible for bool {
    open spec fn exact() -> bool {
        false
    }

    open spec fn exact_index() -> i32 {
        K_TVM_FFI_BOOL
    }

    open spec fn name_of_type() -> Seq<char> {
        "bool"@
    }

    open spec fn holdable(&self, heap: &ObjectHeap) -> bool {
        true
    }

    open spec fn held(&self, heap: &ObjectHeap) -> TVMFFIAny {
        TVMFFIAny::integer(K_TVM_FFI_BOOL, if *self { 1 } else { 0 })
    }

    open spec fn strict(data: TVMFFIAny, types: &TypeTable) -> bool {
        data.type_index == K_TVM_FFI_BOOL
    }

    open spec fn castable(data: TVMFFIAny, types: &TypeTable) -> bool {
        data.type_index == K_TVM_FFI_INT || data.type_index == K_TVM_FFI_BOOL
    }

    open spec fn copyable(data: TVMFFIAny, heap: &ObjectHeap) -> bool {
        true
    }

    open spec fn copied(data: TVMFFIAny, before: &ObjectHeap, after: &ObjectHeap) -> bool {
        *after == *before
    }

    open spec fn is_value_of(&self, data: TVMFFIAny) -> bool {
        *self == (data.v_int64 != 0)
    }

    open spec fn mismatch(data: TVMFFIAny, types: &TypeTable) -> Seq<char> {
        type_key_of(types, data.type_index)
    }

    fn match_any_exact() -> bool {
        false
    }

    fn match_any_exact_type_index() -> i32 {
        K_TVM_FFI_BOOL
    }

    fn type_str() -> String {
        "bool".to_owned()
    }

    fn copy_to_any_view(src: &Self, heap: &ObjectHeap) -> TVMFFIAny {
        TVMFFIAny::from_int(K_TVM_FFI_BOOL, if *src { 1 } else { 0 })
    }

    fn move_to_any(src: Self, heap: &ObjectHeap) -> TVMFFIAny {
        TVMFFIAny::from_int(K_TVM_FFI_BOOL, if src { 1 } else { 0 })
    }

    fn check_any_strict(data: &TVMFFIAny, types: &TypeTable) -> bool {
        data.type_index == K_TVM_FFI_BOOL
    }

    fn copy_from_any_view_after_check(data: &TVMFFIAny, heap: &mut ObjectHeap) -> Self {
        data.v_int64 != 0
    }

    fn move_from_any_after_check(data: TVMFFIAny) -> Self {
        data.v_int64 != 0
    }

    fn can_cast_from_any_view(data: &TVMFFIAny, types: &TypeTable) -> bool {
        data.type_index == K_TVM_FFI_INT || data.type_index == K_TVM_FFI_BOOL
    }

    fn try_cast_from_any_view(
        data: &TVMFFIAny,
        types: &TypeTable,
        heap: &mut ObjectHeap,
    ) -> Result<Self, ()> {
        if data.type_index == K_TVM_FFI_INT || data.type_index == K_TVM_FFI_BOOL {
            Ok(data.v_int64 != 0)
        } else {
            Err(())
        }
    }

    fn get_mismatch_type_info(data: &TVMFFIAny, types: &TypeTable) -> String {
        type_key(types, data.type_index)
    }
}

/// The value of a function that returns nothing.
impl AnyCompatible for () {
    open spec fn exact() -> bool {
        false
    }

    open spec fn exact_index() -> i32 {
        K_TVM_FFI_NONE
    }

    open spec fn name_of_type() -> Seq<char> {
        "None"@
    }

    open spec fn holdable(&self, heap: &ObjectHeap) -> bool {
        true
    }

    open spec fn held(&self, heap: &ObjectHeap) -> TVMFFIAny {
        TVMFFIAny::none()
    }

    open spec fn strict(data: TVMFFIAny, types: &TypeTable) -> bool {
        data.type_index == K_TVM_FFI_NONE
    }

    open spec fn castable(data: TVMFFIAny, types: &TypeTable) -> bool {
        data.type_index == K_TVM_FFI_NONE
    }

    open spec fn copyable(data: TVMFFIAny, heap: &ObjectHeap) -> bool {
        true
    }

    open spec fn copied(data: TVMFFIAny, before: &ObjectHeap, after: &ObjectHeap) -> bool {
        *after == *before
    }

    open spec fn is_value_of(&self, data: TVMFFIAny) -> bool {
        true
    }

    open spec fn mismatch(data: TVMFFIAny, types: &TypeTable) -> Seq<char> {
        type_key_of(types, data.type_index)
    }

    fn match_any_exact() -> bool {
        false
    }

    fn match_any_exact_type_index() -> i32 {
        K_TVM_FFI_NONE
    }

    fn type_str() -> String {
        "None".to_owned()
    }

    fn copy_to_any_view(src: &Self, heap: &ObjectHeap) -> TVMFFIAny {
        TVMFFIAny::new()
    }

    fn move_to_any(src: Self, heap: &ObjectHeap) -> TVMFFIAny {
        TVMFFIAny::new()
    }

    fn check_any_strict(data: &TVMFFIAny, types: &TypeTable) -> bool {
        data.type_index == K_TVM_FFI_NONE
    }

    fn copy_from_any_view_after_check(data: &TVMFFIAny, heap: &mut ObjectHeap) -> Self {
        ()
    }

    fn move_from_any_after_check(data: TVMFFIAny) -> Self {
        ()
    }

    fn can_cast_from_any_view(data: &TVMFFIAny, types: &TypeTable) -> bool {
        data.type_index == K_TVM_FFI_NONE
    }

    fn try_cast_from_any_view(
        data: &TVMFFIAny,
        types: &TypeTable,
        heap: &mut ObjectHeap,
    ) -> Result<Self, ()> {
        if data.type_index == K_TVM_FFI_NONE {
            Ok(())
        } else {
            Err(())
        }
    }

    fn get_mismatch_type_info(data: &TVMFFIAny, types: &TypeTable) -> String {
        type_key(types, data.type_index)
    }
}

//-----------------------------------------------------
// Laws
//-----------------------------------------------------
/// An integer is held as one, and taken back as itself and as nothing else.
pub proof fn law_integer_is_taken_back(value: i64, heap: &ObjectHeap, types: &TypeTable)
    ensures
        i64::strict(value.held(heap), types),
        i64::castable(value.held(heap), types),
        !bool::strict(value.held(heap), types),
        forall|other: i64| #[trigger] other.is_value_of(value.held(heap)) <==> other == value,
        forall|truth: bool| #[trigger]
            truth.is_value_of(value.held(heap)) <==> truth == (value != 0),
{
}

/// A narrow integer is held as a wide one of the same value, and taken back as
/// itself. So is a wide integer that is not too large for it.
pub proof fn law_narrow_integer_is_taken_back(value: i32, heap: &ObjectHeap, types: &TypeTable)
    ensures
        i32::strict(value.held(heap), types),
        i32::castable(value.held(heap), types),
        value.held(heap) == (value as i64).held(heap),
        forall|other: i32| #[trigger] other.is_value_of(value.held(heap)) <==> other == value,
        forall|wide: i64| #[trigger] wide.is_value_of(value.held(heap)) <==> wide == value,
{
}

/// A truth value is held as one, and taken back as itself, or as one or nought where
/// an integer is asked for.
pub proof fn law_truth_is_taken_back(value: bool, heap: &ObjectHeap, types: &TypeTable)
    ensures
        bool::strict(value.held(heap), types),
        bool::castable(value.held(heap), types),
        i64::castable(value.held(heap), types),
        !i64::strict(value.held(heap), types),
        forall|other: bool| #[trigger] other.is_value_of(value.held(heap)) <==> other == value,
        forall|number: i64| #[trigger]
            number.is_value_of(value.held(heap)) <==> number == (if value {
                1int
            } else {
                0
            }),
{
}

/// Nothing is held as nothing, and neither a number nor a truth value is taken for
/// it.
pub proof fn law_nothing_is_taken_back(number: i64, truth: bool, heap: &ObjectHeap, types: &TypeTable)
    ensures
        <() as AnyCompatible>::strict(().held(heap), types),
        <() as AnyCompatible>::castable(().held(heap), types),
        !<() as AnyCompatible>::castable(number.held(heap), types),
        !<() as AnyCompatible>::castable(truth.held(heap), types),
        !i64::castable(().held(heap), types),
        !bool::castable(().held(heap), types),
{
}

/// What is of a type can be converted to it.
pub proof fn law_own_values_are_converted(data: TVMFFIAny, types: &TypeTable)
    ensures
        i64::strict(data, types) ==> i64::castable(data, types),
        i32::strict(data, types) ==> i32::castable(data, types),
        bool::strict(data, types) ==> bool::castable(data, types),
        <() as AnyCompatible>::strict(data, types) ==> <() as AnyCompatible>::castable(data, types),
{
}

/// A value of the wrong type is described by the key of its type.
pub proof fn law_values_are_described_by_their_type(types: &TypeTable, data: TVMFFIAny)
    ensures
        types.info(data.type_index) matches Some(info) ==> {
            &&& type_key_of(types, data.type_index) == info.type_key@
            &&& i64::mismatch(data, types) == info.type_key@
            &&& i32::mismatch(data, types) == info.type_key@
            &&& bool::mismatch(data, types) == info.type_key@
            &&& <() as AnyCompatible>::mismatch(data, types) == info.type_key@
        },
        types.info(data.type_index) is None ==> type_key_of(types, data.type_index).len() == 0,
{
}

/// Numbers and truth values are told apart by their type, and convert into each other
/// whatever their value. Nothing else converts into them.
pub proof fn law_scalars_are_told_by_their_type(data: TVMFFIAny, types: &TypeTable)
    ensures
        i64::strict(data, types) <==> data.type_index == K_TVM_FFI_INT,
        i32::strict(data, types) <==> data.type_index == K_TVM_FFI_INT,
        bool::strict(data, types) <==> data.type_index == K_TVM_FFI_BOOL,
        <() as AnyCompatible>::strict(data, types) <==> data.type_index == K_TVM_FFI_NONE,
        i64::castable(data, types) <==> data.type_index == K_TVM_FFI_INT || data.type_index
            == K_TVM_FFI_BOOL,
        i32::castable(data, types) <==> i64::castable(data, types),
        bool::castable(data, types) <==> i64::castable(data, types),
        <() as AnyCompatible>::castable(data, types) <==> data.type_index == K_TVM_FFI_NONE,
        forall|number: i64| #[trigger] number.is_value_of(data) <==> number == data.v_int64,
        forall|number: i32| #[trigger]
            number.is_value_of(data) <==> number == data.v_int64 as i32,
        forall|truth: bool| #[trigger]
            truth.is_value_of(data) <==> truth == (data.v_int64 != 0),
{
}

/// Copying a number or a truth value out costs nothing.
pub proof fn law_scalars_are_copied_for_free(
    data: TVMFFIAny,
    before: &ObjectHeap,
    after: &ObjectHeap,
)
    ensures
        i64::copied(data, before, after) <==> *after == *before,
        i32::copied(data, before, after) <==> *after == *before,
        bool::copied(data, before, after) <==> *after == *before,
        <() as AnyCompatible>::copied(data, before, after) <==> *after == *before,
        i64::copyable(data, before),
        i32::copyable(data, before),
        bool::copyable(data, before),
        <() as AnyCompatible>::copyable(data, before),
{
}

} // verus!
