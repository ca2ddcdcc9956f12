//! Reference counted objects.

pub mod arc;
pub mod deleter;
pub mod heap;
pub mod reflection;
pub mod refs;
pub mod unsafe_;

use crate::type_index::K_TVM_FFI_STATIC_OBJECT_BEGIN;
use vstd::prelude::*;

verus! {

/// A type of objects, as the type table knows it.
///
/// The specification has defaults, so that code that is not verified can leave
/// it out.
pub trait ObjectCore: Sized {
    open spec fn key() -> Seq<char> {
        Seq::empty()
    }

    open spec fn depth() -> i32 {
        0
    }

    open spec fn is_final() -> bool {
        false
    }

    open spec fn index_is_static() -> bool {
        false
    }

    open spec fn index() -> i32 {
        K_TVM_FFI_STATIC_OBJECT_BEGIN
    }

    /// The type key of the object.
    fn type_key() -> (key: &'static str)
        ensures
            key@ == Self::key(),
    ;

    /// Depth of this type in the inheritance tree. The root has depth zero.
    fn type_depth() -> (depth: i32)
        ensures
            depth == Self::depth(),
    ;

    /// Whether every instance of this type has exactly its type index.
    fn type_final() -> (is_final: bool)
        ensures
            is_final == Self::is_final(),
    ;

    /// Whether the type index is fixed when the program is built.
    fn type_index_static() -> (is_static: bool)
        ensures
            is_static == Self::index_is_static(),
    ;

    /// The type index of the object.
    fn type_index() -> (index: i32)
        ensures
            index == Self::index(),
    ;
}

/// Objects with extra items that follow the object in memory.
///
/// The specification has defaults, so that code that is not verified can leave
/// it out.
pub trait ObjectCoreWithExtraItems: ObjectCore {
    /// Type of the items that follow the object.
    type ExtraItem;

    /// The object says how many items follow it.
    open spec fn countable(&self) -> bool {
        true
    }

    open spec fn item_count(&self) -> usize {
        0
    }

    /// The number of extra items.
    fn extra_items_count(this: &Self) -> (count: usize)
        requires
            this.countable(),
        ensures
            count == this.item_count(),
    ;
}

/// The root of the object hierarchy, with which every object begins: the room
/// that its header takes. The header itself is in the care of the heap.
#[derive(Clone, Copy, PartialEq, Eq, Structural, Debug)]
pub struct Object {
    count_room: u64,
    type_index_room: u64,
    deleter_room: u64,
}

impl Object {
    /// Room for a header.
    pub closed spec fn room() -> Object {
        Object { count_room: 0, type_index_room: 0, deleter_room: 0 }
    }

    pub fn new() -> (object: Object)
        ensures
            object == Object::room(),
    {
        Object { count_room: 0, type_index_room: 0, deleter_room: 0 }
    }
}

impl ObjectCore for Object {
    open spec fn key() -> Seq<char> {
        "ffi.Object"@
    }

    open spec fn depth() -> i32 {
        0
    }

    open spec fn is_final() -> bool {
        false
    }

    open spec fn index_is_static() -> bool {
        true
    }

    open spec fn index() -> i32 {
        K_TVM_FFI_STATIC_OBJECT_BEGIN
    }

    fn type_key() -> &'static str {
        "ffi.Object"
    }

    fn type_depth() -> i32 {
        0
    }

    fn type_final() -> bool {
        false
    }

    fn type_index_static() -> bool {
        true
    }

    fn type_index() -> i32 {
        K_TVM_FFI_STATIC_OBJECT_BEGIN
    }
}

} // verus!
