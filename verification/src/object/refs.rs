//! References to objects, and conversions between them.

use crate::any::TVMFFIAny;
use crate::error::{error_view, Error, TYPE_ERROR};
use crate::object::arc::{acquired, ObjectArc};
use crate::object::heap::{given_up, ObjectHeap};
use crate::object::reflection::is_or_inherits;
use crate::object::unsafe_::{inc_ref, law_release_undoes_acquire};
use crate::object::{Object, ObjectCore};
use crate::type_index::{K_TVM_FFI_NONE, K_TVM_FFI_STATIC_OBJECT_BEGIN};
use crate::type_table::{is_instance_of, law_instance_of_is_ancestry, TypeTable};
use crate::type_traits::{type_key, type_key_of, AnyCompatible};
use vstd::prelude::*;

verus! {

/// Core operations of a type of object references.
///
/// Taking the handle out and putting it back in preserves the object and its
/// ownership.
pub trait ObjectRefCore: Sized {
    type ContainerType: ObjectCore;

    /// The address of the object; zero for null.
    spec fn address(&self) -> usize;

    fn data(this: &Self) -> (data: &ObjectArc<Self::ContainerType>)
        ensures
            data.ptr == this.address(),
    ;

    fn into_data(this: Self) -> (data: ObjectArc<Self::ContainerType>)
        ensures
            data.ptr == this.address(),
    ;

    fn from_data(data: ObjectArc<Self::ContainerType>) -> (this: Self)
        ensures
            this.address() == data.ptr,
    ;

    /// Whether this handle contains an object.
    fn is_defined(&self) -> (defined: bool)
        ensures
            defined == (self.address() != 0),
    {
        !ObjectArc::is_null(Self::data(self))
    }

    /// Whether this handle is the null reference.
    fn is_null(&self) -> (null: bool)
        ensures
            null == (self.address() == 0),
    {
        ObjectArc::is_null(Self::data(self))
    }

    /// Takes one more reference to the object.
    fn share(&self, heap: &mut ObjectHeap) -> (other: Self)
        requires
            old(heap).well_formed(),
            self.address() != 0 ==> old(heap).shareable(self.address()),
        ensures
            other.address() == self.address(),
            acquired(old(heap), final(heap), self.address()),
    {
        Self::from_data(ObjectArc::clone(Self::data(self), heap))
    }
}

/// Identity of the objects that references point to.
pub trait ObjectRefIdentity: ObjectRefCore {
    /// Whether two references point to the same object.
    fn same_as<O: ObjectRefCore>(&self, other: &O) -> (same: bool)
        ensures
            same == (self.address() == other.address()),
    ;
}

impl<T: ObjectRefCore> ObjectRefIdentity for T {
    fn same_as<O: ObjectRefCore>(&self, other: &O) -> bool {
        ObjectArc::ptr_eq(Self::data(self), O::data(other))
    }
}

//-----------------------------------------------------
// References as dynamically typed values
//-----------------------------------------------------
/// A reference as it is held: none for null, else the object under its runtime
/// type.
pub open spec fn held_object(address: usize, heap: &ObjectHeap) -> TVMFFIAny {
    if address == 0 {
        TVMFFIAny::none()
    } else {
        TVMFFIAny::object(heap.headers()[address].type_index, address)
    }
}

/// The object that a reference points to exists.
pub open spec fn object_exists(address: usize, heap: &ObjectHeap) -> bool {
    address != 0 ==> heap.headers().dom().contains(address)
}

/// Holds a reference.
pub fn hold_object(address: usize, heap: &ObjectHeap) -> (data: TVMFFIAny)
    requires
        heap.well_formed(),
        object_exists(address, heap),
    ensures
        data == held_object(address, heap),
{
    if address == 0 {
        return TVMFFIAny::new();
    }
    match heap.header(address) {
        Some(header) => TVMFFIAny::from_object(header.type_index, address),
        None => vstd::pervasive::unreached(),
    }
}

/// Counts one more reference to a held object.
pub fn share_held(data: &TVMFFIAny, heap: &mut ObjectHeap)
    requires
        old(heap).well_formed(),
        old(heap).shareable(data.v_obj),
        data.v_obj != 0,
    ensures
        acquired(old(heap), final(heap), data.v_obj),
{
    if let Some(mut header) = heap.header(data.v_obj) {
        inc_ref(&mut header);
        heap.set_header(data.v_obj, header);
    }
}

/// Object references that are held as the object they point to, and so keep it
/// when they are held and taken back.
pub trait ObjectRefAny: ObjectRefCore + AnyCompatible {
    proof fn held_as_object(&self, heap: &ObjectHeap)
        ensures
            self.holdable(heap) == object_exists(self.address(), heap),
            self.held(heap) == held_object(self.address(), heap),
    ;

    proof fn taken_as_object(&self, data: TVMFFIAny)
        requires
            self.is_value_of(data),
        ensures
            self.address() == data.v_obj,
    ;

    proof fn copied_as_object(data: TVMFFIAny, before: &ObjectHeap, after: &ObjectHeap)
        ensures
            Self::copied(data, before, after) == acquired(before, after, data.v_obj),
    ;
}

/// A copy out of a held value is one new strong reference to the object that is
/// held, for every type of object references.
pub proof fn law_copy_shares_the_object<T: ObjectRefAny>(
    value: T,
    data: TVMFFIAny,
    before: &ObjectHeap,
    after: &ObjectHeap,
)
    requires
        value.is_value_of(data),
        T::copied(data, before, after),
    ensures
        value.address() == data.v_obj,
        acquired(before, after, data.v_obj),
{
    value.taken_as_object(data);
    T::copied_as_object(data, before, after);
}

/// Giving up a reference right after it was taken leaves everything as it was,
/// and deletes nothing.
pub proof fn law_giving_up_undoes_sharing(
    before: &ObjectHeap,
    shared: &ObjectHeap,
    after: &ObjectHeap,
    address: usize,
)
    requires
        address != 0 ==> before.shareable(address),
        acquired(before, shared, address),
        given_up(shared, after, address),
    ensures
        after.headers() == before.headers(),
        after.layouts() == before.layouts(),
        after.pending() == before.pending(),
        after.room() == before.room(),
{
    if address != 0 {
        law_release_undoes_acquire(before.headers()[address].combined_ref_count);
        assert(after.headers() =~= before.headers());
        assert(after.pending() =~= before.pending());
    }
}

/// The root of all object references.
pub struct ObjectRef {
    pub data: ObjectArc<Object>,
}

impl ObjectRefCore for ObjectRef {
    type ContainerType = Object;

    open spec fn address(&self) -> usize {
        self.data.ptr
    }

    fn data(this: &Self) -> &ObjectArc<Self::ContainerType> {
        &this.data
    }

    fn into_data(this: Self) -> ObjectArc<Self::ContainerType> {
        this.data
    }

    fn from_data(data: ObjectArc<Self::ContainerType>) -> Self {
        ObjectRef { data }
    }
}

impl AnyCompatible for ObjectRef {
    open spec fn exact() -> bool {
        Object::is_final() && Object::index_is_static()
    }

    open spec fn exact_index() -> i32 {
        Object::index()
    }

    open spec fn name_of_type() -> Seq<char> {
        Object::key()
    }

    open spec fn holdable(&self, heap: &ObjectHeap) -> bool {
        object_exists(self.data.ptr, heap)
    }

    open spec fn held(&self, heap: &ObjectHeap) -> TVMFFIAny {
        held_object(self.data.ptr, heap)
    }

    open spec fn strict(data: TVMFFIAny, types: &TypeTable) -> bool {
        types.instance_of(data.type_index, Object::index())
    }

    open spec fn castable(data: TVMFFIAny, types: &TypeTable) -> bool {
        types.instance_of(data.type_index, Object::index())
    }

    open spec fn copyable(data: TVMFFIAny, heap: &ObjectHeap) -> bool {
        data.v_obj != 0 && heap.shareable(data.v_obj)
    }

    open spec fn copied(data: TVMFFIAny, before: &ObjectHeap, after: &ObjectHeap) -> bool {
        acquired(before, after, data.v_obj)
    }

    open spec fn is_value_of(&self, data: TVMFFIAny) -> bool {
        self.data.ptr == data.v_obj
    }

    open spec fn mismatch(data: TVMFFIAny, types: &TypeTable) -> Seq<char> {
        type_key_of(types, data.type_index)
    }

    fn match_any_exact() -> bool {
        Object::type_final() && Object::type_index_static()
    }

    fn match_any_exact_type_index() -> i32 {
        Object::type_index()
    }

    fn type_str() -> String {
        Object::type_key().to_owned()
    }

    fn copy_to_any_view(src: &Self, heap: &ObjectHeap) -> TVMFFIAny {
        hold_object(ObjectArc::as_raw(&src.data), heap)
    }

    fn move_to_any(src: Self, heap: &ObjectHeap) -> TVMFFIAny {
        hold_object(ObjectArc::into_raw(src.data), heap)
    }

    fn check_any_strict(data: &TVMFFIAny, types: &TypeTable) -> bool {
        is_instance_of::<Object>(types, data.type_index)
    }

    fn copy_from_any_view_after_check(data: &TVMFFIAny, heap: &mut ObjectHeap) -> Self {
        // The view does not own the object.
        share_held(data, heap);
        ObjectRef { data: ObjectArc::from_raw(data.v_obj) }
    }

    fn move_from_any_after_check(data: TVMFFIAny) -> Self {
        ObjectRef { data: ObjectArc::from_raw(data.v_obj) }
    }

    fn can_cast_from_any_view(data: &TVMFFIAny, types: &TypeTable) -> bool {
        is_instance_of::<Object>(types, data.type_index)
    }

    fn try_cast_from_any_view(
        data: &TVMFFIAny,
        types: &TypeTable,
        heap: &mut ObjectHeap,
    ) -> Result<Self, ()> {
        if is_instance_of::<Object>(types, data.type_index) {
            Ok(Self::copy_from_any_view_after_check(data, heap))
        } else {
            Err(())
        }
    }

    fn get_mismatch_type_info(data: &TVMFFIAny, types: &TypeTable) -> String {
        type_key(types, data.type_index)
    }
}

impl ObjectRefAny for ObjectRef {
    proof fn held_as_object(&self, heap: &ObjectHeap) {
    }

    proof fn taken_as_object(&self, data: TVMFFIAny) {
    }

    proof fn copied_as_object(data: TVMFFIAny, before: &ObjectHeap, after: &ObjectHeap) {
    }
}

//-----------------------------------------------------
// Casts
//-----------------------------------------------------
/// The message of a failed conversion.
pub open spec fn conversion_message(from: Seq<char>, to: Seq<char>) -> Seq<char> {
    "Cannot convert from type `"@ + from + "` to `"@ + to + "`"@
}

pub fn format_conversion(from: &str, to: &str) -> (text: String)
    ensures
        text@ == conversion_message(from@, to@),
{
    let mut text: String = "Cannot convert from type `".to_owned();
    text.append(from);
    text.append("` to `");
    text.append(to);
    text.append("`");
    text
}

/// What a cast of the reference at `address` to `B` returns and does.
pub open spec fn cast_effect<B: ObjectRefAny>(
    types: &TypeTable,
    heap: (&ObjectHeap, &ObjectHeap),
    address: usize,
    result: Result<B, Error>,
) -> bool {
    let held = held_object(address, heap.0);
    if B::strict(held, types) {
        // The reference moves, without copying.
        &&& result matches Ok(value) && value.is_value_of(held) && value.address() == address
        &&& *heap.1 == *heap.0
    } else {
        // The reference is given up.
        &&& result matches Err(error) && error@ == error_view(
            TYPE_ERROR,
            conversion_message(B::mismatch(held, types), B::name_of_type()),
        )
        &&& given_up(heap.0, heap.1, address)
    }
}

/// Runtime checked casts between object references.
pub trait ObjectRefCast: ObjectRefAny {
    /// Takes one more reference, and casts that.
    fn downcast<B: ObjectRefAny>(&self, types: &TypeTable, heap: &mut ObjectHeap) -> (result: Result<
        B,
        Error,
    >)
        requires
            types.well_formed(),
            old(heap).well_formed(),
            self.address() != 0 ==> old(heap).shareable(self.address()),
        ensures
            exists|shared: ObjectHeap|
                {
                    &&& #[trigger] acquired(old(heap), &shared, self.address())
                    &&& cast_effect(types, (&shared, final(heap)), self.address(), result)
                },
    ;

    /// Rewraps the object as `B` without copying.
    fn try_cast<B: ObjectRefAny>(self, types: &TypeTable, heap: &mut ObjectHeap) -> (result: Result<
        B,
        Error,
    >)
        requires
            types.well_formed(),
            old(heap).well_formed(),
            self.address() != 0 ==> old(heap).alive(self.address()),
        ensures
            cast_effect(types, (old(heap), final(heap)), self.address(), result),
    ;
}

impl<T: ObjectRefAny> ObjectRefCast for T {
    fn downcast<B: ObjectRefAny>(&self, types: &TypeTable, heap: &mut ObjectHeap) -> Result<
        B,
        Error,
    > {
        let other: Self = self.share(heap);
        proof {
            if self.address() != 0 {
                lemma_acquired_alive(old(heap), heap, self.address());
            }
        }
        other.try_cast(types, heap)
    }

    fn try_cast<B: ObjectRefAny>(self, types: &TypeTable, heap: &mut ObjectHeap) -> Result<
        B,
        Error,
    > {
        proof {
            self.held_as_object(heap);
        }
        // Ownership stays here while the target is checked.
        let view: TVMFFIAny = Self::copy_to_any_view(&self, heap);
        if B::check_any_strict(&view, types) {
            let data: TVMFFIAny = Self::move_to_any(self, heap);
            let value: B = B::move_from_any_after_check(data);
            proof {
                value.taken_as_object(data);
            }
            Ok(value)
        } else {
            let from: String = B::get_mismatch_type_info(&view, types);
            let to: String = B::type_str();
            let message: String = format_conversion(from.as_str(), to.as_str());
            heap.release(ObjectArc::into_raw(Self::into_data(self)));
            Err(Error::from_message(TYPE_ERROR, message))
        }
    }
}

proof fn lemma_acquired_alive(before: &ObjectHeap, after: &ObjectHeap, address: usize)
    requires
        address != 0,
        before.shareable(address),
        acquired(before, after, address),
    ensures
        after.alive(address),
{
    let count = before.headers()[address].combined_ref_count;
    crate::object::unsafe_::lemma_counts(count);
}

//-----------------------------------------------------
// Casts and the hierarchy
//-----------------------------------------------------
/// Object references for which nothing counts but the runtime type of the object: it
/// is that of the container, or one that derives from it.
pub trait ObjectRefByType: ObjectRefAny {
    proof fn decided_by_type(data: TVMFFIAny, types: &TypeTable)
        requires
            types.well_formed(),
            types.is_tree(),
        ensures
            Self::ContainerType::index() >= K_TVM_FFI_STATIC_OBJECT_BEGIN,
            Self::strict(data, types) <==> is_or_inherits(
                types,
                data.type_index,
                Self::ContainerType::index(),
            ),
            Self::castable(data, types) <==> Self::strict(data, types),
            Self::name_of_type() == Self::ContainerType::key(),
            Self::exact() <==> Self::ContainerType::is_final()
                && Self::ContainerType::index_is_static(),
            Self::exact_index() == Self::ContainerType::index(),
    ;
}

impl ObjectRefByType for ObjectRef {
    proof fn decided_by_type(data: TVMFFIAny, types: &TypeTable) {
        lemma_instance_of(data.type_index, Object::index(), types);
    }
}

pub(crate) proof fn lemma_instance_of(type_index: i32, target: i32, types: &TypeTable)
    requires
        types.well_formed(),
        types.is_tree(),
    ensures
        types.instance_of(type_index, target) <==> is_or_inherits(types, type_index, target),
{
    if types.info(type_index) is Some {
        law_instance_of_is_ancestry(types, type_index, target);
    }
}

/// A cast succeeds exactly for an object whose type is that of the target or derives
/// from it. It then keeps the object and its one reference; otherwise the reference is
/// given up.
pub proof fn law_cast_follows_the_hierarchy<B: ObjectRefByType>(
    types: &TypeTable,
    before: &ObjectHeap,
    after: &ObjectHeap,
    address: usize,
    result: Result<B, Error>,
)
    requires
        types.well_formed(),
        types.is_tree(),
        cast_effect(types, (before, after), address, result),
    ensures
        result is Ok <==> address != 0 && is_or_inherits(
            types,
            before.headers()[address].type_index,
            B::ContainerType::index(),
        ),
        result matches Ok(value) ==> value.address() == address && *after == *before,
        result matches Err(error) ==> error@.kind == TYPE_ERROR && given_up(before, after, address),
{
    let held = held_object(address, before);
    B::decided_by_type(held, types);
    if address == 0 {
        lemma_instance_of(K_TVM_FFI_NONE, B::ContainerType::index(), types);
    }
}

/// A reference is held as its own object, under the runtime type of that object, and
/// taken back as a reference to it.
pub proof fn law_held_reference_is_taken_back<T: ObjectRefAny, U: ObjectRefAny>(
    value: T,
    other: U,
    heap: &ObjectHeap,
)
    requires
        other.is_value_of(value.held(heap)),
    ensures
        other.address() == value.address(),
        value.address() != 0 ==> value.held(heap).type_index
            == heap.headers()[value.address()].type_index,
        value.address() == 0 ==> value.held(heap).type_index == K_TVM_FFI_NONE,
{
    value.held_as_object(heap);
    other.taken_as_object(value.held(heap));
}

} // verus!
