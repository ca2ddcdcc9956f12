//! Reading the reflected fields of objects.

use crate::any::{Any, TVMFFIAny};
use crate::error::{
    error_view, Error, ErrorKind, ErrorView, ATTRIBUTE_ERROR, RUNTIME_ERROR,
    TYPE_ERROR, VALUE_ERROR,
};
use crate::object::arc::ObjectArc;
use crate::object::heap::{given_up, ObjectHeap};
use crate::object::refs::{
    conversion_message, format_conversion, ObjectRefByType, ObjectRefCore,
};
use crate::object::ObjectCore;
use crate::text::{decimal, push_signed, same_text};
use crate::type_index::{K_TVM_FFI_BOOL, K_TVM_FFI_INT, K_TVM_FFI_STATIC_OBJECT_BEGIN};
use crate::type_table::{
    is_instance_of_index, law_instance_of_is_ancestry, FieldInfo, TypeInfo, TypeTable,
};
use crate::type_traits::AnyCompatible;
use vstd::prelude::*;

verus! {

/// The first field of that name.
pub open spec fn first_field(fields: Seq<FieldInfo>, name: Seq<char>) -> Option<FieldInfo>
    decreases fields.len(),
{
    if fields.len() == 0 {
        None
    } else if fields[0].name@ == name {
        Some(fields[0])
    } else {
        first_field(fields.drop_first(), name)
    }
}

/// The message about a reflected field.
pub open spec fn field_message(name: Seq<char>, what: Seq<char>) -> Seq<char> {
    "reflected field `"@ + name + "` "@ + what
}

pub open spec fn undefined_object_message(name: Seq<char>) -> Seq<char> {
    "cannot read field `"@ + name + "` from an undefined object"@
}

pub open spec fn not_an_instance_message(type_index: i32, owner: i32) -> Seq<char> {
    "runtime object type_index `"@ + decimal(type_index as int)
        + "` is not an instance of field owner `"@ + decimal(owner as int) + "`"@
}

pub open spec fn no_owner_info_message(owner: i32) -> Seq<char> {
    "no type info for field owner type_index `"@ + decimal(owner as int) + "`"@
}

pub open spec fn unregistered_field_message(name: Seq<char>, key: Seq<char>) -> Seq<char> {
    "field `"@ + name + "` is not registered on type `"@ + key + "`"@
}

/// What is wrong with a field, whatever object it is read from.
pub open spec fn field_defect(info: TypeInfo, field: FieldInfo) -> Option<ErrorView> {
    let name = field.name@;
    if field.getter is None {
        Some(error_view(RUNTIME_ERROR, field_message(name, "has no getter"@)))
    } else if field.offset < 0 || field.size < 0 || field.alignment <= 0 || field.offset as int
        % field.alignment as int != 0 {
        Some(error_view(RUNTIME_ERROR, field_message(name, "has an invalid layout"@)))
    } else if info.total_size matches Some(total) && total > 0 && field.offset + field.size
        > total {
        Some(error_view(RUNTIME_ERROR, field_message(name, "extends beyond its owner object"@)))
    } else {
        None
    }
}

/// The getter of a field and the address it reads, for an object at `address`.
pub open spec fn field_place(info: TypeInfo, field: FieldInfo, address: usize) -> Result<
    (usize, usize),
    ErrorView,
> {
    match field_defect(info, field) {
        Some(error) => Err(error),
        None => if (address + field.offset) % field.alignment as int != 0 {
            Err(
                error_view(
                    RUNTIME_ERROR,
                    field_message(field.name@, "is not correctly aligned"@),
                ),
            )
        } else {
            Ok((field.getter->0, (address + field.offset) as usize))
        },
    }
}

/// The getter to call, and the address to call it on, to read a field of the
/// object at `address`.
pub open spec fn located_field(
    heap: &ObjectHeap,
    types: &TypeTable,
    address: usize,
    owner: i32,
    name: Seq<char>,
) -> Result<(usize, usize), ErrorView> {
    if address == 0 {
        Err(error_view(VALUE_ERROR, undefined_object_message(name)))
    } else {
        let type_index = heap.headers()[address].type_index;
        if !types.instance_of(type_index, owner) {
            Err(error_view(TYPE_ERROR, not_an_instance_message(type_index, owner)))
        } else {
            match types.info(owner) {
                None => Err(error_view(TYPE_ERROR, no_owner_info_message(owner))),
                Some(info) => match first_field(info.fields@, name) {
                    None => Err(
                        error_view(
                            ATTRIBUTE_ERROR,
                            unregistered_field_message(name, info.type_key@),
                        ),
                    ),
                    Some(field) => field_place(info, field, address),
                },
            }
        }
    }
}

/// A field without a defect lies at an address, relative to the object at
/// `address`.
pub open spec fn place_addressable(info: TypeInfo, field: FieldInfo, address: usize) -> bool {
    field_defect(info, field) is None ==> {
        &&& address + field.offset <= usize::MAX
        &&& field.alignment <= usize::MAX
    }
}

/// The named field of the object at `address` lies at an address, if it gets as
/// far as being looked for there.
pub open spec fn field_addressable(
    heap: &ObjectHeap,
    types: &TypeTable,
    address: usize,
    owner: i32,
    name: Seq<char>,
) -> bool {
    address != 0 && types.instance_of(heap.headers()[address].type_index, owner) ==> match types.info(
        owner,
    ) {
        Some(info) => match first_field(info.fields@, name) {
            Some(field) => place_addressable(info, field, address),
            None => true,
        },
        None => true,
    }
}

proof fn lemma_first_field_skip(fields: Seq<FieldInfo>, name: Seq<char>, count: int)
    requires
        0 <= count <= fields.len(),
        forall|i: int| 0 <= i < count ==> (#[trigger] fields[i]).name@ != name,
    ensures
        first_field(fields, name) == first_field(fields.skip(count), name),
    decreases count,
{
    if count > 0 {
        lemma_first_field_skip(fields.drop_first(), name, count - 1);
        assert(fields.drop_first().skip(count - 1) =~= fields.skip(count));
    } else {
        assert(fields.skip(0) =~= fields);
    }
}

/// The type is the owner, or has the owner among its ancestors.
pub open spec fn is_or_inherits(types: &TypeTable, type_index: i32, owner: i32) -> bool {
    ||| type_index == owner
    ||| types.info(type_index) is Some && types.ancestors(type_index).contains(Some(owner))
}

/// The field at `i` is the one that the name stands for.
pub open spec fn named_field(fields: Seq<FieldInfo>, name: Seq<char>, i: int) -> bool {
    &&& 0 <= i < fields.len()
    &&& fields[i].name@ == name
    &&& forall|j: int| 0 <= j < i ==> (#[trigger] fields[j]).name@ != name
}

/// The field lies within its owner, at a multiple of its alignment.
pub open spec fn well_laid_out(info: TypeInfo, field: FieldInfo) -> bool {
    &&& 0 <= field.offset
    &&& 0 <= field.size
    &&& 0 < field.alignment
    &&& field.offset as int % field.alignment as int == 0
    &&& info.total_size matches Some(total) ==> total <= 0 || field.offset + field.size <= total
}

/// The field was not found, with an error of this kind.
pub open spec fn refused(located: Result<(usize, usize), ErrorView>, kind: ErrorKind) -> bool {
    located matches Err(error) && error.kind == kind
}

/// `located` is where the owner's field of that name is found in an object of this
/// type at `address`.
///
/// Which of the owner's instances the object is makes no difference.
pub open spec fn is_field_location(
    types: &TypeTable,
    type_index: i32,
    address: usize,
    owner: i32,
    name: Seq<char>,
    located: Result<(usize, usize), ErrorView>,
) -> bool {
    &&& address == 0 ==> refused(located, VALUE_ERROR)
    &&& address != 0 && !is_or_inherits(types, type_index, owner) ==> refused(located, TYPE_ERROR)
    &&& address != 0 && is_or_inherits(types, type_index, owner) ==> match types.info(owner) {
        None => refused(located, TYPE_ERROR),
        Some(info) => {
            &&& (forall|i: int|
                0 <= i < info.fields@.len() ==> (#[trigger] info.fields@[i]).name@ != name)
                ==> refused(located, ATTRIBUTE_ERROR)
            &&& forall|i: int| #[trigger]
                named_field(info.fields@, name, i) ==> {
                    let field = info.fields@[i];
                    if field.getter is Some && well_laid_out(info, field) && (address
                        + field.offset) % field.alignment as int == 0 {
                        located == Ok::<(usize, usize), ErrorView>(
                            (field.getter->0, (address + field.offset) as usize),
                        )
                    } else {
                        refused(located, RUNTIME_ERROR)
                    }
                }
        },
    }
}

/// A field of the owner is found in every instance of the owner, at its offset from
/// the object, and nowhere else.
pub proof fn law_fields_are_found_in_every_instance(
    heap: &ObjectHeap,
    types: &TypeTable,
    address: usize,
    owner: i32,
    name: Seq<char>,
)
    requires
        types.well_formed(),
        types.is_tree(),
    ensures
        is_field_location(
            types,
            heap.headers()[address].type_index,
            address,
            owner,
            name,
            located_field(heap, types, address, owner, name),
        ),
{
    let type_index = heap.headers()[address].type_index;
    if types.info(type_index) is Some {
        law_instance_of_is_ancestry(types, type_index, owner);
    }
    if let Some(info) = types.info(owner) {
        let fields = info.fields@;
        if forall|i: int| 0 <= i < fields.len() ==> (#[trigger] fields[i]).name@ != name {
            lemma_first_field_skip(fields, name, fields.len() as int);
        }
        assert forall|i: int| #[trigger] named_field(fields, name, i) implies first_field(
            fields,
            name,
        ) == Some(fields[i]) by {
            lemma_first_field_skip(fields, name, i);
        }
    }
}

/// Two instances of the owner at the same address have the field at the same place,
/// whatever their types.
pub proof fn law_any_instance_will_do(
    one: &ObjectHeap,
    other: &ObjectHeap,
    types: &TypeTable,
    address: usize,
    owner: i32,
    name: Seq<char>,
)
    requires
        types.well_formed(),
        types.is_tree(),
        is_or_inherits(types, one.headers()[address].type_index, owner),
        is_or_inherits(types, other.headers()[address].type_index, owner),
    ensures
        located_field(one, types, address, owner, name) == located_field(
            other,
            types,
            address,
            owner,
            name,
        ),
{
    let (t, u) = (one.headers()[address].type_index, other.headers()[address].type_index);
    if types.info(t) is Some {
        law_instance_of_is_ancestry(types, t, owner);
    }
    if types.info(u) is Some {
        law_instance_of_is_ancestry(types, u, owner);
    }
}

fn field_error(name: &str, what: &str) -> (error: Error)
    ensures
        error@ == error_view(RUNTIME_ERROR, field_message(name@, what@)),
{
    let mut text: String = "reflected field `".to_owned();
    text.append(name);
    text.append("` ");
    text.append(what);
    Error::from_message(RUNTIME_ERROR, text)
}

/// Checks where a field of the object at `address` lies.
fn check_field_place(info: &TypeInfo, field: &FieldInfo, address: usize) -> (result: Result<
    (usize, usize),
    Error,
>)
    requires
        place_addressable(*info, *field, address),
    ensures
        crate::error::outcome(result) == field_place(*info, *field, address),
{
    let name: &str = field.name.as_str();
    let getter: usize = match field.getter {
        Some(getter) => getter,
        None => return Err(field_error(name, "has no getter")),
    };
    if field.offset < 0 || field.size < 0 || field.alignment <= 0 || field.offset as u64
        % field.alignment as u64 != 0 {
        return Err(field_error(name, "has an invalid layout"));
    }
    if let Some(total_size) = info.total_size {
        if total_size > 0 {
            let fits = match field.offset.checked_add(field.size) {
                Some(end) => end <= total_size as i64,
                None => false,
            };
            if !fits {
                return Err(field_error(name, "extends beyond its owner object"));
            }
        }
    }
    let field_ptr: usize = address + field.offset as usize;
    if field_ptr % field.alignment as usize != 0 {
        return Err(field_error(name, "is not correctly aligned"));
    }
    Ok((getter, field_ptr))
}

/// Finds the getter to call, and the address to call it on, to read a field.
pub fn locate_object_field(
    heap: &ObjectHeap,
    types: &TypeTable,
    address: usize,
    owner_type_index: i32,
    field_name: &str,
) -> (result: Result<(usize, usize), Error>)
    requires
        heap.well_formed(),
        types.well_formed(),
        address != 0 ==> heap.headers().dom().contains(address),
        field_addressable(heap, types, address, owner_type_index, field_name@),
    ensures
        crate::error::outcome(result) == located_field(
            heap,
            types,
            address,
            owner_type_index,
            field_name@,
        ),
        types.is_tree() ==> is_field_location(
            types,
            heap.headers()[address].type_index,
            address,
            owner_type_index,
            field_name@,
            crate::error::outcome(result),
        ),
{
    proof {
        if types.is_tree() {
            law_fields_are_found_in_every_instance(
                heap,
                types,
                address,
                owner_type_index,
                field_name@,
            );
        }
    }
    if address == 0 {
        let mut text: String = "cannot read field `".to_owned();
        text.append(field_name);
        text.append("` from an undefined object");
        return Err(Error::from_message(VALUE_ERROR, text));
    }
    let type_index: i32 = match heap.header(address) {
        Some(header) => header.type_index,
        None => return vstd::pervasive::unreached(),
    };
    if !is_instance_of_index(types, type_index, owner_type_index) {
        let mut text: String = "runtime object type_index `".to_owned();
        push_signed(&mut text, type_index as i64);
        text.append("` is not an instance of field owner `");
        push_signed(&mut text, owner_type_index as i64);
        text.append("`");
        return Err(Error::from_message(TYPE_ERROR, text));
    }
    let info: &TypeInfo = match types.get(owner_type_index) {
        Some(info) => info,
        None => {
            let mut text: String = "no type info for field owner type_index `".to_owned();
            push_signed(&mut text, owner_type_index as i64);
            text.append("`");
            return Err(Error::from_message(TYPE_ERROR, text));
        },
    };
    let mut index: usize = 0;
    while index < info.fields.len()
        invariant
            index <= info.fields@.len(),
            address != 0,
            types.info(owner_type_index) == Some(*info),
            types.instance_of(heap.headers()[address].type_index, owner_type_index),
            field_addressable(heap, types, address, owner_type_index, field_name@),
            types.is_tree() ==> is_field_location(
                types,
                heap.headers()[address].type_index,
                address,
                owner_type_index,
                field_name@,
                located_field(heap, types, address, owner_type_index, field_name@),
            ),
            forall|i: int| 0 <= i < index ==> (#[trigger] info.fields@[i]).name@ != field_name@,
        decreases info.fields@.len() - index,
    {
        let field: &FieldInfo = &info.fields[index];
        if same_text(field.name.as_str(), field_name) {
            proof {
                lemma_first_field_skip(info.fields@, field_name@, index as int);
            }
            return check_field_place(info, field, address);
        }
        index = index + 1;
    }
    proof {
        lemma_first_field_skip(info.fields@, field_name@, index as int);
    }
    let mut text: String = "field `".to_owned();
    text.append(field_name);
    text.append("` is not registered on type `");
    text.append(info.type_key.as_str());
    text.append("`");
    Err(Error::from_message(ATTRIBUTE_ERROR, text))
}

/// The native call of `getter` on `place` turns one heap into the other, and
/// returns the value, which owns what it refers to, or the error that was
/// raised.
pub open spec fn getter_returns<G>(
    call_getter: G,
    getter: usize,
    place: usize,
    before: ObjectHeap,
    after: ObjectHeap,
    raw: Result<TVMFFIAny, Error>,
) -> bool where G: FnOnce(usize, usize, ObjectHeap) -> (ObjectHeap, Result<TVMFFIAny, Error>) {
    call_ensures(call_getter, (getter, place, before), (after, raw))
}

/// What reading a field returns and does.
pub open spec fn field_read<G>(
    call_getter: G,
    located: Result<(usize, usize), ErrorView>,
    before: ObjectHeap,
    after: ObjectHeap,
    result: Result<Any, Error>,
) -> bool where G: FnOnce(usize, usize, ObjectHeap) -> (ObjectHeap, Result<TVMFFIAny, Error>) {
    match located {
        Err(error) => (result matches Err(e) && e@ == error) && after == before,
        Ok((getter, place)) => match result {
            Ok(any) => getter_returns(call_getter, getter, place, before, after, Ok(any.data)),
            Err(error) => getter_returns(call_getter, getter, place, before, after, Err(error)),
        },
    }
}

/// Reads a reflected field of an object through the getter registered for it.
///
/// `call_getter` makes the native call. It is given the getter and the address
/// of the field.
pub fn get_object_field_any<O: ObjectRefCore, G>(
    object: &O,
    heap: &mut ObjectHeap,
    types: &TypeTable,
    owner_type_index: i32,
    field_name: &str,
    call_getter: G,
) -> (result: Result<Any, Error>) where
    G: FnOnce(usize, usize, ObjectHeap) -> (ObjectHeap, Result<TVMFFIAny, Error>),

    requires
        old(heap).well_formed(),
        types.well_formed(),
        object.address() != 0 ==> old(heap).headers().dom().contains(object.address()),
        field_addressable(
            old(heap),
            types,
            object.address(),
            owner_type_index,
            field_name@,
        ),
        located_field(
            old(heap),
            types,
            object.address(),
            owner_type_index,
            field_name@,
        ) matches Ok((getter, place)) ==> call_requires(call_getter, (getter, place, *old(heap))),
    ensures
        field_read(
            call_getter,
            located_field(
                old(heap),
                types,
                object.address(),
                owner_type_index,
                field_name@,
            ),
            *old(heap),
            *final(heap),
            result,
        ),
{
    let address: usize = ObjectArc::as_raw(O::data(object));
    let (getter, place): (usize, usize) = match locate_object_field(
        heap,
        types,
        address,
        owner_type_index,
        field_name,
    ) {
        Ok(found) => found,
        Err(error) => return Err(error),
    };
    let mut lent: ObjectHeap = ObjectHeap::new();
    core::mem::swap(heap, &mut lent);
    let (after, raw): (ObjectHeap, Result<TVMFFIAny, Error>) = call_getter(getter, place, lent);
    *heap = after;
    match raw {
        Ok(data) => Ok(Any::from_raw_ffi_any(data)),
        Err(error) => Err(error),
    }
}

//-----------------------------------------------------
// Conversion of owned values
//-----------------------------------------------------
/// The object that a value owns, if it owns one, is alive.
pub open spec fn owns_alive(data: TVMFFIAny, heap: &ObjectHeap) -> bool {
    data.type_index >= K_TVM_FFI_STATIC_OBJECT_BEGIN && data.v_obj != 0 ==> heap.alive(data.v_obj)
}

/// The object that a value owned, if it owned one, was given up.
pub open spec fn value_given_up(data: TVMFFIAny, before: &ObjectHeap, after: &ObjectHeap) -> bool {
    if data.type_index >= K_TVM_FFI_STATIC_OBJECT_BEGIN {
        given_up(before, after, data.v_obj)
    } else {
        *after == *before
    }
}

impl Any {
    /// Gives up what the value owns.
    pub fn drop(self, heap: &mut ObjectHeap)
        requires
            old(heap).well_formed(),
            owns_alive(self.data, old(heap)),
        ensures
            value_given_up(self.data, old(heap), final(heap)),
    {
        if self.data.type_index >= K_TVM_FFI_STATIC_OBJECT_BEGIN {
            heap.release(self.data.v_obj);
        }
    }
}

/// The owned value can be converted, or given up.
pub open spec fn convertible<T: AnyCompatible>(
    data: TVMFFIAny,
    types: &TypeTable,
    heap: &ObjectHeap,
) -> bool {
    &&& heap.well_formed()
    &&& owns_alive(data, heap)
    &&& T::castable(data, types) && !T::strict(data, types) ==> {
        &&& T::copyable(data, heap)
        &&& forall|copied: ObjectHeap| #[trigger]
            T::copied(data, heap, &copied) ==> copied.well_formed() && owns_alive(data, &copied)
    }
}

/// What the conversion of an owned value returns and does.
///
/// A value of the type itself moves. Any other value is given up, after what
/// the conversion takes from it.
pub open spec fn conversion<T: AnyCompatible>(
    data: TVMFFIAny,
    types: &TypeTable,
    before: &ObjectHeap,
    after: &ObjectHeap,
    result: Result<T, Error>,
) -> bool {
    if T::strict(data, types) {
        &&& result matches Ok(value) && value.is_value_of(data)
        &&& *after == *before
    } else if T::castable(data, types) {
        &&& result matches Ok(value) && value.is_value_of(data)
        &&& exists|copied: ObjectHeap|
            T::copied(data, before, &copied) && #[trigger] value_given_up(data, &copied, after)
    } else {
        &&& result matches Err(error) && error@ == error_view(
            TYPE_ERROR,
            conversion_message(T::mismatch(data, types), T::name_of_type()),
        )
        &&& value_given_up(data, before, after)
    }
}

/// Converts an owned value.
pub fn try_from_any<T: AnyCompatible>(
    value: Any,
    types: &TypeTable,
    heap: &mut ObjectHeap,
) -> (result: Result<T, Error>)
    requires
        types.well_formed(),
        convertible::<T>(value.data, types, old(heap)),
    ensures
        conversion(value.data, types, old(heap), final(heap), result),
{
    let data: TVMFFIAny = value.data;
    if T::check_any_strict(&data, types) {
        return Ok(T::move_from_any_after_check(Any::into_raw_ffi_any(value)));
    }
    match T::try_cast_from_any_view(&data, types, heap) {
        Ok(converted) => {
            let ghost copied = *heap;
            value.drop(heap);
            Ok(converted)
        },
        Err(_) => {
            let from: String = T::get_mismatch_type_info(&data, types);
            let to: String = T::type_str();
            let message: String = format_conversion(from.as_str(), to.as_str());
            value.drop(heap);
            Err(Error::from_message(TYPE_ERROR, message))
        },
    }
}

/// What the conversion of an owned value returns and does, where only a value of
/// the type itself will do.
pub open spec fn strict_conversion<T: AnyCompatible>(
    data: TVMFFIAny,
    types: &TypeTable,
    before: &ObjectHeap,
    after: &ObjectHeap,
    result: Result<T, Error>,
) -> bool {
    if T::strict(data, types) {
        &&& result matches Ok(value) && value.is_value_of(data)
        &&& *after == *before
    } else {
        &&& result matches Err(error) && error@ == error_view(
            TYPE_ERROR,
            conversion_message(T::mismatch(data, types), T::name_of_type()),
        )
        &&& value_given_up(data, before, after)
    }
}

/// Converts an owned value that must be of the type itself.
pub fn try_from_any_strict<T: AnyCompatible>(
    value: Any,
    types: &TypeTable,
    heap: &mut ObjectHeap,
) -> (result: Result<T, Error>)
    requires
        types.well_formed(),
        old(heap).well_formed(),
        owns_alive(value.data, old(heap)),
    ensures
        strict_conversion(value.data, types, old(heap), final(heap), result),
{
    let data: TVMFFIAny = value.data;
    if T::check_any_strict(&data, types) {
        return Ok(T::move_from_any_after_check(Any::into_raw_ffi_any(value)));
    }
    let from: String = T::get_mismatch_type_info(&data, types);
    let to: String = T::type_str();
    let message: String = format_conversion(from.as_str(), to.as_str());
    value.drop(heap);
    Err(Error::from_message(TYPE_ERROR, message))
}

/// Whatever reading a field returns can be converted.
pub open spec fn field_convertible<T: AnyCompatible, G>(
    call_getter: G,
    types: &TypeTable,
    heap: ObjectHeap,
) -> bool where G: FnOnce(usize, usize, ObjectHeap) -> (ObjectHeap, Result<TVMFFIAny, Error>) {
    &&& forall|getter: usize, place: usize| #[trigger]
        call_requires(call_getter, (getter, place, heap))
    &&& forall|getter: usize, place: usize, after: ObjectHeap, raw: Result<TVMFFIAny, Error>|
        #[trigger] getter_returns(call_getter, getter, place, heap, after, raw) ==> {
            &&& after.well_formed()
            &&& raw matches Ok(data) ==> convertible::<T>(data, types, &after)
        }
}

/// What reading a field and checking its type returns and does.
pub open spec fn typed_field_read<T: AnyCompatible, G>(
    call_getter: G,
    types: &TypeTable,
    located: Result<(usize, usize), ErrorView>,
    before: ObjectHeap,
    after: ObjectHeap,
    result: Result<T, Error>,
) -> bool where G: FnOnce(usize, usize, ObjectHeap) -> (ObjectHeap, Result<TVMFFIAny, Error>) {
    exists|read: ObjectHeap, owned: Result<Any, Error>|
        {
            &&& #[trigger] field_read(call_getter, located, before, read, owned)
            &&& match owned {
                Ok(any) => conversion(any.data, types, &read, &after, result),
                Err(error) => result == Err::<T, Error>(error) && after == read,
            }
        }
}

/// Reads a reflected field of an object, and checks its type.
pub fn get_object_field<T: AnyCompatible, O: ObjectRefCore, G>(
    object: &O,
    heap: &mut ObjectHeap,
    types: &TypeTable,
    owner_type_index: i32,
    field_name: &str,
    call_getter: G,
) -> (result: Result<T, Error>) where
    G: FnOnce(usize, usize, ObjectHeap) -> (ObjectHeap, Result<TVMFFIAny, Error>),

    requires
        old(heap).well_formed(),
        types.well_formed(),
        object.address() != 0 ==> old(heap).headers().dom().contains(object.address()),
        field_addressable(
            old(heap),
            types,
            object.address(),
            owner_type_index,
            field_name@,
        ),
        field_convertible::<T, G>(call_getter, types, *old(heap)),
    ensures
        typed_field_read(
            call_getter,
            types,
            located_field(
                old(heap),
                types,
                object.address(),
                owner_type_index,
                field_name@,
            ),
            *old(heap),
            *final(heap),
            result,
        ),
{
    let owned = get_object_field_any(
        object,
        heap,
        types,
        owner_type_index,
        field_name,
        call_getter,
    );
    let ghost read = *heap;
    let ghost located = located_field(
        old(heap),
        types,
        object.address(),
        owner_type_index,
        field_name@,
    );
    assert(field_read(call_getter, located, *old(heap), read, owned));
    match owned {
        Ok(owned) => {
            assert(getter_returns(
                call_getter,
                located->Ok_0.0,
                located->Ok_0.1,
                *old(heap),
                read,
                Ok(owned.data),
            ));
            try_from_any(owned, types, heap)
        },
        Err(error) => Err(error),
    }
}

//-----------------------------------------------------
// Laws of reading and converting
//-----------------------------------------------------
/// A field is read by one call of its getter on its address. What that returns is
/// returned.
pub proof fn law_field_is_read_by_its_getter<G>(
    call_getter: G,
    getter: usize,
    place: usize,
    before: ObjectHeap,
    after: ObjectHeap,
    result: Result<Any, Error>,
) where G: FnOnce(usize, usize, ObjectHeap) -> (ObjectHeap, Result<TVMFFIAny, Error>)
    requires
        field_read(call_getter, Ok((getter, place)), before, after, result),
    ensures
        exists|raw: Result<TVMFFIAny, Error>|
            {
                &&& #[trigger] call_ensures(call_getter, (getter, place, before), (after, raw))
                &&& raw is Ok <==> result is Ok
                &&& raw is Ok ==> result->Ok_0.data == raw->Ok_0
                &&& raw is Err ==> result->Err_0 == raw->Err_0
            },
{
    let raw: Result<TVMFFIAny, Error> = match result {
        Ok(any) => Ok(any.data),
        Err(error) => Err(error),
    };
    assert(call_ensures(call_getter, (getter, place, before), (after, raw)));
}

/// An owned reference is converted exactly if its object is of the type or of one
/// that derives from it. It then moves; otherwise it is given up.
pub proof fn law_conversion_follows_the_hierarchy<T: ObjectRefByType>(
    data: TVMFFIAny,
    types: &TypeTable,
    before: &ObjectHeap,
    after: &ObjectHeap,
    result: Result<T, Error>,
)
    requires
        types.well_formed(),
        types.is_tree(),
        conversion(data, types, before, after, result),
    ensures
        result is Ok <==> is_or_inherits(types, data.type_index, T::ContainerType::index()),
        result is Ok ==> result->Ok_0.address() == data.v_obj && *after == *before,
        result is Err ==> result->Err_0@.kind == TYPE_ERROR && value_given_up(data, before, after),
{
    T::decided_by_type(data, types);
    if let Ok(value) = result {
        value.taken_as_object(data);
    }
}

/// An owned value is converted to a number exactly if it is a number or a truth value,
/// and owns nothing that would have to be given up.
pub proof fn law_numbers_are_converted(
    data: TVMFFIAny,
    types: &TypeTable,
    before: &ObjectHeap,
    after: &ObjectHeap,
    result: Result<i64, Error>,
)
    requires
        conversion(data, types, before, after, result),
    ensures
        result is Ok <==> data.type_index == K_TVM_FFI_INT || data.type_index == K_TVM_FFI_BOOL,
        result is Ok ==> result->Ok_0 == data.v_int64 && *after == *before,
        result is Err ==> result->Err_0@.kind == TYPE_ERROR && value_given_up(data, before, after),
{
}

/// Where only a value of the type itself will do, an owned reference is taken exactly if
/// its object is of the type or of one that derives from it.
pub proof fn law_strict_conversion_follows_the_hierarchy<T: ObjectRefByType>(
    data: TVMFFIAny,
    types: &TypeTable,
    before: &ObjectHeap,
    after: &ObjectHeap,
    result: Result<T, Error>,
)
    requires
        types.well_formed(),
        types.is_tree(),
        strict_conversion(data, types, before, after, result),
    ensures
        result is Ok <==> is_or_inherits(types, data.type_index, T::ContainerType::index()),
        result is Ok ==> result->Ok_0.address() == data.v_obj && *after == *before,
        result is Err ==> result->Err_0@.kind == TYPE_ERROR && value_given_up(data, before, after),
{
    T::decided_by_type(data, types);
    if let Ok(value) = result {
        value.taken_as_object(data);
    }
}

/// Giving up a value gives up the object that it owns. A value that is no object owns
/// none.
pub proof fn law_values_give_up_their_object(
    data: TVMFFIAny,
    before: &ObjectHeap,
    after: &ObjectHeap,
)
    requires
        value_given_up(data, before, after),
    ensures
        data.type_index < K_TVM_FFI_STATIC_OBJECT_BEGIN ==> *after == *before,
        data.type_index >= K_TVM_FFI_STATIC_OBJECT_BEGIN ==> given_up(before, after, data.v_obj),
{
}

} // verus!
