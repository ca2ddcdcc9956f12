//! Object references refined by the type of what they express.

use crate::any::{Any, AnyView, TVMFFIAny};
use crate::error::{error_view, Error, ErrorView, TYPE_ERROR};
use crate::object::arc::{acquired, ObjectArc};
use crate::object::heap::{given_up, ObjectHeap};
use crate::object::reflection::{
    conversion, field_addressable, field_convertible, field_read, get_object_field,
    is_field_location, is_or_inherits, law_conversion_follows_the_hierarchy,
    law_field_is_read_by_its_getter, law_fields_are_found_in_every_instance, located_field,
    owns_alive, typed_field_read, value_given_up,
};
use crate::object::refs::{
    conversion_message, format_conversion, law_giving_up_undoes_sharing, ObjectRefAny,
    ObjectRefByType, ObjectRefCore,
};
use crate::object::ObjectCore;
use crate::type_index::K_TVM_FFI_STATIC_OBJECT_BEGIN;
use crate::type_table::TypeTable;
use crate::type_traits::AnyCompatible;
use core::marker::PhantomData;
use vstd::prelude::*;

verus! {

/// An object reference whose reflected `ty` field has type `Expected`.
///
/// `Base` preserves the runtime object type. `Expected` is a refinement that is
/// checked through reflection when an unrefined value enters.
pub struct TypedExpr<Base, Expected> {
    base: Base,
    expected: PhantomData<Expected>,
}

impl<Base, Expected> TypedExpr<Base, Expected> {
    /// The underlying reference.
    pub closed spec fn base(&self) -> Base {
        self.base
    }

    fn from_validated_base(base: Base) -> (this: Self)
        ensures
            this.base() == base,
    {
        TypedExpr { base, expected: PhantomData }
    }

    /// Borrows the underlying reference.
    pub fn as_base(&self) -> (base: &Base)
        ensures
            *base == self.base(),
    {
        &self.base
    }

    /// Removes the refinement.
    pub fn into_base(self) -> (base: Base)
        ensures
            base == self.base(),
    {
        self.base
    }

    /// What is said of the reference holds of the underlying one.
    pub fn deref(&self) -> (base: &Base)
        ensures
            *base == self.base(),
    {
        &self.base
    }
}

impl<Base: ObjectRefCore, Expected> TypedExpr<Base, Expected> {
    /// Takes one more reference to the object. The refinement is not checked
    /// again.
    pub fn clone(&self, heap: &mut ObjectHeap) -> (other: Self)
        requires
            old(heap).well_formed(),
            self.base().address() != 0 ==> old(heap).shareable(self.base().address()),
        ensures
            other.base().address() == self.base().address(),
            acquired(old(heap), final(heap), self.base().address()),
    {
        Self::from_validated_base(self.base.share(heap))
    }

    pub fn data(this: &Self) -> (data: &ObjectArc<Base::ContainerType>)
        ensures
            data.ptr == this.base().address(),
    {
        Base::data(&this.base)
    }

    pub fn into_data(this: Self) -> (data: ObjectArc<Base::ContainerType>)
        ensures
            data.ptr == this.base().address(),
    {
        Base::into_data(this.base)
    }
}

/// Where the `ty` field of the expression at `address` is read.
pub open spec fn located_ty<Base: ObjectRefCore>(
    heap: &ObjectHeap,
    types: &TypeTable,
    address: usize,
) -> Result<(usize, usize), ErrorView> {
    located_field(heap, types, address, Base::ContainerType::index(), "ty"@)
}

/// What reading the `ty` field of the expression at `address` returns and does.
pub open spec fn ty_read<Base: ObjectRefCore, Expected: AnyCompatible, G>(
    call_getter: G,
    types: &TypeTable,
    address: usize,
    before: ObjectHeap,
    after: ObjectHeap,
    ty: Result<Expected, Error>,
) -> bool where G: FnOnce(usize, usize, ObjectHeap) -> (ObjectHeap, Result<TVMFFIAny, Error>) {
    typed_field_read(
        call_getter,
        types,
        located_ty::<Base>(&before, types, address),
        before,
        after,
        ty,
    )
}

/// The `ty` field of the expression at `address` can be read.
pub open spec fn ty_readable<Base: ObjectRefCore, Expected: AnyCompatible, G>(
    call_getter: G,
    types: &TypeTable,
    address: usize,
    heap: ObjectHeap,
) -> bool where G: FnOnce(usize, usize, ObjectHeap) -> (ObjectHeap, Result<TVMFFIAny, Error>) {
    &&& heap.well_formed()
    &&& types.well_formed()
    &&& address != 0 ==> heap.headers().dom().contains(address)
    &&& field_addressable(&heap, types, address, Base::ContainerType::index(), "ty"@)
    &&& field_convertible::<Expected, G>(call_getter, types, heap)
}

/// After reading, the type can be given up, and so can the expression.
pub open spec fn ty_droppable<Base: ObjectRefCore, Expected: AnyCompatible, G>(
    call_getter: G,
    types: &TypeTable,
    address: usize,
    heap: ObjectHeap,
) -> bool where G: FnOnce(usize, usize, ObjectHeap) -> (ObjectHeap, Result<TVMFFIAny, Error>) {
    forall|after: ObjectHeap, ty: Result<Expected, Error>| #[trigger]
        ty_read::<Base, Expected, G>(call_getter, types, address, heap, after, ty) ==> {
            &&& after.well_formed()
            &&& match ty {
                Ok(value) => value.holdable(&after) && owns_alive(value.held(&after), &after),
                Err(_) => address != 0 ==> after.alive(address),
            }
        }
}

/// The `ty` field of the expression at `address` is of the expected type.
pub open spec fn has_expected_ty<Base: ObjectRefCore, Expected: AnyCompatible, G>(
    call_getter: G,
    types: &TypeTable,
    address: usize,
    heap: ObjectHeap,
) -> bool where G: FnOnce(usize, usize, ObjectHeap) -> (ObjectHeap, Result<TVMFFIAny, Error>) {
    forall|after: ObjectHeap, ty: Result<Expected, Error>| #[trigger]
        ty_read::<Base, Expected, G>(call_getter, types, address, heap, after, ty) ==> ty is Ok
}

/// What refining an expression whose type was read returns and does.
///
/// The type is given up again. Where it is not the expected one, so is the
/// expression.
pub open spec fn refined_with<Base: ObjectRefCore, Expected: AnyCompatible>(
    base: Base,
    ty: Result<Expected, Error>,
    read: ObjectHeap,
    after: ObjectHeap,
    result: Result<TypedExpr<Base, Expected>, Error>,
) -> bool {
    match ty {
        Ok(value) => {
            &&& result matches Ok(refined) && refined.base() == base
            &&& value_given_up(value.held(&read), &read, &after)
        },
        Err(error) => {
            &&& result == Err::<TypedExpr<Base, Expected>, Error>(error)
            &&& given_up(&read, &after, base.address())
        },
    }
}

/// What refining an expression returns and does: its type is read first.
pub open spec fn refinement<Base: ObjectRefCore, Expected: AnyCompatible, G>(
    call_getter: G,
    types: &TypeTable,
    base: Base,
    before: ObjectHeap,
    after: ObjectHeap,
    result: Result<TypedExpr<Base, Expected>, Error>,
) -> bool where G: FnOnce(usize, usize, ObjectHeap) -> (ObjectHeap, Result<TVMFFIAny, Error>) {
    exists|read: ObjectHeap, ty: Result<Expected, Error>|
        {
            &&& #[trigger] ty_read::<Base, Expected, G>(
                call_getter,
                types,
                base.address(),
                before,
                read,
                ty,
            )
            &&& refined_with(base, ty, read, after, result)
        }
}

impl<Base: ObjectRefCore, Expected: AnyCompatible> TypedExpr<Base, Expected> {
    fn reflected_ty<G>(
        base: &Base,
        heap: &mut ObjectHeap,
        types: &TypeTable,
        call_getter: G,
    ) -> (ty: Result<Expected, Error>) where
        G: FnOnce(usize, usize, ObjectHeap) -> (ObjectHeap, Result<TVMFFIAny, Error>),

        requires
            ty_readable::<Base, Expected, G>(call_getter, types, base.address(), *old(heap)),
        ensures
            ty_read::<Base, Expected, G>(
                call_getter,
                types,
                base.address(),
                *old(heap),
                *final(heap),
                ty,
            ),
    {
        get_object_field(
            base,
            heap,
            types,
            <Base::ContainerType as ObjectCore>::type_index(),
            "ty",
            call_getter,
        )
    }

    /// The expression's type.
    pub fn ty<G>(
        &self,
        heap: &mut ObjectHeap,
        types: &TypeTable,
        call_getter: G,
    ) -> (ty: Result<Expected, Error>) where
        G: FnOnce(usize, usize, ObjectHeap) -> (ObjectHeap, Result<TVMFFIAny, Error>),

        requires
            ty_readable::<Base, Expected, G>(
                call_getter,
                types,
                self.base().address(),
                *old(heap),
            ),
        ensures
            ty_read::<Base, Expected, G>(
                call_getter,
                types,
                self.base().address(),
                *old(heap),
                *final(heap),
                ty,
            ),
    {
        Self::reflected_ty(&self.base, heap, types, call_getter)
    }

    /// Checks the expression's type and adds the refinement.
    pub fn try_from_base<G>(
        base: Base,
        heap: &mut ObjectHeap,
        types: &TypeTable,
        call_getter: G,
    ) -> (result: Result<Self, Error>) where
        G: FnOnce(usize, usize, ObjectHeap) -> (ObjectHeap, Result<TVMFFIAny, Error>),

        requires
            ty_readable::<Base, Expected, G>(call_getter, types, base.address(), *old(heap)),
            ty_droppable::<Base, Expected, G>(call_getter, types, base.address(), *old(heap)),
        ensures
            refinement::<Base, Expected, G>(
                call_getter,
                types,
                base,
                *old(heap),
                *final(heap),
                result,
            ),
    {
        let ty: Result<Expected, Error> = Self::reflected_ty(&base, heap, types, call_getter);
        let ghost read = *heap;
        match ty {
            Ok(value) => {
                let data: TVMFFIAny = Expected::move_to_any(value, heap);
                Any::from_raw_ffi_any(data).drop(heap);
                Ok(Self::from_validated_base(base))
            },
            Err(error) => {
                heap.release(ObjectArc::into_raw(Base::into_data(base)));
                Err(error)
            },
        }
    }

    /// Takes over the handle of an expression that has the expected type.
    pub fn from_data<G>(
        data: ObjectArc<Base::ContainerType>,
        heap: &mut ObjectHeap,
        types: &TypeTable,
        call_getter: G,
    ) -> (this: Self) where
        G: FnOnce(usize, usize, ObjectHeap) -> (ObjectHeap, Result<TVMFFIAny, Error>),

        requires
            ty_readable::<Base, Expected, G>(call_getter, types, data.ptr, *old(heap)),
            ty_droppable::<Base, Expected, G>(call_getter, types, data.ptr, *old(heap)),
            has_expected_ty::<Base, Expected, G>(call_getter, types, data.ptr, *old(heap)),
        ensures
            this.base().address() == data.ptr,
            refinement::<Base, Expected, G>(
                call_getter,
                types,
                this.base(),
                *old(heap),
                *final(heap),
                Ok(this),
            ),
    {
        let base = Base::from_data(data);
        match Self::try_from_base(base, heap, types, call_getter) {
            Ok(this) => this,
            Err(_) => vstd::pervasive::unreached(),
        }
    }
}

//-----------------------------------------------------
// Refined references as dynamically typed values
//-----------------------------------------------------
pub open spec fn typed_expr_name(base: Seq<char>, expected: Seq<char>) -> Seq<char> {
    "TypedExpr<"@ + base + ", "@ + expected + ">"@
}

pub open spec fn incompatible_ty(base: Seq<char>) -> Seq<char> {
    base + " with incompatible `ty`"@
}

/// A held value that is a `Base` can be copied out and refined, whatever the
/// copy does to reference counts.
pub open spec fn held_refinable<Base: ObjectRefAny, Expected: AnyCompatible, G>(
    call_getter: G,
    types: &TypeTable,
    data: TVMFFIAny,
    heap: ObjectHeap,
) -> bool where G: FnOnce(usize, usize, ObjectHeap) -> (ObjectHeap, Result<TVMFFIAny, Error>) {
    &&& Base::copyable(data, &heap)
    &&& forall|shared: ObjectHeap| #[trigger]
        Base::copied(data, &heap, &shared) ==> {
            &&& ty_readable::<Base, Expected, G>(call_getter, types, data.v_obj, shared)
            &&& ty_droppable::<Base, Expected, G>(call_getter, types, data.v_obj, shared)
        }
}

/// What copying a held value out and refining the copy returns and does.
pub open spec fn held_refinement<Base: ObjectRefAny, Expected: AnyCompatible, G>(
    call_getter: G,
    types: &TypeTable,
    data: TVMFFIAny,
    before: ObjectHeap,
    after: ObjectHeap,
    result: Result<TypedExpr<Base, Expected>, Error>,
) -> bool where G: FnOnce(usize, usize, ObjectHeap) -> (ObjectHeap, Result<TVMFFIAny, Error>) {
    exists|shared: ObjectHeap, base: Base|
        {
            &&& Base::copied(data, &before, &shared)
            &&& base.is_value_of(data)
            &&& #[trigger] refinement::<Base, Expected, G>(
                call_getter,
                types,
                base,
                shared,
                after,
                result,
            )
        }
}

/// A held value can be checked against a refined type.
pub open spec fn held_checkable<Base: ObjectRefAny, Expected: AnyCompatible, G>(
    call_getter: G,
    types: &TypeTable,
    data: TVMFFIAny,
    heap: ObjectHeap,
) -> bool where G: FnOnce(usize, usize, ObjectHeap) -> (ObjectHeap, Result<TVMFFIAny, Error>) {
    &&& heap.well_formed()
    &&& Base::strict(data, types) ==> {
        &&& held_refinable::<Base, Expected, G>(call_getter, types, data, heap)
        &&& forall|after: ObjectHeap, refined: TypedExpr<Base, Expected>| #[trigger]
            held_refinement::<Base, Expected, G>(
                call_getter,
                types,
                data,
                heap,
                after,
                Ok(refined),
            ) ==> after.well_formed() && after.alive(refined.base().address())
    }
}

/// What checking a held value against a refined type returns and does: a copy
/// of a `Base` is refined, and given up again.
pub open spec fn held_checked<Base: ObjectRefAny, Expected: AnyCompatible, G>(
    call_getter: G,
    types: &TypeTable,
    data: TVMFFIAny,
    before: ObjectHeap,
    after: ObjectHeap,
    strict: bool,
) -> bool where G: FnOnce(usize, usize, ObjectHeap) -> (ObjectHeap, Result<TVMFFIAny, Error>) {
    if Base::strict(data, types) {
        exists|refined: ObjectHeap, result: Result<TypedExpr<Base, Expected>, Error>|
            {
                &&& #[trigger] held_refinement::<Base, Expected, G>(
                    call_getter,
                    types,
                    data,
                    before,
                    refined,
                    result,
                )
                &&& match result {
                    Ok(expr) => strict && given_up(&refined, &after, expr.base().address()),
                    Err(_) => !strict && after == refined,
                }
            }
    } else {
        !strict && after == before
    }
}

/// A copy of a held value can be converted to a refined type.
pub open spec fn held_castable<Base: ObjectRefAny, Expected: AnyCompatible, G>(
    call_getter: G,
    types: &TypeTable,
    data: TVMFFIAny,
    heap: ObjectHeap,
) -> bool where G: FnOnce(usize, usize, ObjectHeap) -> (ObjectHeap, Result<TVMFFIAny, Error>) {
    &&& heap.well_formed()
    &&& Base::castable(data, types) ==> held_refinable::<Base, Expected, G>(
        call_getter,
        types,
        data,
        heap,
    )
}

/// What converting a copy of a held value to a refined type returns and does.
pub open spec fn held_cast<Base: ObjectRefAny, Expected: AnyCompatible, G>(
    call_getter: G,
    types: &TypeTable,
    data: TVMFFIAny,
    before: ObjectHeap,
    after: ObjectHeap,
    result: Result<TypedExpr<Base, Expected>, ()>,
) -> bool where G: FnOnce(usize, usize, ObjectHeap) -> (ObjectHeap, Result<TVMFFIAny, Error>) {
    if Base::castable(data, types) {
        exists|refined: Result<TypedExpr<Base, Expected>, Error>|
            {
                &&& #[trigger] held_refinement::<Base, Expected, G>(
                    call_getter,
                    types,
                    data,
                    before,
                    after,
                    refined,
                )
                &&& match refined {
                    Ok(expr) => result == Ok::<TypedExpr<Base, Expected>, ()>(expr),
                    Err(_) => result is Err,
                }
            }
    } else {
        result is Err && after == before
    }
}

/// What is said of a value that a refined type does not take.
pub open spec fn refused_conversion<Base: ObjectRefAny, Expected: AnyCompatible>(
    data: TVMFFIAny,
    types: &TypeTable,
) -> ErrorView {
    error_view(
        TYPE_ERROR,
        conversion_message(
            incompatible_ty(Base::mismatch(data, types)),
            typed_expr_name(Base::name_of_type(), Expected::name_of_type()),
        ),
    )
}

/// The conversion that a cast amounts to.
pub open spec fn is_conversion_of<Base: ObjectRefAny, Expected: AnyCompatible>(
    cast: Result<TypedExpr<Base, Expected>, ()>,
    data: TVMFFIAny,
    types: &TypeTable,
    result: Result<TypedExpr<Base, Expected>, Error>,
) -> bool {
    match cast {
        Ok(expr) => result == Ok::<TypedExpr<Base, Expected>, Error>(expr),
        Err(_) => result matches Err(error) && error@ == refused_conversion::<Base, Expected>(
            data,
            types,
        ),
    }
}

/// An owned value that is not of the refined type itself can be converted, and
/// given up after that.
pub open spec fn owned_castable<Base: ObjectRefAny, Expected: AnyCompatible, G, H>(
    check_getter: G,
    cast_getter: H,
    types: &TypeTable,
    data: TVMFFIAny,
    heap: ObjectHeap,
) -> bool where
    G: FnOnce(usize, usize, ObjectHeap) -> (ObjectHeap, Result<TVMFFIAny, Error>),
    H: FnOnce(usize, usize, ObjectHeap) -> (ObjectHeap, Result<TVMFFIAny, Error>),
 {
    forall|checked: ObjectHeap| #[trigger]
        held_checked::<Base, Expected, G>(check_getter, types, data, heap, checked, false) ==> {
            &&& held_castable::<Base, Expected, H>(cast_getter, types, data, checked)
            &&& forall|after: ObjectHeap, cast: Result<TypedExpr<Base, Expected>, ()>| #[trigger]
                held_cast::<Base, Expected, H>(cast_getter, types, data, checked, after, cast)
                    ==> after.well_formed() && owns_alive(data, &after)
        }
}

/// What converting an owned value to a refined type returns and does.
pub open spec fn owned_conversion<Base: ObjectRefAny, Expected: AnyCompatible, G, H>(
    check_getter: G,
    cast_getter: H,
    types: &TypeTable,
    data: TVMFFIAny,
    before: ObjectHeap,
    after: ObjectHeap,
    result: Result<TypedExpr<Base, Expected>, Error>,
) -> bool where
    G: FnOnce(usize, usize, ObjectHeap) -> (ObjectHeap, Result<TVMFFIAny, Error>),
    H: FnOnce(usize, usize, ObjectHeap) -> (ObjectHeap, Result<TVMFFIAny, Error>),
 {
    ||| {
        &&& held_checked::<Base, Expected, G>(check_getter, types, data, before, after, true)
        &&& result matches Ok(expr) && expr.base().is_value_of(data)
    }
    ||| exists|
        checked: ObjectHeap,
        converted: ObjectHeap,
        cast: Result<TypedExpr<Base, Expected>, ()>,
    |
        {
            &&& held_checked::<Base, Expected, G>(
                check_getter,
                types,
                data,
                before,
                checked,
                false,
            )
            &&& #[trigger] held_cast::<Base, Expected, H>(
                cast_getter,
                types,
                data,
                checked,
                converted,
                cast,
            )
            &&& value_given_up(data, &converted, &after)
            &&& is_conversion_of::<Base, Expected>(cast, data, types, result)
        }
}

impl<Base: ObjectRefAny, Expected: AnyCompatible> TypedExpr<Base, Expected> {
    /// The type index never decides alone: the reflected type counts too.
    pub fn match_any_exact() -> (exact: bool)
        ensures
            !exact,
    {
        false
    }

    pub fn type_str() -> (name: String)
        ensures
            name@ == typed_expr_name(Base::name_of_type(), Expected::name_of_type()),
    {
        let base: String = Base::type_str();
        let expected: String = Expected::type_str();
        let mut text: String = "TypedExpr<".to_owned();
        text.append(base.as_str());
        text.append(", ");
        text.append(expected.as_str());
        text.append(">");
        text
    }

    pub fn get_mismatch_type_info(data: &TVMFFIAny, types: &TypeTable) -> (text: String)
        ensures
            text@ == incompatible_ty(Base::mismatch(*data, types)),
    {
        let mut text: String = Base::get_mismatch_type_info(data, types);
        text.append(" with incompatible `ty`");
        text
    }

    /// A view that owns nothing.
    pub fn copy_to_any_view(src: &Self, heap: &ObjectHeap) -> (data: TVMFFIAny)
        requires
            heap.well_formed(),
            src.base().holdable(heap),
        ensures
            data == src.base().held(heap),
    {
        Base::copy_to_any_view(&src.base, heap)
    }

    /// A held value that owns what the reference owned.
    pub fn move_to_any(src: Self, heap: &ObjectHeap) -> (data: TVMFFIAny)
        requires
            heap.well_formed(),
            src.base().holdable(heap),
        ensures
            data == src.base().held(heap),
    {
        Base::move_to_any(src.base, heap)
    }

    /// Copies a held value that was checked.
    pub fn copy_from_any_view_after_check(data: &TVMFFIAny, heap: &mut ObjectHeap) -> (this: Self)
        requires
            old(heap).well_formed(),
            Base::copyable(*data, old(heap)),
        ensures
            this.base().is_value_of(*data),
            Base::copied(*data, old(heap), final(heap)),
    {
        Self::from_validated_base(Base::copy_from_any_view_after_check(data, heap))
    }

    /// Takes over a held value that was checked.
    pub fn move_from_any_after_check(data: TVMFFIAny) -> (this: Self)
        ensures
            this.base().is_value_of(data),
    {
        Self::from_validated_base(Base::move_from_any_after_check(data))
    }

    /// Copies a held `Base` out, and refines the copy.
    fn refine_held<G>(
        data: &TVMFFIAny,
        heap: &mut ObjectHeap,
        types: &TypeTable,
        call_getter: G,
    ) -> (result: Result<Self, Error>) where
        G: FnOnce(usize, usize, ObjectHeap) -> (ObjectHeap, Result<TVMFFIAny, Error>),

        requires
            old(heap).well_formed(),
            held_refinable::<Base, Expected, G>(call_getter, types, *data, *old(heap)),
        ensures
            held_refinement::<Base, Expected, G>(
                call_getter,
                types,
                *data,
                *old(heap),
                *final(heap),
                result,
            ),
    {
        let base: Base = Base::copy_from_any_view_after_check(data, heap);
        proof {
            base.taken_as_object(*data);
        }
        Self::try_from_base(base, heap, types, call_getter)
    }

    /// Whether a held value is a `Base` whose reflected type is as expected.
    pub fn check_any_strict<G>(
        data: &TVMFFIAny,
        heap: &mut ObjectHeap,
        types: &TypeTable,
        call_getter: G,
    ) -> (strict: bool) where
        G: FnOnce(usize, usize, ObjectHeap) -> (ObjectHeap, Result<TVMFFIAny, Error>),

        requires
            types.well_formed(),
            held_checkable::<Base, Expected, G>(call_getter, types, *data, *old(heap)),
        ensures
            held_checked::<Base, Expected, G>(
                call_getter,
                types,
                *data,
                *old(heap),
                *final(heap),
                strict,
            ),
    {
        if !Base::check_any_strict(data, types) {
            return false;
        }
        let result: Result<Self, Error> = Self::refine_held(data, heap, types, call_getter);
        let ghost refined = *heap;
        match result {
            Ok(expr) => {
                assert(held_refinement::<Base, Expected, G>(
                    call_getter,
                    types,
                    *data,
                    *old(heap),
                    refined,
                    Ok(expr),
                ));
                heap.release(ObjectArc::into_raw(Base::into_data(expr.base)));
                true
            },
            Err(_) => false,
        }
    }

    /// Converts a copy of a held value.
    pub fn try_cast_from_any_view<G>(
        data: &TVMFFIAny,
        heap: &mut ObjectHeap,
        types: &TypeTable,
        call_getter: G,
    ) -> (result: Result<Self, ()>) where
        G: FnOnce(usize, usize, ObjectHeap) -> (ObjectHeap, Result<TVMFFIAny, Error>),

        requires
            types.well_formed(),
            held_castable::<Base, Expected, G>(call_getter, types, *data, *old(heap)),
        ensures
            held_cast::<Base, Expected, G>(
                call_getter,
                types,
                *data,
                *old(heap),
                *final(heap),
                result,
            ),
    {
        let base: Base = match Base::try_cast_from_any_view(data, types, heap) {
            Ok(base) => base,
            Err(_) => return Err(()),
        };
        proof {
            base.taken_as_object(*data);
        }
        let ghost shared = *heap;
        let refined: Result<Self, Error> = Self::try_from_base(base, heap, types, call_getter);
        assert(refinement::<Base, Expected, G>(
            call_getter,
            types,
            base,
            shared,
            *heap,
            refined,
        ));
        assert(held_refinement::<Base, Expected, G>(
            call_getter,
            types,
            *data,
            *old(heap),
            *heap,
            refined,
        ));
        match refined {
            Ok(expr) => Ok(expr),
            Err(_) => Err(()),
        }
    }

    fn conversion_error(data: &TVMFFIAny, types: &TypeTable) -> (error: Error)
        ensures
            error@ == refused_conversion::<Base, Expected>(*data, types),
    {
        let from: String = Self::get_mismatch_type_info(data, types);
        let to: String = Self::type_str();
        Error::from_message(TYPE_ERROR, format_conversion(from.as_str(), to.as_str()))
    }

    /// Converts a borrowed value.
    pub fn try_from_any_view<G>(
        value: AnyView,
        heap: &mut ObjectHeap,
        types: &TypeTable,
        call_getter: G,
    ) -> (result: Result<Self, Error>) where
        G: FnOnce(usize, usize, ObjectHeap) -> (ObjectHeap, Result<TVMFFIAny, Error>),

        requires
            types.well_formed(),
            held_castable::<Base, Expected, G>(call_getter, types, value.data, *old(heap)),
        ensures
            exists|cast: Result<Self, ()>|
                {
                    &&& #[trigger] held_cast::<Base, Expected, G>(
                        call_getter,
                        types,
                        value.data,
                        *old(heap),
                        *final(heap),
                        cast,
                    )
                    &&& is_conversion_of::<Base, Expected>(cast, value.data, types, result)
                },
    {
        let cast = Self::try_cast_from_any_view(&value.data, heap, types, call_getter);
        match cast {
            Ok(expr) => Ok(expr),
            Err(_) => Err(Self::conversion_error(&value.data, types)),
        }
    }

    /// Converts an owned value. One of the type itself moves. Any other is given
    /// up, after what the conversion takes from it.
    pub fn try_from_any<G, H>(
        value: Any,
        heap: &mut ObjectHeap,
        types: &TypeTable,
        check_getter: G,
        cast_getter: H,
    ) -> (result: Result<Self, Error>) where
        G: FnOnce(usize, usize, ObjectHeap) -> (ObjectHeap, Result<TVMFFIAny, Error>),
        H: FnOnce(usize, usize, ObjectHeap) -> (ObjectHeap, Result<TVMFFIAny, Error>),

        requires
            types.well_formed(),
            held_checkable::<Base, Expected, G>(check_getter, types, value.data, *old(heap)),
            owned_castable::<Base, Expected, G, H>(
                check_getter,
                cast_getter,
                types,
                value.data,
                *old(heap),
            ),
        ensures
            owned_conversion::<Base, Expected, G, H>(
                check_getter,
                cast_getter,
                types,
                value.data,
                *old(heap),
                *final(heap),
                result,
            ),
    {
        let data: TVMFFIAny = value.data;
        if Self::check_any_strict(&data, heap, types, check_getter) {
            return Ok(Self::move_from_any_after_check(Any::into_raw_ffi_any(value)));
        }
        let ghost checked = *heap;
        let cast = Self::try_cast_from_any_view(&data, heap, types, cast_getter);
        let ghost converted = *heap;
        assert(held_cast::<Base, Expected, H>(
            cast_getter,
            types,
            data,
            checked,
            converted,
            cast,
        ));
        value.drop(heap);
        match cast {
            Ok(expr) => Ok(expr),
            Err(_) => Err(Self::conversion_error(&data, types)),
        }
    }
}

/// The getter hands out a reference of its own to the type of the expression at
/// `address`, which is an object or null.
pub open spec fn ty_is_shared<Base: ObjectRefCore, Expected: ObjectRefAny, G>(
    call_getter: G,
    types: &TypeTable,
    address: usize,
    heap: ObjectHeap,
) -> bool where G: FnOnce(usize, usize, ObjectHeap) -> (ObjectHeap, Result<TVMFFIAny, Error>) {
    forall|read: ObjectHeap, ty: Expected| #[trigger]
        ty_read::<Base, Expected, G>(call_getter, types, address, heap, read, Ok(ty)) ==> {
            &&& acquired(&heap, &read, ty.address())
            &&& ty.address() != 0 ==> {
                &&& heap.shareable(ty.address())
                &&& heap.headers()[ty.address()].type_index >= K_TVM_FFI_STATIC_OBJECT_BEGIN
            }
        }
}

/// Refining a reference and removing the refinement again gives back the
/// reference, and leaves all counts as they were, if the getter hands out a
/// reference of its own to the type.
pub proof fn law_refinement_is_undone<Base: ObjectRefCore, Expected: ObjectRefAny, G>(
    call_getter: G,
    types: &TypeTable,
    base: Base,
    before: ObjectHeap,
    after: ObjectHeap,
    refined: TypedExpr<Base, Expected>,
    back: Base,
) where G: FnOnce(usize, usize, ObjectHeap) -> (ObjectHeap, Result<TVMFFIAny, Error>)
    requires
        refinement::<Base, Expected, G>(call_getter, types, base, before, after, Ok(refined)),
        ty_is_shared::<Base, Expected, G>(call_getter, types, base.address(), before),
        back == refined.base(),
    ensures
        back == base,
        back.address() == base.address(),
        after.headers() == before.headers(),
        after.layouts() == before.layouts(),
        after.pending() == before.pending(),
{
    let (read, ty) = choose|read: ObjectHeap, ty: Result<Expected, Error>|
        {
            &&& #[trigger] ty_read::<Base, Expected, G>(
                call_getter,
                types,
                base.address(),
                before,
                read,
                ty,
            )
            &&& refined_with(base, ty, read, after, Ok(refined))
        };
    let value = ty->Ok_0;
    value.held_as_object(&read);
    if value.address() != 0 {
        law_giving_up_undoes_sharing(&before, &read, &after, value.address());
    }
}

/// Whether an expression is refined is decided by its field `ty` and nothing else: by
/// whether that can be read, and is of the expected type or one that derives from it.
/// A refined expression is the expression itself.
pub proof fn law_refinement_is_decided_by_the_field<
    Base: ObjectRefCore,
    Expected: ObjectRefByType,
    G,
>(
    call_getter: G,
    types: &TypeTable,
    base: Base,
    before: ObjectHeap,
    after: ObjectHeap,
    result: Result<TypedExpr<Base, Expected>, Error>,
) where G: FnOnce(usize, usize, ObjectHeap) -> (ObjectHeap, Result<TVMFFIAny, Error>)
    requires
        types.well_formed(),
        types.is_tree(),
        refinement::<Base, Expected, G>(call_getter, types, base, before, after, result),
    ensures
        is_field_location(
            types,
            before.headers()[base.address()].type_index,
            base.address(),
            Base::ContainerType::index(),
            "ty"@,
            located_ty::<Base>(&before, types, base.address()),
        ),
        result is Ok ==> result->Ok_0.base() == base,
        match located_ty::<Base>(&before, types, base.address()) {
            Err(error) => result is Err && result->Err_0@ == error,
            Ok((getter, place)) => exists|read: ObjectHeap, raw: Result<TVMFFIAny, Error>|
                {
                    &&& #[trigger] call_ensures(call_getter, (getter, place, before), (read, raw))
                    &&& result is Ok <==> raw is Ok && is_or_inherits(
                        types,
                        raw->Ok_0.type_index,
                        Expected::ContainerType::index(),
                    )
                    &&& raw is Err ==> result->Err_0 == raw->Err_0
                },
        },
{
    let address = base.address();
    law_fields_are_found_in_every_instance(
        &before,
        types,
        address,
        Base::ContainerType::index(),
        "ty"@,
    );
    let located = located_ty::<Base>(&before, types, address);
    let (read, ty) = choose|read: ObjectHeap, ty: Result<Expected, Error>|
        {
            &&& #[trigger] ty_read::<Base, Expected, G>(
                call_getter,
                types,
                address,
                before,
                read,
                ty,
            )
            &&& refined_with(base, ty, read, after, result)
        };
    let (taken, owned) = choose|taken: ObjectHeap, owned: Result<Any, Error>|
        {
            &&& #[trigger] field_read(call_getter, located, before, taken, owned)
            &&& match owned {
                Ok(any) => conversion(any.data, types, &taken, &read, ty),
                Err(error) => ty == Err::<Expected, Error>(error) && read == taken,
            }
        };
    if let Ok(any) = owned {
        law_conversion_follows_the_hierarchy(any.data, types, &taken, &read, ty);
    }
    if let Ok((getter, place)) = located {
        law_field_is_read_by_its_getter(call_getter, getter, place, before, taken, owned);
        let raw = choose|raw: Result<TVMFFIAny, Error>|
            {
                &&& #[trigger] call_ensures(call_getter, (getter, place, before), (taken, raw))
                &&& raw is Ok <==> owned is Ok
                &&& raw is Ok ==> owned->Ok_0.data == raw->Ok_0
                &&& raw is Err ==> owned->Err_0 == raw->Err_0
            };
        assert(call_ensures(call_getter, (getter, place, before), (taken, raw)));
    }
}

/// Only a value whose object is a base, or derives from one, is cast to a refined
/// type. What comes out refers to that very object; what does not go in costs
/// nothing.
pub proof fn law_refined_cast_keeps_the_object<Base: ObjectRefByType, Expected: AnyCompatible, G>(
    call_getter: G,
    types: &TypeTable,
    data: TVMFFIAny,
    before: ObjectHeap,
    after: ObjectHeap,
    result: Result<TypedExpr<Base, Expected>, ()>,
) where G: FnOnce(usize, usize, ObjectHeap) -> (ObjectHeap, Result<TVMFFIAny, Error>)
    requires
        types.well_formed(),
        types.is_tree(),
        held_cast::<Base, Expected, G>(call_getter, types, data, before, after, result),
    ensures
        result is Ok ==> {
            &&& is_or_inherits(types, data.type_index, Base::ContainerType::index())
            &&& result->Ok_0.base().address() == data.v_obj
        },
        !is_or_inherits(types, data.type_index, Base::ContainerType::index()) ==> result is Err
            && after == before,
{
    Base::decided_by_type(data, types);
    if Base::castable(data, types) {
        let refined = choose|refined: Result<TypedExpr<Base, Expected>, Error>|
            {
                &&& #[trigger] held_refinement::<Base, Expected, G>(
                    call_getter,
                    types,
                    data,
                    before,
                    after,
                    refined,
                )
                &&& match refined {
                    Ok(expr) => result == Ok::<TypedExpr<Base, Expected>, ()>(expr),
                    Err(_) => result is Err,
                }
            };
        let (shared, base) = choose|shared: ObjectHeap, base: Base|
            {
                &&& Base::copied(data, &before, &shared)
                &&& base.is_value_of(data)
                &&& #[trigger] refinement::<Base, Expected, G>(
                    call_getter,
                    types,
                    base,
                    shared,
                    after,
                    refined,
                )
            };
        base.taken_as_object(data);
    }
}

/// Only a value whose object is a base, or derives from one, is found to be of a refined
/// type, and whatever is found, what is not a base is not touched.
pub proof fn law_refined_values_are_bases<Base: ObjectRefByType, Expected: AnyCompatible, G>(
    call_getter: G,
    types: &TypeTable,
    data: TVMFFIAny,
    before: ObjectHeap,
    after: ObjectHeap,
    strict: bool,
) where G: FnOnce(usize, usize, ObjectHeap) -> (ObjectHeap, Result<TVMFFIAny, Error>)
    requires
        types.well_formed(),
        types.is_tree(),
        held_checked::<Base, Expected, G>(call_getter, types, data, before, after, strict),
    ensures
        strict ==> is_or_inherits(types, data.type_index, Base::ContainerType::index()),
        !is_or_inherits(types, data.type_index, Base::ContainerType::index()) ==> !strict && after
            == before,
{
    Base::decided_by_type(data, types);
}

} // verus!
