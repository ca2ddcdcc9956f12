//! The templates that the macros expand to. A place to be filled is written as
//! `#` and its name.

use crate::macros::template::{filled, FillingView};
use crate::macros::tokens::{stream_trees, Tree};
use proc_macro2::TokenStream;
use vstd::prelude::*;

verus! {

/// The whole of a `match_any!`: the scrutinee is evaluated once and seen as a
/// view. Values that are no objects go to the fallback, objects to the arms.
pub const ORDERED_MATCH: &'static str = r#"
{
    let #source = &(#scrutinee);
    let #converted: ::core::result::Result<
        #tvm_ffi::AnyView< '_>,
        ::core::convert::Infallible,
    > = ::core::convert::TryInto::< #tvm_ffi::AnyView< '_>>::try_into(#source);
    let #view = match #converted {
        ::core::result::Result::Ok(view) => view,
        ::core::result::Result::Err(error) => match error {},
    };
    if #view.type_index()
        >= #tvm_ffi::TypeIndex::kTVMFFIStaticObjectBegin as i32
    {
        #dispatch
    } else {
        #fallback
    }
}
"#;

/// What stands after the last arm.
pub const FALLBACK: &'static str = "{ #fallback }";

/// The arm of a `match` for a converted value.
pub const MATCHED: &'static str = "::core::result::Result::Ok(#binding) => { #body }";

/// The arm of a `match` for a converted value, under a guard.
pub const MATCHED_IF: &'static str = "::core::result::Result::Ok(#binding) if #guard => { #body }";

/// A typed arm: a conversion, and the arms after it where that is rejected.
pub const ARM: &'static str = r#"
match #conversion {
    #matched,
    #rejected => {
        ::core::mem::drop(#rejected);
        #next
    }
}
"#;

/// The conversion of the view to the type of an arm.
pub const CONVERSION: &'static str = r#"
{
    use #tvm_ffi::match_any_internal::PatternConversion as _;

    let #probe =
        #tvm_ffi::match_any_internal::PatternConversionProbe::< #matcher>::new();
    let #converted: ::core::result::Result< #matcher, ()> =
        (& #probe).try_convert(#view);
    #converted
}
"#;

/// The type index of a type that is registered under a fixed one.
pub const STATIC_INDEX: &'static str = r#"
const TYPE_INDEX_STATIC: bool = true;

#[inline]
fn type_index() -> i32 {
    #type_index_expr as i32
}
"#;

/// The type index of a type that is looked up by its key, once.
pub const DYNAMIC_INDEX: &'static str = r#"
#[inline]
fn type_index() -> i32 {
    #struct_name::try_type_index().unwrap_or_else(|error|
        panic!("Failed to get type index for type key {}: {}", #type_key, error)
    )
}

#[inline]
fn try_type_index() -> #tvm_ffi::error::Result<i32> {
    static TYPE_INDEX: std::sync::OnceLock<i32> = std::sync::OnceLock::new();
    if let Some(type_index) = TYPE_INDEX.get() {
        return Ok(*type_index);
    }
    unsafe {
        let type_key_arg =
            #tvm_ffi::tvm_ffi_sys::TVMFFIByteArray::from_str(#type_key);
        let mut type_index = 0;
        let status = #tvm_ffi::tvm_ffi_sys::TVMFFITypeKeyToIndex(
            &type_key_arg, &mut type_index
        );
        if status == 0 {
            Ok(*TYPE_INDEX.get_or_init(|| type_index))
        } else {
            Err(#tvm_ffi::error::Error::from_raised())
        }
    }
}
"#;

/// The check that a type does not derive from a final one.
pub const FINAL_PARENT: &'static str = r#"
const _: () = {
    ::core::assert!(
        !< #base_ty as #tvm_ffi::object::ObjectCore>::TYPE_FINAL,
        "an object type cannot derive from a final parent"
    );
};
"#;

/// What a type has from its first field, the base.
pub const BASE: &'static str = r#"
const TYPE_DEPTH: i32 =
    < #base_ty as #tvm_ffi::object::ObjectCore>::TYPE_DEPTH + 1;

#[inline]
unsafe fn object_header_mut(
    this: &mut Self
) -> &mut #tvm_ffi::tvm_ffi_sys::TVMFFIObject {
    const _: () = {
        fn assert_impl<T: #tvm_ffi::object::ObjectCore>() {}
        let _ = assert_impl::< #base_ty>;
    };
    #base_ty::object_header_mut(&mut this. #base_id)
}
"#;

/// The implementation of `ObjectCore`.
pub const OBJECT_CORE: &'static str = r#"
#final_parent_check

unsafe impl #tvm_ffi::object::ObjectCore for #struct_name {
    const TYPE_KEY: & 'static str = #type_key;
    const TYPE_FINAL: bool = #type_final;

    #type_index_tokens

    #base_def_tokens
}
"#;

/// The implementations of `ObjectRefCore` and `AnyCompatible`.
pub const OBJECT_REF: &'static str = r#"
unsafe impl #tvm_ffi::object::ObjectRefCore for #struct_name {
    type ContainerType = < #data_ty as std::ops::Deref>::Target;
    #[inline]
    fn data(this: &Self) -> & #tvm_ffi::object::ObjectArc<Self::ContainerType> {
        &this.data
    }
    #[inline]
    fn into_data(
        this: Self
    ) -> #tvm_ffi::object::ObjectArc<Self::ContainerType> {
        this.data
    }
    #[inline]
    fn from_data(
        data: #tvm_ffi::object::ObjectArc<Self::ContainerType>
    ) -> Self {
        Self { data}
    }
}

unsafe impl #tvm_ffi::type_traits::AnyCompatible for #struct_name {
    const MATCH_ANY_EXACT: bool = {
        type ContainerType =
            < #struct_name as #tvm_ffi::object::ObjectRefCore>::ContainerType;
        <ContainerType as #tvm_ffi::object::ObjectCore>::TYPE_FINAL
            && <ContainerType as #tvm_ffi::object::ObjectCore>::TYPE_INDEX_STATIC
    };

    #[inline]
    fn match_any_exact_type_index() -> i32 {
        type ContainerType = < #struct_name as #tvm_ffi::object::ObjectRefCore>
            ::ContainerType;
        <ContainerType as #tvm_ffi::object::ObjectCore>::type_index()
    }

    fn type_str() -> std::string::String {
        type ContainerType = < #struct_name as #tvm_ffi::object::ObjectRefCore>
            ::ContainerType;
        <ContainerType as #tvm_ffi::object::ObjectCore>::TYPE_KEY.into()
    }

    #[inline(always)]
    unsafe fn copy_to_any_view(
        src: &Self,
        data: &mut #tvm_ffi::tvm_ffi_sys::TVMFFIAny
    ) {
        type ContainerType = < #struct_name as #tvm_ffi::object::ObjectRefCore>
            ::ContainerType;
        let data_ptr = #tvm_ffi::object::ObjectArc::<ContainerType>::as_raw(
            &src.data
        );
        if data_ptr.is_null() {
            *data = #tvm_ffi::tvm_ffi_sys::TVMFFIAny::new();
            return;
        }
        let object_ptr =
            data_ptr as *mut ContainerType as *mut #tvm_ffi::tvm_ffi_sys::TVMFFIObject;
        data.type_index = (*object_ptr).type_index;
        data.small_str_len = 0;
        data.data_union.v_obj = object_ptr;
    }

    #[inline(always)]
    unsafe fn check_any_strict(
        data: & #tvm_ffi::tvm_ffi_sys::TVMFFIAny
    ) -> bool {
        type ContainerType = < #struct_name as #tvm_ffi::object::ObjectRefCore>
            ::ContainerType;
        #tvm_ffi::object::is_instance_of::<ContainerType>(data.type_index)
    }

    unsafe fn copy_from_any_view_after_check(
        data: & #tvm_ffi::tvm_ffi_sys::TVMFFIAny
    ) -> Self {
        type ContainerType = < #struct_name as #tvm_ffi::object::ObjectRefCore>
            ::ContainerType;
        let data_ptr = data.data_union.v_obj;
        #tvm_ffi::object::unsafe_::inc_ref(
            data_ptr as *mut #tvm_ffi::tvm_ffi_sys::TVMFFIObject
        );
        Self {
            data : #tvm_ffi::object::ObjectArc::from_raw(
                data_ptr as *mut ContainerType
            )
        }
    }

    #[inline(always)]
    unsafe fn move_to_any(
        src: Self,
        data: &mut #tvm_ffi::tvm_ffi_sys::TVMFFIAny
    ) {
        type ContainerType = < #struct_name as #tvm_ffi::object::ObjectRefCore>
            ::ContainerType;
        let data_ptr = #tvm_ffi::object::ObjectArc::into_raw(
            src.data
        );
        if data_ptr.is_null() {
            *data = #tvm_ffi::tvm_ffi_sys::TVMFFIAny::new();
            return;
        }
        let object_ptr =
            data_ptr as *mut ContainerType as *mut #tvm_ffi::tvm_ffi_sys::TVMFFIObject;
        data.type_index = (*object_ptr).type_index;
        data.small_str_len = 0;
        data.data_union.v_obj = object_ptr;
    }

    #[inline(always)]
    unsafe fn move_from_any_after_check(
        data: &mut #tvm_ffi::tvm_ffi_sys::TVMFFIAny
    ) -> Self {
        type ContainerType = < #struct_name as #tvm_ffi::object::ObjectRefCore>
            ::ContainerType;
        let data_ptr = data.data_union.v_obj as *mut ContainerType;
        Self {
            data : #tvm_ffi::object::ObjectArc::<ContainerType>::from_raw(data_ptr)
        }
    }

    unsafe fn try_cast_from_any_view(
        data: & #tvm_ffi::tvm_ffi_sys::TVMFFIAny
    ) -> ::core::result::Result<Self, ()> {
        type ContainerType = < #struct_name as #tvm_ffi::object::ObjectRefCore>
            ::ContainerType;
        if #tvm_ffi::object::is_instance_of::<ContainerType>(data.type_index) {
            Ok(Self::copy_from_any_view_after_check(data))
        } else {
            Err(())
        }
    }
}
"#;

/// The conversions of a reference type from and into arguments.
pub const CONVERSIONS: &'static str = r#"
#tvm_ffi::impl_try_from_any!(#struct_name);
#tvm_ffi::impl_arg_into_ref!(#struct_name);
#tvm_ffi::impl_into_arg_holder_default!(#struct_name);
"#;

/// The value of a constant that holds.
pub const TRUE: &'static str = "true";

/// The value of a constant that does not hold.
pub const FALSE: &'static str = "false";

/// Whether `text` is one of the templates.
pub open spec fn is_template(text: Seq<char>) -> bool {
    ||| text == ORDERED_MATCH@
    ||| text == FALLBACK@
    ||| text == MATCHED@
    ||| text == MATCHED_IF@
    ||| text == ARM@
    ||| text == CONVERSION@
    ||| text == STATIC_INDEX@
    ||| text == DYNAMIC_INDEX@
    ||| text == FINAL_PARENT@
    ||| text == BASE@
    ||| text == OBJECT_CORE@
    ||| text == OBJECT_REF@
    ||| text == CONVERSIONS@
    ||| text == TRUE@
    ||| text == FALSE@
}

/// The tokens that `text` is made of.
pub uninterp spec fn lexed(text: Seq<char>) -> Seq<Tree>;

/// Calls `from_str` of `proc_macro2::TokenStream`. It breaks a text into tokens,
/// which depend on the text alone. The templates are texts of well formed
/// tokens, so that it neither fails nor panics on them.
#[verifier::external_body]
pub(crate) fn lex(template: &str) -> (tokens: TokenStream)
    requires
        is_template(template@),
    ensures
        stream_trees(tokens) == lexed(template@),
{
    template.parse().unwrap()
}

/// The code is the template, with its places filled like this.
pub open spec fn made_from(
    code: Seq<Tree>,
    template: Seq<char>,
    fillings: Seq<FillingView>,
) -> bool {
    code == filled(lexed(template), fillings)
}

} // verus!
