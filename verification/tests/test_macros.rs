use proc_macro2::{Delimiter, Group, TokenStream, TokenTree};

use tvm_ffi::macros::match_any::{expand, expand_ordered_try_into_chain, MatchAnyInput};
use tvm_ffi::macros::object_macros::{derive_object, derive_object_ref};
use tvm_ffi::macros::template::{fill, Filling};
use tvm_ffi::macros::tokens::has_known_literals;

fn tokens(text: &str) -> TokenStream {
    text.parse().unwrap()
}

/// The text of a stream without white space.
fn packed(stream: &TokenStream) -> String {
    stream.to_string().split_whitespace().collect()
}

fn packed_text(text: &str) -> String {
    text.split_whitespace().collect()
}

fn matched(text: &str) -> String {
    let input = tokens(text);
    assert!(has_known_literals(&input));
    packed(&expand(&tokens("tvm_ffi"), input))
}

fn reported(message: &str) -> String {
    let mut literal = format!("{:?}", message);
    literal.retain(|character| !character.is_whitespace());
    format!("compile_error!{{{}}}", literal)
}

fn conversion(matcher: &str) -> String {
    format!(
        "{{
            use tvm_ffi::match_any_internal::PatternConversion as _;
            let __tvm_ffi_match_any_conversion_probe =
                tvm_ffi::match_any_internal::PatternConversionProbe::<{matcher}>::new();
            let __tvm_ffi_match_any_pattern_conversion: ::core::result::Result<{matcher}, ()> =
                (& __tvm_ffi_match_any_conversion_probe).try_convert(__tvm_ffi_match_any_view);
            __tvm_ffi_match_any_pattern_conversion
        }}",
        matcher = matcher
    )
}

fn whole(scrutinee: &str, dispatch: &str, fallback: &str) -> String {
    format!(
        "{{
            let __tvm_ffi_match_any_source = &({});
            let __tvm_ffi_match_any_converted: ::core::result::Result<
                tvm_ffi::AnyView<'_>,
                ::core::convert::Infallible,
            > = ::core::convert::TryInto::<tvm_ffi::AnyView<'_>>::try_into(
                __tvm_ffi_match_any_source);
            let __tvm_ffi_match_any_view = match __tvm_ffi_match_any_converted {{
                ::core::result::Result::Ok(view) => view,
                ::core::result::Result::Err(error) => match error {{}},
            }};
            if __tvm_ffi_match_any_view.type_index()
                >= tvm_ffi::TypeIndex::kTVMFFIStaticObjectBegin as i32 {{
                {}
            }} else {{
                {}
            }}
        }}",
        scrutinee, dispatch, fallback
    )
}

#[test]
fn arms_are_tried_in_source_order() {
    let code = matched(
        "value.get() {
            Tensor(tensor) if tensor.ndim() == 2 => \"matrix\",
            crate::Shape(_) => { \"shape\" },
            _ => \"unsupported\",
        }",
    );
    let dispatch = format!(
        "match {} {{
            ::core::result::Result::Ok(tensor) if tensor.ndim() == 2 => {{ \"matrix\" }},
            __tvm_ffi_match_any_rejected => {{
                ::core::mem::drop(__tvm_ffi_match_any_rejected);
                match {} {{
                    ::core::result::Result::Ok(_) => {{ {{ \"shape\" }} }},
                    __tvm_ffi_match_any_rejected => {{
                        ::core::mem::drop(__tvm_ffi_match_any_rejected);
                        {{ \"unsupported\" }}
                    }}
                }}
            }}
        }}",
        conversion("Tensor"),
        conversion("crate::Shape")
    );
    assert_eq!(
        code,
        packed_text(&whole("value.get()", &dispatch, "\"unsupported\""))
    );
}

#[test]
fn a_match_of_the_fallback_alone_needs_no_conversion() {
    assert_eq!(
        matched("value { _ => 1 }"),
        packed_text(&whole("value", "{ 1 }", "1"))
    );
}

#[test]
fn the_scrutinee_ends_before_the_braces() {
    let input = MatchAnyInput::parse(tokens("a + b { S(x) => x, _ => 0, }"));
    let input = input.ok().unwrap();
    assert_eq!(packed(&input.scrutinee), "a+b");
    assert_eq!(input.arms.len(), 1);
    assert_eq!(packed(&input.arms[0].matcher), "S");
    assert_eq!(packed(&input.arms[0].binding), "x");
    assert!(input.arms[0].guard.is_none());
    assert_eq!(packed(&input.arms[0].body), "x");
    assert_eq!(packed(&input.fallback), "0");
}

#[test]
fn malformed_matches_are_reported() {
    for (text, message) in [
        ("x { _ => 1, S(y) => 2 }", "the `_` fallback must be the final arm"),
        ("x { _ => 1, _ => 2 }", "the `_` fallback must be the final arm"),
        ("x { _ if y => 1 }", "the `_` fallback cannot have a guard"),
        ("x { S(y z) => 1, _ => 2 }", "expected one binding pattern"),
        ("x { S(y) => 1; _ => 2 }", "expected `,` between match_any! arms"),
        (
            "x { S(y) => 1 }",
            "unexpected end of input, match_any! requires a final `_` fallback arm",
        ),
        (
            "x { }",
            "unexpected end of input, match_any! requires a final `_` fallback arm",
        ),
        ("x", "unexpected end of input, expected curly braces"),
        ("x [0]", "unexpected end of input, expected curly braces"),
        ("x ; { _ => 1 }", "expected curly braces"),
        ("x { S => 1, _ => 2 }", "expected parentheses"),
        ("x { S }", "unexpected end of input, expected parentheses"),
        ("x { S(y) = > 1, _ => 2 }", "expected `=>`"),
        ("x { _ }", "expected `=>`"),
        ("x { S(y), _ => 2 }", "expected `=>`"),
        ("x { _ => 1 } y", "unexpected token"),
    ] {
        assert_eq!(matched(text), reported(message), "{}", text);
    }
}

#[test]
fn parts_that_are_no_rust_are_reported_in_the_words_of_the_parser() {
    assert_eq!(matched(""), reported("unexpected end of input, expected expression"));
    assert_eq!(
        matched("x { S(y) => , _ => 2 }"),
        reported("expected expression")
    );
    assert_eq!(matched("x { 1(y) => 1, _ => 2 }"), reported("expected identifier"));
    assert_eq!(
        matched("x { S() => 1, _ => 2 }"),
        reported("unexpected end of input, expected one of: `::`, `<`, `_`, literal, `const`, `ref`, `mut`, `&`, parentheses, square brackets, `..`, `const`")
    );
}

fn invisible(text: &str) -> TokenStream {
    TokenTree::Group(Group::new(Delimiter::None, tokens(text))).into()
}

#[test]
fn invisible_groups_are_looked_into() {
    let mut content = invisible("S");
    content.extend(invisible("(y) if"));
    content.extend(tokens("y > 1"));
    content.extend(invisible("=> 1 ,"));
    content.extend(invisible(""));
    content.extend(invisible("_"));
    content.extend(tokens("=> 2"));
    let mut input = tokens("x");
    input.extend(Some(TokenTree::Group(Group::new(Delimiter::Brace, content))));
    input.extend(invisible(""));
    assert_eq!(
        packed(&expand(&tokens("tvm_ffi"), input)),
        matched("x { S(y) if y > 1 => 1, _ => 2 }")
    );
}

#[test]
fn a_list_of_arms_is_the_first_with_the_rest_as_fallback() {
    let arms = MatchAnyInput::parse(tokens("x { A(a) => 1, B(b) => 2, C(c) => 3, _ => 4 }"))
        .ok()
        .unwrap()
        .arms;
    let (crate_path, view, rejected) = (tokens("tvm_ffi"), tokens("v"), tokens("r"));
    let chain = |arms, fallback| {
        expand_ordered_try_into_chain(&crate_path, arms, fallback, &view, &rejected)
    };
    assert_eq!(
        packed(&chain(&arms, tokens("4"))),
        packed(&chain(&arms[..1], chain(&arms[1..], tokens("4"))))
    );
    assert_eq!(packed(&chain(&[], tokens("4"))), "4");
}

#[test]
fn only_places_with_a_filling_are_filled() {
    let places = [
        Filling {
            name: "a",
            tokens: tokens("1 + #b"),
        },
        Filling {
            name: "b",
            tokens: tokens("x"),
        },
        Filling {
            name: "a",
            tokens: tokens("2"),
        },
    ];
    assert_eq!(
        packed(&fill(tokens("# a (#b [# #c] #[inline]) #"), &places)),
        packed_text("1 + #b (x [# #c] #[inline]) #")
    );
}

#[test]
fn literals_that_the_parser_does_not_know_are_found() {
    assert!(has_known_literals(&tokens(
        "\"a\" 'b' b\"c\" br\"d\" b'e' r\"f\" 1 2.5 (true [7u8])"
    )));
    assert!(!has_known_literals(&tokens("x { y(c\"z\") }")));
}

fn object(text: &str) -> Result<String, &'static str> {
    let input = tokens(text);
    assert!(has_known_literals(&input));
    derive_object(&tokens("tvm_ffi"), input).map(|code| packed(&code))
}

#[test]
fn objects_with_a_fixed_type_index() {
    let code = object(
        "#[repr(C)]
        #[type_key = \"ffi.Module\"]
        #[type_final]
        #[type_index(TypeIndex::kTVMFFIModule)]
        pub struct ModuleObj { object: Object, extra: u8 }",
    );
    let expected = packed_text(
        "const _: () = {
            ::core::assert!(
                !<Object as tvm_ffi::object::ObjectCore>::TYPE_FINAL,
                \"an object type cannot derive from a final parent\"
            );
        };
        unsafe impl tvm_ffi::object::ObjectCore for ModuleObj {
            const TYPE_KEY: &'static str = \"ffi.Module\";
            const TYPE_FINAL: bool = true;
            const TYPE_INDEX_STATIC: bool = true;
            #[inline]
            fn type_index() -> i32 {
                TypeIndex::kTVMFFIModule as i32
            }
            const TYPE_DEPTH: i32 =
                <Object as tvm_ffi::object::ObjectCore>::TYPE_DEPTH + 1;
            #[inline]
            unsafe fn object_header_mut(
                this: &mut Self
            ) -> &mut tvm_ffi::tvm_ffi_sys::TVMFFIObject {
                const _: () = {
                    fn assert_impl<T: tvm_ffi::object::ObjectCore>() {}
                    let _ = assert_impl::<Object>;
                };
                Object::object_header_mut(&mut this.object)
            }
        }",
    );
    assert_eq!(code, Ok(expected));
}

#[test]
fn objects_that_are_looked_up_by_their_key() {
    let code = object(
        "#[derive(Clone)]
        #[repr(align(8), C)]
        #[type_key = \"testing.Unit\"]
        struct Unit;",
    );
    let expected = packed_text(
        "unsafe impl tvm_ffi::object::ObjectCore for Unit {
            const TYPE_KEY: &'static str = \"testing.Unit\";
            const TYPE_FINAL: bool = false;
            #[inline]
            fn type_index() -> i32 {
                Unit::try_type_index().unwrap_or_else(|error|
                    panic!(\"Failed to get type index for type key {}: {}\", \"testing.Unit\", error)
                )
            }
            #[inline]
            fn try_type_index() -> tvm_ffi::error::Result<i32> {
                static TYPE_INDEX: std::sync::OnceLock<i32> = std::sync::OnceLock::new();
                if let Some(type_index) = TYPE_INDEX.get() {
                    return Ok(*type_index);
                }
                unsafe {
                    let type_key_arg =
                        tvm_ffi::tvm_ffi_sys::TVMFFIByteArray::from_str(\"testing.Unit\");
                    let mut type_index = 0;
                    let status = tvm_ffi::tvm_ffi_sys::TVMFFITypeKeyToIndex(
                        &type_key_arg, &mut type_index
                    );
                    if status == 0 {
                        Ok(*TYPE_INDEX.get_or_init(|| type_index))
                    } else {
                        Err(tvm_ffi::error::Error::from_raised())
                    }
                }
            }
        }",
    );
    assert_eq!(code, Ok(expected));
    // A first field without a name is checked, but gives no base.
    let code = object("#[repr(C)] #[type_key = \"t\"] struct Pair(Base, u8);").unwrap();
    assert!(code.starts_with("const_:()={::core::assert!(!<Baseastvm_ffi"));
    assert!(!code.contains("TYPE_DEPTH"));
}

#[test]
fn objects_need_their_attributes() {
    let not_c = reported("#[derive(Object)] requires #[repr(C)]");
    for attributes in [
        "",
        "#[repr(Rust)]",
        "#[repr]",
        "#[repr = \"C\"]",
        "#[repr(C(x))]",
        "#[other(C)]",
        "#[repr(,)]",
    ] {
        let item = format!("{} #[type_key = \"t\"] struct S {{ base: B }}", attributes);
        assert_eq!(object(&item), Ok(not_c.clone()), "{}", attributes);
    }
    for (item, message) in [
        (
            "#[repr(C)] struct S { base: B }",
            "Expect #[type_key = \"<my_type_key>\"] attribute",
        ),
        (
            "#[repr(C)] #[type_key = 5] struct S { base: B }",
            "Expect #[type_key = \"<my_type_key>\"] attribute",
        ),
        (
            "#[repr(C)] #[type_key = \"t\"] #[type_final(x)] struct S { base: B }",
            "Expect #[type_final] attribute",
        ),
        (
            "#[repr(C)] #[type_key = \"t\"] #[type_index] struct S { base: B }",
            "Expect #[type_index(TypeIndex::<my_type_index>)] attribute",
        ),
        (
            "#[repr(C)] #[type_key = \"t\"] enum S { A }",
            "First field must be `<base_name>: <ObjectCoreType>`",
        ),
    ] {
        assert_eq!(object(item), Err(message), "{}", item);
    }
    assert_eq!(object("fn f() {}"), Ok(reported("expected one of: `struct`, `enum`, `union`")));
}

fn object_ref(text: &str) -> Result<String, &'static str> {
    derive_object_ref(&tokens("tvm_ffi"), tokens(text)).map(|code| packed(&code))
}

#[test]
fn references_hold_their_handle_in_data() {
    let code = object_ref("#[derive(Clone)] pub struct Module { data: ObjectArc<ModuleObj> }").unwrap();
    let start = packed_text(
        "unsafe impl tvm_ffi::object::ObjectRefCore for Module {
            type ContainerType = <ObjectArc<ModuleObj> as std::ops::Deref>::Target;
            #[inline]
            fn data(this: &Self) -> &tvm_ffi::object::ObjectArc<Self::ContainerType> {
                &this.data
            }",
    );
    assert!(code.starts_with(&start));
    let end = packed_text(
        "unsafe fn try_cast_from_any_view(
            data: &tvm_ffi::tvm_ffi_sys::TVMFFIAny
        ) -> ::core::result::Result<Self, ()> {
            type ContainerType = <Module as tvm_ffi::object::ObjectRefCore>
                ::ContainerType;
            if tvm_ffi::object::is_instance_of::<ContainerType>(data.type_index) {
                Ok(Self::copy_from_any_view_after_check(data))
            } else {
                Err(())
            }
        } }",
    );
    let conversions = packed_text(
        "tvm_ffi::impl_try_from_any!(Module);
        tvm_ffi::impl_arg_into_ref!(Module);
        tvm_ffi::impl_into_arg_holder_default!(Module);",
    );
    assert!(code.ends_with(&format!("{}{}", end, conversions)));

    let code = object_ref("struct ObjectRef { data: ObjectArc<Object> }").unwrap();
    assert!(code.ends_with(&end.replace("Module", "ObjectRef")));
}

#[test]
fn references_need_data_as_their_first_field() {
    let message = "First field must be `data: ObjectArc<T>`";
    assert_eq!(object_ref("struct R;"), Err(message));
    assert_eq!(object_ref("struct R { inner: ObjectArc<O> }"), Err(message));
    assert_eq!(object_ref("struct R(ObjectArc<O>);"), Err(message));
    assert_eq!(
        object_ref("enum R { A { data: u8 } }"),
        Err("derive only works for structs")
    );
    assert_eq!(
        object_ref("union R { data: u8 }"),
        Err("derive only works for structs")
    );
}
