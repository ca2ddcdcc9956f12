//! The derive macros for objects and for references to them.

use crate::macros::derivation::{
    declares_object, declares_object_ref, is_derived_object, is_derived_object_ref,
    law_object_is_derived_from_its_item, law_object_ref_is_declared,
    law_object_ref_is_derived_from_its_item, law_properties_are_declared_apart,
};
use crate::macros::syntax::{
    args_expr, attribute_views, derive_parsed, field_views, meta_parsed, meta_view,
    parse_args_expr, parse_derive_input, parse_meta, report, reported, AttributeShape,
    AttributeView, DeriveShape, DeriveView, FieldShape, FieldView, MetaShape, MetaView,
};
use crate::macros::template::{fill, filled, filling, fillings, Filling};
use crate::macros::templates::{
    lex, lexed, BASE, CONVERSIONS, DYNAMIC_INDEX, FALSE, FINAL_PARENT, OBJECT_CORE, OBJECT_REF,
    STATIC_INDEX, TRUE,
};
use crate::macros::tokens::{
    append, copy_of, ident, is_ident, literals_known, no_tokens, optional_trees, stream_trees,
    Tree,
};
use proc_macro2::TokenStream;
use vstd::prelude::*;

verus! {

/// Whether the literals of all attributes are known.
pub open spec fn attributes_known(attributes: Seq<AttributeShape>) -> bool {
    forall|i: int|
        0 <= i < attributes.len() ==> literals_known(
            stream_trees((#[trigger] attributes[i]).tokens),
        )
}

/// The first attribute of a name.
pub open spec fn named_attribute(attributes: Seq<AttributeView>, name: Seq<char>) -> Option<
    AttributeView,
>
    decreases attributes.len(),
{
    if attributes.len() == 0 {
        None
    } else if attributes[0].path == ident(name) {
        Some(attributes[0])
    } else {
        named_attribute(attributes.drop_first(), name)
    }
}

/// Finds the first attribute of a name: the tokens after its path.
pub fn get_attr(attributes: &[AttributeShape], name: &str) -> (tokens: Option<TokenStream>)
    requires
        attributes_known(attributes@),
    ensures
        match tokens {
            Some(tokens) => {
                &&& named_attribute(attribute_views(attributes@), name@) matches Some(attribute)
                &&& attribute.tokens == stream_trees(tokens)
                &&& literals_known(stream_trees(tokens))
            },
            None => named_attribute(attribute_views(attributes@), name@) is None,
        },
{
    let ghost views = attribute_views(attributes@);
    let mut i: usize = 0;
    assert(views.skip(0) =~= views);
    while i < attributes.len()
        invariant
            i <= attributes.len(),
            views == attribute_views(attributes@),
            attributes_known(attributes@),
            named_attribute(views, name@) == named_attribute(views.skip(i as int), name@),
        decreases attributes.len() - i,
    {
        assert(views.skip(i as int)[0] == attributes[i as int]@);
        if is_ident(&attributes[i].path, name) {
            return Some(copy_of(&attributes[i].tokens));
        }
        assert(views.skip(i as int).drop_first() =~= views.skip(i + 1));
        i = i + 1;
    }
    None
}

/// Whether what `repr` was given lists `C`.
pub open spec fn lists_c(meta: Option<MetaView>) -> bool {
    match meta {
        Some(MetaView::List(items)) => items.contains(ident("C"@)),
        _ => false,
    }
}

/// Tests whether what `repr` was given lists `C`.
pub fn is_c_listed(meta: &Option<MetaShape>) -> (listed: bool)
    ensures
        listed == lists_c(meta_view(*meta)),
{
    match meta {
        Some(MetaShape::List(items)) => {
            let ghost views = Seq::new(items@.len(), |i: int| stream_trees(items@[i]));
            assert(meta_view(*meta) == Some(MetaView::List(views)));
            let mut i: usize = 0;
            while i < items.len()
                invariant
                    i <= items.len(),
                    views == Seq::new(items@.len(), |i: int| stream_trees(items@[i])),
                    forall|j: int| 0 <= j < i ==> #[trigger] views[j] != ident("C"@),
                    meta_view(*meta) == Some(MetaView::List(views)),
                decreases items.len() - i,
            {
                assert(views[i as int] == stream_trees(items@[i as int]));
                if is_ident(&items[i], "C") {
                    assert(views.contains(views[i as int]));
                    return true;
                }
                i = i + 1;
            }
            false
        },
        _ => false,
    }
}

/// Whether one of the attributes is a `repr` that lists `C`.
pub open spec fn has_repr_c(attributes: Seq<AttributeView>) -> bool {
    exists|i: int|
        0 <= i < attributes.len() && (#[trigger] attributes[i]).path == ident("repr"@) && lists_c(
            meta_parsed(attributes[i].tokens),
        )
}

/// What is reported of a type without `#[repr(C)]`.
pub open spec fn repr_c_message(derive_name: Seq<char>) -> Seq<char> {
    "#[derive("@ + derive_name + ")] requires #[repr(C)]"@
}

/// Reports a type that is not `#[repr(C)]`.
pub fn require_repr_c(derive_input: &DeriveShape, derive_name: &str) -> (required: Result<
    (),
    TokenStream,
>)
    requires
        attributes_known(derive_input.attributes@),
    ensures
        match required {
            Ok(()) => has_repr_c(derive_input@.attributes),
            Err(report) => {
                &&& !has_repr_c(derive_input@.attributes)
                &&& stream_trees(report) == reported(repr_c_message(derive_name@))
            },
        },
{
    let attributes = &derive_input.attributes;
    let ghost views = derive_input@.attributes;
    let mut i: usize = 0;
    while i < attributes.len()
        invariant
            i <= attributes.len(),
            *attributes == derive_input.attributes,
            views == derive_input@.attributes,
            attributes_known(attributes@),
            forall|j: int|
                0 <= j < i ==> !((#[trigger] views[j]).path == ident("repr"@) && lists_c(
                    meta_parsed(views[j].tokens),
                )),
        decreases attributes.len() - i,
    {
        assert(views[i as int] == attributes[i as int]@);
        if is_ident(&attributes[i].path, "repr") {
            let meta = parse_meta(copy_of(&attributes[i].tokens));
            if is_c_listed(&meta) {
                return Ok(());
            }
        }
        i = i + 1;
    }
    let mut message = "#[derive(".to_owned();
    message.append(derive_name);
    message.append(")] requires #[repr(C)]");
    Err(report(copy_of(&derive_input.ident), message.as_str()))
}

/// The type key: the string that the attribute `type_key` is set to.
pub open spec fn type_key_of(meta: Option<Option<MetaView>>) -> Result<Seq<Tree>, Seq<char>> {
    match meta {
        Some(Some(MetaView::Text(text))) => Ok(text),
        _ => Err("Expect #[type_key = \"<my_type_key>\"] attribute"@),
    }
}

/// An attribute that is there, or not, by what it is set to.
pub open spec fn optional_meta(meta: Option<Option<MetaShape>>) -> Option<Option<MetaView>> {
    match meta {
        Some(meta) => Some(meta_view(meta)),
        None => None,
    }
}

/// Reads the type key.
pub fn read_type_key(meta: Option<Option<MetaShape>>) -> (key: Result<TokenStream, &'static str>)
    ensures
        type_key_of(optional_meta(meta)) == match key {
            Ok(key) => Ok(stream_trees(key)),
            Err(message) => Err(message@),
        },
{
    match meta {
        Some(Some(MetaShape::Text(text))) => Ok(text),
        _ => Err("Expect #[type_key = \"<my_type_key>\"] attribute"),
    }
}

/// Whether the type is final: whether the attribute `type_final` is there. It
/// is set to nothing.
pub open spec fn type_final_of(meta: Option<Option<MetaView>>) -> Result<bool, Seq<char>> {
    match meta {
        Some(Some(MetaView::Path)) => Ok(true),
        Some(_) => Err("Expect #[type_final] attribute"@),
        None => Ok(false),
    }
}

/// Reads whether the type is final.
pub fn read_type_final(meta: Option<Option<MetaShape>>) -> (is_final: Result<bool, &'static str>)
    ensures
        type_final_of(optional_meta(meta)) == match is_final {
            Ok(is_final) => Ok(is_final),
            Err(message) => Err(message@),
        },
{
    match meta {
        Some(Some(MetaShape::Path)) => Ok(true),
        Some(_) => Err("Expect #[type_final] attribute"),
        None => Ok(false),
    }
}

/// The fixed type index: the expression that the attribute `type_index` is
/// given. Without the attribute there is none.
pub open spec fn type_index_of(expr: Option<Option<Seq<Tree>>>) -> Result<
    Option<Seq<Tree>>,
    Seq<char>,
> {
    match expr {
        Some(Some(expr)) => Ok(Some(expr)),
        Some(None) => Err("Expect #[type_index(TypeIndex::<my_type_index>)] attribute"@),
        None => Ok(None),
    }
}

/// An attribute that is there, or not, by the expression it is given.
pub open spec fn optional_args(expr: Option<Option<TokenStream>>) -> Option<Option<Seq<Tree>>> {
    match expr {
        Some(expr) => Some(optional_trees(expr)),
        None => None,
    }
}

/// Reads the fixed type index.
pub fn read_type_index(expr: Option<Option<TokenStream>>) -> (index: Result<
    Option<TokenStream>,
    &'static str,
>)
    ensures
        type_index_of(optional_args(expr)) == match index {
            Ok(index) => Ok(optional_trees(index)),
            Err(message) => Err(message@),
        },
{
    match expr {
        Some(Some(expr)) => Ok(Some(expr)),
        Some(None) => Err("Expect #[type_index(TypeIndex::<my_type_index>)] attribute"),
        None => Ok(None),
    }
}

/// The items for the type index.
pub open spec fn type_index_items(
    tvm_ffi: Seq<Tree>,
    struct_name: Seq<Tree>,
    type_key: Seq<Tree>,
    type_index: Option<Seq<Tree>>,
) -> Seq<Tree> {
    match type_index {
        Some(expr) => filled(lexed(STATIC_INDEX@), seq![filling("type_index_expr"@, expr)]),
        None => filled(
            lexed(DYNAMIC_INDEX@),
            seq![
                filling("tvm_ffi"@, tvm_ffi),
                filling("struct_name"@, struct_name),
                filling("type_key"@, type_key),
            ],
        ),
    }
}

/// Writes the items for the type index.
pub fn expand_type_index(
    tvm_ffi: &TokenStream,
    struct_name: &TokenStream,
    type_key: &TokenStream,
    type_index: &Option<TokenStream>,
) -> (items: TokenStream)
    ensures
        stream_trees(items) == type_index_items(
            stream_trees(*tvm_ffi),
            stream_trees(*struct_name),
            stream_trees(*type_key),
            optional_trees(*type_index),
        ),
{
    match type_index {
        Some(expr) => {
            let places = [Filling { name: "type_index_expr", tokens: copy_of(expr) }];
            assert(fillings(places@) =~= seq![filling("type_index_expr"@, stream_trees(*expr))]);
            fill(lex(STATIC_INDEX), &places)
        },
        None => {
            let places = [
                Filling { name: "tvm_ffi", tokens: copy_of(tvm_ffi) },
                Filling { name: "struct_name", tokens: copy_of(struct_name) },
                Filling { name: "type_key", tokens: copy_of(type_key) },
            ];
            assert(fillings(places@) =~= seq![
                filling("tvm_ffi"@, stream_trees(*tvm_ffi)),
                filling("struct_name"@, stream_trees(*struct_name)),
                filling("type_key"@, stream_trees(*type_key)),
            ]);
            fill(lex(DYNAMIC_INDEX), &places)
        },
    }
}

/// The check that the first field is of no final type. Without fields there is
/// none.
pub open spec fn final_parent_check(tvm_ffi: Seq<Tree>, fields: Seq<FieldView>) -> Seq<Tree> {
    if fields.len() == 0 {
        Seq::empty()
    } else {
        filled(
            lexed(FINAL_PARENT@),
            seq![filling("tvm_ffi"@, tvm_ffi), filling("base_ty"@, fields[0].ty)],
        )
    }
}

/// Writes the check that the first field is of no final type.
pub fn expand_final_parent_check(tvm_ffi: &TokenStream, fields: &[FieldShape]) -> (check:
    TokenStream)
    ensures
        stream_trees(check) == final_parent_check(stream_trees(*tvm_ffi), field_views(fields@)),
{
    if fields.len() == 0 {
        return no_tokens();
    }
    assert(field_views(fields@)[0] == fields[0]@);
    let places = [
        Filling { name: "tvm_ffi", tokens: copy_of(tvm_ffi) },
        Filling { name: "base_ty", tokens: copy_of(&fields[0].ty) },
    ];
    assert(fillings(places@) =~= seq![
        filling("tvm_ffi"@, stream_trees(*tvm_ffi)),
        filling("base_ty"@, stream_trees(fields[0].ty)),
    ]);
    fill(lex(FINAL_PARENT), &places)
}

/// The items that a type has from its first field. Where that has no name, or
/// there is none, there are no such items.
pub open spec fn base_items(tvm_ffi: Seq<Tree>, fields: Seq<FieldView>) -> Seq<Tree> {
    if fields.len() == 0 {
        Seq::empty()
    } else {
        match fields[0].ident {
            Some(base_id) => filled(
                lexed(BASE@),
                seq![
                    filling("tvm_ffi"@, tvm_ffi),
                    filling("base_ty"@, fields[0].ty),
                    filling("base_id"@, base_id),
                ],
            ),
            None => Seq::empty(),
        }
    }
}

/// Writes the items that a type has from its first field.
pub fn expand_base(tvm_ffi: &TokenStream, fields: &[FieldShape]) -> (items: TokenStream)
    ensures
        stream_trees(items) == base_items(stream_trees(*tvm_ffi), field_views(fields@)),
{
    if fields.len() == 0 {
        return no_tokens();
    }
    assert(field_views(fields@)[0] == fields[0]@);
    match &fields[0].ident {
        Some(base_id) => {
            let places = [
                Filling { name: "tvm_ffi", tokens: copy_of(tvm_ffi) },
                Filling { name: "base_ty", tokens: copy_of(&fields[0].ty) },
                Filling { name: "base_id", tokens: copy_of(base_id) },
            ];
            assert(fillings(places@) =~= seq![
                filling("tvm_ffi"@, stream_trees(*tvm_ffi)),
                filling("base_ty"@, stream_trees(fields[0].ty)),
                filling("base_id"@, stream_trees(*base_id)),
            ]);
            fill(lex(BASE), &places)
        },
        None => no_tokens(),
    }
}

/// The implementation of `ObjectCore` for a struct.
pub open spec fn object_core(
    tvm_ffi: Seq<Tree>,
    struct_name: Seq<Tree>,
    type_key: Seq<Tree>,
    type_final: bool,
    type_index: Option<Seq<Tree>>,
    fields: Seq<FieldView>,
) -> Seq<Tree> {
    filled(
        lexed(OBJECT_CORE@),
        seq![
            filling("tvm_ffi"@, tvm_ffi),
            filling("struct_name"@, struct_name),
            filling("type_key"@, type_key),
            filling(
                "type_final"@,
                if type_final {
                    lexed(TRUE@)
                } else {
                    lexed(FALSE@)
                },
            ),
            filling("final_parent_check"@, final_parent_check(tvm_ffi, fields)),
            filling(
                "type_index_tokens"@,
                type_index_items(tvm_ffi, struct_name, type_key, type_index),
            ),
            filling("base_def_tokens"@, base_items(tvm_ffi, fields)),
        ],
    )
}

/// Writes the implementation of `ObjectCore` for a struct.
pub fn expand_object_core(
    tvm_ffi: &TokenStream,
    struct_name: &TokenStream,
    type_key: &TokenStream,
    type_final: bool,
    type_index: &Option<TokenStream>,
    fields: &[FieldShape],
) -> (code: TokenStream)
    ensures
        stream_trees(code) == object_core(
            stream_trees(*tvm_ffi),
            stream_trees(*struct_name),
            stream_trees(*type_key),
            type_final,
            optional_trees(*type_index),
            field_views(fields@),
        ),
        declares_object(
            stream_trees(code),
            stream_trees(*tvm_ffi),
            stream_trees(*struct_name),
            stream_trees(*type_key),
            type_final,
            optional_trees(*type_index),
            field_views(fields@),
        ),
{
    proof {
        law_properties_are_declared_apart(
            stream_trees(*tvm_ffi),
            stream_trees(*struct_name),
            stream_trees(*type_key),
            type_final,
            optional_trees(*type_index),
            field_views(fields@),
        );
    }
    let finality = if type_final {
        lex(TRUE)
    } else {
        lex(FALSE)
    };
    let places = [
        Filling { name: "tvm_ffi", tokens: copy_of(tvm_ffi) },
        Filling { name: "struct_name", tokens: copy_of(struct_name) },
        Filling { name: "type_key", tokens: copy_of(type_key) },
        Filling { name: "type_final", tokens: finality },
        Filling {
            name: "final_parent_check",
            tokens: expand_final_parent_check(tvm_ffi, fields),
        },
        Filling {
            name: "type_index_tokens",
            tokens: expand_type_index(tvm_ffi, struct_name, type_key, type_index),
        },
        Filling { name: "base_def_tokens", tokens: expand_base(tvm_ffi, fields) },
    ];
    proof {
        let views = field_views(fields@);
        let crate_path = stream_trees(*tvm_ffi);
        assert(fillings(places@) =~= seq![
            filling("tvm_ffi"@, crate_path),
            filling("struct_name"@, stream_trees(*struct_name)),
            filling("type_key"@, stream_trees(*type_key)),
            filling(
                "type_final"@,
                if type_final {
                    lexed(TRUE@)
                } else {
                    lexed(FALSE@)
                },
            ),
            filling("final_parent_check"@, final_parent_check(crate_path, views)),
            filling(
                "type_index_tokens"@,
                type_index_items(
                    crate_path,
                    stream_trees(*struct_name),
                    stream_trees(*type_key),
                    optional_trees(*type_index),
                ),
            ),
            filling("base_def_tokens"@, base_items(crate_path, views)),
        ]);
    }
    fill(lex(OBJECT_CORE), &places)
}

/// What an attribute is set to, if it is there.
pub open spec fn attribute_meta(attributes: Seq<AttributeView>, name: Seq<char>) -> Option<
    Option<MetaView>,
> {
    match named_attribute(attributes, name) {
        Some(attribute) => Some(meta_parsed(attribute.tokens)),
        None => None,
    }
}

/// The expression that an attribute is given, if it is there.
pub open spec fn attribute_args(attributes: Seq<AttributeView>, name: Seq<char>) -> Option<
    Option<Seq<Tree>>,
> {
    match named_attribute(attributes, name) {
        Some(attribute) => Some(args_expr(attribute.tokens)),
        None => None,
    }
}

/// What deriving `Object` for an item gives: code, or the message it fails
/// with.
pub open spec fn derived_object(tvm_ffi: Seq<Tree>, input: DeriveView) -> Result<
    Seq<Tree>,
    Seq<char>,
> {
    let attributes = input.attributes;
    if !has_repr_c(attributes) {
        Ok(reported(repr_c_message("Object"@)))
    } else {
        match type_key_of(attribute_meta(attributes, "type_key"@)) {
            Ok(type_key) => match type_final_of(attribute_meta(attributes, "type_final"@)) {
                Ok(type_final) => match type_index_of(attribute_args(attributes, "type_index"@)) {
                    Ok(type_index) => match input.fields {
                        Some(fields) => Ok(
                            object_core(
                                tvm_ffi,
                                input.ident,
                                type_key,
                                type_final,
                                type_index,
                                fields,
                            ),
                        ),
                        None => Err("First field must be `<base_name>: <ObjectCoreType>`"@),
                    },
                    Err(message) => Err(message),
                },
                Err(message) => Err(message),
            },
            Err(message) => Err(message),
        }
    }
}

/// Code, or a message, as trees and text.
pub open spec fn derived_view(derived: Result<TokenStream, &'static str>) -> Result<
    Seq<Tree>,
    Seq<char>,
> {
    match derived {
        Ok(code) => Ok(stream_trees(code)),
        Err(message) => Err(message@),
    }
}

fn read_meta(attributes: &[AttributeShape], name: &str) -> (meta: Option<Option<MetaShape>>)
    requires
        attributes_known(attributes@),
    ensures
        optional_meta(meta) == attribute_meta(attribute_views(attributes@), name@),
{
    match get_attr(attributes, name) {
        Some(tokens) => Some(parse_meta(tokens)),
        None => None,
    }
}

fn read_args(attributes: &[AttributeShape], name: &str) -> (expr: Option<Option<TokenStream>>)
    requires
        attributes_known(attributes@),
    ensures
        optional_args(expr) == attribute_args(attribute_views(attributes@), name@),
{
    match get_attr(attributes, name) {
        Some(tokens) => Some(parse_args_expr(tokens)),
        None => None,
    }
}

/// Derives `Object` for a parsed item.
pub fn expand_object(tvm_ffi: &TokenStream, derive_input: &DeriveShape) -> (derived: Result<
    TokenStream,
    &'static str,
>)
    requires
        attributes_known(derive_input.attributes@),
    ensures
        derived_view(derived) == derived_object(stream_trees(*tvm_ffi), derive_input@),
        is_derived_object(stream_trees(*tvm_ffi), derive_input@, derived_view(derived)),
{
    proof {
        law_object_is_derived_from_its_item(stream_trees(*tvm_ffi), derive_input@);
    }
    if let Err(report) = require_repr_c(derive_input, "Object") {
        return Ok(report);
    }
    let attributes = derive_input.attributes.as_slice();
    let type_key = match read_type_key(read_meta(attributes, "type_key")) {
        Ok(type_key) => type_key,
        Err(message) => {
            return Err(message);
        },
    };
    let type_final = match read_type_final(read_meta(attributes, "type_final")) {
        Ok(type_final) => type_final,
        Err(message) => {
            return Err(message);
        },
    };
    let type_index = match read_type_index(read_args(attributes, "type_index")) {
        Ok(type_index) => type_index,
        Err(message) => {
            return Err(message);
        },
    };
    match &derive_input.fields {
        Some(fields) => Ok(
            expand_object_core(
                tvm_ffi,
                &derive_input.ident,
                &type_key,
                type_final,
                &type_index,
                fields.as_slice(),
            ),
        ),
        None => Err("First field must be `<base_name>: <ObjectCoreType>`"),
    }
}

/// Derives `Object`: to the implementation of `ObjectCore`, or to a report of
/// what is wrong with the item. Where an attribute or a field that is needed is
/// not there, the message to fail with is returned. `tvm_ffi` is the path of the
/// crate that the code refers to.
pub fn derive_object(tvm_ffi: &TokenStream, input: TokenStream) -> (derived: Result<
    TokenStream,
    &'static str,
>)
    requires
        literals_known(stream_trees(input)),
    ensures
        derived_view(derived) == match derive_parsed(stream_trees(input)) {
            Ok(input) => derived_object(stream_trees(*tvm_ffi), input),
            Err(report) => Ok(report),
        },
        derive_parsed(stream_trees(input)) matches Ok(item) ==> is_derived_object(
            stream_trees(*tvm_ffi),
            item,
            derived_view(derived),
        ),
{
    match parse_derive_input(input) {
        Ok(input) => expand_object(tvm_ffi, &input),
        Err(report) => Ok(report),
    }
}

/// The type of the handle: that of the first field, where its name is `data`.
pub open spec fn data_type(fields: Seq<FieldView>) -> Option<Seq<Tree>> {
    if fields.len() > 0 && fields[0].ident == Some(ident("data"@)) {
        Some(fields[0].ty)
    } else {
        None
    }
}

/// Reads the type of the handle.
pub fn read_data_type(fields: &[FieldShape]) -> (ty: Option<TokenStream>)
    ensures
        optional_trees(ty) == data_type(field_views(fields@)),
{
    if fields.len() == 0 {
        return None;
    }
    assert(field_views(fields@)[0] == fields[0]@);
    match &fields[0].ident {
        Some(data_id) => if is_ident(data_id, "data") {
            Some(copy_of(&fields[0].ty))
        } else {
            None
        },
        None => None,
    }
}

/// The implementations for a type of references. The type `ObjectRef` itself
/// has its conversions elsewhere.
pub open spec fn object_ref(
    tvm_ffi: Seq<Tree>,
    struct_name: Seq<Tree>,
    data_ty: Seq<Tree>,
) -> Seq<Tree> {
    let implementations = filled(
        lexed(OBJECT_REF@),
        seq![
            filling("tvm_ffi"@, tvm_ffi),
            filling("struct_name"@, struct_name),
            filling("data_ty"@, data_ty),
        ],
    );
    if struct_name == ident("ObjectRef"@) {
        implementations
    } else {
        implementations + filled(
            lexed(CONVERSIONS@),
            seq![filling("tvm_ffi"@, tvm_ffi), filling("struct_name"@, struct_name)],
        )
    }
}

/// Writes the implementations for a type of references.
pub fn expand_object_ref(
    tvm_ffi: &TokenStream,
    struct_name: &TokenStream,
    data_ty: TokenStream,
) -> (code: TokenStream)
    ensures
        stream_trees(code) == object_ref(
            stream_trees(*tvm_ffi),
            stream_trees(*struct_name),
            stream_trees(data_ty),
        ),
        declares_object_ref(
            stream_trees(code),
            stream_trees(*tvm_ffi),
            stream_trees(*struct_name),
            stream_trees(data_ty),
        ),
{
    proof {
        law_object_ref_is_declared(
            stream_trees(*tvm_ffi),
            stream_trees(*struct_name),
            stream_trees(data_ty),
        );
    }
    let ghost data_trees = stream_trees(data_ty);
    let places = [
        Filling { name: "tvm_ffi", tokens: copy_of(tvm_ffi) },
        Filling { name: "struct_name", tokens: copy_of(struct_name) },
        Filling { name: "data_ty", tokens: data_ty },
    ];
    assert(fillings(places@) =~= seq![
        filling("tvm_ffi"@, stream_trees(*tvm_ffi)),
        filling("struct_name"@, stream_trees(*struct_name)),
        filling("data_ty"@, data_trees),
    ]);
    let mut code = fill(lex(OBJECT_REF), &places);
    if !is_ident(struct_name, "ObjectRef") {
        let places = [
            Filling { name: "tvm_ffi", tokens: copy_of(tvm_ffi) },
            Filling { name: "struct_name", tokens: copy_of(struct_name) },
        ];
        assert(fillings(places@) =~= seq![
            filling("tvm_ffi"@, stream_trees(*tvm_ffi)),
            filling("struct_name"@, stream_trees(*struct_name)),
        ]);
        append(&mut code, fill(lex(CONVERSIONS), &places));
    }
    code
}

/// What deriving `ObjectRef` for an item gives: code, or the message it fails
/// with.
pub open spec fn derived_object_ref(tvm_ffi: Seq<Tree>, input: DeriveView) -> Result<
    Seq<Tree>,
    Seq<char>,
> {
    match input.fields {
        Some(fields) => match data_type(fields) {
            Some(data_ty) => Ok(object_ref(tvm_ffi, input.ident, data_ty)),
            None => Err("First field must be `data: ObjectArc<T>`"@),
        },
        None => Err("derive only works for structs"@),
    }
}

/// Derives `ObjectRef` for a parsed item.
pub fn expand_derived_ref(tvm_ffi: &TokenStream, derive_input: &DeriveShape) -> (derived: Result<
    TokenStream,
    &'static str,
>)
    ensures
        derived_view(derived) == derived_object_ref(stream_trees(*tvm_ffi), derive_input@),
        is_derived_object_ref(stream_trees(*tvm_ffi), derive_input@, derived_view(derived)),
{
    proof {
        law_object_ref_is_derived_from_its_item(stream_trees(*tvm_ffi), derive_input@);
    }
    match &derive_input.fields {
        Some(fields) => match read_data_type(fields.as_slice()) {
            Some(data_ty) => Ok(expand_object_ref(tvm_ffi, &derive_input.ident, data_ty)),
            None => Err("First field must be `data: ObjectArc<T>`"),
        },
        None => Err("derive only works for structs"),
    }
}

/// Derives `ObjectRef`: to the implementations of `ObjectRefCore` and
/// `AnyCompatible` and the conversions, or to a report of what is wrong with the
/// item. Where it is no struct, or its first field is not `data`, the message to
/// fail with is returned. `tvm_ffi` is the path of the crate that the code
/// refers to.
pub fn derive_object_ref(tvm_ffi: &TokenStream, input: TokenStream) -> (derived: Result<
    TokenStream,
    &'static str,
>)
    requires
        literals_known(stream_trees(input)),
    ensures
        derived_view(derived) == match derive_parsed(stream_trees(input)) {
            Ok(input) => derived_object_ref(stream_trees(*tvm_ffi), input),
            Err(report) => Ok(report),
        },
        derive_parsed(stream_trees(input)) matches Ok(item) ==> is_derived_object_ref(
            stream_trees(*tvm_ffi),
            item,
            derived_view(derived),
        ),
{
    match parse_derive_input(input) {
        Ok(input) => expand_derived_ref(tvm_ffi, &input),
        Err(report) => Ok(report),
    }
}

} // verus!
