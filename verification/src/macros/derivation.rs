//! What the derived implementations take from which part of an item.

use crate::macros::object_macros::{
    attribute_args, attribute_meta, base_items, derived_object, derived_object_ref,
    final_parent_check, has_repr_c, lists_c, named_attribute, object_core, object_ref,
    repr_c_message, type_final_of, type_index_items, type_index_of, type_key_of,
};
use crate::macros::syntax::{
    args_expr, meta_parsed, reported, AttributeView, DeriveView, FieldView, MetaView,
};
use crate::macros::template::{
    filled, filling, first_filling, law_place_has_its_first_filling, place, FillingView,
};
use crate::macros::templates::{
    lexed, made_from, BASE, CONVERSIONS, DYNAMIC_INDEX, FALSE, FINAL_PARENT, OBJECT_CORE,
    OBJECT_REF, STATIC_INDEX, TRUE,
};
use crate::macros::tokens::{ident, Tree};
use vstd::prelude::*;

verus! {

//-----------------------------------------------------
// Attributes
//-----------------------------------------------------
/// The item has an attribute of that name.
pub open spec fn has_attribute(attributes: Seq<AttributeView>, name: Seq<char>) -> bool {
    exists|i: int| 0 <= i < attributes.len() && (#[trigger] attributes[i]).path == ident(name)
}

/// `at` is where the first attribute of that name stands.
pub open spec fn first_attribute(
    attributes: Seq<AttributeView>,
    name: Seq<char>,
    at: int,
) -> bool {
    &&& 0 <= at < attributes.len()
    &&& attributes[at].path == ident(name)
    &&& forall|i: int| 0 <= i < at ==> (#[trigger] attributes[i]).path != ident(name)
}

/// An attribute is found exactly if the item has one of that name, and it is the
/// first of them.
pub proof fn law_first_attribute_is_found(attributes: Seq<AttributeView>, name: Seq<char>)
    ensures
        named_attribute(attributes, name) is Some <==> has_attribute(attributes, name),
        forall|at: int| #[trigger]
            first_attribute(attributes, name, at) ==> named_attribute(attributes, name) == Some(
                attributes[at],
            ),
        has_attribute(attributes, name) ==> exists|at: int| #[trigger]
            first_attribute(attributes, name, at),
    decreases attributes.len(),
{
    if attributes.len() > 0 {
        let others = attributes.drop_first();
        law_first_attribute_is_found(others, name);
        if attributes[0].path == ident(name) {
            assert(first_attribute(attributes, name, 0));
        } else {
            assert forall|at: int| #[trigger]
                first_attribute(attributes, name, at) implies named_attribute(attributes, name)
                == Some(attributes[at]) by {
                assert forall|i: int| 0 <= i < at - 1 implies (#[trigger] others[i]).path != ident(
                    name,
                ) by {
                    assert(attributes[i + 1].path != ident(name));
                }
                assert(first_attribute(others, name, at - 1));
            }
            if has_attribute(attributes, name) {
                let i = choose|i: int|
                    0 <= i < attributes.len() && (#[trigger] attributes[i]).path == ident(name);
                assert(others[i - 1].path == ident(name));
                assert(has_attribute(others, name));
                let at = choose|at: int| #[trigger] first_attribute(others, name, at);
                assert forall|i: int| 0 <= i < at + 1 implies (#[trigger] attributes[i]).path
                    != ident(name) by {
                    if i > 0 {
                        assert(others[i - 1].path != ident(name));
                    }
                }
                assert(attributes[at + 1] == others[at]);
                assert(first_attribute(attributes, name, at + 1));
            }
            if has_attribute(others, name) {
                let i = choose|i: int|
                    0 <= i < others.len() && (#[trigger] others[i]).path == ident(name);
                assert(attributes[i + 1].path == ident(name));
            }
        }
    }
}

/// The first attribute of that name is set to `meta`.
pub open spec fn is_set_to(
    attributes: Seq<AttributeView>,
    name: Seq<char>,
    meta: Option<MetaView>,
) -> bool {
    exists|at: int| #[trigger]
        first_attribute(attributes, name, at) && meta_parsed(attributes[at].tokens) == meta
}

/// The first attribute of that name is given `expr`.
pub open spec fn is_given(
    attributes: Seq<AttributeView>,
    name: Seq<char>,
    expr: Option<Seq<Tree>>,
) -> bool {
    exists|at: int| #[trigger]
        first_attribute(attributes, name, at) && args_expr(attributes[at].tokens) == expr
}

/// An item is `#[repr(C)]` if any of its attributes says so.
pub open spec fn is_repr_c(attributes: Seq<AttributeView>) -> bool {
    exists|i: int, items: Seq<Seq<Tree>>, k: int|
        #![trigger attributes[i], items[k]]
        {
            &&& 0 <= i < attributes.len()
            &&& attributes[i].path == ident("repr"@)
            &&& meta_parsed(attributes[i].tokens) == Some(MetaView::List(items))
            &&& 0 <= k < items.len()
            &&& items[k] == ident("C"@)
        }
}

proof fn lemma_repr_c(attributes: Seq<AttributeView>)
    ensures
        has_repr_c(attributes) <==> is_repr_c(attributes),
{
    if has_repr_c(attributes) {
        let i = choose|i: int|
            0 <= i < attributes.len() && (#[trigger] attributes[i]).path == ident("repr"@)
                && lists_c(meta_parsed(attributes[i].tokens));
        match meta_parsed(attributes[i].tokens) {
            Some(MetaView::List(items)) => {
                let k = choose|k: int| 0 <= k < items.len() && items[k] == ident("C"@);
                assert(attributes[i].path == ident("repr"@) && items[k] == ident("C"@));
            },
            _ => {},
        }
    }
    if is_repr_c(attributes) {
        let (i, items, k) = choose|i: int, items: Seq<Seq<Tree>>, k: int|
            #![trigger attributes[i], items[k]]
            {
                &&& 0 <= i < attributes.len()
                &&& attributes[i].path == ident("repr"@)
                &&& meta_parsed(attributes[i].tokens) == Some(MetaView::List(items))
                &&& 0 <= k < items.len()
                &&& items[k] == ident("C"@)
            };
        assert(items.contains(ident("C"@)));
        assert(attributes[i].path == ident("repr"@));
    }
}

//-----------------------------------------------------
// `Object`
//-----------------------------------------------------
/// The type index is that of the expression where there is one, and otherwise
/// looked up by the key.
pub open spec fn declares_type_index(
    items: Seq<Tree>,
    tvm_ffi: Seq<Tree>,
    struct_name: Seq<Tree>,
    type_key: Seq<Tree>,
    type_index: Option<Seq<Tree>>,
) -> bool {
    match type_index {
        Some(expr) => exists|places: Seq<FillingView>| #[trigger]
            made_from(items, STATIC_INDEX@, places) && place(places, "type_index_expr"@) == Some(
                expr,
            ),
        None => exists|places: Seq<FillingView>|
            {
                &&& #[trigger] made_from(items, DYNAMIC_INDEX@, places)
                &&& place(places, "tvm_ffi"@) == Some(tvm_ffi)
                &&& place(places, "struct_name"@) == Some(struct_name)
                &&& place(places, "type_key"@) == Some(type_key)
            },
    }
}

/// It is checked that the type of the first field is not final.
pub open spec fn checks_parent(
    items: Seq<Tree>,
    tvm_ffi: Seq<Tree>,
    fields: Seq<FieldView>,
) -> bool {
    if fields.len() == 0 {
        items.len() == 0
    } else {
        exists|places: Seq<FillingView>|
            {
                &&& #[trigger] made_from(items, FINAL_PARENT@, places)
                &&& place(places, "tvm_ffi"@) == Some(tvm_ffi)
                &&& place(places, "base_ty"@) == Some(fields[0].ty)
            }
    }
}

/// The base is the first field, where that has a name.
pub open spec fn declares_base(
    items: Seq<Tree>,
    tvm_ffi: Seq<Tree>,
    fields: Seq<FieldView>,
) -> bool {
    if fields.len() > 0 && fields[0].ident is Some {
        exists|places: Seq<FillingView>|
            {
                &&& #[trigger] made_from(items, BASE@, places)
                &&& place(places, "tvm_ffi"@) == Some(tvm_ffi)
                &&& place(places, "base_ty"@) == Some(fields[0].ty)
                &&& place(places, "base_id"@) == fields[0].ident
            }
    } else {
        items.len() == 0
    }
}

/// The fillings declare an object type, each of its properties for itself.
pub open spec fn declares_properties(
    places: Seq<FillingView>,
    tvm_ffi: Seq<Tree>,
    struct_name: Seq<Tree>,
    type_key: Seq<Tree>,
    type_final: bool,
    type_index: Option<Seq<Tree>>,
    fields: Seq<FieldView>,
) -> bool {
    &&& place(places, "tvm_ffi"@) == Some(tvm_ffi)
    &&& place(places, "struct_name"@) == Some(struct_name)
    &&& place(places, "type_key"@) == Some(type_key)
    &&& type_final ==> place(places, "type_final"@) == Some(lexed(TRUE@))
    &&& !type_final ==> place(places, "type_final"@) == Some(lexed(FALSE@))
    &&& place(places, "type_index_tokens"@) is Some
    &&& declares_type_index(
        place(places, "type_index_tokens"@)->0,
        tvm_ffi,
        struct_name,
        type_key,
        type_index,
    )
    &&& place(places, "final_parent_check"@) is Some
    &&& checks_parent(place(places, "final_parent_check"@)->0, tvm_ffi, fields)
    &&& place(places, "base_def_tokens"@) is Some
    &&& declares_base(place(places, "base_def_tokens"@)->0, tvm_ffi, fields)
}

/// The code declares an object type, each of its properties for itself.
pub open spec fn declares_object(
    code: Seq<Tree>,
    tvm_ffi: Seq<Tree>,
    struct_name: Seq<Tree>,
    type_key: Seq<Tree>,
    type_final: bool,
    type_index: Option<Seq<Tree>>,
    fields: Seq<FieldView>,
) -> bool {
    exists|places: Seq<FillingView>|
        {
            &&& #[trigger] made_from(code, OBJECT_CORE@, places)
            &&& declares_properties(
                places,
                tvm_ffi,
                struct_name,
                type_key,
                type_final,
                type_index,
                fields,
            )
        }
}

proof fn lemma_type_index(
    tvm_ffi: Seq<Tree>,
    struct_name: Seq<Tree>,
    type_key: Seq<Tree>,
    type_index: Option<Seq<Tree>>,
)
    ensures
        declares_type_index(
            type_index_items(tvm_ffi, struct_name, type_key, type_index),
            tvm_ffi,
            struct_name,
            type_key,
            type_index,
        ),
{
    let items = type_index_items(tvm_ffi, struct_name, type_key, type_index);
    match type_index {
        Some(expr) => {
            let places = seq![filling("type_index_expr"@, expr)];
            law_place_has_its_first_filling(places, "type_index_expr"@);
            assert(first_filling(places, "type_index_expr"@, 0));
            assert(made_from(items, STATIC_INDEX@, places));
        },
        None => {
            let places = seq![
                filling("tvm_ffi"@, tvm_ffi),
                filling("struct_name"@, struct_name),
                filling("type_key"@, type_key),
            ];
            reveal_strlit("tvm_ffi");
            reveal_strlit("struct_name");
            reveal_strlit("type_key");
            assert("tvm_ffi"@.len() == 7);
            assert("struct_name"@.len() == 11);
            assert("type_key"@.len() == 8);
            law_place_has_its_first_filling(places, "tvm_ffi"@);
            law_place_has_its_first_filling(places, "struct_name"@);
            law_place_has_its_first_filling(places, "type_key"@);
            assert(first_filling(places, "tvm_ffi"@, 0));
            assert(first_filling(places, "struct_name"@, 1));
            assert(first_filling(places, "type_key"@, 2));
            assert(made_from(items, DYNAMIC_INDEX@, places));
        },
    }
}

proof fn lemma_parent(tvm_ffi: Seq<Tree>, fields: Seq<FieldView>)
    ensures
        checks_parent(final_parent_check(tvm_ffi, fields), tvm_ffi, fields),
        declares_base(base_items(tvm_ffi, fields), tvm_ffi, fields),
{
    reveal_strlit("tvm_ffi");
    reveal_strlit("base_ty");
    reveal_strlit("base_id");
    assert("tvm_ffi"@.len() == 7);
    assert("base_ty"@.len() == 7);
    assert("base_id"@.len() == 7);
    assert("tvm_ffi"@[0] != "base_ty"@[0]);
    assert("tvm_ffi"@[0] != "base_id"@[0]);
    assert("base_ty"@[5] != "base_id"@[5]);
    if fields.len() > 0 {
        let places = seq![filling("tvm_ffi"@, tvm_ffi), filling("base_ty"@, fields[0].ty)];
        law_place_has_its_first_filling(places, "tvm_ffi"@);
        law_place_has_its_first_filling(places, "base_ty"@);
        assert(first_filling(places, "tvm_ffi"@, 0));
        assert(first_filling(places, "base_ty"@, 1));
        assert(made_from(final_parent_check(tvm_ffi, fields), FINAL_PARENT@, places));
        if let Some(base_id) = fields[0].ident {
            let places = seq![
                filling("tvm_ffi"@, tvm_ffi),
                filling("base_ty"@, fields[0].ty),
                filling("base_id"@, base_id),
            ];
            law_place_has_its_first_filling(places, "tvm_ffi"@);
            law_place_has_its_first_filling(places, "base_ty"@);
            law_place_has_its_first_filling(places, "base_id"@);
            assert(first_filling(places, "tvm_ffi"@, 0));
            assert(first_filling(places, "base_ty"@, 1));
            assert(first_filling(places, "base_id"@, 2));
            assert(made_from(base_items(tvm_ffi, fields), BASE@, places));
        }
    }
}

/// Each property of an object type stands in its own place of the code: whether it
/// is final does not depend on its index, its key or its fields, and so on.
pub proof fn law_properties_are_declared_apart(
    tvm_ffi: Seq<Tree>,
    struct_name: Seq<Tree>,
    type_key: Seq<Tree>,
    type_final: bool,
    type_index: Option<Seq<Tree>>,
    fields: Seq<FieldView>,
)
    ensures
        declares_object(
            object_core(tvm_ffi, struct_name, type_key, type_final, type_index, fields),
            tvm_ffi,
            struct_name,
            type_key,
            type_final,
            type_index,
            fields,
        ),
{
    let code = object_core(tvm_ffi, struct_name, type_key, type_final, type_index, fields);
    let places = seq![
        filling("tvm_ffi"@, tvm_ffi),
        filling("struct_name"@, struct_name),
        filling("type_key"@, type_key),
        filling(
            "type_final"@,
            if type_final {
                lexed(TRUE@)
            } else {
                lexed(FALSE@)
            },
        ),
        filling("final_parent_check"@, final_parent_check(tvm_ffi, fields)),
        filling(
            "type_index_tokens"@,
            type_index_items(tvm_ffi, struct_name, type_key, type_index),
        ),
        filling("base_def_tokens"@, base_items(tvm_ffi, fields)),
    ];
    reveal_strlit("tvm_ffi");
    reveal_strlit("struct_name");
    reveal_strlit("type_key");
    reveal_strlit("type_final");
    reveal_strlit("final_parent_check");
    reveal_strlit("type_index_tokens");
    reveal_strlit("base_def_tokens");
    assert("tvm_ffi"@.len() == 7);
    assert("struct_name"@.len() == 11);
    assert("type_key"@.len() == 8);
    assert("type_final"@.len() == 10);
    assert("final_parent_check"@.len() == 18);
    assert("type_index_tokens"@.len() == 17);
    assert("base_def_tokens"@.len() == 15);
    law_place_has_its_first_filling(places, "tvm_ffi"@);
    law_place_has_its_first_filling(places, "struct_name"@);
    law_place_has_its_first_filling(places, "type_key"@);
    law_place_has_its_first_filling(places, "type_final"@);
    law_place_has_its_first_filling(places, "final_parent_check"@);
    law_place_has_its_first_filling(places, "type_index_tokens"@);
    law_place_has_its_first_filling(places, "base_def_tokens"@);
    assert(first_filling(places, "tvm_ffi"@, 0));
    assert(first_filling(places, "struct_name"@, 1));
    assert(first_filling(places, "type_key"@, 2));
    assert(first_filling(places, "type_final"@, 3));
    assert(first_filling(places, "final_parent_check"@, 4));
    assert(first_filling(places, "type_index_tokens"@, 5));
    assert(first_filling(places, "base_def_tokens"@, 6));
    lemma_type_index(tvm_ffi, struct_name, type_key, type_index);
    lemma_parent(tvm_ffi, fields);
    assert(made_from(code, OBJECT_CORE@, places));
}

/// `derived` is what deriving `Object` owes an item.
///
/// The key is what `type_key` is set to, the type is final exactly if there is a
/// `type_final`, and its index is fixed exactly if there is a `type_index`. What is
/// missing is found out in this order.
pub open spec fn is_derived_object(
    tvm_ffi: Seq<Tree>,
    input: DeriveView,
    derived: Result<Seq<Tree>, Seq<char>>,
) -> bool {
    let attributes = input.attributes;
    let keyed = exists|key: Seq<Tree>| #[trigger]
        is_set_to(attributes, "type_key"@, Some(MetaView::Text(key)));
    let final_is_bare = has_attribute(attributes, "type_final"@) ==> is_set_to(
        attributes,
        "type_final"@,
        Some(MetaView::Path),
    );
    let index_is_given = has_attribute(attributes, "type_index"@) ==> !is_given(
        attributes,
        "type_index"@,
        None,
    );
    if !is_repr_c(attributes) {
        derived == Ok::<Seq<Tree>, Seq<char>>(reported(repr_c_message("Object"@)))
    } else if !keyed {
        derived == Err::<Seq<Tree>, Seq<char>>(
            "Expect #[type_key = \"<my_type_key>\"] attribute"@,
        )
    } else if !final_is_bare {
        derived == Err::<Seq<Tree>, Seq<char>>("Expect #[type_final] attribute"@)
    } else if !index_is_given {
        derived == Err::<Seq<Tree>, Seq<char>>(
            "Expect #[type_index(TypeIndex::<my_type_index>)] attribute"@,
        )
    } else if input.fields is None {
        derived == Err::<Seq<Tree>, Seq<char>>(
            "First field must be `<base_name>: <ObjectCoreType>`"@,
        )
    } else {
        &&& derived is Ok
        &&& forall|key: Seq<Tree>| #[trigger]
            is_set_to(attributes, "type_key"@, Some(MetaView::Text(key))) ==> {
                &&& !has_attribute(attributes, "type_index"@) ==> declares_object(
                    derived->Ok_0,
                    tvm_ffi,
                    input.ident,
                    key,
                    has_attribute(attributes, "type_final"@),
                    None,
                    input.fields->0,
                )
                &&& forall|expr: Seq<Tree>| #[trigger]
                    is_given(attributes, "type_index"@, Some(expr)) ==> declares_object(
                        derived->Ok_0,
                        tvm_ffi,
                        input.ident,
                        key,
                        has_attribute(attributes, "type_final"@),
                        Some(expr),
                        input.fields->0,
                    )
            }
    }
}

proof fn lemma_attribute_meta(attributes: Seq<AttributeView>, name: Seq<char>)
    ensures
        attribute_meta(attributes, name) is Some <==> has_attribute(attributes, name),
        attribute_args(attributes, name) is Some <==> has_attribute(attributes, name),
        forall|meta: Option<MetaView>| #[trigger]
            is_set_to(attributes, name, meta) <==> attribute_meta(attributes, name) == Some(meta),
        forall|expr: Option<Seq<Tree>>| #[trigger]
            is_given(attributes, name, expr) <==> attribute_args(attributes, name) == Some(expr),
{
    law_first_attribute_is_found(attributes, name);
    if has_attribute(attributes, name) {
        let at = choose|at: int| #[trigger] first_attribute(attributes, name, at);
        assert(first_attribute(attributes, name, at));
        assert(is_set_to(attributes, name, meta_parsed(attributes[at].tokens)));
        assert(is_given(attributes, name, args_expr(attributes[at].tokens)));
    } else {
        assert forall|at: int| !(#[trigger] first_attribute(attributes, name, at)) by {
            if first_attribute(attributes, name, at) {
                assert(attributes[at].path == ident(name));
            }
        }
    }
}

/// Deriving `Object` takes every property of the type from the attribute or the
/// field that it belongs to, and from nothing else.
pub proof fn law_object_is_derived_from_its_item(tvm_ffi: Seq<Tree>, input: DeriveView)
    ensures
        is_derived_object(tvm_ffi, input, derived_object(tvm_ffi, input)),
{
    let attributes = input.attributes;
    lemma_repr_c(attributes);
    lemma_attribute_meta(attributes, "type_key"@);
    lemma_attribute_meta(attributes, "type_final"@);
    lemma_attribute_meta(attributes, "type_index"@);
    match type_key_of(attribute_meta(attributes, "type_key"@)) {
        Ok(type_key) => {
            assert(is_set_to(attributes, "type_key"@, Some(MetaView::Text(type_key))));
            if let Some(fields) = input.fields {
                match type_index_of(attribute_args(attributes, "type_index"@)) {
                    Ok(type_index) => {
                        law_properties_are_declared_apart(
                            tvm_ffi,
                            input.ident,
                            type_key,
                            has_attribute(attributes, "type_final"@),
                            type_index,
                            fields,
                        );
                    },
                    Err(_) => {},
                }
            }
        },
        Err(_) => {},
    }
}

proof fn lemma_other_attribute(
    attributes: Seq<AttributeView>,
    at: int,
    attribute: AttributeView,
    name: Seq<char>,
)
    requires
        0 <= at <= attributes.len(),
        attribute.path != ident(name),
    ensures
        named_attribute(attributes.insert(at, attribute), name) == named_attribute(
            attributes,
            name,
        ),
    decreases attributes.len(),
{
    let more = attributes.insert(at, attribute);
    if at == 0 {
        assert(more[0] == attribute);
        assert(more.drop_first() =~= attributes);
    } else {
        assert(more[0] == attributes[0]);
        assert(more.drop_first() =~= attributes.drop_first().insert(at - 1, attribute));
        lemma_other_attribute(attributes.drop_first(), at - 1, attribute, name);
    }
}

proof fn lemma_other_than_repr(attributes: Seq<AttributeView>, at: int, attribute: AttributeView)
    requires
        0 <= at <= attributes.len(),
        attribute.path != ident("repr"@),
    ensures
        has_repr_c(attributes.insert(at, attribute)) == has_repr_c(attributes),
{
    let more = attributes.insert(at, attribute);
    if has_repr_c(attributes) {
        let i = choose|i: int|
            0 <= i < attributes.len() && (#[trigger] attributes[i]).path == ident("repr"@)
                && lists_c(meta_parsed(attributes[i].tokens));
        let j = if i < at {
            i
        } else {
            i + 1
        };
        assert(more[j] == attributes[i]);
    }
    if has_repr_c(more) {
        let j = choose|j: int|
            0 <= j < more.len() && (#[trigger] more[j]).path == ident("repr"@) && lists_c(
                meta_parsed(more[j].tokens),
            );
        assert(j != at);
        let i = if j < at {
            j
        } else {
            j - 1
        };
        assert(more[j] == attributes[i]);
    }
}

/// Two pieces of code declare object types that have everything in common but their
/// index.
pub open spec fn differ_in_type_index_only(one: Seq<Tree>, other: Seq<Tree>) -> bool {
    exists|places: Seq<FillingView>, other_places: Seq<FillingView>|
        {
            &&& #[trigger] made_from(one, OBJECT_CORE@, places)
            &&& #[trigger] made_from(other, OBJECT_CORE@, other_places)
            &&& forall|name: Seq<char>|
                name != "type_index_tokens"@ ==> #[trigger] place(places, name) == place(
                    other_places,
                    name,
                )
        }
}

/// A fixed index bears on the index alone: with `#[type_index(..)]` and without it,
/// an item is derived to the same code, `TYPE_FINAL` and all, but for the index.
pub proof fn law_type_index_bears_on_nothing_else(
    tvm_ffi: Seq<Tree>,
    input: DeriveView,
    at: int,
    attribute: AttributeView,
)
    requires
        0 <= at <= input.attributes.len(),
        !has_attribute(input.attributes, "type_index"@),
        attribute.path == ident("type_index"@),
    ensures
        ({
            let indexed = DeriveView {
                ident: input.ident,
                attributes: input.attributes.insert(at, attribute),
                fields: input.fields,
            };
            match (derived_object(tvm_ffi, input), derived_object(tvm_ffi, indexed)) {
                (Ok(code), Ok(indexed_code)) => {
                    ||| code == indexed_code
                    ||| differ_in_type_index_only(code, indexed_code)
                },
                (Err(message), Err(indexed_message)) => {
                    ||| message == indexed_message
                    ||| args_expr(attribute.tokens) is None
                },
                (Ok(_), Err(_)) => args_expr(attribute.tokens) is None,
                (Err(_), Ok(_)) => false,
            }
        }),
{
    let attributes = input.attributes;
    let more = attributes.insert(at, attribute);
    reveal_strlit("repr");
    reveal_strlit("type_key");
    reveal_strlit("type_final");
    reveal_strlit("type_index");
    assert("repr"@.len() == 4);
    assert("type_key"@.len() == 8);
    assert("type_final"@.len() == 10);
    assert("type_index"@.len() == 10);
    assert("type_final"@[5] != "type_index"@[5]);
    assert(ident("type_index"@)[0] == Tree::Ident("type_index"@));
    assert(ident("type_key"@)[0] == Tree::Ident("type_key"@));
    assert(ident("type_final"@)[0] == Tree::Ident("type_final"@));
    assert(ident("repr"@)[0] == Tree::Ident("repr"@));
    lemma_other_attribute(attributes, at, attribute, "type_key"@);
    lemma_other_attribute(attributes, at, attribute, "type_final"@);
    lemma_other_than_repr(attributes, at, attribute);
    law_first_attribute_is_found(attributes, "type_index"@);
    law_first_attribute_is_found(more, "type_index"@);
    assert(more[at] == attribute);
    assert forall|i: int| 0 <= i < at implies (#[trigger] more[i]).path != ident(
        "type_index"@,
    ) by {
        assert(more[i] == attributes[i]);
    }
    assert(first_attribute(more, "type_index"@, at));
    if has_repr_c(attributes) {
        match (
            type_key_of(attribute_meta(attributes, "type_key"@)),
            type_final_of(attribute_meta(attributes, "type_final"@)),
            input.fields,
        ) {
            (Ok(type_key), Ok(type_final), Some(fields)) => {
                match (
                    type_index_of(attribute_args(attributes, "type_index"@)),
                    type_index_of(attribute_args(more, "type_index"@)),
                ) {
                    (Ok(one), Ok(other)) => {
                        lemma_type_indices_differ(
                            tvm_ffi,
                            input.ident,
                            type_key,
                            type_final,
                            one,
                            other,
                            fields,
                        );
                    },
                    _ => {},
                }
            },
            _ => {},
        }
    }
}

proof fn lemma_type_indices_differ(
    tvm_ffi: Seq<Tree>,
    struct_name: Seq<Tree>,
    type_key: Seq<Tree>,
    type_final: bool,
    one: Option<Seq<Tree>>,
    other: Option<Seq<Tree>>,
    fields: Seq<FieldView>,
)
    ensures
        differ_in_type_index_only(
            object_core(tvm_ffi, struct_name, type_key, type_final, one, fields),
            object_core(tvm_ffi, struct_name, type_key, type_final, other, fields),
        ),
{
    let places = seq![
        filling("tvm_ffi"@, tvm_ffi),
        filling("struct_name"@, struct_name),
        filling("type_key"@, type_key),
        filling(
            "type_final"@,
            if type_final {
                lexed(TRUE@)
            } else {
                lexed(FALSE@)
            },
        ),
        filling("final_parent_check"@, final_parent_check(tvm_ffi, fields)),
        filling(
            "type_index_tokens"@,
            type_index_items(tvm_ffi, struct_name, type_key, one),
        ),
        filling("base_def_tokens"@, base_items(tvm_ffi, fields)),
    ];
    let index = filling(
        "type_index_tokens"@,
        type_index_items(tvm_ffi, struct_name, type_key, other),
    );
    let other_places = places.update(5, index);
    assert(other_places =~= seq![
        places[0],
        places[1],
        places[2],
        places[3],
        places[4],
        index,
        places[6],
    ]);
    assert(made_from(
        object_core(tvm_ffi, struct_name, type_key, type_final, one, fields),
        OBJECT_CORE@,
        places,
    ));
    assert(made_from(
        object_core(tvm_ffi, struct_name, type_key, type_final, other, fields),
        OBJECT_CORE@,
        other_places,
    ));
    assert forall|name: Seq<char>| name != "type_index_tokens"@ implies #[trigger] place(
        places,
        name,
    ) == place(other_places, name) by {
        lemma_other_filling(places, 5, index, name);
    }
}

proof fn lemma_other_filling(
    places: Seq<FillingView>,
    at: int,
    changed: FillingView,
    name: Seq<char>,
)
    requires
        0 <= at < places.len(),
        places[at].name != name,
        changed.name != name,
    ensures
        place(places.update(at, changed), name) == place(places, name),
    decreases places.len(),
{
    let updated = places.update(at, changed);
    if at == 0 {
        assert(updated.drop_first() =~= places.drop_first());
    } else {
        assert(updated.drop_first() =~= places.drop_first().update(at - 1, changed));
        lemma_other_filling(places.drop_first(), at - 1, changed, name);
    }
}

//-----------------------------------------------------
// `ObjectRef`
//-----------------------------------------------------
/// The code is made of two parts: the implementations for a type of references, and
/// its conversions, which the type `ObjectRef` has elsewhere.
pub open spec fn declares_object_ref(
    code: Seq<Tree>,
    tvm_ffi: Seq<Tree>,
    struct_name: Seq<Tree>,
    data_ty: Seq<Tree>,
) -> bool {
    exists|implementations: Seq<Tree>, conversions: Seq<Tree>|
        {
            &&& code == #[trigger] (implementations + conversions)
            &&& implements_object_ref(implementations, tvm_ffi, struct_name, data_ty)
            &&& struct_name == ident("ObjectRef"@) ==> conversions.len() == 0
            &&& struct_name != ident("ObjectRef"@) ==> declares_conversions(
                conversions,
                tvm_ffi,
                struct_name,
            )
        }
}

pub open spec fn implements_object_ref(
    code: Seq<Tree>,
    tvm_ffi: Seq<Tree>,
    struct_name: Seq<Tree>,
    data_ty: Seq<Tree>,
) -> bool {
    exists|places: Seq<FillingView>|
        {
            &&& #[trigger] made_from(code, OBJECT_REF@, places)
            &&& place(places, "tvm_ffi"@) == Some(tvm_ffi)
            &&& place(places, "struct_name"@) == Some(struct_name)
            &&& place(places, "data_ty"@) == Some(data_ty)
        }
}

pub open spec fn declares_conversions(
    code: Seq<Tree>,
    tvm_ffi: Seq<Tree>,
    struct_name: Seq<Tree>,
) -> bool {
    exists|places: Seq<FillingView>|
        {
            &&& #[trigger] made_from(code, CONVERSIONS@, places)
            &&& place(places, "tvm_ffi"@) == Some(tvm_ffi)
            &&& place(places, "struct_name"@) == Some(struct_name)
        }
}

/// `derived` is what deriving `ObjectRef` owes an item: a struct whose first field is
/// `data` refers to what `data` holds.
pub open spec fn is_derived_object_ref(
    tvm_ffi: Seq<Tree>,
    input: DeriveView,
    derived: Result<Seq<Tree>, Seq<char>>,
) -> bool {
    match input.fields {
        None => derived == Err::<Seq<Tree>, Seq<char>>("derive only works for structs"@),
        Some(fields) => if fields.len() > 0 && fields[0].ident == Some(ident("data"@)) {
            &&& derived is Ok
            &&& declares_object_ref(derived->Ok_0, tvm_ffi, input.ident, fields[0].ty)
        } else {
            derived == Err::<Seq<Tree>, Seq<char>>("First field must be `data: ObjectArc<T>`"@)
        },
    }
}

/// The code for a type of references is for that type and for what it holds, and its
/// conversions are there unless it is `ObjectRef`.
pub proof fn law_object_ref_is_declared(
    tvm_ffi: Seq<Tree>,
    struct_name: Seq<Tree>,
    data_ty: Seq<Tree>,
)
    ensures
        declares_object_ref(
            object_ref(tvm_ffi, struct_name, data_ty),
            tvm_ffi,
            struct_name,
            data_ty,
        ),
{
    reveal_strlit("tvm_ffi");
    reveal_strlit("struct_name");
    reveal_strlit("data_ty");
    assert("tvm_ffi"@.len() == 7);
    assert("struct_name"@.len() == 11);
    assert("data_ty"@.len() == 7);
    assert("tvm_ffi"@[0] != "data_ty"@[0]);
    let places = seq![
        filling("tvm_ffi"@, tvm_ffi),
        filling("struct_name"@, struct_name),
        filling("data_ty"@, data_ty),
    ];
    let implementations = filled(lexed(OBJECT_REF@), places);
    law_place_has_its_first_filling(places, "tvm_ffi"@);
    law_place_has_its_first_filling(places, "struct_name"@);
    law_place_has_its_first_filling(places, "data_ty"@);
    assert(first_filling(places, "tvm_ffi"@, 0));
    assert(first_filling(places, "struct_name"@, 1));
    assert(first_filling(places, "data_ty"@, 2));
    assert(made_from(implementations, OBJECT_REF@, places));
    let code = object_ref(tvm_ffi, struct_name, data_ty);
    if struct_name == ident("ObjectRef"@) {
        assert(code =~= implementations + Seq::<Tree>::empty());
    } else {
        let places = seq![filling("tvm_ffi"@, tvm_ffi), filling("struct_name"@, struct_name)];
        let conversions = filled(lexed(CONVERSIONS@), places);
        law_place_has_its_first_filling(places, "tvm_ffi"@);
        law_place_has_its_first_filling(places, "struct_name"@);
        assert(first_filling(places, "tvm_ffi"@, 0));
        assert(first_filling(places, "struct_name"@, 1));
        assert(made_from(conversions, CONVERSIONS@, places));
        assert(code == implementations + conversions);
    }
}

/// Deriving `ObjectRef` works for structs whose first field is `data`, and for no
/// other item.
pub proof fn law_object_ref_is_derived_from_its_item(tvm_ffi: Seq<Tree>, input: DeriveView)
    ensures
        is_derived_object_ref(tvm_ffi, input, derived_object_ref(tvm_ffi, input)),
{
    if let Some(fields) = input.fields {
        if fields.len() > 0 {
            law_object_ref_is_declared(tvm_ffi, input.ident, fields[0].ty);
        }
    }
}

} // verus!
