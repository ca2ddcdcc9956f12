//! What the messages of errors name.

use crate::collections::descriptor::{data_type_mismatch, data_type_text};
use crate::dlpack::DLDataType;
use crate::function::{named_message, not_found_message, undefined_function_message};
use crate::function_internal::argument_count_message;
use crate::macros::object_macros::repr_c_message;
use crate::object::reflection::{
    field_message, no_owner_info_message, not_an_instance_message, undefined_object_message,
    unregistered_field_message,
};
use crate::object::refs::conversion_message;
use crate::text::decimal;
use crate::typed_expr::{incompatible_ty, typed_expr_name};
use vstd::prelude::*;

verus! {

/// `part` stands in `text` at `at`.
pub open spec fn stands_at(text: Seq<char>, part: Seq<char>, at: int) -> bool {
    &&& 0 <= at
    &&& at + part.len() <= text.len()
    &&& text.subrange(at, at + part.len()) == part
}

/// The text says `part`.
pub open spec fn says(text: Seq<char>, part: Seq<char>) -> bool {
    exists|at: int| #[trigger] stands_at(text, part, at)
}

/// The text says one thing, and after it another.
pub open spec fn says_in_turn(text: Seq<char>, one: Seq<char>, other: Seq<char>) -> bool {
    exists|i: int, j: int| #[trigger]
        stands_at(text, one, i) && #[trigger] stands_at(text, other, j) && i + one.len() <= j
}

proof fn lemma_says(before: Seq<char>, part: Seq<char>, after: Seq<char>)
    ensures
        says(before + part + after, part),
{
    let text = before + part + after;
    let at = before.len() as int;
    assert(text.subrange(at, at + part.len()) =~= part);
    assert(stands_at(text, part, at));
}

proof fn lemma_says_last(before: Seq<char>, part: Seq<char>)
    ensures
        says(before + part, part),
{
    lemma_says(before, part, Seq::empty());
    assert(before + part + Seq::<char>::empty() =~= before + part);
}

proof fn lemma_says_in_turn(
    before: Seq<char>,
    one: Seq<char>,
    between: Seq<char>,
    other: Seq<char>,
    after: Seq<char>,
)
    ensures
        says_in_turn(before + one + between + other + after, one, other),
{
    let text = before + one + between + other + after;
    let i = before.len() as int;
    let j = (before.len() + one.len() + between.len()) as int;
    assert(text.subrange(i, i + one.len()) =~= one);
    assert(text.subrange(j, j + other.len()) =~= other);
    assert(stands_at(text, one, i) && stands_at(text, other, j));
}

proof fn lemma_says_last_in_turn(
    before: Seq<char>,
    one: Seq<char>,
    between: Seq<char>,
    other: Seq<char>,
)
    ensures
        says_in_turn(before + one + between + other, one, other),
{
    lemma_says_in_turn(before, one, between, other, Seq::empty());
    assert(before + one + between + other + Seq::<char>::empty() =~= before + one + between
        + other);
}

/// A failed conversion names the type of the value, and then the type that was asked
/// for.
pub proof fn law_failed_conversion_names_both_types(from: Seq<char>, to: Seq<char>)
    ensures
        says_in_turn(conversion_message(from, to), from, to),
{
    lemma_says_in_turn("Cannot convert from type `"@, from, "` to `"@, to, "`"@);
}

/// A wrong number of arguments is named after the right one.
pub proof fn law_argument_counts_are_named(expected: int, actual: int)
    ensures
        says_in_turn(argument_count_message(expected, actual), decimal(expected), decimal(actual)),
{
    lemma_says_last_in_turn(
        "Expected "@,
        decimal(expected),
        " arguments, got "@,
        decimal(actual),
    );
}

/// A data type that does not match is named after the one that was expected, by its
/// code, bits and lanes.
pub proof fn law_data_types_are_named(expected: DLDataType, actual: DLDataType)
    ensures
        says_in_turn(
            data_type_mismatch(expected, actual),
            data_type_text(expected),
            data_type_text(actual),
        ),
        says_in_turn(
            data_type_text(actual),
            decimal(actual.code as int),
            decimal(actual.bits as int),
        ),
        says_in_turn(
            data_type_text(actual),
            decimal(actual.bits as int),
            decimal(actual.lanes as int),
        ),
{
    lemma_says_last_in_turn(
        "Data type mismatch: expected "@,
        data_type_text(expected),
        "; got "@,
        data_type_text(actual),
    );
    let (code, bits, lanes) = (
        decimal(actual.code as int),
        decimal(actual.bits as int),
        decimal(actual.lanes as int),
    );
    lemma_says_in_turn("code="@, code, ", bits="@, bits, ", lanes="@ + lanes);
    assert(data_type_text(actual) =~= "code="@ + code + ", bits="@ + bits + (", lanes="@ + lanes));
    lemma_says_last_in_turn("code="@ + code + ", bits="@, bits, ", lanes="@, lanes);
}

/// What is said of a field names it, and says what is wrong.
pub proof fn law_fields_are_named(name: Seq<char>, what: Seq<char>, key: Seq<char>)
    ensures
        says_in_turn(field_message(name, what), name, what),
        says_in_turn(unregistered_field_message(name, key), name, key),
        says(undefined_object_message(name), name),
{
    lemma_says_last_in_turn("reflected field `"@, name, "` "@, what);
    lemma_says_in_turn("field `"@, name, "` is not registered on type `"@, key, "`"@);
    lemma_says("cannot read field `"@, name, "` from an undefined object"@);
}

/// An object of the wrong type is named by the index of its type, and then that of the
/// owner of the field.
pub proof fn law_field_owners_are_named(type_index: i32, owner: i32)
    ensures
        says_in_turn(
            not_an_instance_message(type_index, owner),
            decimal(type_index as int),
            decimal(owner as int),
        ),
        says(no_owner_info_message(owner), decimal(owner as int)),
{
    lemma_says_in_turn(
        "runtime object type_index `"@,
        decimal(type_index as int),
        "` is not an instance of field owner `"@,
        decimal(owner as int),
        "`"@,
    );
    lemma_says(
        "no type info for field owner type_index `"@,
        decimal(owner as int),
        "`"@,
    );
}

/// What is said of a function names it, and the type it was looked for on.
pub proof fn law_functions_are_named(
    before: Seq<char>,
    name: Seq<char>,
    between: Seq<char>,
    type_index: i32,
    after: Seq<char>,
)
    ensures
        says_in_turn(
            named_message(before, name, between, type_index, after),
            name,
            decimal(type_index as int),
        ),
        says(not_found_message(name), name),
        says(undefined_function_message(name), name),
{
    lemma_says_in_turn(before, name, between, decimal(type_index as int), after);
    lemma_says("Function "@, name, " not found"@);
    lemma_says_last("Cannot register undefined Function "@, name);
}

/// A refined type is named by its base and then by what it is expected to express.
pub proof fn law_refined_types_are_named(base: Seq<char>, expected: Seq<char>)
    ensures
        says_in_turn(typed_expr_name(base, expected), base, expected),
        says(incompatible_ty(base), base),
{
    lemma_says_in_turn("TypedExpr<"@, base, ", "@, expected, ">"@);
    let after = " with incompatible `ty`"@;
    lemma_says(Seq::empty(), base, after);
    assert(Seq::<char>::empty() + base + after =~= base + after);
}

/// A missing `#[repr(C)]` is reported with the name of the macro that needs it.
pub proof fn law_derive_macros_are_named(derive_name: Seq<char>)
    ensures
        says(repr_c_message(derive_name), derive_name),
{
    lemma_says("#[derive("@, derive_name, ")] requires #[repr(C)]"@);
}

} // verus!
