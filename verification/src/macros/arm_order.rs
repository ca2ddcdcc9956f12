//! The arms of a `match_any!`: the order in which its code tries them, and how they
//! are read from the source.

use crate::macros::match_any::{
    after_comma, law_earlier_arms_are_tried_first, matched, ordered_dispatch, ordered_match,
    ordered_try_into_chain, parsed_arm, parsed_arms, parsed_input, parsed_item,
    pattern_conversion, ArmView, Grammar, ItemView, MatchAnyView,
};
use crate::macros::reader::{
    after_arrow, after_group, after_punct, after_underscore, after_word, opened,
};
use crate::macros::syntax::SplitView;
use crate::macros::template::{
    filled, filling, first_filling, law_place_has_its_first_filling, place, FillingView,
};
use crate::macros::templates::{
    lexed, made_from, ARM, CONVERSION, FALLBACK, MATCHED, MATCHED_IF, ORDERED_MATCH,
};
use crate::macros::tokens::{ident, lemma_weight_first, weight, Enclosure, Tree};
use vstd::prelude::*;

verus! {

/// The code converts `view` to the type `matcher`.
pub open spec fn is_conversion(
    code: Seq<Tree>,
    tvm_ffi: Seq<Tree>,
    matcher: Seq<Tree>,
    view: Seq<Tree>,
) -> bool {
    exists|places: Seq<FillingView>|
        {
            &&& #[trigger] made_from(code, CONVERSION@, places)
            &&& place(places, "tvm_ffi"@) == Some(tvm_ffi)
            &&& place(places, "matcher"@) == Some(matcher)
            &&& place(places, "view"@) == Some(view)
            &&& place(places, "probe"@) == Some(ident("__tvm_ffi_match_any_conversion_probe"@))
            &&& place(places, "converted"@) == Some(
                ident("__tvm_ffi_match_any_pattern_conversion"@),
            )
        }
}

/// The code binds a converted value and evaluates the body of the arm, under its
/// guard if it has one.
pub open spec fn is_matched(code: Seq<Tree>, arm: ArmView) -> bool {
    match arm.guard {
        Some(guard) => exists|places: Seq<FillingView>|
            {
                &&& #[trigger] made_from(code, MATCHED_IF@, places)
                &&& place(places, "binding"@) == Some(arm.binding)
                &&& place(places, "guard"@) == Some(guard)
                &&& place(places, "body"@) == Some(arm.body)
            },
        None => exists|places: Seq<FillingView>|
            {
                &&& #[trigger] made_from(code, MATCHED@, places)
                &&& place(places, "binding"@) == Some(arm.binding)
                &&& place(places, "body"@) == Some(arm.body)
            },
    }
}

/// The code tries the arm, and goes on to `next` where it is rejected.
pub open spec fn tries_arm(
    code: Seq<Tree>,
    tvm_ffi: Seq<Tree>,
    arm: ArmView,
    next: Seq<Tree>,
    view: Seq<Tree>,
    rejected: Seq<Tree>,
) -> bool {
    exists|places: Seq<FillingView>|
        {
            &&& #[trigger] made_from(code, ARM@, places)
            &&& place(places, "conversion"@) is Some
            &&& is_conversion(place(places, "conversion"@)->0, tvm_ffi, arm.matcher, view)
            &&& place(places, "matched"@) is Some
            &&& is_matched(place(places, "matched"@)->0, arm)
            &&& place(places, "rejected"@) == Some(rejected)
            &&& place(places, "next"@) == Some(next)
        }
}

/// The code evaluates the fallback.
pub open spec fn is_fallback(code: Seq<Tree>, fallback: Seq<Tree>) -> bool {
    exists|places: Seq<FillingView>| #[trigger]
        made_from(code, FALLBACK@, places) && place(places, "fallback"@) == Some(fallback)
}

/// From the point in the code where the arms before `i` were rejected, arm `i` is
/// tried next.
pub open spec fn tries_arm_at(
    points: Seq<Seq<Tree>>,
    i: int,
    tvm_ffi: Seq<Tree>,
    arms: Seq<ArmView>,
    view: Seq<Tree>,
    rejected: Seq<Tree>,
) -> bool {
    tries_arm(points[i], tvm_ffi, arms[i], points[i + 1], view, rejected)
}

/// The code tries every arm, each where the one before it was rejected.
///
/// `points[i]` is the code from arm `i` on.
pub open spec fn tries_arms(
    points: Seq<Seq<Tree>>,
    tvm_ffi: Seq<Tree>,
    arms: Seq<ArmView>,
    view: Seq<Tree>,
    rejected: Seq<Tree>,
) -> bool {
    &&& points.len() == arms.len() + 1
    &&& forall|i: int|
        0 <= i < arms.len() ==> #[trigger] tries_arm_at(points, i, tvm_ffi, arms, view, rejected)
}

/// The code tries all the arms in their order, and evaluates the fallback after the
/// last.
pub open spec fn tries_arms_in_order(
    code: Seq<Tree>,
    tvm_ffi: Seq<Tree>,
    arms: Seq<ArmView>,
    fallback: Seq<Tree>,
    view: Seq<Tree>,
    rejected: Seq<Tree>,
) -> bool {
    exists|points: Seq<Seq<Tree>>|
        {
            &&& #[trigger] tries_arms(points, tvm_ffi, arms, view, rejected)
            &&& points[0] == code
            &&& is_fallback(points[arms.len() as int], fallback)
        }
}

/// The whole expansion evaluates the scrutinee, tries all the arms in their order on
/// it where it is an object, and evaluates the fallback where it is none.
pub open spec fn matches_in_order(
    code: Seq<Tree>,
    tvm_ffi: Seq<Tree>,
    input: MatchAnyView,
) -> bool {
    let view = ident("__tvm_ffi_match_any_view"@);
    let rejected = ident("__tvm_ffi_match_any_rejected"@);
    exists|places: Seq<FillingView>|
        {
            &&& #[trigger] made_from(code, ORDERED_MATCH@, places)
            &&& place(places, "tvm_ffi"@) == Some(tvm_ffi)
            &&& place(places, "source"@) == Some(ident("__tvm_ffi_match_any_source"@))
            &&& place(places, "converted"@) == Some(ident("__tvm_ffi_match_any_converted"@))
            &&& place(places, "view"@) == Some(view)
            &&& place(places, "scrutinee"@) == Some(input.scrutinee)
            &&& place(places, "fallback"@) == Some(input.fallback)
            &&& place(places, "dispatch"@) is Some
            &&& tries_arms_in_order(
                place(places, "dispatch"@)->0,
                tvm_ffi,
                input.arms,
                input.fallback,
                view,
                rejected,
            )
        }
}

//-----------------------------------------------------
// The expansion
//-----------------------------------------------------
/// The conversion of an arm is from the view that is matched to the type of the arm.
pub proof fn law_conversion_is_to_the_type_of_the_arm(
    tvm_ffi: Seq<Tree>,
    matcher: Seq<Tree>,
    view: Seq<Tree>,
)
    ensures
        is_conversion(
            pattern_conversion(tvm_ffi, matcher, view),
            tvm_ffi,
            matcher,
            view,
        ),
{
    let places = seq![
        filling("tvm_ffi"@, tvm_ffi),
        filling("matcher"@, matcher),
        filling("view"@, view),
        filling("probe"@, ident("__tvm_ffi_match_any_conversion_probe"@)),
        filling("converted"@, ident("__tvm_ffi_match_any_pattern_conversion"@)),
    ];
    reveal_strlit("tvm_ffi");
    reveal_strlit("matcher");
    reveal_strlit("view");
    reveal_strlit("probe");
    reveal_strlit("converted");
    assert("tvm_ffi"@.len() == 7);
    assert("matcher"@.len() == 7);
    assert("view"@.len() == 4);
    assert("probe"@.len() == 5);
    assert("converted"@.len() == 9);
    assert("tvm_ffi"@[0] != "matcher"@[0]);
    law_place_has_its_first_filling(places, "tvm_ffi"@);
    law_place_has_its_first_filling(places, "matcher"@);
    law_place_has_its_first_filling(places, "view"@);
    law_place_has_its_first_filling(places, "probe"@);
    law_place_has_its_first_filling(places, "converted"@);
    assert(first_filling(places, "tvm_ffi"@, 0));
    assert(first_filling(places, "matcher"@, 1));
    assert(first_filling(places, "view"@, 2));
    assert(first_filling(places, "probe"@, 3));
    assert(first_filling(places, "converted"@, 4));
    assert(made_from(pattern_conversion(tvm_ffi, matcher, view), CONVERSION@, places));
}

/// A converted value is bound as the arm has it, under the guard of the arm, and
/// leads to its body.
pub proof fn law_converted_value_leads_to_the_body(arm: ArmView)
    ensures
        is_matched(matched(arm), arm),
{
    reveal_strlit("binding");
    reveal_strlit("guard");
    reveal_strlit("body");
    assert("binding"@.len() == 7);
    assert("guard"@.len() == 5);
    assert("body"@.len() == 4);
    match arm.guard {
        Some(guard) => {
            let places = seq![
                filling("binding"@, arm.binding),
                filling("guard"@, guard),
                filling("body"@, arm.body),
            ];
            law_place_has_its_first_filling(places, "binding"@);
            law_place_has_its_first_filling(places, "guard"@);
            law_place_has_its_first_filling(places, "body"@);
            assert(first_filling(places, "binding"@, 0));
            assert(first_filling(places, "guard"@, 1));
            assert(first_filling(places, "body"@, 2));
            assert(made_from(matched(arm), MATCHED_IF@, places));
        },
        None => {
            let places = seq![filling("binding"@, arm.binding), filling("body"@, arm.body)];
            law_place_has_its_first_filling(places, "binding"@);
            law_place_has_its_first_filling(places, "body"@);
            assert(first_filling(places, "binding"@, 0));
            assert(first_filling(places, "body"@, 1));
            assert(made_from(matched(arm), MATCHED@, places));
        },
    }
}

/// The code for some arms tries the first of them, and goes on to the code for the
/// others.
proof fn lemma_first_arm(
    tvm_ffi: Seq<Tree>,
    arms: Seq<ArmView>,
    fallback: Seq<Tree>,
    view: Seq<Tree>,
    rejected: Seq<Tree>,
)
    requires
        arms.len() > 0,
    ensures
        tries_arm(
            ordered_try_into_chain(tvm_ffi, arms, fallback, view, rejected),
            tvm_ffi,
            arms[0],
            ordered_try_into_chain(tvm_ffi, arms.drop_first(), fallback, view, rejected),
            view,
            rejected,
        ),
{
    let code = ordered_try_into_chain(tvm_ffi, arms, fallback, view, rejected);
    let next = ordered_try_into_chain(tvm_ffi, arms.drop_first(), fallback, view, rejected);
    let places = seq![
        filling("conversion"@, pattern_conversion(tvm_ffi, arms[0].matcher, view)),
        filling("matched"@, matched(arms[0])),
        filling("rejected"@, rejected),
        filling("next"@, next),
    ];
    reveal_strlit("conversion");
    reveal_strlit("matched");
    reveal_strlit("rejected");
    reveal_strlit("next");
    assert("conversion"@.len() == 10);
    assert("matched"@.len() == 7);
    assert("rejected"@.len() == 8);
    assert("next"@.len() == 4);
    law_place_has_its_first_filling(places, "conversion"@);
    law_place_has_its_first_filling(places, "matched"@);
    law_place_has_its_first_filling(places, "rejected"@);
    law_place_has_its_first_filling(places, "next"@);
    assert(first_filling(places, "conversion"@, 0));
    assert(first_filling(places, "matched"@, 1));
    assert(first_filling(places, "rejected"@, 2));
    assert(first_filling(places, "next"@, 3));
    law_conversion_is_to_the_type_of_the_arm(tvm_ffi, arms[0].matcher, view);
    law_converted_value_leads_to_the_body(arms[0]);
    assert(made_from(code, ARM@, places));
}

/// However many arms there are, the code tries all of them in their order, and then
/// the fallback.
pub proof fn law_dispatch_tries_every_arm(
    tvm_ffi: Seq<Tree>,
    arms: Seq<ArmView>,
    fallback: Seq<Tree>,
    view: Seq<Tree>,
    rejected: Seq<Tree>,
)
    ensures
        tries_arms_in_order(
            ordered_dispatch(tvm_ffi, arms, fallback, view, rejected),
            tvm_ffi,
            arms,
            fallback,
            view,
            rejected,
        ),
{
    let places = seq![filling("fallback"@, fallback)];
    let last = filled(lexed(FALLBACK@), places);
    law_place_has_its_first_filling(places, "fallback"@);
    assert(first_filling(places, "fallback"@, 0));
    assert(made_from(last, FALLBACK@, places));
    let points = Seq::new(
        arms.len() + 1,
        |i: int| ordered_try_into_chain(tvm_ffi, arms.skip(i), last, view, rejected),
    );
    assert(arms.skip(0) =~= arms);
    assert forall|i: int| 0 <= i < arms.len() implies #[trigger] tries_arm_at(
        points,
        i,
        tvm_ffi,
        arms,
        view,
        rejected,
    ) by {
        assert(arms.skip(i).drop_first() =~= arms.skip(i + 1));
        lemma_first_arm(tvm_ffi, arms.skip(i), last, view, rejected);
    }
    assert(tries_arms(points, tvm_ffi, arms, view, rejected));
}

/// The expansion of a `match_any!` tries every arm that was parsed, in source order,
/// and the fallback after the last.
pub proof fn law_expansion_tries_every_arm(tvm_ffi: Seq<Tree>, input: MatchAnyView)
    ensures
        matches_in_order(ordered_match(tvm_ffi, input), tvm_ffi, input),
{
    let view = ident("__tvm_ffi_match_any_view"@);
    let rejected = ident("__tvm_ffi_match_any_rejected"@);
    let dispatch = ordered_dispatch(tvm_ffi, input.arms, input.fallback, view, rejected);
    let places = seq![
        filling("tvm_ffi"@, tvm_ffi),
        filling("source"@, ident("__tvm_ffi_match_any_source"@)),
        filling("converted"@, ident("__tvm_ffi_match_any_converted"@)),
        filling("view"@, view),
        filling("scrutinee"@, input.scrutinee),
        filling("dispatch"@, dispatch),
        filling("fallback"@, input.fallback),
    ];
    reveal_strlit("tvm_ffi");
    reveal_strlit("source");
    reveal_strlit("converted");
    reveal_strlit("view");
    reveal_strlit("scrutinee");
    reveal_strlit("dispatch");
    reveal_strlit("fallback");
    assert("tvm_ffi"@.len() == 7);
    assert("source"@.len() == 6);
    assert("converted"@.len() == 9);
    assert("view"@.len() == 4);
    assert("scrutinee"@.len() == 9);
    assert("dispatch"@.len() == 8);
    assert("fallback"@.len() == 8);
    assert("converted"@[0] != "scrutinee"@[0]);
    assert("dispatch"@[0] != "fallback"@[0]);
    law_place_has_its_first_filling(places, "tvm_ffi"@);
    law_place_has_its_first_filling(places, "source"@);
    law_place_has_its_first_filling(places, "converted"@);
    law_place_has_its_first_filling(places, "view"@);
    law_place_has_its_first_filling(places, "scrutinee"@);
    law_place_has_its_first_filling(places, "dispatch"@);
    law_place_has_its_first_filling(places, "fallback"@);
    assert(first_filling(places, "tvm_ffi"@, 0));
    assert(first_filling(places, "source"@, 1));
    assert(first_filling(places, "converted"@, 2));
    assert(first_filling(places, "view"@, 3));
    assert(first_filling(places, "scrutinee"@, 4));
    assert(first_filling(places, "dispatch"@, 5));
    assert(first_filling(places, "fallback"@, 6));
    law_dispatch_tries_every_arm(tvm_ffi, input.arms, input.fallback, view, rejected);
    assert(made_from(ordered_match(tvm_ffi, input), ORDERED_MATCH@, places));
}

/// The code for a chain of arms tries all of them in their order, and ends at
/// `last`.
pub open spec fn tries_arms_up_to(
    code: Seq<Tree>,
    tvm_ffi: Seq<Tree>,
    arms: Seq<ArmView>,
    last: Seq<Tree>,
    view: Seq<Tree>,
    rejected: Seq<Tree>,
) -> bool {
    exists|points: Seq<Seq<Tree>>|
        {
            &&& #[trigger] tries_arms(points, tvm_ffi, arms, view, rejected)
            &&& points[0] == code
            &&& points[arms.len() as int] == last
        }
}

/// However long a chain of arms is, it tries all of them in their order.
pub proof fn law_chain_tries_every_arm(
    tvm_ffi: Seq<Tree>,
    arms: Seq<ArmView>,
    last: Seq<Tree>,
    view: Seq<Tree>,
    rejected: Seq<Tree>,
)
    ensures
        tries_arms_up_to(
            ordered_try_into_chain(tvm_ffi, arms, last, view, rejected),
            tvm_ffi,
            arms,
            last,
            view,
            rejected,
        ),
{
    let points = Seq::new(
        arms.len() + 1,
        |i: int| ordered_try_into_chain(tvm_ffi, arms.skip(i), last, view, rejected),
    );
    assert(arms.skip(0) =~= arms);
    assert forall|i: int| 0 <= i < arms.len() implies #[trigger] tries_arm_at(
        points,
        i,
        tvm_ffi,
        arms,
        view,
        rejected,
    ) by {
        assert(arms.skip(i).drop_first() =~= arms.skip(i + 1));
        lemma_first_arm(tvm_ffi, arms.skip(i), last, view, rejected);
    }
    assert(tries_arms(points, tvm_ffi, arms, view, rejected));
}

/// The arms of two dispatches in a row are those of one: a match over the earlier
/// and the later arms has, where the earlier arms end, the code that a match over
/// the later arms alone has.
pub proof fn law_later_arms_follow_the_earlier(
    tvm_ffi: Seq<Tree>,
    earlier: Seq<ArmView>,
    later: Seq<ArmView>,
    fallback: Seq<Tree>,
    view: Seq<Tree>,
    rejected: Seq<Tree>,
)
    ensures
        tries_arms_up_to(
            ordered_dispatch(tvm_ffi, earlier + later, fallback, view, rejected),
            tvm_ffi,
            earlier,
            ordered_dispatch(tvm_ffi, later, fallback, view, rejected),
            view,
            rejected,
        ),
{
    let last = filled(lexed(FALLBACK@), seq![filling("fallback"@, fallback)]);
    law_earlier_arms_are_tried_first(tvm_ffi, earlier, later, last, view, rejected);
    law_chain_tries_every_arm(
        tvm_ffi,
        earlier,
        ordered_dispatch(tvm_ffi, later, fallback, view, rejected),
        view,
        rejected,
    );
}

//-----------------------------------------------------
// The source
//-----------------------------------------------------
/// What is left to read between the pieces of an arm.
pub struct ArmPieces {
    /// What follows the type.
    pub after_matcher: Seq<Tree>,
    /// What stands in the parentheses.
    pub inner: Seq<Tree>,
    /// What follows the parentheses.
    pub after_binding: Seq<Tree>,
    /// What follows the word `if`.
    pub guard: Seq<Tree>,
    /// What follows the guard.
    pub after_guard: Seq<Tree>,
    /// What follows the arrow.
    pub body: Seq<Tree>,
    /// What follows the body.
    pub after_body: Seq<Tree>,
}

/// A part was split off, and this is left.
pub open spec fn splits(
    split: Result<SplitView, Seq<Tree>>,
    part: Seq<Tree>,
    rest: Seq<Tree>,
) -> bool {
    split == Ok::<SplitView, Seq<Tree>>(SplitView { part, rest })
}

/// An arm ends before `next`: at a comma, or at the end of the source.
pub open spec fn ends_before(after_body: Seq<Tree>, next: Seq<Tree>) -> bool {
    ||| after_punct(after_body, ',') == Some(next)
    ||| after_body.len() == 0 && next.len() == 0
}

/// The source begins with the arm `Matcher(binding) if guard => body`, the guard being
/// optional.
pub open spec fn spells_typed_arm<G: Grammar>(
    grammar: &G,
    source: Seq<Tree>,
    arm: ArmView,
    pieces: ArmPieces,
) -> bool {
    &&& splits(grammar.path(source), arm.matcher, pieces.after_matcher)
    &&& after_group(pieces.after_matcher, Enclosure::Parenthesis) == Some(
        (pieces.inner, pieces.after_binding),
    )
    &&& splits(grammar.pat(pieces.inner), arm.binding, Seq::empty())
    &&& match arm.guard {
        Some(guard) => {
            &&& after_word(pieces.after_binding, "if"@) == Some(pieces.guard)
            &&& splits(grammar.expr(pieces.guard), guard, pieces.after_guard)
        },
        None => {
            &&& after_word(pieces.after_binding, "if"@) is None
            &&& pieces.after_guard == pieces.after_binding
        },
    }
    &&& after_arrow(pieces.after_guard) == Some(pieces.body)
    &&& splits(grammar.expr(pieces.body), arm.body, pieces.after_body)
}

/// The source spells a typed arm, and goes on with `next`.
pub open spec fn spells_arm<G: Grammar>(
    grammar: &G,
    source: Seq<Tree>,
    arm: ArmView,
    pieces: ArmPieces,
    next: Seq<Tree>,
) -> bool {
    &&& source.len() > 0
    &&& after_underscore(source) is None
    &&& spells_typed_arm(grammar, source, arm, pieces)
    &&& ends_before(pieces.after_body, next)
    &&& weight(next) < weight(source)
}

/// The source spells the arm `_ => body`, and goes on with `next`.
pub open spec fn spells_fallback<G: Grammar>(
    grammar: &G,
    source: Seq<Tree>,
    fallback: Seq<Tree>,
    pieces: ArmPieces,
    next: Seq<Tree>,
) -> bool {
    &&& source.len() > 0
    &&& after_underscore(source) == Some(pieces.after_guard)
    &&& after_word(pieces.after_guard, "if"@) is None
    &&& after_arrow(pieces.after_guard) == Some(pieces.body)
    &&& splits(grammar.expr(pieces.body), fallback, pieces.after_body)
    &&& ends_before(pieces.after_body, next)
    &&& weight(next) < weight(source)
}

pub open spec fn spells_arm_at<G: Grammar>(
    grammar: &G,
    sources: Seq<Seq<Tree>>,
    arms: Seq<ArmView>,
    pieces: Seq<ArmPieces>,
    i: int,
) -> bool {
    spells_arm(grammar, sources[i], arms[i], pieces[i], sources[i + 1])
}

/// The source spells the arms, one after the other. `sources[i]` is the source from
/// arm `i` on.
pub open spec fn spells_arms<G: Grammar>(
    grammar: &G,
    sources: Seq<Seq<Tree>>,
    arms: Seq<ArmView>,
    pieces: Seq<ArmPieces>,
) -> bool {
    &&& sources.len() == arms.len() + 1
    &&& pieces.len() == arms.len()
    &&& forall|i: int|
        0 <= i < arms.len() ==> #[trigger] spells_arm_at(grammar, sources, arms, pieces, i)
}

proof fn lemma_ends_before(after_body: Seq<Tree>, next: Seq<Tree>)
    requires
        ends_before(after_body, next),
    ensures
        after_comma(after_body) == Ok::<_, Seq<Tree>>(next),
{
    if after_body.len() == 0 {
        assert(opened(after_body).len() == 0);
        assert(after_body =~= next);
    }
}

proof fn lemma_fallback_is_read<G: Grammar>(
    grammar: &G,
    source: Seq<Tree>,
    fallback: Seq<Tree>,
    pieces: ArmPieces,
    next: Seq<Tree>,
    read: Seq<ArmView>,
)
    requires
        spells_fallback(grammar, source, fallback, pieces, next),
    ensures
        parsed_arms(grammar, source, read, None) == parsed_arms(
            grammar,
            next,
            read,
            Some(fallback),
        ),
{
    lemma_ends_before(pieces.after_body, next);
    assert(parsed_item(grammar, source) == Ok::<_, Seq<Tree>>(
        (ItemView::Fallback(fallback), pieces.after_body),
    ));
}

/// A typed arm is read as it is spelled, with its guard if it has one.
pub proof fn law_arm_is_read<G: Grammar>(
    grammar: &G,
    source: Seq<Tree>,
    arm: ArmView,
    pieces: ArmPieces,
    next: Seq<Tree>,
)
    requires
        spells_arm(grammar, source, arm, pieces, next),
    ensures
        parsed_arm(grammar, source) == Ok::<_, Seq<Tree>>((arm, pieces.after_body)),
        parsed_item(grammar, source) == Ok::<_, Seq<Tree>>(
            (ItemView::Typed(arm), pieces.after_body),
        ),
{
}

proof fn lemma_arms_are_read<G: Grammar>(
    grammar: &G,
    sources: Seq<Seq<Tree>>,
    arms: Seq<ArmView>,
    pieces: Seq<ArmPieces>,
    read: Seq<ArmView>,
)
    requires
        spells_arms(grammar, sources, arms, pieces),
    ensures
        parsed_arms(grammar, sources[0], read, None) == parsed_arms(
            grammar,
            sources[arms.len() as int],
            read + arms,
            None,
        ),
    decreases arms.len(),
{
    if arms.len() == 0 {
        assert(read + arms =~= read);
    } else {
        assert(spells_arm_at(grammar, sources, arms, pieces, 0));
        law_arm_is_read(grammar, sources[0], arms[0], pieces[0], sources[1]);
        lemma_ends_before(pieces[0].after_body, sources[1]);
        let (sources2, arms2, pieces2) = (
            sources.drop_first(),
            arms.drop_first(),
            pieces.drop_first(),
        );
        assert forall|i: int| 0 <= i < arms2.len() implies #[trigger] spells_arm_at(
            grammar,
            sources2,
            arms2,
            pieces2,
            i,
        ) by {
            assert(spells_arm_at(grammar, sources, arms, pieces, i + 1));
        }
        lemma_arms_are_read(grammar, sources2, arms2, pieces2, read.push(arms[0]));
        assert(read.push(arms[0]) + arms2 =~= read + arms);
    }
}

/// However many arms the source spells before its fallback, all of them are read,
/// in source order.
pub proof fn law_every_arm_is_read<G: Grammar>(
    grammar: &G,
    sources: Seq<Seq<Tree>>,
    arms: Seq<ArmView>,
    pieces: Seq<ArmPieces>,
    fallback: Seq<Tree>,
    last: ArmPieces,
)
    requires
        spells_arms(grammar, sources, arms, pieces),
        spells_fallback(grammar, sources[arms.len() as int], fallback, last, Seq::empty()),
    ensures
        parsed_arms(grammar, sources[0], Seq::empty(), None) == Ok::<_, Seq<Tree>>(
            (arms, fallback),
        ),
{
    lemma_arms_are_read(grammar, sources, arms, pieces, Seq::empty());
    assert(Seq::empty() + arms =~= arms);
    lemma_fallback_is_read(
        grammar,
        sources[arms.len() as int],
        fallback,
        last,
        Seq::empty(),
        arms,
    );
}

/// Arms without a fallback after them are refused, however many there are.
pub proof fn law_fallback_is_required<G: Grammar>(
    grammar: &G,
    sources: Seq<Seq<Tree>>,
    arms: Seq<ArmView>,
    pieces: Seq<ArmPieces>,
)
    requires
        spells_arms(grammar, sources, arms, pieces),
        sources[arms.len() as int].len() == 0,
    ensures
        parsed_arms(grammar, sources[0], Seq::empty(), None) is Err,
{
    lemma_arms_are_read(grammar, sources, arms, pieces, Seq::empty());
}

/// Whatever follows the fallback, the arms are refused.
pub proof fn law_fallback_is_last<G: Grammar>(
    grammar: &G,
    sources: Seq<Seq<Tree>>,
    arms: Seq<ArmView>,
    pieces: Seq<ArmPieces>,
    fallback: Seq<Tree>,
    last: ArmPieces,
    next: Seq<Tree>,
)
    requires
        spells_arms(grammar, sources, arms, pieces),
        spells_fallback(grammar, sources[arms.len() as int], fallback, last, next),
        next.len() > 0,
    ensures
        parsed_arms(grammar, sources[0], Seq::empty(), None) is Err,
{
    lemma_arms_are_read(grammar, sources, arms, pieces, Seq::empty());
    lemma_fallback_is_read(
        grammar,
        sources[arms.len() as int],
        fallback,
        last,
        next,
        Seq::empty() + arms,
    );
}

/// A match is read as it is spelled: what is matched, and in braces all of the arms
/// and the fallback.
pub proof fn law_match_is_read<G: Grammar>(
    grammar: &G,
    source: Seq<Tree>,
    scrutinee: Seq<Tree>,
    after_scrutinee: Seq<Tree>,
    after_braces: Seq<Tree>,
    sources: Seq<Seq<Tree>>,
    arms: Seq<ArmView>,
    pieces: Seq<ArmPieces>,
    fallback: Seq<Tree>,
    last: ArmPieces,
)
    requires
        splits(grammar.scrutinee(source), scrutinee, after_scrutinee),
        after_group(after_scrutinee, Enclosure::Brace) == Some((sources[0], after_braces)),
        opened(after_braces).len() == 0,
        spells_arms(grammar, sources, arms, pieces),
        spells_fallback(grammar, sources[arms.len() as int], fallback, last, Seq::empty()),
    ensures
        parsed_input(grammar, source) == Ok::<_, Seq<Tree>>(
            MatchAnyView { scrutinee, arms, fallback },
        ),
{
    law_every_arm_is_read(grammar, sources, arms, pieces, fallback, last);
}

//-----------------------------------------------------
// What is refused
//-----------------------------------------------------
/// What is left after a part was split off weighs no more than what there was.
pub open spec fn takes_off_the_head<G: Grammar>(grammar: &G) -> bool {
    &&& forall|trees: Seq<Tree>|
        (#[trigger] grammar.path(trees)) matches Ok(split) ==> weight(split.rest) <= weight(trees)
    &&& forall|trees: Seq<Tree>|
        (#[trigger] grammar.expr(trees)) matches Ok(split) ==> weight(split.rest) <= weight(trees)
}

proof fn lemma_opened_weight(trees: Seq<Tree>)
    ensures
        weight(opened(trees)) <= weight(trees),
        opened(trees).len() > 0 ==> weight(opened(trees).drop_first()) < weight(trees),
    decreases weight(trees),
{
    if trees.len() > 0 {
        lemma_weight_first(trees);
        match trees[0] {
            Tree::Group(Enclosure::Invisible, inner) => {
                lemma_opened_weight(inner + trees.drop_first());
            },
            _ => {},
        }
    }
}

proof fn lemma_arrow_weight(trees: Seq<Tree>)
    ensures
        after_arrow(trees) matches Some(rest) ==> weight(rest) < weight(trees),
{
    lemma_opened_weight(trees);
    if opened(trees).len() > 0 {
        lemma_opened_weight(opened(trees).drop_first());
    }
}

proof fn lemma_comma_weight(trees: Seq<Tree>)
    ensures
        after_comma(trees) matches Ok(rest) ==> weight(rest) <= weight(trees) && ends_before(
            trees,
            rest,
        ),
{
    lemma_opened_weight(trees);
}

/// Only what is spelled as an arm is read as one: a type, one pattern in parentheses, a
/// guard or none, an arrow and a body.
pub proof fn law_only_arms_are_read<G: Grammar>(grammar: &G, source: Seq<Tree>) -> (pieces:
    ArmPieces)
    requires
        takes_off_the_head(grammar),
    ensures
        parsed_arm(grammar, source) matches Ok((arm, rest)) ==> {
            &&& spells_typed_arm(grammar, source, arm, pieces)
            &&& pieces.after_body == rest
            &&& weight(rest) < weight(source)
        },
{
    let after_matcher = grammar.path(source)->Ok_0.rest;
    let (inner, after_binding) = after_group(after_matcher, Enclosure::Parenthesis)->0;
    let guarded = after_word(after_binding, "if"@);
    let guard = guarded->0;
    let after_guard = if guarded is Some {
        grammar.expr(guard)->Ok_0.rest
    } else {
        after_binding
    };
    let body = after_arrow(after_guard)->0;
    let after_body = grammar.expr(body)->Ok_0.rest;
    let pieces = ArmPieces {
        after_matcher,
        inner,
        after_binding,
        guard,
        after_guard,
        body,
        after_body,
    };
    lemma_opened_weight(after_matcher);
    lemma_opened_weight(after_binding);
    lemma_arrow_weight(after_guard);
    if let Ok((arm, rest)) = parsed_arm(grammar, source) {
        assert(grammar.path(source) is Ok);
        assert(grammar.expr(body) is Ok);
        assert(guarded is Some ==> grammar.expr(guard) is Ok);
        assert(grammar.pat(inner)->Ok_0.rest =~= Seq::empty());
    }
    pieces
}

/// What an accepted source spells.
pub struct SpelledArms {
    pub sources: Seq<Seq<Tree>>,
    pub pieces: Seq<ArmPieces>,
    pub last: ArmPieces,
}

pub open spec fn spells<G: Grammar>(
    grammar: &G,
    source: Seq<Tree>,
    arms: Seq<ArmView>,
    fallback: Seq<Tree>,
    spelled: SpelledArms,
) -> bool {
    &&& spells_arms(grammar, spelled.sources, arms, spelled.pieces)
    &&& spelled.sources[0] == source
    &&& spells_fallback(
        grammar,
        spelled.sources[arms.len() as int],
        fallback,
        spelled.last,
        Seq::empty(),
    )
}

proof fn lemma_read_arms_are_spelled<G: Grammar>(
    grammar: &G,
    source: Seq<Tree>,
    read: Seq<ArmView>,
) -> (spelled: SpelledArms)
    requires
        takes_off_the_head(grammar),
    ensures
        parsed_arms(grammar, source, read, None) matches Ok((arms, fallback)) ==> {
            &&& arms.len() >= read.len()
            &&& arms.take(read.len() as int) == read
            &&& spells(grammar, source, arms.skip(read.len() as int), fallback, spelled)
        },
    decreases weight(source),
{
    let nowhere = ArmPieces {
        after_matcher: source,
        inner: source,
        after_binding: source,
        guard: source,
        after_guard: source,
        body: source,
        after_body: source,
    };
    let nothing = SpelledArms { sources: Seq::empty(), pieces: Seq::empty(), last: nowhere };
    if parsed_arms(grammar, source, read, None) is Err || source.len() == 0 {
        nothing
    } else {
        let (item, rest) = parsed_item(grammar, source)->Ok_0;
        let next = after_comma(rest)->Ok_0;
        lemma_comma_weight(rest);
        match item {
            ItemView::Typed(arm) => {
                let pieces = law_only_arms_are_read(grammar, source);
                let later = lemma_read_arms_are_spelled(grammar, next, read.push(arm));
                let spelled = SpelledArms {
                    sources: seq![source] + later.sources,
                    pieces: seq![pieces] + later.pieces,
                    last: later.last,
                };
                let (arms, fallback) = parsed_arms(grammar, source, read, None)->Ok_0;
                let n = read.len() as int;
                let (mine, others) = (arms.skip(n), arms.skip(n + 1));
                assert(arms.take(n + 1) == read.push(arm));
                assert(arms[n] == arms.take(n + 1)[n]);
                assert(arms.take(n) =~= arms.take(n + 1).take(n));
                assert(read.push(arm).take(n) =~= read);
                assert(mine =~= seq![arm] + others);
                assert forall|i: int| 0 <= i < mine.len() implies #[trigger] spells_arm_at(
                    grammar,
                    spelled.sources,
                    mine,
                    spelled.pieces,
                    i,
                ) by {
                    if i > 0 {
                        assert(spells_arm_at(grammar, later.sources, others, later.pieces, i - 1));
                    }
                }
                assert(spelled.sources[mine.len() as int] == later.sources[others.len() as int]);
                spelled
            },
            ItemView::Fallback(body) => {
                let after_guard = after_underscore(source)->0;
                let arrowed = after_arrow(after_guard)->0;
                lemma_opened_weight(source);
                lemma_arrow_weight(after_guard);
                let last = ArmPieces {
                    after_matcher: source,
                    inner: source,
                    after_binding: source,
                    guard: source,
                    after_guard,
                    body: arrowed,
                    after_body: rest,
                };
                assert(grammar.expr(arrowed) is Ok);
                let (arms, fallback) = parsed_arms(grammar, source, read, None)->Ok_0;
                assert(parsed_arms(grammar, source, read, None) == parsed_arms(
                    grammar,
                    next,
                    read,
                    Some(body),
                ));
                assert(next.len() == 0);
                assert(next =~= Seq::empty());
                assert(arms == read);
                assert(arms.skip(read.len() as int) =~= Seq::empty());
                assert(arms.take(read.len() as int) =~= read);
                SpelledArms { sources: seq![source], pieces: Seq::empty(), last }
            },
        }
    }
}

/// Only what is spelled as typed arms and one fallback after them is read as the arms of
/// a match.
pub proof fn law_nothing_else_is_read<G: Grammar>(grammar: &G, source: Seq<Tree>) -> (spelled:
    SpelledArms)
    requires
        takes_off_the_head(grammar),
    ensures
        parsed_arms(grammar, source, Seq::empty(), None) matches Ok((arms, fallback)) ==> spells(
            grammar,
            source,
            arms,
            fallback,
            spelled,
        ),
{
    let spelled = lemma_read_arms_are_spelled(grammar, source, Seq::empty());
    if let Ok((arms, fallback)) = parsed_arms(grammar, source, Seq::empty(), None) {
        assert(arms.skip(0) =~= arms);
    }
    spelled
}

/// A match without braces, or with anything after them, is refused.
pub proof fn law_match_ends_with_its_braces<G: Grammar>(grammar: &G, source: Seq<Tree>)
    ensures
        parsed_input(grammar, source) matches Ok(input) ==> {
            &&& grammar.scrutinee(source) is Ok
            &&& grammar.scrutinee(source)->Ok_0.part == input.scrutinee
            &&& after_group(grammar.scrutinee(source)->Ok_0.rest, Enclosure::Brace) is Some
            &&& ({
                let (content, rest) = after_group(
                    grammar.scrutinee(source)->Ok_0.rest,
                    Enclosure::Brace,
                )->0;
                &&& opened(rest).len() == 0
                &&& parsed_arms(grammar, content, Seq::empty(), None) == Ok::<_, Seq<Tree>>(
                    (input.arms, input.fallback),
                )
            })
        },
{
}

} // verus!
