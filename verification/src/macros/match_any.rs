//! The `match_any!` macro: what it accepts, and the code that stands for it.

use crate::macros::arm_order::{
    is_conversion, is_matched, law_chain_tries_every_arm,
    law_conversion_is_to_the_type_of_the_arm, law_converted_value_leads_to_the_body,
    law_dispatch_tries_every_arm, law_expansion_tries_every_arm, matches_in_order,
    tries_arms_in_order, tries_arms_up_to,
};
use crate::macros::reader::{
    after_arrow, after_group, after_punct, after_underscore, after_word, is_shorter,
    open_invisible, opened, take_arrow, take_group, take_punct, take_underscore, take_word,
};
use crate::macros::syntax::{
    expr_split, is_remainder, pat_split, path_split, report, reported, scrutinee_split, split_expr,
    split_pat, split_path, split_scrutinee, split_view, Split, SplitView,
};
use crate::macros::template::{fill, filled, filling, fillings, Filling};
use crate::macros::templates::{
    lex, lexed, ARM, CONVERSION, FALLBACK, MATCHED, MATCHED_IF, ORDERED_MATCH,
};
use crate::macros::tokens::{
    copy_of, ident, internal_ident, literals_known, no_tokens, optional_trees, stream_trees,
    take_first, weight, Enclosure, Tree,
};
use proc_macro2::TokenStream;
use vstd::prelude::*;

verus! {

/// How the parts of Rust syntax are recognised that `match_any!` is made of.
///
/// A part at the head of the input is split off; what is left is a part of the
/// input. Where there is none, the tokens that report so are returned.
pub trait Grammar {
    /// An expression that ends before a block.
    spec fn scrutinee(&self, trees: Seq<Tree>) -> Result<SplitView, Seq<Tree>>;

    spec fn expr(&self, trees: Seq<Tree>) -> Result<SplitView, Seq<Tree>>;

    spec fn path(&self, trees: Seq<Tree>) -> Result<SplitView, Seq<Tree>>;

    spec fn pat(&self, trees: Seq<Tree>) -> Result<SplitView, Seq<Tree>>;

    fn split_scrutinee(&self, stream: TokenStream) -> (split: Result<Split, TokenStream>)
        requires
            literals_known(stream_trees(stream)),
        ensures
            split_view(split) == self.scrutinee(stream_trees(stream)),
            split matches Ok(split) ==> is_remainder(
                stream_trees(split.rest),
                stream_trees(stream),
            ),
    ;

    fn split_expr(&self, stream: TokenStream) -> (split: Result<Split, TokenStream>)
        requires
            literals_known(stream_trees(stream)),
        ensures
            split_view(split) == self.expr(stream_trees(stream)),
            split matches Ok(split) ==> is_remainder(
                stream_trees(split.rest),
                stream_trees(stream),
            ),
    ;

    fn split_path(&self, stream: TokenStream) -> (split: Result<Split, TokenStream>)
        requires
            literals_known(stream_trees(stream)),
        ensures
            split_view(split) == self.path(stream_trees(stream)),
            split matches Ok(split) ==> is_remainder(
                stream_trees(split.rest),
                stream_trees(stream),
            ),
    ;

    fn split_pat(&self, stream: TokenStream) -> (split: Result<Split, TokenStream>)
        requires
            literals_known(stream_trees(stream)),
        ensures
            split_view(split) == self.pat(stream_trees(stream)),
            split matches Ok(split) ==> is_remainder(
                stream_trees(split.rest),
                stream_trees(stream),
            ),
    ;
}

/// The grammar of Rust.
pub struct RustGrammar {}

impl Grammar for RustGrammar {
    open spec fn scrutinee(&self, trees: Seq<Tree>) -> Result<SplitView, Seq<Tree>> {
        scrutinee_split(trees)
    }

    open spec fn expr(&self, trees: Seq<Tree>) -> Result<SplitView, Seq<Tree>> {
        expr_split(trees)
    }

    open spec fn path(&self, trees: Seq<Tree>) -> Result<SplitView, Seq<Tree>> {
        path_split(trees)
    }

    open spec fn pat(&self, trees: Seq<Tree>) -> Result<SplitView, Seq<Tree>> {
        pat_split(trees)
    }

    fn split_scrutinee(&self, stream: TokenStream) -> (split: Result<Split, TokenStream>) {
        split_scrutinee(stream)
    }

    fn split_expr(&self, stream: TokenStream) -> (split: Result<Split, TokenStream>) {
        split_expr(stream)
    }

    fn split_path(&self, stream: TokenStream) -> (split: Result<Split, TokenStream>) {
        split_path(stream)
    }

    fn split_pat(&self, stream: TokenStream) -> (split: Result<Split, TokenStream>) {
        split_pat(stream)
    }
}

/// An arm of `match_any!`: a type, the pattern that the converted value is
/// bound to, a guard, and what the arm evaluates to.
pub struct TypedArm {
    pub matcher: TokenStream,
    pub binding: TokenStream,
    pub guard: Option<TokenStream>,
    pub body: TokenStream,
}

/// The parts of a [`TypedArm`], as trees.
pub struct ArmView {
    pub matcher: Seq<Tree>,
    pub binding: Seq<Tree>,
    pub guard: Option<Seq<Tree>>,
    pub body: Seq<Tree>,
}

impl View for TypedArm {
    type V = ArmView;

    open spec fn view(&self) -> ArmView {
        ArmView {
            matcher: stream_trees(self.matcher),
            binding: stream_trees(self.binding),
            guard: optional_trees(self.guard),
            body: stream_trees(self.body),
        }
    }
}

/// The views of a list of arms.
pub open spec fn arm_views(arms: Seq<TypedArm>) -> Seq<ArmView> {
    Seq::new(arms.len(), |i: int| arms[i]@)
}

/// What `match_any!` was given: the value to match, the arms in source order,
/// and what it evaluates to where no arm applies.
pub struct MatchAnyInput {
    pub scrutinee: TokenStream,
    pub arms: Vec<TypedArm>,
    pub fallback: TokenStream,
}

/// The parts of a [`MatchAnyInput`], as trees.
pub struct MatchAnyView {
    pub scrutinee: Seq<Tree>,
    pub arms: Seq<ArmView>,
    pub fallback: Seq<Tree>,
}

impl View for MatchAnyInput {
    type V = MatchAnyView;

    open spec fn view(&self) -> MatchAnyView {
        MatchAnyView {
            scrutinee: stream_trees(self.scrutinee),
            arms: arm_views(self.arms@),
            fallback: stream_trees(self.fallback),
        }
    }
}

/// What a report of something expected says where `trees` are left.
pub open spec fn expected(trees: Seq<Tree>, message: Seq<char>) -> Seq<char> {
    if trees.len() == 0 {
        "unexpected end of input, "@ + message
    } else {
        message
    }
}

/// A typed arm, or the final `_` arm by what it evaluates to.
pub enum ItemView {
    Typed(ArmView),
    Fallback(Seq<Tree>),
}

/// The part of an arm after `=>`: what the arm evaluates to, and the rest.
pub open spec fn parsed_body<G: Grammar>(grammar: &G, trees: Seq<Tree>) -> Result<
    SplitView,
    Seq<Tree>,
> {
    match after_arrow(trees) {
        Some(rest) => grammar.expr(rest),
        None => Err(reported("expected `=>`"@)),
    }
}

/// The guard of an arm, if there is one, and the trees after it.
pub open spec fn parsed_guard<G: Grammar>(grammar: &G, trees: Seq<Tree>) -> Result<
    (Option<Seq<Tree>>, Seq<Tree>),
    Seq<Tree>,
> {
    match after_word(trees, "if"@) {
        Some(rest) => match grammar.expr(rest) {
            Ok(guard) => Ok((Some(guard.part), guard.rest)),
            Err(report) => Err(report),
        },
        None => Ok((None, trees)),
    }
}

/// The one pattern in parentheses, and the trees after them.
pub open spec fn parsed_binding<G: Grammar>(grammar: &G, trees: Seq<Tree>) -> Result<
    SplitView,
    Seq<Tree>,
> {
    match after_group(trees, Enclosure::Parenthesis) {
        Some((inner, rest)) => match grammar.pat(inner) {
            Ok(binding) => if binding.rest.len() == 0 {
                Ok(SplitView { part: binding.part, rest })
            } else {
                Err(reported("expected one binding pattern"@))
            },
            Err(report) => Err(report),
        },
        None => Err(reported(expected(trees, "expected parentheses"@))),
    }
}

/// A typed arm at the head of `trees`: `Matcher(binding) if guard => body`, the
/// guard being optional.
pub open spec fn parsed_arm<G: Grammar>(grammar: &G, trees: Seq<Tree>) -> Result<
    (ArmView, Seq<Tree>),
    Seq<Tree>,
> {
    match grammar.path(trees) {
        Ok(matcher) => match parsed_binding(grammar, matcher.rest) {
            Ok(binding) => match parsed_guard(grammar, binding.rest) {
                Ok((guard, rest)) => match parsed_body(grammar, rest) {
                    Ok(body) => Ok(
                        (
                            ArmView {
                                matcher: matcher.part,
                                binding: binding.part,
                                guard,
                                body: body.part,
                            },
                            body.rest,
                        ),
                    ),
                    Err(report) => Err(report),
                },
                Err(report) => Err(report),
            },
            Err(report) => Err(report),
        },
        Err(report) => Err(report),
    }
}

/// An arm of either kind at the head of `trees`.
pub open spec fn parsed_item<G: Grammar>(grammar: &G, trees: Seq<Tree>) -> Result<
    (ItemView, Seq<Tree>),
    Seq<Tree>,
> {
    match after_underscore(trees) {
        Some(rest) => if after_word(rest, "if"@) is Some {
            Err(reported("the `_` fallback cannot have a guard"@))
        } else {
            match parsed_body(grammar, rest) {
                Ok(body) => Ok((ItemView::Fallback(body.part), body.rest)),
                Err(report) => Err(report),
            }
        },
        None => match parsed_arm(grammar, trees) {
            Ok((arm, rest)) => Ok((ItemView::Typed(arm), rest)),
            Err(report) => Err(report),
        },
    }
}

/// The trees after the comma that ends an arm, which the last arm can do
/// without.
pub open spec fn after_comma(trees: Seq<Tree>) -> Result<Seq<Tree>, Seq<Tree>> {
    match after_punct(trees, ',') {
        Some(rest) => Ok(rest),
        None => if trees.len() == 0 {
            Ok(trees)
        } else {
            Err(reported("expected `,` between match_any! arms"@))
        },
    }
}

/// The typed arms and the fallback, after those that were read already. There
/// is exactly one fallback, and it is the last arm.
pub open spec fn parsed_arms<G: Grammar>(
    grammar: &G,
    trees: Seq<Tree>,
    arms: Seq<ArmView>,
    fallback: Option<Seq<Tree>>,
) -> Result<(Seq<ArmView>, Seq<Tree>), Seq<Tree>>
    decreases weight(trees),
{
    if trees.len() == 0 {
        match fallback {
            Some(fallback) => Ok((arms, fallback)),
            None => Err(
                reported(expected(trees, "match_any! requires a final `_` fallback arm"@)),
            ),
        }
    } else if fallback is Some {
        Err(reported("the `_` fallback must be the final arm"@))
    } else {
        match parsed_item(grammar, trees) {
            Ok((item, rest)) => match after_comma(rest) {
                Ok(rest) => if weight(rest) < weight(trees) {
                    match item {
                        ItemView::Typed(arm) => parsed_arms(grammar, rest, arms.push(arm), None),
                        ItemView::Fallback(body) => parsed_arms(grammar, rest, arms, Some(body)),
                    }
                } else {
                    // What an arm leaves is shorter.
                    arbitrary()
                },
                Err(report) => Err(report),
            },
            Err(report) => Err(report),
        }
    }
}

/// What `match_any!` makes of its input: the value to match, and its arms in
/// braces. Nothing may follow the braces.
pub open spec fn parsed_input<G: Grammar>(grammar: &G, trees: Seq<Tree>) -> Result<
    MatchAnyView,
    Seq<Tree>,
> {
    match grammar.scrutinee(trees) {
        Ok(scrutinee) => match after_group(scrutinee.rest, Enclosure::Brace) {
            Some((content, rest)) => match parsed_arms(grammar, content, Seq::empty(), None) {
                Ok((arms, fallback)) => if opened(rest).len() == 0 {
                    Ok(MatchAnyView { scrutinee: scrutinee.part, arms, fallback })
                } else {
                    Err(reported("unexpected token"@))
                },
                Err(report) => Err(report),
            },
            None => Err(reported(expected(scrutinee.rest, "expected curly braces"@))),
        },
        Err(report) => Err(report),
    }
}

/// Reports `message` at the first token of a stream.
fn report_at(stream: &TokenStream, message: &str) -> (report: TokenStream)
    ensures
        stream_trees(report) == reported(message@),
{
    match take_first(copy_of(stream)) {
        Some(first) => report(first.token, message),
        None => report(no_tokens(), message),
    }
}

/// Reports that something was expected where a stream begins.
fn report_expected(stream: &TokenStream, message: &str) -> (report: TokenStream)
    ensures
        stream_trees(report) == reported(expected(stream_trees(*stream), message@)),
{
    if take_first(copy_of(stream)).is_some() {
        report_at(stream, message)
    } else {
        let mut text = "unexpected end of input, ".to_owned();
        text.append(message);
        report_at(stream, text.as_str())
    }
}

fn parse_body<G: Grammar>(grammar: &G, stream: &TokenStream) -> (body: Result<Split, TokenStream>)
    requires
        literals_known(stream_trees(*stream)),
    ensures
        split_view(body) == parsed_body(grammar, stream_trees(*stream)),
        body matches Ok(body) ==> is_shorter(stream_trees(body.rest), stream_trees(*stream)),
{
    match take_arrow(stream) {
        Some(rest) => grammar.split_expr(rest),
        None => Err(report_at(stream, "expected `=>`")),
    }
}

fn parse_guard<G: Grammar>(grammar: &G, stream: &TokenStream) -> (guard: Result<
    (Option<TokenStream>, TokenStream),
    TokenStream,
>)
    requires
        literals_known(stream_trees(*stream)),
    ensures
        match guard {
            Ok((guard, rest)) => {
                &&& parsed_guard(grammar, stream_trees(*stream)) == Ok::<_, Seq<Tree>>(
                    (optional_trees(guard), stream_trees(rest)),
                )
                &&& is_remainder(stream_trees(rest), stream_trees(*stream))
            },
            Err(report) => parsed_guard(grammar, stream_trees(*stream)) == Err::<
                (Option<Seq<Tree>>, Seq<Tree>),
                _,
            >(stream_trees(report)),
        },
{
    match take_word(stream, "if") {
        Some(rest) => match grammar.split_expr(rest) {
            Ok(guard) => Ok((Some(guard.part), guard.rest)),
            Err(report) => Err(report),
        },
        None => Ok((None, copy_of(stream))),
    }
}

fn parse_binding<G: Grammar>(grammar: &G, stream: &TokenStream) -> (binding: Result<
    Split,
    TokenStream,
>)
    requires
        literals_known(stream_trees(*stream)),
    ensures
        split_view(binding) == parsed_binding(grammar, stream_trees(*stream)),
        binding matches Ok(binding) ==> is_shorter(
            stream_trees(binding.rest),
            stream_trees(*stream),
        ),
{
    match take_group(stream, Enclosure::Parenthesis) {
        Some((inner, rest)) => match grammar.split_pat(inner) {
            Ok(binding) => if take_first(copy_of(&binding.rest)).is_none() {
                Ok(Split { part: binding.part, rest })
            } else {
                Err(report_at(&binding.rest, "expected one binding pattern"))
            },
            Err(report) => Err(report),
        },
        None => Err(report_expected(stream, "expected parentheses")),
    }
}

fn parse_arm<G: Grammar>(grammar: &G, stream: &TokenStream) -> (arm: Result<
    (TypedArm, TokenStream),
    TokenStream,
>)
    requires
        literals_known(stream_trees(*stream)),
    ensures
        match arm {
            Ok((arm, rest)) => {
                &&& parsed_arm(grammar, stream_trees(*stream)) == Ok::<_, Seq<Tree>>(
                    (arm@, stream_trees(rest)),
                )
                &&& is_shorter(stream_trees(rest), stream_trees(*stream))
            },
            Err(report) => parsed_arm(grammar, stream_trees(*stream)) == Err::<
                (ArmView, Seq<Tree>),
                _,
            >(stream_trees(report)),
        },
{
    let matcher = match grammar.split_path(copy_of(stream)) {
        Ok(matcher) => matcher,
        Err(report) => {
            return Err(report);
        },
    };
    let binding = match parse_binding(grammar, &matcher.rest) {
        Ok(binding) => binding,
        Err(report) => {
            return Err(report);
        },
    };
    let (guard, rest) = match parse_guard(grammar, &binding.rest) {
        Ok(guarded) => guarded,
        Err(report) => {
            return Err(report);
        },
    };
    match parse_body(grammar, &rest) {
        Ok(body) => Ok(
            (
                TypedArm { matcher: matcher.part, binding: binding.part, guard, body: body.part },
                body.rest,
            ),
        ),
        Err(report) => Err(report),
    }
}

/// Reads the comma that ends an arm.
fn take_comma(stream: TokenStream) -> (rest: Result<TokenStream, TokenStream>)
    requires
        literals_known(stream_trees(stream)),
    ensures
        match rest {
            Ok(rest) => {
                &&& after_comma(stream_trees(stream)) == Ok::<_, Seq<Tree>>(stream_trees(rest))
                &&& is_remainder(stream_trees(rest), stream_trees(stream))
            },
            Err(report) => after_comma(stream_trees(stream)) == Err::<Seq<Tree>, _>(
                stream_trees(report),
            ),
        },
{
    match take_punct(&stream, ',') {
        Some(rest) => Ok(rest),
        None => if take_first(copy_of(&stream)).is_none() {
            Ok(stream)
        } else {
            Err(report_at(&stream, "expected `,` between match_any! arms"))
        },
    }
}

/// Reads arms up to the end of a stream.
fn parse_arms<G: Grammar>(grammar: &G, content: TokenStream) -> (parsed: Result<
    (Vec<TypedArm>, TokenStream),
    TokenStream,
>)
    requires
        literals_known(stream_trees(content)),
    ensures
        parsed_arms(grammar, stream_trees(content), Seq::empty(), None) == match parsed {
            Ok((arms, fallback)) => Ok((arm_views(arms@), stream_trees(fallback))),
            Err(report) => Err(stream_trees(report)),
        },
{
    let ghost whole = stream_trees(content);
    let mut arms: Vec<TypedArm> = Vec::new();
    let mut fallback: Option<TokenStream> = None;
    let mut rest = content;
    assert(arm_views(arms@) =~= Seq::empty());
    loop
        invariant
            whole == stream_trees(content),
            parsed_arms(grammar, whole, Seq::empty(), None) == parsed_arms(
                grammar,
                stream_trees(rest),
                arm_views(arms@),
                optional_trees(fallback),
            ),
            literals_known(stream_trees(rest)),
        ensures
            stream_trees(rest).len() == 0,
        decreases weight(stream_trees(rest)),
    {
        if take_first(copy_of(&rest)).is_none() {
            break;
        }
        if fallback.is_some() {
            return Err(report_at(&rest, "the `_` fallback must be the final arm"));
        }
        let ghost views = arm_views(arms@);
        let after = match take_underscore(&rest) {
            Some(after) => {
                if take_word(&after, "if").is_some() {
                    return Err(report_at(&after, "the `_` fallback cannot have a guard"));
                }
                match parse_body(grammar, &after) {
                    Ok(body) => {
                        fallback = Some(body.part);
                        body.rest
                    },
                    Err(report) => {
                        return Err(report);
                    },
                }
            },
            None => match parse_arm(grammar, &rest) {
                Ok((arm, after)) => {
                    let ghost view = arm@;
                    arms.push(arm);
                    assert(arm_views(arms@) =~= views.push(view));
                    after
                },
                Err(report) => {
                    return Err(report);
                },
            },
        };
        rest = match take_comma(after) {
            Ok(rest) => rest,
            Err(report) => {
                return Err(report);
            },
        };
    }
    match fallback {
        Some(fallback) => Ok((arms, fallback)),
        None => Err(report_expected(&rest, "match_any! requires a final `_` fallback arm")),
    }
}

/// The outcome of parsing, as trees.
pub open spec fn input_view(input: Result<MatchAnyInput, TokenStream>) -> Result<
    MatchAnyView,
    Seq<Tree>,
> {
    match input {
        Ok(input) => Ok(input@),
        Err(report) => Err(stream_trees(report)),
    }
}

impl MatchAnyInput {
    /// Parses the input of `match_any!` as a grammar has its parts.
    pub fn parse_with<G: Grammar>(grammar: &G, input: TokenStream) -> (parsed: Result<
        Self,
        TokenStream,
    >)
        requires
            literals_known(stream_trees(input)),
        ensures
            input_view(parsed) == parsed_input(grammar, stream_trees(input)),
    {
        let scrutinee = match grammar.split_scrutinee(input) {
            Ok(scrutinee) => scrutinee,
            Err(report) => {
                return Err(report);
            },
        };
        let (content, rest) = match take_group(&scrutinee.rest, Enclosure::Brace) {
            Some(group) => group,
            None => {
                return Err(report_expected(&scrutinee.rest, "expected curly braces"));
            },
        };
        let (arms, fallback) = match parse_arms(grammar, content) {
            Ok(parsed) => parsed,
            Err(report) => {
                return Err(report);
            },
        };
        let trailing = open_invisible(rest);
        if take_first(copy_of(&trailing)).is_some() {
            return Err(report_at(&trailing, "unexpected token"));
        }
        Ok(MatchAnyInput { scrutinee: scrutinee.part, arms, fallback })
    }

    /// Parses the input of `match_any!`.
    pub fn parse(input: TokenStream) -> (parsed: Result<Self, TokenStream>)
        requires
            literals_known(stream_trees(input)),
        ensures
            input_view(parsed) == parsed_input(&(RustGrammar {  }), stream_trees(input)),
    {
        Self::parse_with(&RustGrammar {  }, input)
    }
}

/// The code that converts `view` to the type `matcher`.
pub open spec fn pattern_conversion(
    tvm_ffi: Seq<Tree>,
    matcher: Seq<Tree>,
    view: Seq<Tree>,
) -> Seq<Tree> {
    filled(
        lexed(CONVERSION@),
        seq![
            filling("tvm_ffi"@, tvm_ffi),
            filling("matcher"@, matcher),
            filling("view"@, view),
            filling("probe"@, ident("__tvm_ffi_match_any_conversion_probe"@)),
            filling("converted"@, ident("__tvm_ffi_match_any_pattern_conversion"@)),
        ],
    )
}

/// Writes the code that converts a view to the type of an arm.
pub fn expand_pattern_conversion(
    tvm_ffi: &TokenStream,
    matcher: &TokenStream,
    view: &TokenStream,
) -> (code: TokenStream)
    ensures
        stream_trees(code) == pattern_conversion(
            stream_trees(*tvm_ffi),
            stream_trees(*matcher),
            stream_trees(*view),
        ),
        is_conversion(
            stream_trees(code),
            stream_trees(*tvm_ffi),
            stream_trees(*matcher),
            stream_trees(*view),
        ),
{
    proof {
        law_conversion_is_to_the_type_of_the_arm(
            stream_trees(*tvm_ffi),
            stream_trees(*matcher),
            stream_trees(*view),
        );
    }
    let places = [
        Filling { name: "tvm_ffi", tokens: copy_of(tvm_ffi) },
        Filling { name: "matcher", tokens: copy_of(matcher) },
        Filling { name: "view", tokens: copy_of(view) },
        Filling { name: "probe", tokens: internal_ident("__tvm_ffi_match_any_conversion_probe") },
        Filling {
            name: "converted",
            tokens: internal_ident("__tvm_ffi_match_any_pattern_conversion"),
        },
    ];
    assert(fillings(places@) =~= seq![
        filling("tvm_ffi"@, stream_trees(*tvm_ffi)),
        filling("matcher"@, stream_trees(*matcher)),
        filling("view"@, stream_trees(*view)),
        filling("probe"@, ident("__tvm_ffi_match_any_conversion_probe"@)),
        filling("converted"@, ident("__tvm_ffi_match_any_pattern_conversion"@)),
    ]);
    fill(lex(CONVERSION), &places)
}

/// The arm of a `match` that a converted value takes.
pub open spec fn matched(arm: ArmView) -> Seq<Tree> {
    match arm.guard {
        Some(guard) => filled(
            lexed(MATCHED_IF@),
            seq![
                filling("binding"@, arm.binding),
                filling("guard"@, guard),
                filling("body"@, arm.body),
            ],
        ),
        None => filled(
            lexed(MATCHED@),
            seq![filling("binding"@, arm.binding), filling("body"@, arm.body)],
        ),
    }
}

/// Writes the arm of a `match` that a converted value takes.
pub fn expand_matched(arm: &TypedArm) -> (code: TokenStream)
    ensures
        stream_trees(code) == matched(arm@),
        is_matched(stream_trees(code), arm@),
{
    proof {
        law_converted_value_leads_to_the_body(arm@);
    }
    let binding = Filling { name: "binding", tokens: copy_of(&arm.binding) };
    let body = Filling { name: "body", tokens: copy_of(&arm.body) };
    match &arm.guard {
        Some(guard) => {
            let places = [binding, Filling { name: "guard", tokens: copy_of(guard) }, body];
            assert(fillings(places@) =~= seq![
                filling("binding"@, arm@.binding),
                filling("guard"@, stream_trees(*guard)),
                filling("body"@, arm@.body),
            ]);
            fill(lex(MATCHED_IF), &places)
        },
        None => {
            let places = [binding, body];
            assert(fillings(places@) =~= seq![
                filling("binding"@, arm@.binding),
                filling("body"@, arm@.body),
            ]);
            fill(lex(MATCHED), &places)
        },
    }
}

/// The code that tries the arms in order: each where those before it were
/// rejected, and `fallback` after the last.
pub open spec fn ordered_try_into_chain(
    tvm_ffi: Seq<Tree>,
    arms: Seq<ArmView>,
    fallback: Seq<Tree>,
    view: Seq<Tree>,
    rejected: Seq<Tree>,
) -> Seq<Tree>
    decreases arms.len(),
{
    if arms.len() == 0 {
        fallback
    } else {
        filled(
            lexed(ARM@),
            seq![
                filling("conversion"@, pattern_conversion(tvm_ffi, arms[0].matcher, view)),
                filling("matched"@, matched(arms[0])),
                filling("rejected"@, rejected),
                filling(
                    "next"@,
                    ordered_try_into_chain(tvm_ffi, arms.drop_first(), fallback, view, rejected),
                ),
            ],
        )
    }
}

/// Writes the code that tries the arms in order.
pub fn expand_ordered_try_into_chain(
    tvm_ffi: &TokenStream,
    arms: &[TypedArm],
    fallback: TokenStream,
    view: &TokenStream,
    rejected: &TokenStream,
) -> (code: TokenStream)
    ensures
        stream_trees(code) == ordered_try_into_chain(
            stream_trees(*tvm_ffi),
            arm_views(arms@),
            stream_trees(fallback),
            stream_trees(*view),
            stream_trees(*rejected),
        ),
        tries_arms_up_to(
            stream_trees(code),
            stream_trees(*tvm_ffi),
            arm_views(arms@),
            stream_trees(fallback),
            stream_trees(*view),
            stream_trees(*rejected),
        ),
{
    let ghost views = arm_views(arms@);
    let ghost last = stream_trees(fallback);
    proof {
        law_chain_tries_every_arm(
            stream_trees(*tvm_ffi),
            views,
            last,
            stream_trees(*view),
            stream_trees(*rejected),
        );
    }
    let mut next = fallback;
    let mut i: usize = arms.len();
    assert(views.skip(i as int).len() == 0);
    while i > 0
        invariant
            i <= arms.len(),
            views == arm_views(arms@),
            stream_trees(next) == ordered_try_into_chain(
                stream_trees(*tvm_ffi),
                views.skip(i as int),
                last,
                stream_trees(*view),
                stream_trees(*rejected),
            ),
        decreases i,
    {
        i = i - 1;
        let arm = &arms[i];
        let ghost following = stream_trees(next);
        let places = [
            Filling {
                name: "conversion",
                tokens: expand_pattern_conversion(tvm_ffi, &arm.matcher, view),
            },
            Filling { name: "matched", tokens: expand_matched(arm) },
            Filling { name: "rejected", tokens: copy_of(rejected) },
            Filling { name: "next", tokens: next },
        ];
        assert(fillings(places@) =~= seq![
            filling(
                "conversion"@,
                pattern_conversion(stream_trees(*tvm_ffi), arm@.matcher, stream_trees(*view)),
            ),
            filling("matched"@, matched(arm@)),
            filling("rejected"@, stream_trees(*rejected)),
            filling("next"@, following),
        ]);
        assert(views.skip(i as int)[0] == arm@);
        assert(views.skip(i as int).drop_first() =~= views.skip(i + 1));
        next = fill(lex(ARM), &places);
    }
    assert(views.skip(0) =~= views);
    next
}

/// The code that tries the arms in order, and evaluates `fallback` where none
/// applies.
pub open spec fn ordered_dispatch(
    tvm_ffi: Seq<Tree>,
    arms: Seq<ArmView>,
    fallback: Seq<Tree>,
    view: Seq<Tree>,
    rejected: Seq<Tree>,
) -> Seq<Tree> {
    ordered_try_into_chain(
        tvm_ffi,
        arms,
        filled(lexed(FALLBACK@), seq![filling("fallback"@, fallback)]),
        view,
        rejected,
    )
}

/// Writes the code that tries the arms in order, and evaluates `fallback` where
/// none applies.
pub fn expand_ordered_dispatch(
    tvm_ffi: &TokenStream,
    arms: &[TypedArm],
    fallback: &TokenStream,
    view: &TokenStream,
    rejected: &TokenStream,
) -> (code: TokenStream)
    ensures
        stream_trees(code) == ordered_dispatch(
            stream_trees(*tvm_ffi),
            arm_views(arms@),
            stream_trees(*fallback),
            stream_trees(*view),
            stream_trees(*rejected),
        ),
        tries_arms_in_order(
            stream_trees(code),
            stream_trees(*tvm_ffi),
            arm_views(arms@),
            stream_trees(*fallback),
            stream_trees(*view),
            stream_trees(*rejected),
        ),
{
    proof {
        law_dispatch_tries_every_arm(
            stream_trees(*tvm_ffi),
            arm_views(arms@),
            stream_trees(*fallback),
            stream_trees(*view),
            stream_trees(*rejected),
        );
    }
    let places = [Filling { name: "fallback", tokens: copy_of(fallback) }];
    assert(fillings(places@) =~= seq![filling("fallback"@, stream_trees(*fallback))]);
    expand_ordered_try_into_chain(tvm_ffi, arms, fill(lex(FALLBACK), &places), view, rejected)
}

/// The code that a `match_any!` stands for.
pub open spec fn ordered_match(tvm_ffi: Seq<Tree>, input: MatchAnyView) -> Seq<Tree> {
    let view = ident("__tvm_ffi_match_any_view"@);
    let rejected = ident("__tvm_ffi_match_any_rejected"@);
    filled(
        lexed(ORDERED_MATCH@),
        seq![
            filling("tvm_ffi"@, tvm_ffi),
            filling("source"@, ident("__tvm_ffi_match_any_source"@)),
            filling("converted"@, ident("__tvm_ffi_match_any_converted"@)),
            filling("view"@, view),
            filling("scrutinee"@, input.scrutinee),
            filling(
                "dispatch"@,
                ordered_dispatch(tvm_ffi, input.arms, input.fallback, view, rejected),
            ),
            filling("fallback"@, input.fallback),
        ],
    )
}

/// Writes the code that a `match_any!` stands for.
pub fn expand_ordered_match(
    tvm_ffi: &TokenStream,
    scrutinee: &TokenStream,
    arms: &[TypedArm],
    fallback: &TokenStream,
) -> (code: TokenStream)
    ensures
        stream_trees(code) == ordered_match(
            stream_trees(*tvm_ffi),
            (MatchAnyView {
                scrutinee: stream_trees(*scrutinee),
                arms: arm_views(arms@),
                fallback: stream_trees(*fallback),
            }),
        ),
        matches_in_order(
            stream_trees(code),
            stream_trees(*tvm_ffi),
            (MatchAnyView {
                scrutinee: stream_trees(*scrutinee),
                arms: arm_views(arms@),
                fallback: stream_trees(*fallback),
            }),
        ),
{
    proof {
        law_expansion_tries_every_arm(
            stream_trees(*tvm_ffi),
            MatchAnyView {
                scrutinee: stream_trees(*scrutinee),
                arms: arm_views(arms@),
                fallback: stream_trees(*fallback),
            },
        );
    }
    let view = internal_ident("__tvm_ffi_match_any_view");
    let rejected = internal_ident("__tvm_ffi_match_any_rejected");
    let dispatch = expand_ordered_dispatch(tvm_ffi, arms, fallback, &view, &rejected);
    let ghost dispatched = stream_trees(dispatch);
    let places = [
        Filling { name: "tvm_ffi", tokens: copy_of(tvm_ffi) },
        Filling { name: "source", tokens: internal_ident("__tvm_ffi_match_any_source") },
        Filling { name: "converted", tokens: internal_ident("__tvm_ffi_match_any_converted") },
        Filling { name: "view", tokens: view },
        Filling { name: "scrutinee", tokens: copy_of(scrutinee) },
        Filling { name: "dispatch", tokens: dispatch },
        Filling { name: "fallback", tokens: copy_of(fallback) },
    ];
    assert(fillings(places@) =~= seq![
        filling("tvm_ffi"@, stream_trees(*tvm_ffi)),
        filling("source"@, ident("__tvm_ffi_match_any_source"@)),
        filling("converted"@, ident("__tvm_ffi_match_any_converted"@)),
        filling("view"@, ident("__tvm_ffi_match_any_view"@)),
        filling("scrutinee"@, stream_trees(*scrutinee)),
        filling("dispatch"@, dispatched),
        filling("fallback"@, stream_trees(*fallback)),
    ]);
    fill(lex(ORDERED_MATCH), &places)
}

/// Writes the code that a parsed `match_any!` stands for.
pub fn expand_match_any(tvm_ffi: &TokenStream, input: MatchAnyInput) -> (code: TokenStream)
    ensures
        stream_trees(code) == ordered_match(stream_trees(*tvm_ffi), input@),
        matches_in_order(stream_trees(code), stream_trees(*tvm_ffi), input@),
{
    expand_ordered_match(tvm_ffi, &input.scrutinee, input.arms.as_slice(), &input.fallback)
}

/// Expands a `match_any!`: to the code it stands for, or to a report of what is
/// wrong with it. `tvm_ffi` is the path of the crate that the code refers to.
pub fn expand(tvm_ffi: &TokenStream, input: TokenStream) -> (code: TokenStream)
    requires
        literals_known(stream_trees(input)),
    ensures
        stream_trees(code) == match parsed_input(&(RustGrammar {  }), stream_trees(input)) {
            Ok(input) => ordered_match(stream_trees(*tvm_ffi), input),
            Err(report) => report,
        },
        parsed_input(&(RustGrammar {  }), stream_trees(input)) matches Ok(parsed)
            ==> matches_in_order(stream_trees(code), stream_trees(*tvm_ffi), parsed),
{
    match MatchAnyInput::parse(input) {
        Ok(input) => expand_match_any(tvm_ffi, input),
        Err(report) => report,
    }
}

/// The arms before a point are tried before those after it: the code for all
/// of them is that for the former with that for the latter as its fallback.
pub proof fn law_earlier_arms_are_tried_first(
    tvm_ffi: Seq<Tree>,
    earlier: Seq<ArmView>,
    later: Seq<ArmView>,
    fallback: Seq<Tree>,
    view: Seq<Tree>,
    rejected: Seq<Tree>,
)
    ensures
        ordered_try_into_chain(tvm_ffi, earlier + later, fallback, view, rejected)
            == ordered_try_into_chain(
            tvm_ffi,
            earlier,
            ordered_try_into_chain(tvm_ffi, later, fallback, view, rejected),
            view,
            rejected,
        ),
    decreases earlier.len(),
{
    if earlier.len() == 0 {
        assert(earlier + later =~= later);
    } else {
        assert((earlier + later)[0] == earlier[0]);
        assert((earlier + later).drop_first() =~= earlier.drop_first() + later);
        law_earlier_arms_are_tried_first(
            tvm_ffi,
            earlier.drop_first(),
            later,
            fallback,
            view,
            rejected,
        );
    }
}

} // verus!
