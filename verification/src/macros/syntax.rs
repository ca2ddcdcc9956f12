//! Parts of Rust syntax, parsed by `syn`.

use crate::macros::tokens::{
    literals_known, optional_trees, stream_trees, weight, Enclosure, Tree,
};
use proc_macro2::TokenStream;
use quote::ToTokens;
use syn::parse::{ParseStream, Parser};
use syn::{AttrStyle, Attribute, Data, DeriveInput, Field, Lit, Meta, Path};
use vstd::prelude::*;

verus! {

/// A part at the head of a stream, and what follows it.
pub struct Split {
    pub part: TokenStream,
    pub rest: TokenStream,
}

/// A part at the head of a sequence of trees, and what follows it.
pub struct SplitView {
    pub part: Seq<Tree>,
    pub rest: Seq<Tree>,
}

pub open spec fn split_view(split: Result<Split, TokenStream>) -> Result<SplitView, Seq<Tree>> {
    match split {
        Ok(split) => Ok(
            SplitView { part: stream_trees(split.part), rest: stream_trees(split.rest) },
        ),
        Err(report) => Err(stream_trees(report)),
    }
}

/// What holds of the trees that a parser has left of `trees`.
pub open spec fn is_remainder(rest: Seq<Tree>, trees: Seq<Tree>) -> bool {
    &&& weight(rest) <= weight(trees)
    &&& literals_known(rest)
}

/// What an expression at the head of `trees` is, as `syn` prints it again, and the
/// trees after it; or the tokens that report why there is none.
pub uninterp spec fn expr_split(trees: Seq<Tree>) -> Result<SplitView, Seq<Tree>>;

/// Parses an expression with `syn::Expr` by way of `syn::parse::Parser::parse2`, and
/// keeps the rest of the input. The result depends on the tokens alone. What is
/// left is a part of what was given: it weighs no more and holds no other
/// literals.
#[verifier::external_body]
pub(crate) fn split_expr(stream: TokenStream) -> (split: Result<Split, TokenStream>)
    requires
        literals_known(stream_trees(stream)),
    ensures
        split_view(split) == expr_split(stream_trees(stream)),
        split matches Ok(split) ==> is_remainder(
            stream_trees(split.rest),
            stream_trees(stream),
        ),
{
    let parser = |input: ParseStream<'_>| {
        let part = input.parse::<syn::Expr>()?.into_token_stream();
        Ok(Split { part, rest: input.parse()? })
    };
    parser.parse2(stream).map_err(syn::Error::into_compile_error)
}

/// What an expression before a block at the head of `trees` is, as `syn` prints
/// it again, and the trees after it; or the tokens that report why there is none.
pub uninterp spec fn scrutinee_split(trees: Seq<Tree>) -> Result<SplitView, Seq<Tree>>;

/// Parses an expression before a block with
/// `syn::Expr::parse_without_eager_brace` by way of `syn::parse::Parser::parse2`,
/// and keeps the rest of the input. The result depends on the tokens alone. What
/// is left is a part of what was given: it weighs no more and holds no other
/// literals.
#[verifier::external_body]
pub(crate) fn split_scrutinee(stream: TokenStream) -> (split: Result<Split, TokenStream>)
    requires
        literals_known(stream_trees(stream)),
    ensures
        split_view(split) == scrutinee_split(stream_trees(stream)),
        split matches Ok(split) ==> is_remainder(
            stream_trees(split.rest),
            stream_trees(stream),
        ),
{
    let parser = |input: ParseStream<'_>| {
        let part = input.call(syn::Expr::parse_without_eager_brace)?.into_token_stream();
        Ok(Split { part, rest: input.parse()? })
    };
    parser.parse2(stream).map_err(syn::Error::into_compile_error)
}

/// What a path at the head of `trees` is, as `syn` prints it again, and the
/// trees after it; or the tokens that report why there is none.
pub uninterp spec fn path_split(trees: Seq<Tree>) -> Result<SplitView, Seq<Tree>>;

/// Parses a path with `syn::Path` by way of `syn::parse::Parser::parse2`, and
/// keeps the rest of the input. The result depends on the tokens alone. What is
/// left is a part of what was given: it weighs no more and holds no other
/// literals.
#[verifier::external_body]
pub(crate) fn split_path(stream: TokenStream) -> (split: Result<Split, TokenStream>)
    requires
        literals_known(stream_trees(stream)),
    ensures
        split_view(split) == path_split(stream_trees(stream)),
        split matches Ok(split) ==> is_remainder(
            stream_trees(split.rest),
            stream_trees(stream),
        ),
{
    let parser = |input: ParseStream<'_>| {
        let part = input.parse::<syn::Path>()?.into_token_stream();
        Ok(Split { part, rest: input.parse()? })
    };
    parser.parse2(stream).map_err(syn::Error::into_compile_error)
}

/// What a pattern at the head of `trees` is, as `syn` prints it again, and the
/// trees after it; or the tokens that report why there is none.
pub uninterp spec fn pat_split(trees: Seq<Tree>) -> Result<SplitView, Seq<Tree>>;

/// Parses a pattern with `syn::Pat` by way of `syn::parse::Parser::parse2`, and
/// keeps the rest of the input. The result depends on the tokens alone. What is
/// left is a part of what was given: it weighs no more and holds no other
/// literals.
#[verifier::external_body]
pub(crate) fn split_pat(stream: TokenStream) -> (split: Result<Split, TokenStream>)
    requires
        literals_known(stream_trees(stream)),
    ensures
        split_view(split) == pat_split(stream_trees(stream)),
        split matches Ok(split) ==> is_remainder(
            stream_trees(split.rest),
            stream_trees(stream),
        ),
{
    let parser = |input: ParseStream<'_>| {
        let part = input.parse::<syn::Pat>()?.into_token_stream();
        Ok(Split { part, rest: input.parse()? })
    };
    parser.parse2(stream).map_err(syn::Error::into_compile_error)
}

/// An attribute: the path that names it, and the tokens after that.
pub struct AttributeShape {
    pub path: TokenStream,
    pub tokens: TokenStream,
}

/// A field of a struct: its name, where it has one, and its type.
pub struct FieldShape {
    pub ident: Option<TokenStream>,
    pub ty: TokenStream,
}

/// What a derive macro is applied to. Enums and unions have no list of fields.
pub struct DeriveShape {
    pub ident: TokenStream,
    pub attributes: Vec<AttributeShape>,
    pub fields: Option<Vec<FieldShape>>,
}

/// The parts of an [`AttributeShape`], as trees.
pub struct AttributeView {
    pub path: Seq<Tree>,
    pub tokens: Seq<Tree>,
}

/// The parts of a [`FieldShape`], as trees.
pub struct FieldView {
    pub ident: Option<Seq<Tree>>,
    pub ty: Seq<Tree>,
}

/// The parts of a [`DeriveShape`], as trees.
pub struct DeriveView {
    pub ident: Seq<Tree>,
    pub attributes: Seq<AttributeView>,
    pub fields: Option<Seq<FieldView>>,
}

impl View for AttributeShape {
    type V = AttributeView;

    open spec fn view(&self) -> AttributeView {
        AttributeView { path: stream_trees(self.path), tokens: stream_trees(self.tokens) }
    }
}

impl View for FieldShape {
    type V = FieldView;

    open spec fn view(&self) -> FieldView {
        FieldView { ident: optional_trees(self.ident), ty: stream_trees(self.ty) }
    }
}

/// The views of a list of attributes.
pub open spec fn attribute_views(attributes: Seq<AttributeShape>) -> Seq<AttributeView> {
    Seq::new(attributes.len(), |i: int| attributes[i]@)
}

/// The views of a list of fields.
pub open spec fn field_views(fields: Seq<FieldShape>) -> Seq<FieldView> {
    Seq::new(fields.len(), |i: int| fields[i]@)
}

impl View for DeriveShape {
    type V = DeriveView;

    open spec fn view(&self) -> DeriveView {
        DeriveView {
            ident: stream_trees(self.ident),
            attributes: attribute_views(self.attributes@),
            fields: match self.fields {
                Some(fields) => Some(field_views(fields@)),
                None => None,
            },
        }
    }
}

pub open spec fn derive_view(input: Result<DeriveShape, TokenStream>) -> Result<
    DeriveView,
    Seq<Tree>,
> {
    match input {
        Ok(input) => Ok(input@),
        Err(report) => Err(stream_trees(report)),
    }
}

/// The parts of the item that `trees` are; or the tokens that report why they
/// are none.
pub uninterp spec fn derive_parsed(trees: Seq<Tree>) -> Result<DeriveView, Seq<Tree>>;

/// Parses an item as a `syn::DeriveInput` with `syn::parse2`. The result
/// depends on the tokens alone. The tokens of an attribute are kept as they
/// stand in the input.
#[verifier::external_body]
pub(crate) fn parse_derive_input(stream: TokenStream) -> (input: Result<DeriveShape, TokenStream>)
    requires
        literals_known(stream_trees(stream)),
    ensures
        derive_view(input) == derive_parsed(stream_trees(stream)),
        input matches Ok(input) ==> forall|i: int|
            0 <= i < input.attributes.len() ==> literals_known(
                stream_trees((#[trigger] input.attributes[i]).tokens),
            ),
{
    let input = syn::parse2::<DeriveInput>(stream).map_err(syn::Error::into_compile_error)?;
    let attribute =
        |a: Attribute| AttributeShape { path: a.path.into_token_stream(), tokens: a.tokens };
    let field = |f: Field| FieldShape {
        ident: f.ident.map(|ident| ident.into_token_stream()),
        ty: f.ty.into_token_stream(),
    };
    let fields = match input.data {
        Data::Struct(data) => Some(data.fields.into_iter().map(field).collect()),
        Data::Enum(_) => None,
        Data::Union(_) => None,
    };
    let attributes = input.attrs.into_iter().map(attribute).collect();
    Ok(DeriveShape { ident: input.ident.into_token_stream(), attributes, fields })
}

/// What follows the path of an attribute: nothing, a list in parentheses, or a
/// value that is a string or another literal.
pub enum MetaShape {
    Path,
    List(Vec<TokenStream>),
    Text(TokenStream),
    Value(TokenStream),
}

/// The parts of a [`MetaShape`], as trees.
pub enum MetaView {
    Path,
    List(Seq<Seq<Tree>>),
    Text(Seq<Tree>),
    Value(Seq<Tree>),
}

impl View for MetaShape {
    type V = MetaView;

    open spec fn view(&self) -> MetaView {
        match *self {
            MetaShape::Path => MetaView::Path,
            MetaShape::List(items) => MetaView::List(
                Seq::new(items@.len(), |i: int| stream_trees(items@[i])),
            ),
            MetaShape::Text(text) => MetaView::Text(stream_trees(text)),
            MetaShape::Value(value) => MetaView::Value(stream_trees(value)),
        }
    }
}

pub open spec fn meta_view(meta: Option<MetaShape>) -> Option<MetaView> {
    match meta {
        Some(meta) => Some(meta@),
        None => None,
    }
}

/// What the tokens after the path of an attribute are, if they are well formed.
pub uninterp spec fn meta_parsed(trees: Seq<Tree>) -> Option<MetaView>;

/// Calls `syn::Attribute::parse_meta`. Which form the attribute has, and what it
/// holds, depends on the tokens after its path alone.
#[verifier::external_body]
pub(crate) fn parse_meta(tokens: TokenStream) -> (meta: Option<MetaShape>)
    requires
        literals_known(stream_trees(tokens)),
    ensures
        meta_view(meta) == meta_parsed(stream_trees(tokens)),
{
    let path = Path { leading_colon: None, segments: Default::default() };
    let (pound_token, bracket_token) = Default::default();
    let style = AttrStyle::Outer;
    let attribute = Attribute { pound_token, style, bracket_token, path, tokens };
    Some(match attribute.parse_meta().ok()? {
        Meta::Path(_) => MetaShape::Path,
        Meta::List(list) => MetaShape::List(
            list.nested.into_iter().map(|item| item.into_token_stream()).collect(),
        ),
        Meta::NameValue(pair) => match pair.lit {
            Lit::Str(text) => MetaShape::Text(text.into_token_stream()),
            value => MetaShape::Value(value.into_token_stream()),
        },
    })
}

/// The expression that the arguments of an attribute are, if they are one.
pub uninterp spec fn args_expr(trees: Seq<Tree>) -> Option<Seq<Tree>>;

/// Calls `syn::Attribute::parse_args` for a `syn::Expr`. Whether the arguments
/// are an expression, and which, depends on the tokens after the path alone.
#[verifier::external_body]
pub(crate) fn parse_args_expr(tokens: TokenStream) -> (expr: Option<TokenStream>)
    requires
        literals_known(stream_trees(tokens)),
    ensures
        optional_trees(expr) == args_expr(stream_trees(tokens)),
{
    let path = Path { leading_colon: None, segments: Default::default() };
    let (pound_token, bracket_token) = Default::default();
    let style = AttrStyle::Outer;
    let attribute = Attribute { pound_token, style, bracket_token, path, tokens };
    Some(attribute.parse_args::<syn::Expr>().ok()?.into_token_stream())
}

/// The text of the string literal that stands for `text`.
pub uninterp spec fn string_literal(text: Seq<char>) -> Seq<char>;

/// An invocation of `compile_error!` on a literal.
pub open spec fn error_invocation(literal: Seq<char>) -> Seq<Tree> {
    seq![
        Tree::Ident("compile_error"@),
        Tree::Punct('!', false),
        Tree::Group(Enclosure::Brace, seq![Tree::Literal(literal)]),
    ]
}

/// The tokens that make the compiler report `message`.
pub open spec fn reported(message: Seq<char>) -> Seq<Tree> {
    error_invocation(string_literal(message))
}

/// Calls `syn::Error::new_spanned` and `into_compile_error`: an invocation of
/// `compile_error!` on the message as a string literal. It stands where the
/// tokens `at` stand, which the contract does not speak of.
#[verifier::external_body]
pub(crate) fn report(at: TokenStream, message: &str) -> (report: TokenStream)
    ensures
        stream_trees(report) == error_invocation(string_literal(message@)),
{
    syn::Error::new_spanned(at, message).into_compile_error()
}

} // verus!
