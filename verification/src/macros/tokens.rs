//! Streams of tokens, seen as sequences of token trees.

use crate::text::same_text;
use proc_macro2::{Delimiter, Group, Ident, Spacing, Span, TokenStream, TokenTree};
use vstd::prelude::*;

verus! {

#[verifier::external_type_specification]
#[verifier::external_body]
pub struct ExTokenStream(proc_macro2::TokenStream);

/// What encloses a group of tokens.
#[derive(Clone, Copy, PartialEq, Eq, Structural, Debug)]
pub enum Enclosure {
    Parenthesis,
    Brace,
    Bracket,
    /// A group that is not visible in the source.
    Invisible,
}

/// A token, or a group of them. Where in the source it stands is left out.
pub enum Tree {
    Group(Enclosure, Seq<Tree>),
    Ident(Seq<char>),
    /// A punctuation character, and whether another follows it immediately.
    Punct(char, bool),
    Literal(Seq<char>),
}

/// The token trees of a stream, in order.
pub uninterp spec fn stream_trees(stream: TokenStream) -> Seq<Tree>;

/// One identifier.
pub open spec fn ident(name: Seq<char>) -> Seq<Tree> {
    seq![Tree::Ident(name)]
}

/// A stream, or none, as trees.
pub open spec fn optional_trees(stream: Option<TokenStream>) -> Option<Seq<Tree>> {
    match stream {
        Some(stream) => Some(stream_trees(stream)),
        None => None,
    }
}

/// The number of tokens and groups, at every depth.
pub open spec fn weight(trees: Seq<Tree>) -> nat
    decreases trees,
{
    if trees.len() == 0 {
        0
    } else {
        tree_weight(trees[0]) + weight(trees.drop_first())
    }
}

/// The number of tokens and groups in a tree, itself counted.
pub open spec fn tree_weight(tree: Tree) -> nat
    decreases tree,
{
    match tree {
        Tree::Group(_, inner) => 1 + weight(inner),
        _ => 1,
    }
}

/// Without its first tree a sequence weighs less, and so does what a leading
/// group holds, alone and in place of the group.
pub proof fn lemma_weight_first(trees: Seq<Tree>)
    requires
        trees.len() > 0,
    ensures
        weight(trees) > weight(trees.drop_first()),
        trees[0] matches Tree::Group(_, inner) ==> {
            &&& weight(trees) > weight(inner)
            &&& weight(trees) > weight(inner + trees.drop_first())
        },
{
    assert(tree_weight(trees[0]) >= 1);
    if let Tree::Group(_, inner) = trees[0] {
        assert(tree_weight(trees[0]) == 1 + weight(inner));
        lemma_weight_concat(inner, trees.drop_first());
    }
}

proof fn lemma_weight_concat(a: Seq<Tree>, b: Seq<Tree>)
    ensures
        weight(a + b) == weight(a) + weight(b),
    decreases a.len(),
{
    if a.len() == 0 {
        assert(a + b =~= b);
    } else {
        assert((a + b).drop_first() =~= a.drop_first() + b);
        lemma_weight_concat(a.drop_first(), b);
    }
}

/// Whether a literal begins as strings, byte strings, bytes, characters and
/// numbers do. Others, such as C strings, are newer than the parser of Rust
/// syntax that is used here.
pub open spec fn known_literal(text: Seq<char>) -> bool {
    &&& text.len() > 0
    &&& {
        ||| text[0] == '"'
        ||| text[0] == '\''
        ||| text[0] == 'r'
        ||| text[0] == '-'
        ||| '0' <= text[0] <= '9'
        ||| text[0] == 'b' && text.len() > 1 && (text[1] == '"' || text[1] == '\'' || text[1]
            == 'r')
    }
}

/// Whether all literals, at every depth, are known.
///
/// The parser reads a literal wherever an expression, a pattern or a type may
/// hold one, and that is for its whole grammar to say. So this is asked of all
/// literals, also of those that it would keep unread, as in the body of a macro
/// call.
pub open spec fn literals_known(trees: Seq<Tree>) -> bool
    decreases trees,
{
    trees.len() > 0 ==> tree_literals_known(trees[0]) && literals_known(trees.drop_first())
}

/// Whether all literals in a tree are known.
pub open spec fn tree_literals_known(tree: Tree) -> bool
    decreases tree,
{
    match tree {
        Tree::Group(_, inner) => literals_known(inner),
        Tree::Literal(text) => known_literal(text),
        _ => true,
    }
}

/// Of two sequences with known literals, the concatenation has known literals.
pub proof fn lemma_literals_known_concat(a: Seq<Tree>, b: Seq<Tree>)
    requires
        literals_known(a),
        literals_known(b),
    ensures
        literals_known(a + b),
    decreases a.len(),
{
    if a.len() == 0 {
        assert(a + b =~= b);
    } else {
        assert((a + b).drop_first() =~= a.drop_first() + b);
        lemma_literals_known_concat(a.drop_first(), b);
    }
}

/// What the first token of a stream is.
pub enum Leaf {
    Group(Enclosure, TokenStream),
    Ident(String),
    Punct(char, bool),
    Literal(String),
}

impl Leaf {
    pub open spec fn tree(&self) -> Tree {
        match *self {
            Leaf::Group(enclosure, inner) => Tree::Group(enclosure, stream_trees(inner)),
            Leaf::Ident(text) => Tree::Ident(text@),
            Leaf::Punct(character, joint) => Tree::Punct(character, joint),
            Leaf::Literal(text) => Tree::Literal(text@),
        }
    }
}

/// The first token of a stream, by itself and in parts, and what follows it.
pub struct First {
    pub leaf: Leaf,
    pub token: TokenStream,
    pub rest: TokenStream,
}

/// Calls `next` once on the iterator of `proc_macro2::TokenStream`. It hands
/// out the first token tree, if there is one; the rest follow in order. A group
/// has its own delimiter and stream, a punctuation character its own spacing;
/// identifiers and literals print as they are written.
#[verifier::external_body]
pub(crate) fn take_first(stream: TokenStream) -> (first: Option<First>)
    ensures
        match first {
            Some(first) => {
                &&& stream_trees(stream).len() > 0
                &&& first.leaf.tree() == stream_trees(stream)[0]
                &&& stream_trees(first.token) == seq![stream_trees(stream)[0]]
                &&& stream_trees(first.rest) == stream_trees(stream).drop_first()
            },
            None => stream_trees(stream).len() == 0,
        },
{
    let mut trees = stream.into_iter();
    let token = trees.next()?;
    let leaf = match &token {
        TokenTree::Group(group) => Leaf::Group(match group.delimiter() {
            Delimiter::Parenthesis => Enclosure::Parenthesis,
            Delimiter::Brace => Enclosure::Brace,
            Delimiter::Bracket => Enclosure::Bracket,
            Delimiter::None => Enclosure::Invisible,
        }, group.stream()),
        TokenTree::Ident(word) => Leaf::Ident(word.to_string()),
        TokenTree::Punct(punct) => Leaf::Punct(punct.as_char(), punct.spacing() == Spacing::Joint),
        TokenTree::Literal(literal) => Leaf::Literal(literal.to_string()),
    };
    Some(First { leaf, token: token.into(), rest: trees.collect() })
}

/// Calls `proc_macro2::TokenStream::new`, which makes a stream without tokens.
#[verifier::external_body]
pub(crate) fn no_tokens() -> (stream: TokenStream)
    ensures
        stream_trees(stream) == Seq::<Tree>::empty(),
{
    TokenStream::new()
}

/// Clones a `proc_macro2::TokenStream`: the copy holds the same tokens.
#[verifier::external_body]
pub(crate) fn copy_of(stream: &TokenStream) -> (copy: TokenStream)
    ensures
        stream_trees(copy) == stream_trees(*stream),
{
    stream.clone()
}

/// Extends a `proc_macro2::TokenStream` by another: its tokens are added at the
/// end, in order.
#[verifier::external_body]
pub(crate) fn append(stream: &mut TokenStream, more: TokenStream)
    ensures
        stream_trees(*final(stream)) == stream_trees(*old(stream)) + stream_trees(more),
{
    stream.extend(Some(more));
}

/// Makes a stream of one `proc_macro2::Group`, which holds the given tokens
/// between the given delimiters.
#[verifier::external_body]
pub(crate) fn enclosed(enclosure: Enclosure, inner: TokenStream) -> (stream: TokenStream)
    ensures
        stream_trees(stream) == seq![Tree::Group(enclosure, stream_trees(inner))],
{
    let delimiter = match enclosure {
        Enclosure::Parenthesis => Delimiter::Parenthesis,
        Enclosure::Brace => Delimiter::Brace,
        Enclosure::Bracket => Delimiter::Bracket,
        Enclosure::Invisible => Delimiter::None,
    };
    TokenTree::Group(Group::new(delimiter, inner)).into()
}

/// Names that an expansion declares for its own use.
pub open spec fn internal_name(name: Seq<char>) -> bool {
    ||| name == "__tvm_ffi_match_any_source"@
    ||| name == "__tvm_ffi_match_any_converted"@
    ||| name == "__tvm_ffi_match_any_view"@
    ||| name == "__tvm_ffi_match_any_rejected"@
    ||| name == "__tvm_ffi_match_any_conversion_probe"@
    ||| name == "__tvm_ffi_match_any_pattern_conversion"@
}

/// Calls `proc_macro2::Ident::new` with the mixed site span, so that the
/// identifier cannot meet one of the same name in the code around it. The names
/// asked for are identifiers, on which it does not panic.
#[verifier::external_body]
pub(crate) fn internal_ident(name: &str) -> (stream: TokenStream)
    requires
        internal_name(name@),
    ensures
        stream_trees(stream) == ident(name@),
{
    TokenTree::Ident(Ident::new(name, Span::mixed_site())).into()
}

/// Whether the stream is the one identifier `name` and nothing else.
pub fn is_ident(stream: &TokenStream, name: &str) -> (is: bool)
    ensures
        is == (stream_trees(*stream) == ident(name@)),
{
    match take_first(copy_of(stream)) {
        Some(first) => match first.leaf {
            Leaf::Ident(text) => {
                let alone = take_first(first.rest).is_none();
                let same = same_text(text.as_str(), name);
                assert(alone ==> stream_trees(*stream) =~= seq![Tree::Ident(text@)]);
                proof {
                    let only = seq![Tree::Ident(name@)];
                    assert(only[0] == Tree::Ident(name@));
                    assert(only.drop_first().len() == 0);
                }
                alone && same
            },
            _ => {
                assert(seq![Tree::Ident(name@)][0] is Ident);
                false
            },
        },
        None => {
            assert(seq![Tree::Ident(name@)].len() == 1);
            false
        },
    }
}

fn is_known_literal(text: &str) -> (known: bool)
    ensures
        known == known_literal(text@),
{
    let length: usize = text.unicode_len();
    if length == 0 {
        return false;
    }
    let first = text.get_char(0);
    first == '"' || first == '\'' || first == 'r' || first == '-' || ('0' <= first && first <= '9')
        || (first == 'b' && length > 1 && {
        let second = text.get_char(1);
        second == '"' || second == '\'' || second == 'r'
    })
}

/// Whether the parser of Rust syntax knows every literal of a stream.
pub fn has_known_literals(stream: &TokenStream) -> (known: bool)
    ensures
        known == literals_known(stream_trees(*stream)),
    decreases weight(stream_trees(*stream)),
{
    let mut rest = copy_of(stream);
    loop
        invariant
            literals_known(stream_trees(*stream)) == literals_known(stream_trees(rest)),
            weight(stream_trees(rest)) <= weight(stream_trees(*stream)),
        ensures
            stream_trees(rest).len() == 0,
        decreases weight(stream_trees(rest)),
    {
        let first = match take_first(copy_of(&rest)) {
            Some(first) => first,
            None => {
                break;
            },
        };
        proof {
            lemma_weight_first(stream_trees(rest));
        }
        let known = match first.leaf {
            Leaf::Group(_, inner) => has_known_literals(&inner),
            Leaf::Literal(text) => is_known_literal(text.as_str()),
            _ => true,
        };
        assert(known == tree_literals_known(stream_trees(rest)[0]));
        if !known {
            return false;
        }
        rest = first.rest;
    }
    true
}

} // verus!
