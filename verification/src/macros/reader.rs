//! Reading single tokens off the head of a stream.
//!
//! A group that is not visible in the source is looked into wherever a visible
//! token is read.

use crate::macros::syntax::is_remainder;
use crate::macros::tokens::{
    append, copy_of, lemma_literals_known_concat, lemma_weight_first, literals_known,
    optional_trees, stream_trees, take_first, tree_literals_known, weight, Enclosure, First,
    Leaf, Tree,
};
use crate::text::same_text;
use proc_macro2::TokenStream;
use vstd::prelude::*;

verus! {

/// The trees without the invisible groups that enclose the first visible token.
/// What such a group holds beside that token stands in its place.
pub open spec fn opened(trees: Seq<Tree>) -> Seq<Tree>
    decreases weight(trees),
{
    if trees.len() == 0 {
        trees
    } else {
        match trees[0] {
            Tree::Group(Enclosure::Invisible, inner) => {
                proof {
                    lemma_weight_first(trees);
                }
                opened(inner + trees.drop_first())
            },
            _ => trees,
        }
    }
}

proof fn lemma_opened(trees: Seq<Tree>)
    requires
        literals_known(trees),
    ensures
        is_remainder(opened(trees), trees),
    decreases weight(trees),
{
    if trees.len() > 0 {
        if let Tree::Group(Enclosure::Invisible, inner) = trees[0] {
            lemma_weight_first(trees);
            assert(literals_known(inner)) by {
                assert(tree_literals_known(trees[0]));
            }
            lemma_literals_known_concat(inner, trees.drop_first());
            lemma_opened(inner + trees.drop_first());
        }
    }
}

/// Opens the invisible groups at the head of a stream.
pub fn open_invisible(stream: TokenStream) -> (open: TokenStream)
    ensures
        stream_trees(open) == opened(stream_trees(stream)),
{
    let ghost whole = stream_trees(stream);
    let mut open = stream;
    loop
        invariant
            opened(stream_trees(open)) == opened(whole),
        ensures
            stream_trees(open) == opened(whole),
        decreases weight(stream_trees(open)),
    {
        let first = match take_first(copy_of(&open)) {
            Some(first) => first,
            None => {
                break;
            },
        };
        match first.leaf {
            Leaf::Group(Enclosure::Invisible, inner) => {
                proof {
                    lemma_weight_first(stream_trees(open));
                }
                let mut next = inner;
                append(&mut next, first.rest);
                open = next;
            },
            _ => {
                break;
            },
        }
    }
    open
}

/// The trees after the word `word` at their head, if it stands there.
pub open spec fn after_word(trees: Seq<Tree>, word: Seq<char>) -> Option<Seq<Tree>> {
    let open = opened(trees);
    if open.len() > 0 && open[0] == Tree::Ident(word) {
        Some(open.drop_first())
    } else {
        None
    }
}

/// The trees after `_`, if it stands at their head.
pub open spec fn after_underscore(trees: Seq<Tree>) -> Option<Seq<Tree>> {
    let open = opened(trees);
    if open.len() > 0 && (open[0] == Tree::Ident("_"@) || open[0] matches Tree::Punct('_', _)) {
        Some(open.drop_first())
    } else {
        None
    }
}

/// The trees after the character `character`, if it stands at their head.
pub open spec fn after_punct(trees: Seq<Tree>, character: char) -> Option<Seq<Tree>> {
    let open = opened(trees);
    if open.len() > 0 && open[0] is Punct && open[0]->Punct_0 == character {
        Some(open.drop_first())
    } else {
        None
    }
}

/// The trees after `=>`, if it stands at their head: `=` with `>` right after
/// it.
pub open spec fn after_arrow(trees: Seq<Tree>) -> Option<Seq<Tree>> {
    let open = opened(trees);
    if open.len() > 0 && open[0] == Tree::Punct('=', true) {
        after_punct(open.drop_first(), '>')
    } else {
        None
    }
}

/// What a group at the head of `trees` holds, and the trees after it.
pub open spec fn after_group(trees: Seq<Tree>, enclosure: Enclosure) -> Option<
    (Seq<Tree>, Seq<Tree>),
> {
    let open = opened(trees);
    if open.len() > 0 {
        match open[0] {
            Tree::Group(found, inner) => if found == enclosure {
                Some((inner, open.drop_first()))
            } else {
                None
            },
            _ => None,
        }
    } else {
        None
    }
}

/// What holds of the trees that are left after a token of `trees` was read.
pub open spec fn is_shorter(rest: Seq<Tree>, trees: Seq<Tree>) -> bool {
    &&& weight(rest) < weight(trees)
    &&& literals_known(rest)
}

proof fn lemma_after_first(trees: Seq<Tree>)
    requires
        literals_known(trees),
        opened(trees).len() > 0,
    ensures
        is_shorter(opened(trees).drop_first(), trees),
        opened(trees)[0] matches Tree::Group(_, inner) ==> is_shorter(inner, trees),
{
    lemma_opened(trees);
    lemma_weight_first(opened(trees));
    assert(tree_literals_known(opened(trees)[0]));
}

/// The first visible token of a stream.
fn take_visible(stream: &TokenStream) -> (first: Option<First>)
    requires
        literals_known(stream_trees(*stream)),
    ensures
        ({
            let open = opened(stream_trees(*stream));
            match first {
                Some(first) => {
                    &&& open.len() > 0
                    &&& first.leaf.tree() == open[0]
                    &&& stream_trees(first.rest) == open.drop_first()
                    &&& is_shorter(open.drop_first(), stream_trees(*stream))
                    &&& open[0] matches Tree::Group(_, inner) ==> is_shorter(
                        inner,
                        stream_trees(*stream),
                    )
                },
                None => open.len() == 0,
            }
        }),
{
    let first = take_first(open_invisible(copy_of(stream)));
    proof {
        if first is Some {
            lemma_after_first(stream_trees(*stream));
        }
    }
    first
}

/// Reads the word `word`.
pub fn take_word(stream: &TokenStream, word: &str) -> (rest: Option<TokenStream>)
    requires
        literals_known(stream_trees(*stream)),
    ensures
        optional_trees(rest) == after_word(stream_trees(*stream), word@),
        rest matches Some(rest) ==> is_shorter(stream_trees(rest), stream_trees(*stream)),
{
    match take_visible(stream) {
        Some(first) => match first.leaf {
            Leaf::Ident(text) => if same_text(text.as_str(), word) {
                Some(first.rest)
            } else {
                None
            },
            _ => None,
        },
        None => None,
    }
}

/// Reads the character `character`.
pub fn take_punct(stream: &TokenStream, character: char) -> (rest: Option<TokenStream>)
    requires
        literals_known(stream_trees(*stream)),
    ensures
        optional_trees(rest) == after_punct(stream_trees(*stream), character),
        rest matches Some(rest) ==> is_shorter(stream_trees(rest), stream_trees(*stream)),
{
    match take_visible(stream) {
        Some(first) => match first.leaf {
            Leaf::Punct(found, _) => if found == character {
                Some(first.rest)
            } else {
                None
            },
            _ => None,
        },
        None => None,
    }
}

/// Reads `_`.
pub fn take_underscore(stream: &TokenStream) -> (rest: Option<TokenStream>)
    requires
        literals_known(stream_trees(*stream)),
    ensures
        optional_trees(rest) == after_underscore(stream_trees(*stream)),
        rest matches Some(rest) ==> is_shorter(stream_trees(rest), stream_trees(*stream)),
{
    match take_word(stream, "_") {
        Some(rest) => Some(rest),
        None => take_punct(stream, '_'),
    }
}

/// Reads `=>`.
pub fn take_arrow(stream: &TokenStream) -> (rest: Option<TokenStream>)
    requires
        literals_known(stream_trees(*stream)),
    ensures
        optional_trees(rest) == after_arrow(stream_trees(*stream)),
        rest matches Some(rest) ==> is_shorter(stream_trees(rest), stream_trees(*stream)),
{
    match take_visible(stream) {
        Some(first) => match first.leaf {
            Leaf::Punct('=', true) => take_punct(&first.rest, '>'),
            _ => None,
        },
        None => None,
    }
}

/// Reads a group: what it holds, and what follows it.
pub fn take_group(stream: &TokenStream, enclosure: Enclosure) -> (group: Option<
    (TokenStream, TokenStream),
>)
    requires
        literals_known(stream_trees(*stream)),
    ensures
        match group {
            Some((inner, rest)) => {
                &&& after_group(stream_trees(*stream), enclosure) == Some(
                    (stream_trees(inner), stream_trees(rest)),
                )
                &&& is_shorter(stream_trees(inner), stream_trees(*stream))
                &&& is_shorter(stream_trees(rest), stream_trees(*stream))
            },
            None => after_group(stream_trees(*stream), enclosure) is None,
        },
{
    match take_visible(stream) {
        Some(first) => match first.leaf {
            Leaf::Group(found, inner) => if found == enclosure {
                Some((inner, first.rest))
            } else {
                None
            },
            _ => None,
        },
        None => None,
    }
}

/// A visible token at the head is read as what it is, and as nothing else.
pub proof fn law_visible_token_is_read(head: Tree, rest: Seq<Tree>)
    requires
        !(head matches Tree::Group(Enclosure::Invisible, _)),
    ensures
        opened(seq![head] + rest) == seq![head] + rest,
        forall|word: Seq<char>| #[trigger]
            after_word(seq![head] + rest, word) == (if head == Tree::Ident(word) {
                Some(rest)
            } else {
                None
            }),
        forall|character: char| #[trigger]
            after_punct(seq![head] + rest, character) == (if head is Punct && head->Punct_0
                == character {
                Some(rest)
            } else {
                None
            }),
        forall|enclosure: Enclosure| #[trigger]
            after_group(seq![head] + rest, enclosure) == (if head is Group && head->Group_0
                == enclosure {
                Some((head->Group_1, rest))
            } else {
                None
            }),
        after_underscore(seq![head] + rest) == (if head == Tree::Ident("_"@) || head is Punct
            && head->Punct_0 == '_' {
            Some(rest)
        } else {
            None
        }),
{
    let trees = seq![head] + rest;
    assert(trees[0] == head);
    assert(trees.drop_first() =~= rest);
}

/// `=>` at the head is read as an arrow, if nothing stands between its characters.
pub proof fn law_arrow_is_read(spaced: bool, rest: Seq<Tree>)
    ensures
        after_arrow(seq![Tree::Punct('=', true), Tree::Punct('>', spaced)] + rest) == Some(rest),
        after_arrow(seq![Tree::Punct('=', false), Tree::Punct('>', spaced)] + rest) is None,
{
    let tail = seq![Tree::Punct('>', spaced)] + rest;
    assert(seq![Tree::Punct('=', true), Tree::Punct('>', spaced)] + rest =~= seq![
        Tree::Punct('=', true),
    ] + tail);
    assert(seq![Tree::Punct('=', false), Tree::Punct('>', spaced)] + rest =~= seq![
        Tree::Punct('=', false),
    ] + tail);
    law_visible_token_is_read(Tree::Punct('=', true), tail);
    law_visible_token_is_read(Tree::Punct('=', false), tail);
    law_visible_token_is_read(Tree::Punct('>', spaced), rest);
    assert((seq![Tree::Punct('=', true)] + tail).drop_first() =~= tail);
}

/// An invisible group makes no difference to what is read.
pub proof fn law_invisible_group_is_looked_into(inner: Seq<Tree>, rest: Seq<Tree>)
    ensures
        ({
            let grouped = seq![Tree::Group(Enclosure::Invisible, inner)] + rest;
            &&& opened(grouped) == opened(inner + rest)
            &&& forall|word: Seq<char>| #[trigger]
                after_word(grouped, word) == after_word(inner + rest, word)
            &&& forall|character: char| #[trigger]
                after_punct(grouped, character) == after_punct(inner + rest, character)
            &&& forall|enclosure: Enclosure| #[trigger]
                after_group(grouped, enclosure) == after_group(inner + rest, enclosure)
            &&& after_underscore(grouped) == after_underscore(inner + rest)
            &&& after_arrow(grouped) == after_arrow(inner + rest)
        }),
{
    let grouped = seq![Tree::Group(Enclosure::Invisible, inner)] + rest;
    assert(grouped[0] == Tree::Group(Enclosure::Invisible, inner));
    assert(grouped.drop_first() =~= rest);
}

} // verus!
