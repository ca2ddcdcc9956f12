//! Templates of code, and how their places are filled.

use crate::macros::tokens::{
    append, copy_of, enclosed, lemma_weight_first, no_tokens, stream_trees, take_first, weight,
    First, Leaf, Tree,
};
use crate::text::same_text;
use proc_macro2::TokenStream;
use vstd::prelude::*;

verus! {

/// What a place of a template is filled with. In the template the place is
/// written as `#` and its name.
pub struct Filling {
    pub name: &'static str,
    pub tokens: TokenStream,
}

/// What a place is filled with, as trees.
pub struct FillingView {
    pub name: Seq<char>,
    pub trees: Seq<Tree>,
}

impl View for Filling {
    type V = FillingView;

    open spec fn view(&self) -> FillingView {
        FillingView { name: self.name@, trees: stream_trees(self.tokens) }
    }
}

pub open spec fn filling(name: Seq<char>, trees: Seq<Tree>) -> FillingView {
    FillingView { name, trees }
}

/// The views of a list of fillings.
pub open spec fn fillings(list: Seq<Filling>) -> Seq<FillingView> {
    Seq::new(list.len(), |i: int| list[i]@)
}

/// What the place `name` is filled with: the first filling of that name.
pub open spec fn place(fillings: Seq<FillingView>, name: Seq<char>) -> Option<Seq<Tree>>
    decreases fillings.len(),
{
    if fillings.len() == 0 {
        None
    } else if fillings[0].name == name {
        Some(fillings[0].trees)
    } else {
        place(fillings.drop_first(), name)
    }
}

/// What stands at the head of `trees` if it is a place with a filling.
pub open spec fn leading_place(trees: Seq<Tree>, fillings: Seq<FillingView>) -> Option<Seq<Tree>> {
    if trees.len() >= 2 && trees[0] matches Tree::Punct('#', _) {
        match trees[1] {
            Tree::Ident(name) => place(fillings, name),
            _ => None,
        }
    } else {
        None
    }
}

/// The template with its places filled, at every depth. Everything else stays
/// as it is, and what a place is filled with is not looked into.
pub open spec fn filled(template: Seq<Tree>, fillings: Seq<FillingView>) -> Seq<Tree>
    decreases template,
{
    if template.len() == 0 {
        Seq::empty()
    } else {
        match leading_place(template, fillings) {
            Some(trees) => trees + filled(template.skip(2), fillings),
            None => seq![filled_tree(template[0], fillings)] + filled(
                template.drop_first(),
                fillings,
            ),
        }
    }
}

/// A tree of a template with the places inside it filled.
pub open spec fn filled_tree(tree: Tree, fillings: Seq<FillingView>) -> Tree
    decreases tree,
{
    match tree {
        Tree::Group(enclosure, inner) => Tree::Group(enclosure, filled(inner, fillings)),
        _ => tree,
    }
}

fn find_place(list: &[Filling], name: &str) -> (found: Option<TokenStream>)
    ensures
        match found {
            Some(tokens) => place(fillings(list@), name@) == Some(stream_trees(tokens)),
            None => place(fillings(list@), name@) is None,
        },
{
    let mut i: usize = 0;
    assert(fillings(list@).skip(0) =~= fillings(list@));
    while i < list.len()
        invariant
            i <= list.len(),
            place(fillings(list@), name@) == place(fillings(list@).skip(i as int), name@),
        decreases list.len() - i,
    {
        assert(fillings(list@).skip(i as int)[0] == list[i as int]@);
        if same_text(list[i].name, name) {
            return Some(copy_of(&list[i].tokens));
        }
        assert(fillings(list@).skip(i as int).drop_first() =~= fillings(list@).skip(i + 1));
        i = i + 1;
    }
    None
}

/// Reads a place with a filling from the head of a template: what it is filled
/// with, and the rest of the template.
fn take_place(first: &First, list: &[Filling]) -> (taken: Option<(TokenStream, TokenStream)>)
    ensures
        ({
            let template = seq![first.leaf.tree()] + stream_trees(first.rest);
            match taken {
                Some((tokens, rest)) => {
                    &&& leading_place(template, fillings(list@)) == Some(stream_trees(tokens))
                    &&& template.len() >= 2
                    &&& stream_trees(rest) == template.skip(2)
                },
                None => leading_place(template, fillings(list@)) is None,
            }
        }),
{
    let ghost template = seq![first.leaf.tree()] + stream_trees(first.rest);
    assert(template[0] == first.leaf.tree());
    match &first.leaf {
        Leaf::Punct('#', _) => match take_first(copy_of(&first.rest)) {
            Some(second) => {
                assert(template[1] == second.leaf.tree());
                assert(template.skip(2) =~= stream_trees(second.rest));
                match second.leaf {
                    Leaf::Ident(name) => match find_place(list, name.as_str()) {
                        Some(tokens) => Some((tokens, second.rest)),
                        None => None,
                    },
                    _ => None,
                }
            },
            None => None,
        },
        _ => None,
    }
}

/// Fills the places of a template.
pub fn fill(template: TokenStream, list: &[Filling]) -> (code: TokenStream)
    ensures
        stream_trees(code) == filled(stream_trees(template), fillings(list@)),
    decreases weight(stream_trees(template)),
{
    let ghost views = fillings(list@);
    let ghost whole = stream_trees(template);
    let mut code = no_tokens();
    let mut rest = template;
    assert(filled(whole, views) =~= stream_trees(code) + filled(whole, views));
    loop
        invariant
            views == fillings(list@),
            whole == stream_trees(template),
            filled(whole, views) == stream_trees(code) + filled(stream_trees(rest), views),
            weight(stream_trees(rest)) <= weight(whole),
        ensures
            stream_trees(rest).len() == 0,
        decreases weight(stream_trees(rest)),
    {
        let ghost done = stream_trees(code);
        let ghost trees = stream_trees(rest);
        let first = match take_first(copy_of(&rest)) {
            Some(first) => first,
            None => {
                break;
            },
        };
        assert(trees =~= seq![first.leaf.tree()] + stream_trees(first.rest));
        proof {
            lemma_weight_first(trees);
        }
        match take_place(&first, list) {
            Some((tokens, after)) => {
                assert(trees.skip(2) =~= trees.drop_first().drop_first());
                proof {
                    lemma_weight_first(trees.drop_first());
                }
                append(&mut code, tokens);
                assert(filled(whole, views) =~= stream_trees(code) + filled(
                    stream_trees(after),
                    views,
                ));
                rest = after;
            },
            None => {
                let tree = match first.leaf {
                    Leaf::Group(enclosure, inner) => enclosed(enclosure, fill(inner, list)),
                    _ => first.token,
                };
                assert(stream_trees(tree) =~= seq![filled_tree(trees[0], views)]);
                append(&mut code, tree);
                assert(filled(whole, views) =~= stream_trees(code) + filled(
                    stream_trees(first.rest),
                    views,
                ));
                rest = first.rest;
            },
        }
    }
    assert(filled(stream_trees(rest), views) =~= Seq::<Tree>::empty());
    assert(stream_trees(code) =~= filled(whole, views));
    code
}

//-----------------------------------------------------
// Laws
//-----------------------------------------------------
/// `at` is where the place `name` is first given a filling.
pub open spec fn first_filling(fillings: Seq<FillingView>, name: Seq<char>, at: int) -> bool {
    &&& 0 <= at < fillings.len()
    &&& fillings[at].name == name
    &&& forall|i: int| 0 <= i < at ==> (#[trigger] fillings[i]).name != name
}

/// A place is filled with the first filling of its name, and left alone where there
/// is none.
pub proof fn law_place_has_its_first_filling(fillings: Seq<FillingView>, name: Seq<char>)
    ensures
        forall|at: int| #[trigger]
            first_filling(fillings, name, at) ==> place(fillings, name) == Some(
                fillings[at].trees,
            ),
        (forall|i: int| 0 <= i < fillings.len() ==> (#[trigger] fillings[i]).name != name) ==> place(
            fillings,
            name,
        ) is None,
    decreases fillings.len(),
{
    if fillings.len() > 0 {
        let others = fillings.drop_first();
        law_place_has_its_first_filling(others, name);
        assert forall|at: int| #[trigger] first_filling(fillings, name, at) implies place(
            fillings,
            name,
        ) == Some(fillings[at].trees) by {
            if at > 0 {
                assert(fillings[0].name != name);
                assert forall|i: int| 0 <= i < at - 1 implies (#[trigger] others[i]).name
                    != name by {
                    assert(fillings[i + 1].name != name);
                }
                assert(first_filling(others, name, at - 1));
            }
        }
        if forall|i: int| 0 <= i < fillings.len() ==> (#[trigger] fillings[i]).name != name {
            assert(fillings[0].name != name);
            assert forall|i: int| 0 <= i < others.len() implies (#[trigger] others[i]).name
                != name by {
                assert(fillings[i + 1].name != name);
            }
        }
    }
}

/// `#` at the end of one part of a template makes a place with the name at the head
/// of the next.
pub open spec fn splits_place(front: Seq<Tree>, back: Seq<Tree>, fillings: Seq<FillingView>) -> bool {
    &&& front.len() > 0 && front.last() is Punct && front.last()->Punct_0 == '#'
    &&& back.len() > 0 && back[0] is Ident && place(fillings, back[0]->Ident_0) is Some
}

/// The parts of a template are filled each on its own, unless a place is split
/// between them.
pub proof fn law_parts_are_filled_apart(
    front: Seq<Tree>,
    back: Seq<Tree>,
    fillings: Seq<FillingView>,
)
    requires
        !splits_place(front, back, fillings),
    ensures
        filled(front + back, fillings) == filled(front, fillings) + filled(back, fillings),
    decreases front.len(),
{
    let whole = front + back;
    if front.len() == 0 {
        assert(whole =~= back);
        assert(filled(front, fillings) + filled(back, fillings) =~= filled(back, fillings));
    } else {
        assert(whole[0] == front[0]);
        assert(leading_place(whole, fillings) == leading_place(front, fillings)) by {
            if front.len() >= 2 {
                assert(whole[1] == front[1]);
            } else if back.len() > 0 {
                assert(whole[1] == back[0]);
                assert(front.last() == front[0]);
            }
        }
        match leading_place(front, fillings) {
            Some(trees) => {
                assert(whole.skip(2) =~= front.skip(2) + back);
                assert(front.skip(2).len() > 0 ==> front.skip(2).last() == front.last());
                law_parts_are_filled_apart(front.skip(2), back, fillings);
                assert(filled(whole, fillings) =~= filled(front, fillings) + filled(back, fillings));
            },
            None => {
                assert(whole.drop_first() =~= front.drop_first() + back);
                assert(front.drop_first().len() > 0 ==> front.drop_first().last() == front.last());
                law_parts_are_filled_apart(front.drop_first(), back, fillings);
                assert(filled(whole, fillings) =~= filled(front, fillings) + filled(back, fillings));
            },
        }
    }
}

/// A place with a filling gives way to it, wherever it stands. What the filling
/// holds is not looked into.
pub proof fn law_place_gives_way_to_its_filling(
    front: Seq<Tree>,
    joint: bool,
    name: Seq<char>,
    back: Seq<Tree>,
    fillings: Seq<FillingView>,
)
    requires
        place(fillings, name) is Some,
    ensures
        filled(front + seq![Tree::Punct('#', joint), Tree::Ident(name)] + back, fillings) == filled(
            front,
            fillings,
        ) + place(fillings, name)->0 + filled(back, fillings),
{
    let mark = seq![Tree::Punct('#', joint), Tree::Ident(name)];
    assert(front + mark + back =~= front + (mark + back));
    law_parts_are_filled_apart(front, mark + back, fillings);
    assert(leading_place(mark + back, fillings) == place(fillings, name));
    assert((mark + back).skip(2) =~= back);
    assert(filled(front + mark + back, fillings) =~= filled(front, fillings) + place(
        fillings,
        name,
    )->0 + filled(back, fillings));
}

/// A token that is no place stays as it is, and a group is filled inside.
pub proof fn law_other_trees_stay(
    front: Seq<Tree>,
    tree: Tree,
    back: Seq<Tree>,
    fillings: Seq<FillingView>,
)
    requires
        !splits_place(front, seq![tree], fillings),
        !splits_place(seq![tree], back, fillings),
    ensures
        filled(front + seq![tree] + back, fillings) == filled(front, fillings) + seq![
            match tree {
                Tree::Group(enclosure, inner) => Tree::Group(enclosure, filled(inner, fillings)),
                _ => tree,
            },
        ] + filled(back, fillings),
{
    let one = seq![tree];
    assert(front + one + back =~= front + (one + back));
    assert((one + back)[0] == tree);
    law_parts_are_filled_apart(front, one + back, fillings);
    law_parts_are_filled_apart(one, back, fillings);
    assert(one.drop_first() =~= Seq::empty());
    assert(filled(Seq::empty(), fillings) =~= Seq::empty());
    assert(leading_place(one, fillings) is None);
    assert(filled(one, fillings) =~= seq![filled_tree(tree, fillings)]);
    assert(filled(front + one + back, fillings) =~= filled(front, fillings) + seq![
        filled_tree(tree, fillings),
    ] + filled(back, fillings));
}

} // verus!
