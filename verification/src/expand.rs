//! Reduction of a stage's parse tree to its argument vector: quotes and
//! escape markers go, variables are replaced by their values.

use crate::environment::{unbound_is_empty, Environment};
use crate::syntax::{items_within, pieces_within, Item, ItemView, Piece, Span, Stage};
use crate::text::string_of;
use vstd::prelude::*;

verus! {

/// The text that one piece stands for: its character, or for a variable the
/// value of its name, which is empty where the name is not bound.
pub open spec fn piece_text(p: Piece, src: Seq<char>, env: Environment) -> Seq<char> {
    match p {
        Piece::Regular(c) => seq![c],
        Piece::Escaped(c) => seq![c],
        Piece::Space(c) => seq![c],
        Piece::Variable(name) => env.value(name.text(src)),
    }
}

/// The texts of the pieces, joined in source order.
pub open spec fn pieces_text(ps: Seq<Piece>, src: Seq<char>, env: Environment) -> Seq<char>
    decreases ps.len(),
{
    if ps.len() == 0 {
        Seq::empty()
    } else {
        pieces_text(ps.drop_last(), src, env) + piece_text(ps.last(), src, env)
    }
}

/// The one string that an argument reduces to. What stands between single
/// quotes is taken as it is. A redirection is no argument and has no text.
pub open spec fn item_text(it: ItemView, src: Seq<char>, env: Environment) -> Seq<char> {
    match it {
        ItemView::Word(ps) => pieces_text(ps, src, env),
        ItemView::DoubleQuoted(ps) => pieces_text(ps, src, env),
        ItemView::SingleQuoted(sp) => sp.text(src),
        ItemView::RedirectInput(_) => Seq::empty(),
        ItemView::RedirectOutput(_) => Seq::empty(),
    }
}

/// The argument vector of a stage: one string for each argument, in source
/// order; redirections contribute nothing.
pub open spec fn arguments(items: Seq<ItemView>, src: Seq<char>, env: Environment) -> Seq<
    Seq<char>,
>
    decreases items.len(),
{
    if items.len() == 0 {
        Seq::empty()
    } else if items.last().is_argument() {
        arguments(items.drop_last(), src, env).push(item_text(items.last(), src, env))
    } else {
        arguments(items.drop_last(), src, env)
    }
}

/// The strings of `v` as sequences of characters.
pub open spec fn texts(v: Seq<String>) -> Seq<Seq<char>> {
    v.map_values(|s: String| s@)
}

/// Appends the text of the pieces to `out`.
pub fn expand_pieces(ps: &Vec<Piece>, src: &Vec<char>, env: &Environment, out: &mut Vec<char>)
    requires
        pieces_within(ps@, src@.len()),
    ensures
        final(out)@ == old(out)@ + pieces_text(ps@, src@, *env),
{
    let ghost before = out@;
    let mut i: usize = 0;
    assert(out@ =~= before + pieces_text(ps@.take(0), src@, *env));
    while i < ps.len()
        invariant
            i <= ps@.len(),
            pieces_within(ps@, src@.len()),
            out@ == before + pieces_text(ps@.take(i as int), src@, *env),
        decreases ps@.len() - i,
    {
        proof {
            assert(ps@.take(i + 1).drop_last() =~= ps@.take(i as int));
            assert(ps@.take(i + 1).last() == ps@[i as int]);
        }
        match ps[i] {
            Piece::Regular(c) => {
                out.push(c);
            },
            Piece::Escaped(c) => {
                out.push(c);
            },
            Piece::Space(c) => {
                out.push(c);
            },
            Piece::Variable(name) => {
                assert(ps@[i as int].within(src@.len()));
                match env.lookup(src, name) {
                    Some(value) => {
                        append_chars(out, value);
                    },
                    None => {},
                }
            },
        }
        assert(out@ =~= before + pieces_text(ps@.take(i + 1), src@, *env));
        i += 1;
    }
    assert(ps@.take(ps@.len() as int) =~= ps@);
}

/// Appends `more` to `out`.
pub fn append_chars(out: &mut Vec<char>, more: &Vec<char>)
    ensures
        final(out)@ == old(out)@ + more@,
{
    let ghost before = out@;
    let mut k: usize = 0;
    while k < more.len()
        invariant
            k <= more@.len(),
            out@ == before + more@.take(k as int),
        decreases more@.len() - k,
    {
        out.push(more[k]);
        assert(out@ =~= before + more@.take(k + 1));
        k += 1;
    }
    assert(more@.take(more@.len() as int) =~= more@);
}

/// The string that the argument `it` reduces to.
pub fn expand_item(it: &Item, src: &Vec<char>, env: &Environment) -> (text: String)
    requires
        it@.within(src@.len()),
    ensures
        text@ == item_text(it@, src@, *env),
{
    match it {
        Item::Word(ps) => {
            let mut out: Vec<char> = Vec::new();
            expand_pieces(ps, src, env, &mut out);
            assert(out@ =~= pieces_text(ps@, src@, *env));
            let text = string_of(&out, 0, out.len());
            assert(out@.subrange(0, out@.len() as int) =~= out@);
            text
        },
        Item::DoubleQuoted(ps) => {
            let mut out: Vec<char> = Vec::new();
            expand_pieces(ps, src, env, &mut out);
            assert(out@ =~= pieces_text(ps@, src@, *env));
            let text = string_of(&out, 0, out.len());
            assert(out@.subrange(0, out@.len() as int) =~= out@);
            text
        },
        Item::SingleQuoted(sp) => string_of(src, sp.start, sp.end),
        Item::RedirectInput(_) => String::new(),
        Item::RedirectOutput(_) => String::new(),
    }
}

/// Whether the item is an argument, not a redirection.
pub fn is_argument(it: &Item) -> (b: bool)
    ensures
        b == it@.is_argument(),
{
    match it {
        Item::Word(_) => true,
        Item::DoubleQuoted(_) => true,
        Item::SingleQuoted(_) => true,
        Item::RedirectInput(_) => false,
        Item::RedirectOutput(_) => false,
    }
}

/// The argument vector of the stage.
pub fn get_args(stage: &Stage, src: &Vec<char>, env: &Environment) -> (args: Vec<String>)
    requires
        items_within(stage@, src@.len()),
    ensures
        texts(args@) == arguments(stage@, src@, *env),
{
    let mut args: Vec<String> = Vec::new();
    let mut i: usize = 0;
    assert(texts(args@) =~= arguments(stage@.take(0), src@, *env));
    while i < stage.items.len()
        invariant
            i <= stage.items@.len(),
            items_within(stage@, src@.len()),
            texts(args@) == arguments(stage@.take(i as int), src@, *env),
        decreases stage.items@.len() - i,
    {
        proof {
            assert(stage@.take(i + 1).drop_last() =~= stage@.take(i as int));
            assert(stage@.take(i + 1).last() == stage@[i as int]);
            assert(stage@[i as int] == stage.items@[i as int]@);
            assert(stage@[i as int].within(src@.len()));
        }
        if is_argument(&stage.items[i]) {
            let text = expand_item(&stage.items[i], src, env);
            let ghost sofar = texts(args@);
            args.push(text);
            assert(texts(args@) =~= sofar.push(text@));
        }
        i += 1;
    }
    assert(stage@.take(stage@.len() as int) =~= stage@);
    args
}

/// What stands between single quotes is never expanded: the argument is
/// the quoted text itself, in every environment.
pub proof fn single_quotes_are_literal(name: Span, src: Seq<char>, env: Environment)
    ensures
        item_text(ItemView::SingleQuoted(name), src, env) == name.text(src),
{
}

/// A variable that is not bound expands to the empty text.
pub proof fn unset_variable_is_empty(name: Span, src: Seq<char>, env: Environment)
    requires
        !env.binds(name.text(src)),
    ensures
        piece_text(Piece::Variable(name), src, env) == Seq::<char>::empty(),
{
    unbound_is_empty(env, name.text(src));
}

/// An escape stands for the character behind the backslash, and for
/// nothing else, in every environment.
pub proof fn escape_is_its_character(c: char, src: Seq<char>, env: Environment)
    ensures
        piece_text(Piece::Escaped(c), src, env) == seq![c],
{
}

/// Every argument of a stage gives exactly one string: the argument
/// vector is as long as the stage has arguments.
pub proof fn one_string_per_argument(items: Seq<ItemView>, src: Seq<char>, env: Environment)
    ensures
        arguments(items, src, env).len() == items.filter(|it: ItemView| it.is_argument()).len(),
    decreases items.len(),
{
    reveal(Seq::filter);
    if items.len() > 0 {
        one_string_per_argument(items.drop_last(), src, env);
    }
}

/// The text of a sequence of pieces is the texts of its parts, joined in
/// source order.
pub proof fn text_of_joined_pieces(a: Seq<Piece>, b: Seq<Piece>, src: Seq<char>, env: Environment)
    ensures
        pieces_text(a + b, src, env) == pieces_text(a, src, env) + pieces_text(b, src, env),
    decreases b.len(),
{
    if b.len() == 0 {
        assert(a + b =~= a);
        assert(pieces_text(a, src, env) + Seq::<char>::empty() =~= pieces_text(a, src, env));
    } else {
        assert((a + b).drop_last() =~= a + b.drop_last());
        assert((a + b).last() == b.last());
        text_of_joined_pieces(a, b.drop_last(), src, env);
        assert((pieces_text(a, src, env) + pieces_text(b.drop_last(), src, env)) + piece_text(
            b.last(),
            src,
            env,
        ) =~= pieces_text(a, src, env) + (pieces_text(b.drop_last(), src, env) + piece_text(
            b.last(),
            src,
            env,
        )));
    }
}

/// Pieces among which no variable stands have the same text in every
/// environment.
pub proof fn text_without_variables(
    ps: Seq<Piece>,
    src: Seq<char>,
    env: Environment,
    other: Environment,
)
    requires
        forall|k: int| 0 <= k < ps.len() ==> !((#[trigger] ps[k]) is Variable),
    ensures
        pieces_text(ps, src, env) == pieces_text(ps, src, other),
    decreases ps.len(),
{
    if ps.len() > 0 {
        assert(!(ps[ps.len() - 1] is Variable));
        assert forall|k: int| 0 <= k < ps.drop_last().len() implies !((
        #[trigger] ps.drop_last()[k]) is Variable) by {
            assert(ps.drop_last()[k] == ps[k]);
        }
        text_without_variables(ps.drop_last(), src, env, other);
    }
}

} // verus!
