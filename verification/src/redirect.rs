//! Redirections of a stage. Only the first redirection of each direction
//! counts; later ones of the same direction are parsed and then ignored.

use crate::syntax::{items_within, Item, ItemView, Span, Stage};
use crate::text::string_of;
use vstd::prelude::*;

verus! {

/// The two directions of a redirection: `<` and `>`.
#[derive(Clone, Copy, PartialEq, Eq, Debug)]
pub enum Direction {
    Input,
    Output,
}

/// The file name's span, where `it` is a redirection in direction `dir`.
pub open spec fn target_of(it: ItemView, dir: Direction) -> Option<Span> {
    match (it, dir) {
        (ItemView::RedirectInput(sp), Direction::Input) => Some(sp),
        (ItemView::RedirectOutput(sp), Direction::Output) => Some(sp),
        _ => None,
    }
}

/// The target of the first redirection in direction `dir` among
/// `items[from..]`.
pub open spec fn first_target(items: Seq<ItemView>, dir: Direction, from: int) -> Option<Span>
    decreases items.len() - from,
{
    if from < 0 || from >= items.len() {
        None
    } else if target_of(items[from], dir) is Some {
        target_of(items[from], dir)
    } else {
        first_target(items, dir, from + 1)
    }
}

/// The text of an optional span.
pub open spec fn target_text(target: Option<Span>, src: Seq<char>) -> Option<Seq<char>> {
    match target {
        Some(sp) => Some(sp.text(src)),
        None => None,
    }
}

/// The characters of an optional string.
pub open spec fn optional_text(s: Option<String>) -> Option<Seq<char>> {
    match s {
        Some(t) => Some(t@),
        None => None,
    }
}

/// The span of the file name, where `it` is a redirection in direction `dir`.
pub fn redirect_target(it: &Item, dir: Direction) -> (r: Option<Span>)
    ensures
        r == target_of(it@, dir),
{
    match (it, dir) {
        (Item::RedirectInput(sp), Direction::Input) => Some(*sp),
        (Item::RedirectOutput(sp), Direction::Output) => Some(*sp),
        _ => None,
    }
}

/// The file that the stage's first redirection in direction `dir` names.
pub fn first_redirect(stage: &Stage, src: &Vec<char>, dir: Direction) -> (r: Option<String>)
    requires
        items_within(stage@, src@.len()),
    ensures
        optional_text(r) == target_text(first_target(stage@, dir, 0), src@),
{
    let mut i: usize = 0;
    while i < stage.items.len()
        invariant
            i <= stage.items@.len(),
            items_within(stage@, src@.len()),
            first_target(stage@, dir, 0) == first_target(stage@, dir, i as int),
        decreases stage.items@.len() - i,
    {
        assert(stage@[i as int] == stage.items@[i as int]@);
        assert(stage@[i as int].within(src@.len()));
        match redirect_target(&stage.items[i], dir) {
            Some(sp) => {
                return Some(string_of(src, sp.start, sp.end));
            },
            None => {},
        }
        i += 1;
    }
    None
}

/// The file that supplies the stage's input, if it names one.
pub fn get_input(stage: &Stage, src: &Vec<char>) -> (r: Option<String>)
    requires
        items_within(stage@, src@.len()),
    ensures
        optional_text(r) == target_text(first_target(stage@, Direction::Input, 0), src@),
{
    first_redirect(stage, src, Direction::Input)
}

/// The file that receives the stage's output, if it names one.
pub fn get_output(stage: &Stage, src: &Vec<char>) -> (r: Option<String>)
    requires
        items_within(stage@, src@.len()),
    ensures
        optional_text(r) == target_text(first_target(stage@, Direction::Output, 0), src@),
{
    first_redirect(stage, src, Direction::Output)
}

/// The first redirection of a direction decides: where `items[k]` is one
/// and none of that direction stands before it, its target is the stage's,
/// whatever follows.
pub proof fn first_match_wins(items: Seq<ItemView>, dir: Direction, k: int)
    requires
        0 <= k < items.len(),
        target_of(items[k], dir) is Some,
        forall|j: int| 0 <= j < k ==> target_of(#[trigger] items[j], dir) is None,
    ensures
        first_target(items, dir, 0) == target_of(items[k], dir),
{
    skip_to_first(items, dir, 0, k);
}

proof fn skip_to_first(items: Seq<ItemView>, dir: Direction, from: int, k: int)
    requires
        0 <= from <= k < items.len(),
        target_of(items[k], dir) is Some,
        forall|j: int| from <= j < k ==> target_of(#[trigger] items[j], dir) is None,
    ensures
        first_target(items, dir, from) == target_of(items[k], dir),
    decreases k - from,
{
    if from < k {
        skip_to_first(items, dir, from + 1, k);
    }
}

/// A stage without a redirection of a direction has no target in it.
pub proof fn no_redirect_no_target(items: Seq<ItemView>, dir: Direction, from: int)
    requires
        0 <= from,
        forall|j: int| from <= j < items.len() ==> target_of(#[trigger] items[j], dir) is None,
    ensures
        first_target(items, dir, from) is None,
    decreases items.len() - from,
{
    if from < items.len() {
        no_redirect_no_target(items, dir, from + 1);
    }
}

} // verus!
