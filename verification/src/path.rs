//! Paths of files, which are the same where they name the same places one after the other.

use crate::text;
use vstd::prelude::*;

verus! {

/// A part of a path counts unless it is empty or stays where it is.
pub open spec fn is_part(part: Seq<char>) -> bool {
    part.len() > 0 && part != seq!['.']
}

/// The path starts at the root.
pub open spec fn is_absolute(path: Seq<char>) -> bool {
    path.len() > 0 && path[0] == '/'
}

/// The parts between slashes.
pub open spec fn parts(path: Seq<char>) -> Seq<Seq<char>> {
    text::split(path, seq!['/'])
}

/// Those of some parts that count.
pub open spec fn counting(parts: Seq<Seq<char>>) -> Seq<Seq<char>>
    decreases parts.len(),
{
    if parts.len() == 0 {
        Seq::empty()
    } else if is_part(parts.last()) {
        counting(parts.drop_last()).push(parts.last())
    } else {
        counting(parts.drop_last())
    }
}

/// A path that is not absolute starts in the current directory and says so.
pub open spec fn starts_here(path: Seq<char>) -> bool {
    !is_absolute(path) && parts(path).len() > 0 && parts(path)[0] == seq!['.']
}

/// Two paths are the same: doubled slashes, slashes at the end and steps that stay where they are
/// make no difference, except for such a step at the start.
pub open spec fn same_path(left: Seq<char>, right: Seq<char>) -> bool {
    &&& is_absolute(left) == is_absolute(right)
    &&& starts_here(left) == starts_here(right)
    &&& counting(parts(left)) == counting(parts(right))
}

fn same_characters(left: &Vec<char>, right: &Vec<char>) -> (same: bool)
    ensures
        same == (left@ == right@),
{
    if left.len() != right.len() {
        return false;
    }
    let mut i: usize = 0;
    while i < left.len()
        invariant
            left@.len() == right@.len(),
            i <= left@.len(),
            forall|j: int| 0 <= j < i ==> left@[j] == right@[j],
        decreases left@.len() - i,
    {
        if left[i] != right[i] {
            return false;
        }
        i += 1;
    }
    assert(left@ =~= right@);
    true
}

/// A path taken apart.
struct Taken {
    absolute: bool,
    here: bool,
    parts: Vec<Vec<char>>,
}

fn take_apart(path: &str) -> (taken: Taken)
    ensures
        taken.absolute == is_absolute(path@),
        taken.here == starts_here(path@),
        taken.parts@.len() == counting(parts(path@)).len(),
        forall|i: int|
            0 <= i < taken.parts@.len() ==> (#[trigger] taken.parts@[i])@ == counting(
                parts(path@),
            )[i],
{
    let characters = text::characters(path);
    let absolute = characters.len() > 0 && characters[0] == '/';
    let slash: Vec<char> = vec!['/'];
    let dot: Vec<char> = vec!['.'];
    assert(slash@ =~= seq!['/']);
    assert(dot@ =~= seq!['.']);
    let pieces = text::split_at_each(characters.as_slice(), slash.as_slice());
    let ghost whole = parts(path@);
    let here = !absolute && pieces.len() > 0 && same_characters(&pieces[0], &dot);
    let mut kept: Vec<Vec<char>> = Vec::new();
    assert(whole.take(0) =~= Seq::<Seq<char>>::empty());
    for piece in iter: pieces
        invariant
            dot@ == seq!['.'],
            iter.seq().len() == whole.len(),
            forall|i: int| 0 <= i < whole.len() ==> (#[trigger] iter.seq()[i])@ == whole[i],
            kept@.len() == counting(whole.take(iter.index())).len(),
            forall|i: int|
                0 <= i < kept@.len() ==> (#[trigger] kept@[i])@ == counting(
                    whole.take(iter.index()),
                )[i],
    {
        assert(whole.take(iter.index() + 1).drop_last() =~= whole.take(iter.index()));
        assert(whole.take(iter.index() + 1).last() == whole[iter.index()]);
        if piece.len() > 0 && !same_characters(&piece, &dot) {
            kept.push(piece);
        }
    }
    assert(whole.take(whole.len() as int) =~= whole);
    Taken { absolute, here, parts: kept }
}

/// Tells whether two paths are the same.
pub fn equal_paths(left: &str, right: &str) -> (same: bool)
    ensures
        same == same_path(left@, right@),
{
    let first = take_apart(left);
    let second = take_apart(right);
    if first.absolute != second.absolute || first.here != second.here || first.parts.len()
        != second.parts.len() {
        return false;
    }
    let ghost lefts = counting(parts(left@));
    let ghost rights = counting(parts(right@));
    let mut i: usize = 0;
    while i < first.parts.len()
        invariant
            first.parts@.len() == second.parts@.len(),
            first.parts@.len() == lefts.len(),
            second.parts@.len() == rights.len(),
            lefts == counting(parts(left@)),
            rights == counting(parts(right@)),
            i <= lefts.len(),
            forall|j: int| 0 <= j < lefts.len() ==> (#[trigger] first.parts@[j])@ == lefts[j],
            forall|j: int| 0 <= j < rights.len() ==> (#[trigger] second.parts@[j])@ == rights[j],
            forall|j: int| 0 <= j < i ==> lefts[j] == rights[j],
        decreases lefts.len() - i,
    {
        if !same_characters(&first.parts[i], &second.parts[i]) {
            assert(lefts[i as int] != rights[i as int]);
            return false;
        }
        i += 1;
    }
    assert(lefts =~= rights);
    true
}

/// Two optional paths are the same.
pub open spec fn same_optional_path(left: Option<String>, right: Option<String>) -> bool {
    match (left, right) {
        (None, None) => true,
        (Some(left), Some(right)) => same_path(left@, right@),
        _ => false,
    }
}

pub fn equal_optional_paths(left: &Option<String>, right: &Option<String>) -> (same: bool)
    ensures
        same == same_optional_path(*left, *right),
{
    match (left, right) {
        (None, None) => true,
        (Some(left), Some(right)) => equal_paths(left.as_str(), right.as_str()),
        _ => false,
    }
}

} // verus!
