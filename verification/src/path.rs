//! Paths of the file system, held as their bytes.
use vstd::prelude::*;

use crate::bytes::copied;
use crate::text::same_bytes;

verus! {

/// The byte between two names of a path.
pub const SLASH: u8 = 0x2f;

/// The byte of a full stop.
pub const DOT: u8 = 0x2e;

/// The pieces of a path between its slashes.
pub open spec fn pieces(path: Seq<u8>) -> Seq<Seq<u8>>
    decreases path.len(),
{
    if path.len() == 0 {
        seq![Seq::empty()]
    } else {
        let front = pieces(path.drop_last());
        if path.last() == SLASH {
            front.push(Seq::empty())
        } else {
            front.drop_last().push(front.last().push(path.last()))
        }
    }
}

/// Whether a piece counts as a name: empty pieces do not, and a single full
/// stop counts only where the path starts with it.
pub open spec fn counts(piece: Seq<u8>, index: int) -> bool {
    piece.len() > 0 && (index == 0 || piece != seq![DOT])
}

/// The pieces that count.
pub open spec fn names_of(pieces: Seq<Seq<u8>>) -> Seq<Seq<u8>>
    decreases pieces.len(),
{
    if pieces.len() == 0 {
        Seq::empty()
    } else {
        let front = names_of(pieces.drop_last());
        if counts(pieces.last(), pieces.len() - 1) {
            front.push(pieces.last())
        } else {
            front
        }
    }
}

/// The names that a path goes through.
pub open spec fn path_names(path: Seq<u8>) -> Seq<Seq<u8>> {
    names_of(pieces(path))
}

/// Whether a path starts at the root.
pub open spec fn is_absolute(path: Seq<u8>) -> bool {
    path.len() > 0 && path[0] == SLASH
}

/// Whether two paths go through the same names from the same start.
pub open spec fn same_path(left: Seq<u8>, right: Seq<u8>) -> bool {
    is_absolute(left) == is_absolute(right) && path_names(left) == path_names(right)
}

/// A relative path under a directory.
pub open spec fn under(directory: Seq<u8>, relative: Seq<u8>) -> Seq<u8> {
    if directory.len() == 0 || directory.last() == SLASH {
        directory + relative
    } else {
        directory.push(SLASH) + relative
    }
}

/// The byte strings that a sequence of vectors holds.
pub open spec fn byte_strings(items: Seq<Vec<u8>>) -> Seq<Seq<u8>> {
    items.map_values(|item: Vec<u8>| item@)
}

proof fn lemma_pieces_not_empty(path: Seq<u8>)
    ensures
        pieces(path).len() > 0,
    decreases path.len(),
{
    if path.len() > 0 {
        lemma_pieces_not_empty(path.drop_last());
    }
}

fn is_name(piece: &Vec<u8>, first: bool) -> (r: bool)
    ensures
        r == (piece@.len() > 0 && (first || piece@ != seq![DOT])),
{
    let dot = piece.len() == 1 && piece[0] == DOT;
    assert(dot == (piece@ =~= seq![DOT]));
    piece.len() > 0 && (first || !dot)
}

fn names_in(path: &[u8]) -> (names: Vec<Vec<u8>>)
    ensures
        byte_strings(names@) == path_names(path@),
{
    let mut names: Vec<Vec<u8>> = Vec::new();
    let mut piece: Vec<u8> = Vec::new();
    let mut first = true;
    let mut i: usize = 0;
    proof {
        assert(path@.take(0) =~= Seq::empty());
        let start = pieces(Seq::<u8>::empty());
        assert(start.drop_last() =~= Seq::empty());
        assert(byte_strings(names@) =~= names_of(start.drop_last()));
        assert(start.last() =~= piece@);
    }
    while i < path.len()
        invariant
            i <= path@.len(),
            pieces(path@.take(i as int)).len() > 0,
            piece@ == pieces(path@.take(i as int)).last(),
            first == (pieces(path@.take(i as int)).len() == 1),
            byte_strings(names@) == names_of(pieces(path@.take(i as int)).drop_last()),
        decreases path@.len() - i,
    {
        let ghost before = pieces(path@.take(i as int));
        let ghost after = pieces(path@.take(i + 1));
        let ghost held = names@;
        proof {
            assert(path@.take(i + 1).drop_last() =~= path@.take(i as int));
            assert(path@.take(i + 1).last() == path@[i as int]);
        }
        if path[i] == SLASH {
            assert(after.drop_last() =~= before);
            if is_name(&piece, first) {
                let ghost value = piece@;
                names.push(piece);
                assert(byte_strings(names@) =~= byte_strings(held).push(value));
            }
            piece = Vec::new();
            first = false;
        } else {
            assert(after.drop_last() =~= before.drop_last());
            piece.push(path[i]);
        }
        i = i + 1;
    }
    assert(path@.take(path@.len() as int) =~= path@);
    if is_name(&piece, first) {
        let ghost held = names@;
        let ghost value = piece@;
        names.push(piece);
        assert(byte_strings(names@) =~= byte_strings(held).push(value));
    }
    names
}

/// Whether two paths go through the same names from the same start.
pub fn paths_match(left: &[u8], right: &[u8]) -> (r: bool)
    ensures
        r == same_path(left@, right@),
{
    let left_rooted = left.len() > 0 && left[0] == SLASH;
    let right_rooted = right.len() > 0 && right[0] == SLASH;
    if left_rooted != right_rooted {
        return false;
    }
    let a = names_in(left);
    let b = names_in(right);
    if a.len() != b.len() {
        assert(byte_strings(a@).len() != byte_strings(b@).len());
        return false;
    }
    let mut i: usize = 0;
    while i < a.len()
        invariant
            a@.len() == b@.len(),
            i <= a@.len(),
            byte_strings(a@) == path_names(left@),
            byte_strings(b@) == path_names(right@),
            forall|j: int| 0 <= j < i ==> (#[trigger] a@[j])@ == b@[j]@,
        decreases a@.len() - i,
    {
        if !same_bytes(a[i].as_slice(), b[i].as_slice()) {
            assert(byte_strings(a@)[i as int] != byte_strings(b@)[i as int]);
            return false;
        }
        i = i + 1;
    }
    assert(byte_strings(a@) =~= byte_strings(b@));
    true
}

/// Puts a relative path under a directory.
pub fn join_path(directory: &[u8], relative: &str) -> (path: Vec<u8>)
    ensures
        path@ == under(directory@, vstd::utf8::encode_utf8(relative@)),
{
    let mut path = copied(directory);
    if path.len() > 0 && path[path.len() - 1] != SLASH {
        path.push(SLASH);
    }
    path.extend_from_slice(relative.as_bytes());
    assert(path@ =~= under(directory@, vstd::utf8::encode_utf8(relative@)));
    path
}

} // verus!
