//! What makes two paths the same, and where one path stands below another: laws on
//! paths and on bytes that stand in others.
use vstd::prelude::*;

use crate::bytes::{cut_out, stands_at};
use crate::path::{counts, is_absolute, names_of, path_names, pieces, same_path, under};

verus! {

/// Whether bytes are one piece of a path, without a slash.
pub open spec fn is_piece(bytes: Seq<u8>) -> bool {
    forall|i: int| 0 <= i < bytes.len() ==> #[trigger] bytes[i] != 0x2f
}

/// What follows the last slash is the last piece.
proof fn lemma_last_piece(front: Seq<u8>, piece: Seq<u8>)
    requires
        is_piece(piece),
    ensures
        pieces(front.push(0x2f) + piece) == pieces(front).push(piece),
        pieces(piece) == seq![piece],
    decreases piece.len(),
{
    let whole = front.push(0x2f) + piece;
    if piece.len() == 0 {
        assert(whole =~= front.push(0x2f));
        assert(whole.drop_last() =~= front);
        assert(whole.last() == 0x2f);
        assert(piece =~= Seq::empty());
    } else {
        let shorter = piece.drop_last();
        assert(is_piece(shorter)) by {
            assert forall|i: int| 0 <= i < shorter.len() implies #[trigger] shorter[i] != 0x2f by {
                assert(shorter[i] == piece[i]);
            }
        }
        lemma_last_piece(front, shorter);
        assert(whole.drop_last() =~= front.push(0x2f) + shorter);
        assert(whole.last() == piece.last());
        assert(piece.last() == piece[piece.len() - 1]);
        assert(piece.last() != 0x2f);
        let list = pieces(front).push(shorter);
        assert(list.drop_last() =~= pieces(front));
        assert(shorter.push(piece.last()) =~= piece);
        assert(seq![shorter].drop_last().push(piece) =~= seq![piece]);
    }
}

/// There is always a piece.
proof fn lemma_some_piece(path: Seq<u8>)
    ensures
        pieces(path).len() > 0,
    decreases path.len(),
{
    if path.len() > 0 {
        lemma_some_piece(path.drop_last());
    }
}

/// The names of a path are the pieces between its slashes. Empty pieces do not count,
/// so that slashes may be doubled or stand at the end; nor does a single dot, except
/// where the path begins with it.
pub proof fn lemma_the_names_of_a_path(front: Seq<u8>, piece: Seq<u8>)
    requires
        is_piece(piece),
    ensures
        path_names(piece) == (if piece.len() == 0 {
            Seq::<Seq<u8>>::empty()
        } else {
            seq![piece]
        }),
        path_names(front.push(0x2f) + piece) == (if piece.len() == 0 || piece == seq![0x2eu8] {
            path_names(front)
        } else {
            path_names(front).push(piece)
        }),
{
    lemma_last_piece(front, piece);
    lemma_some_piece(front);
    let list = pieces(front).push(piece);
    assert(list.drop_last() =~= pieces(front));
    assert(list.last() == piece);
    reveal_with_fuel(names_of, 2);
    assert(seq![piece].drop_last() =~= Seq::empty());
    assert(counts(piece, 0) <==> piece.len() > 0);
    assert(counts(piece, pieces(front).len() as int) <==> piece.len() > 0 && piece != seq![0x2eu8]);
    assert(path_names(piece) =~= if piece.len() == 0 {
        Seq::<Seq<u8>>::empty()
    } else {
        seq![piece]
    });
}

/// Two paths are the same if and only if both or neither begin with a slash and they have
/// the same names.
pub proof fn lemma_when_paths_are_the_same(left: Seq<u8>, right: Seq<u8>)
    ensures
        same_path(left, right) <==> ((left.len() > 0 && left[0] == 0x2f) <==> (right.len() > 0
            && right[0] == 0x2f)) && path_names(left) == path_names(right),
        left.len() > 0 ==> same_path(left, left.push(0x2f)),
        left.len() > 0 ==> same_path(left, left.push(0x2f).push(0x2e)),
        left.len() > 0 ==> same_path(left.push(0x2f) + right, left.push(0x2f).push(0x2f) + right),
{
    if left.len() > 0 {
        let empty = Seq::<u8>::empty();
        let dot = seq![0x2eu8];
        lemma_the_names_of_a_path(left, empty);
        assert(left.push(0x2f) + empty =~= left.push(0x2f));
        lemma_the_names_of_a_path(left, dot);
        assert(left.push(0x2f) + dot =~= left.push(0x2f).push(0x2e));
        lemma_doubled_slash(left, right);
        assert((left.push(0x2f) + right)[0] == left[0]);
        assert((left.push(0x2f).push(0x2f) + right)[0] == left[0]);
    }
}

/// A doubled slash adds an empty piece only.
proof fn lemma_doubled_slash(left: Seq<u8>, right: Seq<u8>)
    ensures
        path_names(left.push(0x2f) + right) == path_names(left.push(0x2f).push(0x2f) + right),
    decreases right.len(),
{
    let at = last_slash(right);
    let single = left.push(0x2f) + right;
    let double = left.push(0x2f).push(0x2f) + right;
    lemma_last_slash(right);
    if at < 0 {
        lemma_the_names_of_a_path(left, right);
        lemma_the_names_of_a_path(left.push(0x2f), right);
        lemma_the_names_of_a_path(left, Seq::empty());
        assert(left.push(0x2f) + Seq::<u8>::empty() =~= left.push(0x2f));
    } else {
        let front = right.take(at);
        let piece = right.skip(at + 1);
        assert(is_piece(piece)) by {
            assert forall|i: int| 0 <= i < piece.len() implies #[trigger] piece[i] != 0x2f by {
                assert(piece[i] == right[i + at + 1]);
            }
        }
        lemma_doubled_slash(left, front);
        assert(single =~= (left.push(0x2f) + front).push(0x2f) + piece);
        assert(double =~= (left.push(0x2f).push(0x2f) + front).push(0x2f) + piece);
        lemma_the_names_of_a_path(left.push(0x2f) + front, piece);
        lemma_the_names_of_a_path(left.push(0x2f).push(0x2f) + front, piece);
    }
}

/// Where the last slash of a path is; before it where there is none.
spec fn last_slash(path: Seq<u8>) -> int
    decreases path.len(),
{
    if path.len() == 0 {
        -1
    } else if path.last() == 0x2f {
        path.len() - 1
    } else {
        last_slash(path.drop_last())
    }
}

/// The last slash is one, and none follows it.
proof fn lemma_last_slash(path: Seq<u8>)
    ensures
        -1 <= last_slash(path) < path.len(),
        last_slash(path) >= 0 ==> path[last_slash(path)] == 0x2f,
        forall|i: int| last_slash(path) < i < path.len() ==> #[trigger] path[i] != 0x2f,
    decreases path.len(),
{
    if path.len() > 0 && path.last() != 0x2f {
        let front = path.drop_last();
        lemma_last_slash(front);
        assert forall|i: int| last_slash(path) < i < path.len() implies #[trigger] path[i]
            != 0x2f by {
            if i < front.len() {
                assert(front[i] == path[i]);
            }
        }
        if last_slash(front) >= 0 {
            assert(front[last_slash(front)] == path[last_slash(front)]);
        }
    }
}

/// A path below a directory is the directory, one slash and the path; the slash is left
/// out where the directory ends with one or is nothing. So a name below a directory comes
/// behind the directory's names.
pub proof fn lemma_what_is_below_a_directory(directory: Seq<u8>, relative: Seq<u8>)
    ensures
        directory.len() == 0 ==> under(directory, relative) == relative,
        directory.len() > 0 && directory.last() == 0x2f ==> under(directory, relative) == directory
            + relative,
        directory.len() > 0 && directory.last() != 0x2f ==> under(directory, relative) == directory
            + seq![0x2fu8] + relative,
        directory.len() > 0 && is_piece(relative) && relative.len() > 0 && relative != seq![0x2eu8]
            ==> path_names(under(directory, relative)) == path_names(directory).push(relative),
        directory.len() > 0 ==> is_absolute(under(directory, relative)) == is_absolute(directory),
{
    if directory.len() == 0 {
        assert(under(directory, relative) =~= relative);
    } else if directory.last() == 0x2f {
        let front = directory.drop_last();
        assert(directory =~= front.push(0x2f));
        if is_piece(relative) {
            lemma_the_names_of_a_path(front, relative);
            lemma_the_names_of_a_path(front, Seq::empty());
            assert(front.push(0x2f) + Seq::<u8>::empty() =~= directory);
        }
        assert(under(directory, relative)[0] == directory[0]);
    } else {
        assert(directory.push(0x2f) =~= directory + seq![0x2fu8]);
        if is_piece(relative) {
            lemma_the_names_of_a_path(directory, relative);
        }
        assert(under(directory, relative)[0] == directory[0]);
    }
}

/// Bytes stand in others where something can be put before and behind them to make those,
/// and cutting them out leaves just that.
pub proof fn lemma_what_stands_where(before: Seq<u8>, pattern: Seq<u8>, behind: Seq<u8>)
    ensures
        stands_at(before + pattern + behind, pattern, before.len() as int),
        cut_out(before + pattern + behind, before.len() as int, pattern.len() as int) == before
            + behind,
{
    let whole = before + pattern + behind;
    let at = before.len() as int;
    assert(whole.subrange(at, at + pattern.len()) =~= pattern);
    assert(whole.subrange(0, at) =~= before);
    assert(whole.subrange(at + pattern.len(), whole.len() as int) =~= behind);
}

/// Nothing else stands there.
pub proof fn lemma_only_one_stands_there(bytes: Seq<u8>, pattern: Seq<u8>, at: int)
    requires
        stands_at(bytes, pattern, at),
    ensures
        0 <= at <= bytes.len() - pattern.len(),
        bytes == bytes.take(at) + pattern + bytes.skip(at + pattern.len()),
{
    assert(bytes.take(at) + pattern + bytes.skip(at + pattern.len()) =~= bytes) by {
        assert forall|i: int| 0 <= i < pattern.len() implies bytes[at + i] == #[trigger] pattern[i] by {
            assert(bytes.subrange(at, at + pattern.len())[i] == bytes[at + i]);
        }
    }
}

} // verus!
