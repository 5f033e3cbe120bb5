//! Byte strings: copies, and where one byte string stands in another.
use vstd::prelude::*;
use vstd::slice::slice_subrange;

use crate::text::same_bytes;

verus! {

/// A copy of the bytes.
pub fn copied(bytes: &[u8]) -> (copy: Vec<u8>)
    ensures
        copy@ == bytes@,
{
    let mut copy: Vec<u8> = Vec::new();
    copy.extend_from_slice(bytes);
    assert(copy@ =~= bytes@);
    copy
}

/// Whether `pattern` stands in `bytes` at position `at`.
pub open spec fn stands_at(bytes: Seq<u8>, pattern: Seq<u8>, at: int) -> bool {
    0 <= at && at + pattern.len() <= bytes.len() && bytes.subrange(at, at + pattern.len())
        == pattern
}

/// The number of positions before `end` at which `pattern` stands in `bytes`.
pub open spec fn occurrences_before(bytes: Seq<u8>, pattern: Seq<u8>, end: int) -> nat
    decreases end,
{
    if end <= 0 {
        0
    } else {
        occurrences_before(bytes, pattern, end - 1) + if stands_at(bytes, pattern, end - 1) {
            1nat
        } else {
            0nat
        }
    }
}

/// The number of positions at which `pattern` stands in `bytes`.
pub open spec fn occurrences(bytes: Seq<u8>, pattern: Seq<u8>) -> nat {
    occurrences_before(bytes, pattern, bytes.len() as int + 1)
}

/// Whether `at` is the first position at which `pattern` stands in `bytes`.
pub open spec fn stands_first_at(bytes: Seq<u8>, pattern: Seq<u8>, at: int) -> bool {
    stands_at(bytes, pattern, at) && forall|i: int| 0 <= i < at ==> !stands_at(bytes, pattern, i)
}

/// The first position at which `pattern` stands in `bytes`.
pub open spec fn first_position(bytes: Seq<u8>, pattern: Seq<u8>) -> int {
    choose|at: int| stands_first_at(bytes, pattern, at)
}

/// There is one first position alone.
pub proof fn lemma_first_position(bytes: Seq<u8>, pattern: Seq<u8>, at: int)
    requires
        stands_first_at(bytes, pattern, at),
    ensures
        first_position(bytes, pattern) == at,
{
    let first = first_position(bytes, pattern);
    assert(stands_first_at(bytes, pattern, first));
    assert(stands_at(bytes, pattern, first));
    assert(stands_at(bytes, pattern, at));
}

/// Whether `pattern` stands anywhere in `bytes`.
pub open spec fn stands_in(bytes: Seq<u8>, pattern: Seq<u8>) -> bool {
    exists|at: int| stands_at(bytes, pattern, at)
}

/// The bytes without the `length` bytes from position `at`.
pub open spec fn cut_out(bytes: Seq<u8>, at: int, length: int) -> Seq<u8> {
    bytes.subrange(0, at) + bytes.subrange(at + length, bytes.len() as int)
}

fn is_at(bytes: &[u8], pattern: &[u8], at: usize) -> (r: bool)
    requires
        at + pattern@.len() <= bytes@.len(),
    ensures
        r == stands_at(bytes@, pattern@, at as int),
{
    let end: usize = bytes.len();
    assert(at + pattern@.len() <= end);
    same_bytes(slice_subrange(bytes, at, at + pattern.len()), pattern)
}

proof fn lemma_no_later_occurrence(bytes: Seq<u8>, pattern: Seq<u8>, from: int, end: int)
    requires
        0 <= from <= end,
        from + pattern.len() > bytes.len(),
    ensures
        occurrences_before(bytes, pattern, end) == occurrences_before(bytes, pattern, from),
    decreases end,
{
    if from < end {
        lemma_no_later_occurrence(bytes, pattern, from, end - 1);
    }
}

/// Counts the positions at which `pattern` stands in `bytes`.
pub fn count_occurrences(bytes: &[u8], pattern: &[u8]) -> (count: u128)
    ensures
        count == occurrences(bytes@, pattern@),
{
    if pattern.len() > bytes.len() {
        proof {
            lemma_no_later_occurrence(bytes@, pattern@, 0, bytes@.len() as int + 1);
        }
        return 0;
    }
    let last: usize = bytes.len() - pattern.len();
    let mut count: u128 = if is_at(bytes, pattern, 0) {
        1
    } else {
        0
    };
    let mut at: usize = 0;
    proof {
        reveal_with_fuel(occurrences_before, 2);
    }
    while at < last
        invariant
            at <= last,
            last == bytes@.len() - pattern@.len(),
            count == occurrences_before(bytes@, pattern@, at + 1),
            count <= at + 1,
        decreases last - at,
    {
        at = at + 1;
        if is_at(bytes, pattern, at) {
            count = count + 1;
        }
    }
    proof {
        lemma_no_later_occurrence(bytes@, pattern@, last + 1, bytes@.len() as int + 1);
    }
    count
}

/// The first position at which `pattern` stands in `bytes`.
pub fn find_bytes(bytes: &[u8], pattern: &[u8]) -> (r: Option<usize>)
    ensures
        match r {
            Some(at) => stands_first_at(bytes@, pattern@, at as int),
            None => !stands_in(bytes@, pattern@),
        },
{
    if pattern.len() > bytes.len() {
        return None;
    }
    let last: usize = bytes.len() - pattern.len();
    if is_at(bytes, pattern, 0) {
        return Some(0);
    }
    let mut at: usize = 0;
    while at < last
        invariant
            at <= last,
            last == bytes@.len() - pattern@.len(),
            forall|i: int| 0 <= i <= at ==> !stands_at(bytes@, pattern@, i),
        decreases last - at,
    {
        at = at + 1;
        if is_at(bytes, pattern, at) {
            return Some(at);
        }
    }
    None
}

/// Cuts `length` bytes out from position `at`.
pub fn cut(bytes: &[u8], at: usize, length: usize) -> (rest: Vec<u8>)
    requires
        at + length <= bytes@.len(),
    ensures
        rest@ == cut_out(bytes@, at as int, length as int),
{
    let end: usize = bytes.len();
    assert(at + length <= end);
    let mut rest = copied(slice_subrange(bytes, 0, at));
    rest.extend_from_slice(slice_subrange(bytes, at + length, end));
    assert(rest@ =~= cut_out(bytes@, at as int, length as int));
    rest
}

proof fn lemma_occurrences_grow(bytes: Seq<u8>, pattern: Seq<u8>, from: int, end: int)
    requires
        from <= end,
    ensures
        occurrences_before(bytes, pattern, from) <= occurrences_before(bytes, pattern, end),
    decreases end,
{
    if from < end && end > 0 {
        lemma_occurrences_grow(bytes, pattern, from, end - 1);
    }
}

/// A pattern that stands in the bytes exactly once stands at one position
/// alone.
pub proof fn lemma_single_occurrence(bytes: Seq<u8>, pattern: Seq<u8>, at: int, other: int)
    requires
        occurrences(bytes, pattern) == 1,
        stands_at(bytes, pattern, at),
        stands_at(bytes, pattern, other),
    ensures
        at == other,
{
    let (low, high) = if at < other {
        (at, other)
    } else {
        (other, at)
    };
    if low < high {
        let end = bytes.len() + 1;
        lemma_occurrences_grow(bytes, pattern, low + 1, high);
        lemma_occurrences_grow(bytes, pattern, high + 1, end as int);
        lemma_occurrences_grow(bytes, pattern, 0, low);
    }
}

/// A pattern that stands at one position alone stands in the bytes exactly once.
pub proof fn lemma_only_occurrence(bytes: Seq<u8>, pattern: Seq<u8>, at: int)
    requires
        stands_at(bytes, pattern, at),
        forall|other: int| #[trigger] stands_at(bytes, pattern, other) ==> other == at,
    ensures
        occurrences(bytes, pattern) == 1,
{
    lemma_only_occurrence_before(bytes, pattern, at, bytes.len() as int + 1);
}

proof fn lemma_only_occurrence_before(bytes: Seq<u8>, pattern: Seq<u8>, at: int, end: int)
    requires
        stands_at(bytes, pattern, at),
        forall|other: int| #[trigger] stands_at(bytes, pattern, other) ==> other == at,
    ensures
        occurrences_before(bytes, pattern, end) == (if at < end {
            1nat
        } else {
            0nat
        }),
    decreases end,
{
    if end > 0 {
        lemma_only_occurrence_before(bytes, pattern, at, end - 1);
    }
}

/// A pattern is counted where it stands, and only there.
pub proof fn lemma_counted_where_it_stands(bytes: Seq<u8>, pattern: Seq<u8>)
    ensures
        occurrences(bytes, pattern) > 0 <==> stands_in(bytes, pattern),
{
    lemma_counted_before(bytes, pattern, bytes.len() as int + 1);
    if stands_in(bytes, pattern) {
        let at = choose|at: int| stands_at(bytes, pattern, at);
        lemma_occurrences_grow(bytes, pattern, at + 1, bytes.len() as int + 1);
    }
}

proof fn lemma_counted_before(bytes: Seq<u8>, pattern: Seq<u8>, end: int)
    ensures
        occurrences_before(bytes, pattern, end) > 0 ==> stands_in(bytes, pattern),
    decreases end,
{
    if end > 0 {
        lemma_counted_before(bytes, pattern, end - 1);
    }
}

} // verus!
