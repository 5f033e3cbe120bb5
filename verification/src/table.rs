//! A small table keyed by text.
use vstd::prelude::*;

use crate::text::same_text;

verus! {

/// A table from text to values; of a key that is written twice the last value
/// counts.
pub struct TextTable<V> {
    entries: Vec<(String, V)>,
}

/// What entries hold when they are written one after the other.
pub closed spec fn rows<V: View>(entries: Seq<(String, V)>) -> Map<Seq<char>, V::V>
    decreases entries.len(),
{
    if entries.len() == 0 {
        Map::empty()
    } else {
        rows(entries.drop_last()).insert(entries.last().0@, entries.last().1@)
    }
}

impl<V: View> View for TextTable<V> {
    type V = Map<Seq<char>, V::V>;

    closed spec fn view(&self) -> Map<Seq<char>, V::V> {
        rows(self.entries@)
    }
}

proof fn lemma_absent<V: View>(entries: Seq<(String, V)>, key: Seq<char>)
    requires
        forall|i: int| 0 <= i < entries.len() ==> #[trigger] entries[i].0@ != key,
    ensures
        !rows(entries).dom().contains(key),
    decreases entries.len(),
{
    if entries.len() > 0 {
        let front = entries.drop_last();
        assert forall|i: int| 0 <= i < front.len() implies #[trigger] front[i].0@ != key by {
            assert(entries[i].0@ != key);
        }
        lemma_absent(front, key);
        assert(entries[entries.len() - 1].0@ != key);
    }
}

proof fn lemma_last_counts<V: View>(entries: Seq<(String, V)>, at: int)
    requires
        0 <= at < entries.len(),
        forall|i: int|
            at < i < entries.len() ==> #[trigger] entries[i].0@ != entries[at].0@,
    ensures
        rows(entries).dom().contains(entries[at].0@),
        rows(entries)[entries[at].0@] == entries[at].1@,
    decreases entries.len(),
{
    if at < entries.len() - 1 {
        let front = entries.drop_last();
        assert forall|i: int| at < i < front.len() implies #[trigger] front[i].0@
            != front[at].0@ by {
            assert(entries[i].0@ != entries[at].0@);
        }
        lemma_last_counts(front, at);
        assert(entries[entries.len() - 1].0@ != entries[at].0@);
    }
}

proof fn lemma_replaced<V: View>(
    before: Seq<(String, V)>,
    after: Seq<(String, V)>,
    at: int,
    key: Seq<char>,
)
    requires
        0 <= at < before.len(),
        before.len() == after.len(),
        before[at].0@ == key,
        after[at].0@ == key,
        forall|i: int| 0 <= i < before.len() && i != at ==> before[i] == #[trigger] after[i],
        forall|i: int| at < i < before.len() ==> #[trigger] before[i].0@ != key,
    ensures
        rows(after) == rows(before).insert(key, after[at].1@),
    decreases before.len(),
{
    let b = before.drop_last();
    let a = after.drop_last();
    let last = before.len() - 1;
    if at < last {
        assert forall|i: int| 0 <= i < b.len() && i != at implies b[i] == #[trigger] a[i] by {
            assert(before[i] == after[i]);
        }
        assert forall|i: int| at < i < b.len() implies #[trigger] b[i].0@ != key by {
            assert(before[i].0@ != key);
        }
        lemma_replaced(b, a, at, key);
        assert(before[last] == after[last]);
        assert(before[last].0@ != key);
        assert(rows(after) =~= rows(before).insert(key, after[at].1@));
    } else {
        assert(a =~= b);
        assert(rows(after) =~= rows(before).insert(key, after[at].1@));
    }
}

impl<V: View> TextTable<V> {
    /// An empty table.
    pub fn new() -> (table: TextTable<V>)
        ensures
            table@ == Map::<Seq<char>, V::V>::empty(),
    {
        TextTable { entries: Vec::new() }
    }

    /// The position of the last entry under `key`.
    fn position(&self, key: &str) -> (r: Option<usize>)
        ensures
            match r {
                Some(at) => at < self.entries@.len() && self.entries@[at as int].0@ == key@
                    && forall|i: int|
                    at < i < self.entries@.len() ==> #[trigger] self.entries@[i].0@ != key@,
                None => forall|i: int|
                    0 <= i < self.entries@.len() ==> #[trigger] self.entries@[i].0@ != key@,
            },
    {
        let mut at: usize = self.entries.len();
        while at > 0
            invariant
                at <= self.entries@.len(),
                forall|i: int|
                    at <= i < self.entries@.len() ==> #[trigger] self.entries@[i].0@ != key@,
            decreases at,
        {
            at = at - 1;
            if same_text(self.entries[at].0.as_str(), key) {
                return Some(at);
            }
        }
        None
    }

    /// The value under `key`.
    pub fn get(&self, key: &str) -> (value: Option<&V>)
        ensures
            match value {
                Some(value) => self@.dom().contains(key@) && self@[key@] == value@,
                None => !self@.dom().contains(key@),
            },
    {
        match self.position(key) {
            Some(at) => {
                proof {
                    lemma_last_counts(self.entries@, at as int);
                }
                Some(&self.entries[at].1)
            },
            None => {
                proof {
                    lemma_absent(self.entries@, key@);
                }
                None
            },
        }
    }

    /// Puts `value` under `key`, in place of what was there.
    pub fn insert(&mut self, key: &str, value: V)
        ensures
            final(self)@ == old(self)@.insert(key@, value@),
    {
        let ghost before = self.entries@;
        match self.position(key) {
            Some(at) => {
                let _ = self.entries.remove(at);
                self.entries.insert(at, (key.to_owned(), value));
                proof {
                    lemma_replaced(before, self.entries@, at as int, key@);
                }
            },
            None => {
                self.entries.push((key.to_owned(), value));
                proof {
                    assert(self.entries@.drop_last() =~= before);
                }
            },
        }
    }
}

} // verus!
