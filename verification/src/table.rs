//! A small table from strings to values, kept as a list of entries. Where a key stands
//! twice, the last entry counts.
use crate::text::same;
use vstd::prelude::*;

verus! {

/// A table from strings to values.
#[derive(Debug)]
pub struct Table<V> {
    pub entries: Vec<(String, V)>,
}

/// The map that a list of entries stands for: a later entry replaces an earlier one.
pub open spec fn mapping<V>(entries: Seq<(String, V)>) -> Map<Seq<char>, V>
    decreases entries.len(),
{
    if entries.len() == 0 {
        Map::empty()
    } else {
        mapping(entries.drop_last()).insert(entries.last().0@, entries.last().1)
    }
}

impl<V> View for Table<V> {
    type V = Map<Seq<char>, V>;

    open spec fn view(&self) -> Map<Seq<char>, V> {
        mapping(self.entries@)
    }
}

proof fn lemma_last<V>(entries: Seq<(String, V)>, i: int)
    requires
        0 <= i < entries.len(),
        forall|j: int| i < j < entries.len() ==> (#[trigger] entries[j]).0@ != entries[i].0@,
    ensures
        mapping(entries).contains_key(entries[i].0@),
        mapping(entries)[entries[i].0@] == entries[i].1,
    decreases entries.len(),
{
    if i < entries.len() - 1 {
        let front = entries.drop_last();
        assert(front[i] == entries[i]);
        assert forall|j: int| i < j < front.len() implies (#[trigger] front[j]).0@
            != front[i].0@ by {
            assert(front[j] == entries[j]);
        }
        lemma_last(front, i);
        assert(entries[entries.len() - 1].0@ != entries[i].0@);
    }
}

proof fn lemma_absent<V>(entries: Seq<(String, V)>, key: Seq<char>)
    requires
        forall|j: int| 0 <= j < entries.len() ==> (#[trigger] entries[j]).0@ != key,
    ensures
        !mapping(entries).contains_key(key),
    decreases entries.len(),
{
    if entries.len() > 0 {
        let front = entries.drop_last();
        assert forall|j: int| 0 <= j < front.len() implies (#[trigger] front[j]).0@ != key by {
            assert(front[j] == entries[j]);
        }
        lemma_absent(front, key);
        assert(entries[entries.len() - 1].0@ != key);
    }
}

impl<V> Table<V> {
    /// A table without entries.
    pub fn new() -> (r: Self)
        ensures
            r@ == Map::<Seq<char>, V>::empty(),
    {
        Table { entries: Vec::new() }
    }

    /// Sets the value of a key.
    pub fn insert(&mut self, key: String, value: V)
        ensures
            final(self)@ == old(self)@.insert(key@, value),
    {
        let ghost before = self.entries@;
        self.entries.push((key, value));
        assert(self.entries@.drop_last() =~= before);
    }

    /// The value of a key.
    pub fn get(&self, key: &str) -> (r: Option<&V>)
        ensures
            match r {
                Some(value) => self@.contains_key(key@) && self@[key@] == *value,
                None => !self@.contains_key(key@),
            },
    {
        let mut i: usize = self.entries.len();
        while i > 0
            invariant
                i <= self.entries.len(),
                forall|j: int|
                    i <= j < self.entries.len() ==> (#[trigger] self.entries[j]).0@ != key@,
            decreases i,
        {
            i = i - 1;
            if same(self.entries[i].0.as_str(), key) {
                proof {
                    lemma_last(self.entries@, i as int);
                }
                return Some(&self.entries[i].1);
            }
        }
        proof {
            lemma_absent(self.entries@, key@);
        }
        None
    }
}

} // verus!
