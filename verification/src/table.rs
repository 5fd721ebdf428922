//! A small table keyed by text.
use vstd::prelude::*;

use crate::text;

verus! {

/// Values by name. The entries are kept in the order they were made; the
/// newest of a name counts.
pub struct Table<V> {
    entries: Vec<(String, V)>,
}

/// The table that a run of entries makes, the later ones winning.
pub open spec fn table_of<V>(entries: Seq<(String, V)>) -> Map<Seq<char>, V>
    decreases entries.len(),
{
    if entries.len() == 0 {
        Map::empty()
    } else {
        table_of(entries.drop_last()).insert(entries.last().0@, entries.last().1)
    }
}

impl<V> View for Table<V> {
    type V = Map<Seq<char>, V>;

    closed spec fn view(&self) -> Map<Seq<char>, V> {
        table_of(self.entries@)
    }
}

proof fn lemma_table_of_absent<V>(entries: Seq<(String, V)>, name: Seq<char>)
    requires
        forall|i: int| 0 <= i < entries.len() ==> entries[i].0@ != name,
    ensures
        !table_of(entries).dom().contains(name),
    decreases entries.len(),
{
    if entries.len() > 0 {
        lemma_table_of_absent(entries.drop_last(), name);
    }
}

proof fn lemma_table_of_newest<V>(entries: Seq<(String, V)>, at: int, name: Seq<char>)
    requires
        0 <= at < entries.len(),
        entries[at].0@ == name,
        forall|i: int| at < i < entries.len() ==> entries[i].0@ != name,
    ensures
        table_of(entries).dom().contains(name),
        table_of(entries)[name] == entries[at].1,
    decreases entries.len(),
{
    if at < entries.len() - 1 {
        lemma_table_of_newest(entries.drop_last(), at, name);
    }
}

impl<V: Copy> Table<V> {
    /// A table without entries.
    pub fn new() -> (t: Self)
        ensures
            t@ == Map::<Seq<char>, V>::empty(),
    {
        Table { entries: Vec::new() }
    }

    /// Sets the value of `name`.
    pub fn insert(&mut self, name: String, value: V)
        ensures
            final(self)@ == old(self)@.insert(name@, value),
    {
        let ghost before = self.entries@;
        let ghost n = name@;
        self.entries.push((name, value));
        assert(self.entries@.drop_last() =~= before);
    }

    /// The value of `name`, if it has one.
    pub fn get(&self, name: &str) -> (value: Option<V>)
        ensures
            value == (if self@.dom().contains(name@) {
                Some(self@[name@])
            } else {
                None
            }),
    {
        let mut i: usize = self.entries.len();
        while i > 0
            invariant
                i <= self.entries@.len(),
                forall|j: int| i <= j < self.entries@.len() ==> self.entries@[j].0@ != name@,
            decreases i,
        {
            i -= 1;
            if text::same_text(self.entries[i].0.as_str(), name) {
                proof {
                    lemma_table_of_newest(self.entries@, i as int, name@);
                }
                return Some(self.entries[i].1);
            }
        }
        proof {
            lemma_table_of_absent(self.entries@, name@);
        }
        None
    }

    /// Takes `name` out of the table and returns its value, if it had one.
    pub fn remove(&mut self, name: &str) -> (value: Option<V>)
        ensures
            value == (if old(self)@.dom().contains(name@) {
                Some(old(self)@[name@])
            } else {
                None
            }),
            final(self)@ == old(self)@.remove(name@),
    {
        let value = self.get(name);
        let ghost before = self.entries@;
        let mut kept: Vec<(String, V)> = Vec::new();
        let mut i: usize = 0;
        proof {
            assert(before.take(0) =~= Seq::<(String, V)>::empty());
            assert(table_of(kept@) =~= table_of(before.take(0)).remove(name@));
        }
        while i < self.entries.len()
            invariant
                i <= self.entries@.len(),
                before == self.entries@,
                table_of(kept@) == table_of(before.take(i as int)).remove(name@),
            decreases self.entries.len() - i,
        {
            let ghost now = before.take(i + 1);
            let ghost k = kept@;
            proof {
                assert(now.drop_last() =~= before.take(i as int));
                assert(now.last() == before[i as int]);
            }
            if !text::same_text(self.entries[i].0.as_str(), name) {
                kept.push((self.entries[i].0.clone(), self.entries[i].1));
                proof {
                    assert(kept@.drop_last() =~= k);
                    assert(table_of(kept@) =~= table_of(now).remove(name@));
                }
            } else {
                assert(table_of(kept@) =~= table_of(now).remove(name@));
            }
            i += 1;
        }
        assert(before.take(before.len() as int) =~= before);
        self.entries = kept;
        value
    }

    /// Takes everything out of the table.
    pub fn clear(&mut self)
        ensures
            final(self)@ == Map::<Seq<char>, V>::empty(),
    {
        self.entries = Vec::new();
    }
}

} // verus!
