//! Rows and tables. A row maps column names to string values and is stored
//! as an association list with pairwise-distinct keys; its mathematical view
//! is a `Map` from the key characters to the value characters. A table is a
//! named, ordered sequence of rows.

use crate::text::str_eq;
use vstd::prelude::*;

verus! {

/// The map described by a sequence of key/value pairs; a later entry for the
/// same key overrides an earlier one.
pub open spec fn map_of_entries(es: Seq<(String, String)>) -> Map<Seq<char>, Seq<char>>
    decreases es.len(),
{
    if es.len() == 0 {
        Map::empty()
    } else {
        map_of_entries(es.drop_last()).insert(es.last().0@, es.last().1@)
    }
}

/// A key occurs in the map of an entry sequence exactly when some entry
/// carries it.
pub proof fn lemma_map_of_entries_contains(es: Seq<(String, String)>, k: Seq<char>)
    ensures
        map_of_entries(es).contains_key(k) <==> exists|i: int|
            0 <= i < es.len() && es[i].0@ == k,
    decreases es.len(),
{
    if es.len() > 0 {
        lemma_map_of_entries_contains(es.drop_last(), k);
        if es.last().0@ == k {
            assert(es[es.len() - 1].0@ == k);
        } else if map_of_entries(es).contains_key(k) {
            let i = choose|i: int| 0 <= i < es.drop_last().len() && es.drop_last()[i].0@ == k;
            assert(es[i].0@ == k);
        } else if exists|i: int| 0 <= i < es.len() && es[i].0@ == k {
            let i = choose|i: int| 0 <= i < es.len() && es[i].0@ == k;
            assert(es.drop_last()[i].0@ == k);
        }
    }
}

/// An entry whose key no later entry repeats decides the value the map
/// assigns to that key.
pub proof fn lemma_map_of_entries_index(es: Seq<(String, String)>, i: int)
    requires
        0 <= i < es.len(),
        forall|j: int| i < j < es.len() ==> (#[trigger] es[j]).0@ != es[i].0@,
    ensures
        map_of_entries(es).contains_key(es[i].0@),
        map_of_entries(es)[es[i].0@] == es[i].1@,
    decreases es.len(),
{
    if i == es.len() - 1 {
    } else {
        lemma_map_of_entries_index(es.drop_last(), i);
        assert(es.drop_last()[i] == es[i]);
        assert(es.last() == es[es.len() - 1]);
    }
}

/// Replacing the entry that holds a key describes the same map as inserting
/// the new value for that key, provided no later entry repeats the key.
pub proof fn lemma_map_of_entries_update(es: Seq<(String, String)>, i: int, e: (String, String))
    requires
        0 <= i < es.len(),
        e.0@ == es[i].0@,
        forall|j: int| i < j < es.len() ==> (#[trigger] es[j]).0@ != es[i].0@,
    ensures
        map_of_entries(es.update(i, e)) == map_of_entries(es).insert(e.0@, e.1@),
    decreases es.len(),
{
    if i == es.len() - 1 {
        assert(es.update(i, e).drop_last() =~= es.drop_last());
        assert(es.update(i, e).last() == e);
        assert(map_of_entries(es.drop_last()).insert(es.last().0@, es.last().1@).insert(
            e.0@,
            e.1@,
        ) =~= map_of_entries(es.drop_last()).insert(e.0@, e.1@));
    } else {
        lemma_map_of_entries_update(es.drop_last(), i, e);
        assert(es.update(i, e).drop_last() =~= es.drop_last().update(i, e));
        assert(es.update(i, e).last() == es.last());
        assert(es.drop_last()[i] == es[i]);
        assert(es.last().0@ != e.0@) by {
            assert(es[es.len() - 1].0@ != es[i].0@);
        }
        assert(map_of_entries(es.drop_last()).insert(e.0@, e.1@).insert(
            es.last().0@,
            es.last().1@,
        ) =~= map_of_entries(es.drop_last()).insert(es.last().0@, es.last().1@).insert(
            e.0@,
            e.1@,
        ));
    }
}

/// One record: a mapping from column names to string values.
pub struct Row {
    /// The column/value pairs, with pairwise-distinct column names.
    pub entries: Vec<(String, String)>,
}

impl View for Row {
    type V = Map<Seq<char>, Seq<char>>;

    open spec fn view(&self) -> Map<Seq<char>, Seq<char>> {
        map_of_entries(self.entries@)
    }
}

impl Row {
    /// The column names of distinct entries differ.
    pub open spec fn wf(&self) -> bool {
        forall|i: int, j: int|
            0 <= i < j < self.entries@.len() ==> (#[trigger] self.entries@[i]).0@ != (
            #[trigger] self.entries@[j]).0@
    }

    /// Creates a row with no columns.
    pub fn new() -> (r: Row)
        ensures
            r@ == Map::<Seq<char>, Seq<char>>::empty(),
            r.wf(),
            r.entries@.len() == 0,
    {
        Row { entries: Vec::new() }
    }

    /// Looks a column up by name.
    pub fn get<'a>(&'a self, key: &str) -> (r: Option<&'a String>)
        requires
            self.wf(),
        ensures
            match r {
                Some(v) => self@.contains_key(key@) && self@[key@] == v@,
                None => !self@.contains_key(key@),
            },
    {
        let n = self.entries.len();
        let mut i: usize = 0;
        while i < n
            invariant
                i <= n,
                n == self.entries@.len(),
                self.wf(),
                forall|j: int| 0 <= j < i ==> (#[trigger] self.entries@[j]).0@ != key@,
            decreases n - i,
        {
            if str_eq(self.entries[i].0.as_str(), key) {
                proof {
                    lemma_map_of_entries_index(self.entries@, i as int);
                }
                return Some(&self.entries[i].1);
            }
            i = i + 1;
        }
        proof {
            lemma_map_of_entries_contains(self.entries@, key@);
        }
        None
    }

    /// Tells whether the row has a value for a column.
    pub fn contains_key(&self, key: &str) -> (r: bool)
        requires
            self.wf(),
        ensures
            r == self@.contains_key(key@),
    {
        self.get(key).is_some()
    }

    /// The number of columns of the row.
    pub fn len(&self) -> (n: usize)
        ensures
            n == self.entries@.len(),
    {
        self.entries.len()
    }

    /// Tells whether the row has no columns at all.
    pub fn is_empty(&self) -> (r: bool)
        requires
            self.wf(),
        ensures
            r == (self@ == Map::<Seq<char>, Seq<char>>::empty()),
    {
        proof {
            if self.entries@.len() > 0 {
                lemma_map_of_entries_contains(self.entries@, self.entries@[0].0@);
                assert(self@.contains_key(self.entries@[0].0@));
            } else {
                assert(self@ =~= Map::<Seq<char>, Seq<char>>::empty());
            }
        }
        self.entries.len() == 0
    }

    /// Sets the value of a column, replacing an existing value for the same
    /// column name.
    pub fn insert(&mut self, key: String, value: String)
        requires
            old(self).wf(),
        ensures
            final(self).wf(),
            final(self)@ == old(self)@.insert(key@, value@),
    {
        let n = self.entries.len();
        let mut i: usize = 0;
        while i < n
            invariant
                i <= n,
                n == self.entries@.len(),
                self.wf(),
                self.entries@ == old(self).entries@,
                forall|j: int| 0 <= j < i ==> (#[trigger] self.entries@[j]).0@ != key@,
            decreases n - i,
        {
            if str_eq(self.entries[i].0.as_str(), key.as_str()) {
                proof {
                    lemma_map_of_entries_update(self.entries@, i as int, (key, value));
                }
                self.entries.set(i, (key, value));
                return ;
            }
            i = i + 1;
        }
        proof {
            lemma_map_of_entries_contains(self.entries@, key@);
            assert(self.entries@.push((key, value)).drop_last() =~= self.entries@);
        }
        self.entries.push((key, value));
    }
}

/// A named, ordered collection of rows.
pub struct Table {
    /// The table's name; queries match it case-insensitively.
    pub name: String,
    /// The rows, in their original order.
    pub rows: Vec<Row>,
}

impl Table {
    /// Every row of the table is well formed.
    pub open spec fn wf(&self) -> bool {
        forall|i: int| 0 <= i < self.rows@.len() ==> (#[trigger] self.rows@[i]).wf()
    }
}

/// The sequence of maps described by a sequence of rows.
pub open spec fn rows_view(rows: Seq<Row>) -> Seq<Map<Seq<char>, Seq<char>>> {
    rows.map_values(|r: Row| r@)
}

} // verus!
