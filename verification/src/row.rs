//! A result row: a map from column names to values.

use vstd::prelude::*;

use crate::value::DbValue;

verus! {

/// The map that a list of (column, value) entries stands for: a later entry
/// for a column replaces an earlier one.
pub open spec fn entries_map(entries: Seq<(String, DbValue)>) -> Map<Seq<char>, DbValue>
    decreases entries.len(),
{
    if entries.len() == 0 {
        Map::empty()
    } else {
        entries_map(entries.drop_last()).insert(entries.last().0@, entries.last().1)
    }
}

/// One row of a query result: column names mapped to values.
pub struct ResultRow {
    entries: Vec<(String, DbValue)>,
}

impl View for ResultRow {
    type V = Map<Seq<char>, DbValue>;

    closed spec fn view(&self) -> Map<Seq<char>, DbValue> {
        entries_map(self.entries@)
    }
}

/// Whether `k` is the column of some entry.
pub open spec fn has_entry_key(entries: Seq<(String, DbValue)>, k: Seq<char>) -> bool {
    exists|i: int| 0 <= i < entries.len() && #[trigger] entries[i].0@ == k
}

pub proof fn lemma_entries_map_dom(entries: Seq<(String, DbValue)>, k: Seq<char>)
    ensures
        entries_map(entries).contains_key(k) == has_entry_key(entries, k),
    decreases entries.len(),
{
    if entries.len() > 0 {
        let p = entries.drop_last();
        lemma_entries_map_dom(p, k);
        if has_entry_key(p, k) {
            let i = choose|i: int| 0 <= i < p.len() && #[trigger] p[i].0@ == k;
            assert(entries[i].0@ == k);
        }
        if has_entry_key(entries, k) && entries.last().0@ != k {
            let i = choose|i: int| 0 <= i < entries.len() && #[trigger] entries[i].0@ == k;
            assert(p[i].0@ == k);
        }
    }
}

/// When no entry at or after `i` has column `k`, the map's answer for `k`
/// comes from the first `i` entries.
proof fn lemma_entries_map_prefix(entries: Seq<(String, DbValue)>, i: int, k: Seq<char>)
    requires
        0 <= i <= entries.len(),
        forall|j: int| i <= j < entries.len() ==> #[trigger] entries[j].0@ != k,
    ensures
        entries_map(entries).contains_key(k) == entries_map(entries.take(i)).contains_key(k),
        entries_map(entries).contains_key(k) ==> entries_map(entries)[k] == entries_map(
            entries.take(i),
        )[k],
    decreases entries.len() - i,
{
    if i < entries.len() {
        let p = entries.drop_last();
        assert(p.take(i) =~= entries.take(i));
        assert(entries.last().0@ != k);
        lemma_entries_map_prefix(p, i, k);
    } else {
        assert(entries.take(i) =~= entries);
    }
}

/// Replacing the value of the last entry for a column updates the map the
/// same way as inserting the column anew.
proof fn lemma_entries_map_replace(
    entries: Seq<(String, DbValue)>,
    j: int,
    column: String,
    value: DbValue,
)
    requires
        0 <= j < entries.len(),
        entries[j].0@ == column@,
        forall|m: int| j < m < entries.len() ==> #[trigger] entries[m].0@ != column@,
    ensures
        entries_map(entries.update(j, (column, value))) == entries_map(entries).insert(
            column@,
            value,
        ),
    decreases entries.len(),
{
    let u = entries.update(j, (column, value));
    let p = entries.drop_last();
    if j == entries.len() - 1 {
        assert(u.drop_last() =~= p);
        assert(entries_map(u) =~= entries_map(entries).insert(column@, value));
    } else {
        assert(u.drop_last() =~= p.update(j, (column, value)));
        lemma_entries_map_replace(p, j, column, value);
        assert(entries.last().0@ != column@);
        assert(entries_map(u) =~= entries_map(entries).insert(column@, value));
    }
}

impl ResultRow {
    /// The entries the row was built from, in insertion order.
    pub closed spec fn entries(&self) -> Seq<(String, DbValue)> {
        self.entries@
    }

    /// The row's map is the one its entries stand for.
    pub proof fn lemma_view(&self)
        ensures
            self@ == entries_map(self.entries()),
    {
    }

    /// An empty row.
    pub fn new() -> (r: Self)
        ensures
            r@ == Map::<Seq<char>, DbValue>::empty(),
    {
        ResultRow { entries: Vec::new() }
    }

    /// Sets the value of a column, replacing any value it had.
    pub fn insert(&mut self, column: String, value: DbValue)
        ensures
            final(self)@ == old(self)@.insert(column@, value),
            final(self).entries().len() == old(self).entries().len() + if old(self)@.contains_key(
                column@,
            ) {
                0int
            } else {
                1int
            },
    {
        let ghost before = self.entries@;
        let mut i = self.entries.len();
        while i > 0
            invariant
                i <= self.entries@.len(),
                self.entries@ == before,
                old(self).entries@ == before,
                forall|j: int| i <= j < self.entries@.len() ==> #[trigger] self.entries@[j].0@
                    != column@,
            decreases i,
        {
            if self.entries[i - 1].0 == column {
                let ghost cell = (column, value);
                proof {
                    lemma_entries_map_replace(before, i - 1, column, value);
                    lemma_entries_map_dom(before, column@);
                    assert(before[i - 1].0@ == column@);
                }
                self.entries.set(i - 1, (column, value));
                assert(self.entries@ =~= before.update(i - 1, cell));
                return;
            }
            i -= 1;
        }
        proof {
            lemma_entries_map_dom(before, column@);
        }
        self.entries.push((column, value));
        assert(self.entries@.drop_last() =~= before);
    }

    /// The number of entries: `insert` adds one for a column the row
    /// lacks and replaces the entry of a column it has.
    pub fn entry_count(&self) -> (n: usize)
        ensures
            n == self.entries().len(),
    {
        self.entries.len()
    }

    /// The column name of entry `i`.
    pub fn entry_column(&self, i: usize) -> (c: &String)
        requires
            i < self.entries().len(),
        ensures
            *c == self.entries()[i as int].0,
    {
        &self.entries[i].0
    }

    /// The value of a column, if the row has one.
    pub fn get(&self, column: &String) -> (r: Option<&DbValue>)
        ensures
            r is Some <==> self@.contains_key(column@),
            r matches Some(v) ==> *v == self@[column@],
    {
        let mut i = self.entries.len();
        while i > 0
            invariant
                i <= self.entries@.len(),
                forall|j: int| i <= j < self.entries@.len() ==> #[trigger] self.entries@[j].0@
                    != column@,
            decreases i,
        {
            if self.entries[i - 1].0 == *column {
                proof {
                    lemma_entries_map_prefix(self.entries@, i as int, column@);
                    assert(self.entries@.take(i as int).drop_last() =~= self.entries@.take(
                        i - 1,
                    ));
                }
                return Some(&self.entries[i - 1].1);
            }
            i -= 1;
        }
        proof {
            lemma_entries_map_prefix(self.entries@, 0, column@);
        }
        None
    }
}

} // verus!
