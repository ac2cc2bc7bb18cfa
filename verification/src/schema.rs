//! The normalized schema that watched statements are analysed against.

use vstd::hash_map::StringHashMap;
use vstd::prelude::*;
use crate::text::{has_name, views};

verus! {

/// One table: its name, its column names in declaration order, and the names
/// of its primary-key columns in key order.
pub struct NormalizedTable {
    pub name: String,
    pub columns: Vec<String>,
    pub pk: Vec<String>,
}

/// The tables of the database, found by name.
pub struct NormalizedSchema {
    tables: StringHashMap<NormalizedTable>,
}

impl NormalizedTable {
    /// A table from its name, its columns and the columns of its primary key.
    pub fn new(name: String, columns: Vec<String>, pk: Vec<String>) -> (t: Self)
        ensures
            t.name == name,
            t.columns == columns,
            t.pk == pk,
    {
        NormalizedTable { name, columns, pk }
    }

    /// The table has a primary key, and every column of the key is a column
    /// of the table.
    pub open spec fn well_formed(&self) -> bool {
        &&& self.pk@.len() > 0
        &&& forall|i: int|
            0 <= i < self.pk@.len() ==> views(self.columns@).contains(#[trigger] views(self.pk@)[i])
    }

    /// Whether the table is well formed.
    pub fn is_well_formed(&self) -> (r: bool)
        ensures
            r == self.well_formed(),
    {
        if self.pk.len() == 0 {
            return false;
        }
        let mut i: usize = 0;
        while i < self.pk.len()
            invariant
                i <= self.pk.len(),
                forall|k: int|
                    0 <= k < i ==> views(self.columns@).contains(#[trigger] views(self.pk@)[k]),
            decreases self.pk.len() - i,
        {
            if !has_name(&self.columns, &self.pk[i]) {
                assert(!views(self.columns@).contains(views(self.pk@)[i as int]));
                return false;
            }
            i = i + 1;
        }
        true
    }
}

impl NormalizedSchema {
    /// The tables by name.
    pub closed spec fn tables(&self) -> Map<Seq<char>, NormalizedTable> {
        self.tables@
    }

    /// A schema without tables.
    pub fn new() -> (s: Self)
        ensures
            s.tables() == Map::<Seq<char>, NormalizedTable>::empty(),
    {
        NormalizedSchema { tables: StringHashMap::new() }
    }

    /// Adds `table` under its name, in place of any table of that name.
    pub fn insert(&mut self, table: NormalizedTable)
        ensures
            final(self).tables() == old(self).tables().insert(table.name@, table),
    {
        let name = table.name.clone();
        self.tables.insert(name, table);
    }

    /// The table called `name`, if the schema has one.
    pub fn get(&self, name: &str) -> (r: Option<&NormalizedTable>)
        ensures
            r is Some <==> self.tables().contains_key(name@),
            r matches Some(t) ==> *t == self.tables()[name@],
    {
        self.tables.get(name)
    }

    /// Whether the schema has a table called `name`.
    pub fn contains(&self, name: &str) -> (r: bool)
        ensures
            r == self.tables().contains_key(name@),
    {
        self.tables.contains_key(name)
    }
}

} // verus!
