//! The aliases of a statement: which table each alias stands for, in the
//! order in which the aliases were introduced.

use vstd::prelude::*;
use crate::ordered::{key_index, lemma_key_index_is, lemma_key_index_none, put};

verus! {

/// Aliases with their tables, as views.
pub type AliasPairs = Seq<(Seq<char>, Seq<char>)>;

/// The first position whose table is `table`, if any.
pub open spec fn table_index(s: AliasPairs, table: Seq<char>) -> Option<int>
    decreases s.len(),
{
    if s.len() == 0 {
        None
    } else {
        match table_index(s.drop_last(), table) {
            Some(i) => Some(i),
            None => if s.last().1 == table {
                Some(s.len() - 1)
            } else {
                None
            },
        }
    }
}

/// The table that `name` stands for: the alias's table where `name` is an
/// alias, else `name` itself.
pub open spec fn resolve(s: AliasPairs, name: Seq<char>) -> Seq<char> {
    match key_index(s, name) {
        Some(i) => s[i].1,
        None => name,
    }
}

/// The name under which `table` goes in the statement: its first alias, or
/// the table's own name where it has none.
pub open spec fn shown_name(s: AliasPairs, table: Seq<char>) -> Seq<char> {
    match table_index(s, table) {
        Some(i) => s[i].0,
        None => table,
    }
}

/// What `table_index` finds is the first pair with that table; it finds none
/// only where there is none.
pub proof fn lemma_table_index(s: AliasPairs, table: Seq<char>)
    ensures
        match table_index(s, table) {
            Some(i) => 0 <= i < s.len() && s[i].1 == table && forall|j: int|
                0 <= j < i ==> s[j].1 != table,
            None => forall|j: int| 0 <= j < s.len() ==> s[j].1 != table,
        },
    decreases s.len(),
{
    if s.len() > 0 {
        let front = s.drop_last();
        lemma_table_index(front, table);
        assert forall|j: int| 0 <= j < front.len() implies front[j] == s[j] by {}
        match table_index(front, table) {
            Some(i) => {
                assert(front[i] == s[i]);
            },
            None => {
                assert forall|j: int| 0 <= j < s.len() - 1 implies s[j].1 != table by {
                    assert(front[j] == s[j]);
                }
            },
        }
    }
}

/// Alias and table of one entry.
pub struct Alias {
    pub alias: String,
    pub table: String,
}

/// The aliases of a statement.
pub struct Aliases {
    list: Vec<Alias>,
}

impl View for Aliases {
    type V = AliasPairs;

    closed spec fn view(&self) -> AliasPairs {
        Seq::new(self.list@.len(), |i: int| (self.list@[i].alias@, self.list@[i].table@))
    }
}

impl Aliases {
    /// No aliases.
    pub fn new() -> (a: Self)
        ensures
            a@ == Seq::<(Seq<char>, Seq<char>)>::empty(),
    {
        let a = Aliases { list: Vec::new() };
        assert(a@ =~= Seq::<(Seq<char>, Seq<char>)>::empty());
        a
    }

    /// The number of aliases.
    pub fn len(&self) -> (n: usize)
        ensures
            n == self@.len(),
    {
        self.list.len()
    }

    /// Lets `alias` stand for `table`. An alias that is there keeps its place.
    pub fn insert(&mut self, alias: String, table: String)
        ensures
            final(self)@ == put(old(self)@, alias@, table@),
    {
        let mut i: usize = 0;
        while i < self.list.len()
            invariant
                i <= self.list.len(),
                *self == *old(self),
                forall|j: int| 0 <= j < i ==> self@[j].0 != alias@,
            decreases self.list.len() - i,
        {
            if self.list[i].alias == alias {
                proof {
                    lemma_key_index_is(self@, alias@, i as int);
                }
                self.list[i] = Alias { alias, table };
                assert(self@ =~= put(old(self)@, alias@, table@));
                return ;
            }
            i = i + 1;
        }
        proof {
            lemma_key_index_none(self@, alias@);
        }
        self.list.push(Alias { alias, table });
        assert(self@ =~= put(old(self)@, alias@, table@));
    }

    /// The table that `alias` stands for, if it is an alias.
    pub fn get(&self, alias: &String) -> (r: Option<&String>)
        ensures
            r is Some <==> key_index(self@, alias@) is Some,
            r matches Some(t) ==> t@ == self@[key_index(self@, alias@)->0].1,
    {
        let mut i: usize = 0;
        while i < self.list.len()
            invariant
                i <= self.list.len(),
                forall|j: int| 0 <= j < i ==> self@[j].0 != alias@,
            decreases self.list.len() - i,
        {
            if self.list[i].alias == *alias {
                proof {
                    lemma_key_index_is(self@, alias@, i as int);
                }
                return Some(&self.list[i].table);
            }
            i = i + 1;
        }
        proof {
            lemma_key_index_none(self@, alias@);
        }
        None
    }

    /// The table that `name` stands for: the alias's table, or `name` itself.
    pub fn resolve(&self, name: &String) -> (r: String)
        ensures
            r@ == resolve(self@, name@),
    {
        match self.get(name) {
            Some(t) => t.clone(),
            None => name.clone(),
        }
    }

    /// The name under which `table` goes in the statement: its first alias,
    /// or its own name.
    pub fn shown_name(&self, table: &String) -> (r: String)
        ensures
            r@ == shown_name(self@, table@),
    {
        let mut i: usize = 0;
        while i < self.list.len()
            invariant
                i <= self.list.len(),
                forall|j: int| 0 <= j < i ==> self@[j].1 != table@,
            decreases self.list.len() - i,
        {
            if self.list[i].table == *table {
                proof {
                    lemma_table_index(self@, table@);
                    let found = table_index(self@, table@);
                    if found is Some && found->0 > i {
                        assert(self@[i as int].1 == table@);
                    }
                }
                return self.list[i].alias.clone();
            }
            i = i + 1;
        }
        proof {
            lemma_table_index(self@, table@);
        }
        table.clone()
    }
}

} // verus!
