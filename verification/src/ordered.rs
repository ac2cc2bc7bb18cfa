//! The insertion-ordered map from a table name to a list of names, kept in
//! an `indexmap::IndexMap`. Verus sees the map only through `entries` and
//! the functions below; those marked `external_body` are believed, not proved.

use indexmap::IndexMap;
use vstd::prelude::*;
use crate::text::views;

verus! {

/// `indexmap::IndexMap`, seen only through `entries`.
#[verifier::external_type_specification]
#[verifier::external_body]
#[verifier::reject_recursive_types(K)]
#[verifier::reject_recursive_types(V)]
#[verifier::reject_recursive_types(S)]
pub struct ExIndexMap<K, V, S>(IndexMap<K, V, S>);

/// A map from table names to lists of names that remembers insertion order.
pub type NameMap = IndexMap<String, Vec<String>>;

/// What a `NameMap` holds, as views: keys with their lists, in order.
pub type Entries = Seq<(Seq<char>, Seq<Seq<char>>)>;

/// The key-value pairs of the map, in the map's order.
pub uninterp spec fn entries(m: IndexMap<String, Vec<String>>) -> Seq<(Seq<char>, Seq<Seq<char>>)>;

/// The first position at which `key` stands in `s`, if any.
pub open spec fn key_index<V>(s: Seq<(Seq<char>, V)>, key: Seq<char>) -> Option<int>
    decreases s.len(),
{
    if s.len() == 0 {
        None
    } else {
        match key_index(s.drop_last(), key) {
            Some(i) => Some(i),
            None => if s.last().0 == key {
                Some(s.len() - 1)
            } else {
                None
            },
        }
    }
}

/// `s` after `key` has been given `value`: in place where the key was there,
/// else as a new last pair.
pub open spec fn put<V>(s: Seq<(Seq<char>, V)>, key: Seq<char>, value: V) -> Seq<(Seq<char>, V)> {
    match key_index(s, key) {
        Some(i) => s.update(i, (key, value)),
        None => s.push((key, value)),
    }
}

/// The keys of `s`, in order.
pub open spec fn keys<V>(s: Seq<(Seq<char>, V)>) -> Seq<Seq<char>> {
    Seq::new(s.len(), |i: int| s[i].0)
}

/// No key stands twice in `s`.
pub open spec fn distinct_keys<V>(s: Seq<(Seq<char>, V)>) -> bool {
    forall|i: int, j: int| 0 <= i < j < s.len() ==> s[i].0 != s[j].0
}

/// What `key_index` finds is the first pair with that key; it finds none
/// only where there is none.
pub proof fn lemma_key_index<V>(s: Seq<(Seq<char>, V)>, key: Seq<char>)
    ensures
        match key_index(s, key) {
            Some(i) => 0 <= i < s.len() && s[i].0 == key && forall|j: int|
                0 <= j < i ==> s[j].0 != key,
            None => forall|j: int| 0 <= j < s.len() ==> s[j].0 != key,
        },
    decreases s.len(),
{
    if s.len() > 0 {
        let front = s.drop_last();
        lemma_key_index(front, key);
        assert forall|j: int| 0 <= j < front.len() implies front[j] == s[j] by {}
        match key_index(front, key) {
            Some(i) => {
                assert(front[i] == s[i]);
            },
            None => {
                assert forall|j: int| 0 <= j < s.len() - 1 implies s[j].0 != key by {
                    assert(front[j] == s[j]);
                }
            },
        }
    }
}

/// The first pair with the key is what `key_index` finds.
pub proof fn lemma_key_index_is<V>(s: Seq<(Seq<char>, V)>, key: Seq<char>, i: int)
    requires
        0 <= i < s.len(),
        s[i].0 == key,
        forall|j: int| 0 <= j < i ==> s[j].0 != key,
    ensures
        key_index(s, key) == Some(i),
{
    lemma_key_index(s, key);
    let found = key_index(s, key);
    assert(found is Some);
    let k = found->0;
    if k < i {
        assert(s[k].0 != key);
    }
}

/// Where no pair has the key, `key_index` finds none.
pub proof fn lemma_key_index_none<V>(s: Seq<(Seq<char>, V)>, key: Seq<char>)
    requires
        forall|j: int| 0 <= j < s.len() ==> s[j].0 != key,
    ensures
        key_index(s, key) is None,
{
    lemma_key_index(s, key);
}

/// `put` keeps the keys distinct.
pub proof fn lemma_put_distinct<V>(s: Seq<(Seq<char>, V)>, key: Seq<char>, value: V)
    requires
        distinct_keys(s),
    ensures
        distinct_keys(put(s, key, value)),
{
    lemma_key_index(s, key);
}

/// `IndexMap::new`: a map without pairs.
#[verifier::external_body]
pub(crate) fn map_new() -> (m: NameMap)
    ensures
        entries(m) == Seq::<(Seq<char>, Seq<Seq<char>>)>::empty(),
{
    IndexMap::new()
}

/// `IndexMap::len`: the number of pairs.
#[verifier::external_body]
pub(crate) fn map_len(m: &NameMap) -> (n: usize)
    ensures
        n == entries(*m).len(),
{
    m.len()
}

/// `IndexMap::get_index`: the pair at position `index` in the map's order,
/// and `None` from the length on.
#[verifier::external_body]
pub(crate) fn map_get_index(m: &NameMap, index: usize) -> (r: Option<(&String, &Vec<String>)>)
    ensures
        r is Some <==> index < entries(*m).len(),
        r matches Some(pair) ==> pair.0@ == entries(*m)[index as int].0 && views(pair.1@)
            == entries(*m)[index as int].1,
{
    m.get_index(index)
}

/// `IndexMap::get`: the list stored for `key`, and `None` where the map has
/// no such key.
#[verifier::external_body]
pub(crate) fn map_get<'a>(m: &'a NameMap, key: &str) -> (r: Option<&'a Vec<String>>)
    ensures
        r is Some <==> key_index(entries(*m), key@) is Some,
        r matches Some(list) ==> views(list@) == entries(*m)[key_index(
            entries(*m),
            key@,
        )->0].1,
{
    m.get(key)
}

/// `IndexMap::insert`: a key that is there keeps its place and gets the new
/// list; a new key goes last.
#[verifier::external_body]
pub(crate) fn map_insert(m: &mut NameMap, key: String, value: Vec<String>)
    ensures
        entries(*final(m)) == put(entries(*old(m)), key@, views(value@)),
{
    m.insert(key, value);
}

} // verus!
