//! The SQL text that a matcher runs against its shadow table.

use vstd::prelude::*;
use crate::ordered::{Entries, NameMap, entries, map_get_index, map_len};
use crate::text::{col_names, col_names_spec, join, join_spec, lemma_views_push, views};

verus! {

/// The lists of the first `n` pairs of `e`, one after the other.
pub open spec fn flatten_spec(e: Entries, n: nat) -> Seq<Seq<char>>
    decreases n,
{
    if n == 0 || n > e.len() {
        Seq::empty()
    } else {
        flatten_spec(e, (n - 1) as nat) + e[n - 1].1
    }
}

/// All synthetic primary-key columns of a shadow table, table by table.
pub open spec fn all_pks_spec(pks: Entries) -> Seq<Seq<char>> {
    flatten_spec(pks, pks.len())
}

/// The data columns of a shadow table: the synthetic primary-key columns,
/// then `col_0` to `col_{n-1}`.
pub open spec fn shadow_columns_spec(pks: Entries, n: nat) -> Seq<Seq<char>> {
    all_pks_spec(pks) + col_names_spec(n)
}

/// `k IS ?` for each `k` of `keys`.
pub open spec fn is_clauses_spec(keys: Seq<Seq<char>>) -> Seq<Seq<char>> {
    Seq::new(keys.len(), |i: int| keys[i] + " IS ?"@)
}

/// `col_i = excluded.col_i` for each `i` below `n`.
pub open spec fn assignments_spec(n: nat) -> Seq<Seq<char>> {
    Seq::new(n, |i: int| col_names_spec(n)[i] + " = excluded."@ + col_names_spec(n)[i])
}

/// The probe of the shadow table for one row of a table:
/// `SELECT {columns} FROM {shadow} WHERE {k IS ? AND ..}` over the table's
/// own synthetic primary-key columns `keys`.
pub open spec fn temp_query_spec(pks: Entries, n: nat, shadow: Seq<char>, keys: Seq<Seq<char>>) -> Seq<
    char,
> {
    "SELECT "@ + join_spec(shadow_columns_spec(pks, n), ","@) + " FROM "@ + shadow + " WHERE "@
        + join_spec(is_clauses_spec(keys), " AND "@)
}

/// The statements that create the shadow table and its unique index over
/// the synthetic primary-key columns.
pub open spec fn create_spec(pks: Entries, n: nat, id: Seq<char>, shadow: Seq<char>, qualified: Seq<char>) -> Seq<
    char,
> {
    "CREATE TABLE "@ + qualified + " (__corro_rowid INTEGER PRIMARY KEY AUTOINCREMENT, "@ + join_spec(
        shadow_columns_spec(pks, n),
        ","@,
    ) + ");\n            CREATE UNIQUE INDEX watches.index_"@ + id + "_pk ON "@ + shadow + " ("@
        + join_spec(all_pks_spec(pks), ","@) + ");"@
}

/// The statement that fills the shadow table from the rewritten `query` and
/// hands every new row back.
pub open spec fn snapshot_spec(pks: Entries, n: nat, qualified: Seq<char>, query: Seq<char>) -> Seq<char> {
    "INSERT INTO "@ + qualified + " ("@ + join_spec(shadow_columns_spec(pks, n), ","@) + ") "@ + query
        + " RETURNING __corro_rowid,"@ + join_spec(col_names_spec(n), ","@)
}

/// The upsert probe: what `new_query` yields and `temp_query` does not is
/// written to the shadow table, over the old row where the key is taken.
pub open spec fn upsert_spec(
    pks: Entries,
    n: nat,
    qualified: Seq<char>,
    new_query: Seq<char>,
    temp_query: Seq<char>,
) -> Seq<char> {
    "INSERT INTO "@ + qualified + " ("@ + join_spec(shadow_columns_spec(pks, n), ","@)
        + ")\n                            SELECT * FROM (\n                                "@
        + new_query + "\n                                EXCEPT\n                                "@
        + temp_query
        + "\n                            ) WHERE 1\n                        ON CONFLICT("@
        + join_spec(all_pks_spec(pks), ","@)
        + ")\n                            DO UPDATE SET\n                                "@
        + join_spec(assignments_spec(n), ","@) + "\n                        RETURNING __corro_rowid,"@
        + join_spec(col_names_spec(n), ","@)
}

/// The delete probe: the shadow rows that `temp_query` yields and
/// `new_query` does not are removed.
pub open spec fn delete_spec(
    pks: Entries,
    n: nat,
    qualified: Seq<char>,
    new_query: Seq<char>,
    temp_query: Seq<char>,
) -> Seq<char> {
    "\n        DELETE FROM "@ + qualified + " WHERE ("@ + join_spec(all_pks_spec(pks), ","@)
        + ") in (SELECT "@ + join_spec(all_pks_spec(pks), ","@) + " FROM (\n            "@
        + temp_query + "\n            EXCEPT\n            "@ + new_query
        + "\n        )) RETURNING __corro_rowid,"@ + join_spec(col_names_spec(n), ","@)
}

/// The statement that removes the shadow table.
pub open spec fn drop_spec(qualified: Seq<char>) -> Seq<char> {
    "DROP TABLE "@ + qualified
}

/// All synthetic primary-key columns of `pks`, table by table.
pub fn all_pks(pks: &NameMap) -> (v: Vec<String>)
    ensures
        views(v@) == all_pks_spec(entries(*pks)),
{
    let mut v: Vec<String> = Vec::new();
    let n = map_len(pks);
    let mut i: usize = 0;
    assert(views(v@) =~= flatten_spec(entries(*pks), 0));
    while i < n
        invariant
            i <= n,
            n == entries(*pks).len(),
            views(v@) == flatten_spec(entries(*pks), i as nat),
        decreases n - i,
    {
        match map_get_index(pks, i) {
            Some(pair) => {
                let list = pair.1;
                let ghost before = v@;
                let mut k: usize = 0;
                while k < list.len()
                    invariant
                        k <= list.len(),
                        views(v@) == views(before) + views(list@).take(k as int),
                    decreases list.len() - k,
                {
                    let item = list[k].clone();
                    proof {
                        lemma_views_push(v@, item);
                        assert(views(list@).take(k + 1) =~= views(list@).take(k as int).push(
                            list@[k as int]@,
                        ));
                        assert((views(before) + views(list@).take(k as int)).push(item@) =~= views(
                            before,
                        ) + views(list@).take(k + 1));
                    }
                    v.push(item);
                    k = k + 1;
                }
                assert(views(list@).take(list.len() as int) =~= views(list@));
            },
            None => {},
        }
        i = i + 1;
    }
    v
}

/// The data columns of the shadow table.
pub fn shadow_columns(pks: &NameMap, n: usize) -> (v: Vec<String>)
    ensures
        views(v@) == shadow_columns_spec(entries(*pks), n as nat),
{
    let mut v = all_pks(pks);
    let ghost front = v@;
    let mut names = col_names(n);
    let ghost back = names@;
    v.append(&mut names);
    assert(views(v@) =~= views(front) + views(back));
    v
}

/// `k IS ?` for each of `keys`.
pub fn is_clauses(keys: &Vec<String>) -> (v: Vec<String>)
    ensures
        views(v@) == is_clauses_spec(views(keys@)),
{
    let mut v: Vec<String> = Vec::new();
    let mut i: usize = 0;
    while i < keys.len()
        invariant
            i <= keys.len(),
            v@.len() == i,
            forall|k: int| 0 <= k < i ==> (#[trigger] v@[k])@ == keys@[k]@ + " IS ?"@,
        decreases keys.len() - i,
    {
        let mut s = keys[i].clone();
        s.append(" IS ?");
        v.push(s);
        i = i + 1;
    }
    assert(views(v@) =~= is_clauses_spec(views(keys@)));
    v
}

/// `col_i = excluded.col_i` for each output column.
pub fn assignments(n: usize) -> (v: Vec<String>)
    ensures
        views(v@) == assignments_spec(n as nat),
{
    let names = col_names(n);
    assert(names@.len() == n) by {
        assert(views(names@).len() == col_names_spec(n as nat).len());
    }
    let mut v: Vec<String> = Vec::new();
    let mut i: usize = 0;
    while i < n
        invariant
            i <= n,
            names@.len() == n,
            views(names@) == col_names_spec(n as nat),
            v@.len() == i,
            forall|k: int|
                0 <= k < i ==> (#[trigger] v@[k])@ == col_names_spec(n as nat)[k] + " = excluded."@
                    + col_names_spec(n as nat)[k],
        decreases n - i,
    {
        assert(names@[i as int]@ == views(names@)[i as int]);
        let mut s = names[i].clone();
        s.append(" = excluded.");
        s.append(names[i].as_str());
        v.push(s);
        i = i + 1;
    }
    assert(views(v@) =~= assignments_spec(n as nat));
    v
}

/// The probe of the shadow table for one row of the table whose synthetic
/// primary-key columns are `keys`.
pub fn temp_query(pks: &NameMap, n: usize, shadow: &String, keys: &Vec<String>) -> (s: String)
    ensures
        s@ == temp_query_spec(entries(*pks), n as nat, shadow@, views(keys@)),
{
    let columns = join(&shadow_columns(pks, n), ",");
    let clauses = join(&is_clauses(keys), " AND ");
    let mut s = "SELECT ".to_owned();
    s.append(columns.as_str());
    s.append(" FROM ");
    s.append(shadow.as_str());
    s.append(" WHERE ");
    s.append(clauses.as_str());
    s
}

/// The statements that create the shadow table and its index.
pub fn create_sql(pks: &NameMap, n: usize, id: &String, shadow: &String, qualified: &String) -> (s: String)
    ensures
        s@ == create_spec(entries(*pks), n as nat, id@, shadow@, qualified@),
{
    let columns = join(&shadow_columns(pks, n), ",");
    let keys = join(&all_pks(pks), ",");
    let mut s = "CREATE TABLE ".to_owned();
    s.append(qualified.as_str());
    s.append(" (__corro_rowid INTEGER PRIMARY KEY AUTOINCREMENT, ");
    s.append(columns.as_str());
    s.append(");\n            CREATE UNIQUE INDEX watches.index_");
    s.append(id.as_str());
    s.append("_pk ON ");
    s.append(shadow.as_str());
    s.append(" (");
    s.append(keys.as_str());
    s.append(");");
    s
}

/// The statement that fills the shadow table from the rewritten query.
pub fn snapshot_sql(pks: &NameMap, n: usize, qualified: &String, query: &String) -> (s: String)
    ensures
        s@ == snapshot_spec(entries(*pks), n as nat, qualified@, query@),
{
    let columns = join(&shadow_columns(pks, n), ",");
    let outputs = join(&col_names(n), ",");
    let mut s = "INSERT INTO ".to_owned();
    s.append(qualified.as_str());
    s.append(" (");
    s.append(columns.as_str());
    s.append(") ");
    s.append(query.as_str());
    s.append(" RETURNING __corro_rowid,");
    s.append(outputs.as_str());
    s
}

/// The upsert probe for one change.
pub fn upsert_sql(pks: &NameMap, n: usize, qualified: &String, new_query: &String, temp_query: &String) -> (s:
    String)
    ensures
        s@ == upsert_spec(entries(*pks), n as nat, qualified@, new_query@, temp_query@),
{
    let columns = join(&shadow_columns(pks, n), ",");
    let keys = join(&all_pks(pks), ",");
    let sets = join(&assignments(n), ",");
    let outputs = join(&col_names(n), ",");
    let mut s = "INSERT INTO ".to_owned();
    s.append(qualified.as_str());
    s.append(" (");
    s.append(columns.as_str());
    s.append(")\n                            SELECT * FROM (\n                                ");
    s.append(new_query.as_str());
    s.append("\n                                EXCEPT\n                                ");
    s.append(temp_query.as_str());
    s.append("\n                            ) WHERE 1\n                        ON CONFLICT(");
    s.append(keys.as_str());
    s.append(")\n                            DO UPDATE SET\n                                ");
    s.append(sets.as_str());
    s.append("\n                        RETURNING __corro_rowid,");
    s.append(outputs.as_str());
    s
}

/// The delete probe for one change.
pub fn delete_sql(pks: &NameMap, n: usize, qualified: &String, new_query: &String, temp_query: &String) -> (s:
    String)
    ensures
        s@ == delete_spec(entries(*pks), n as nat, qualified@, new_query@, temp_query@),
{
    let keys = join(&all_pks(pks), ",");
    let outputs = join(&col_names(n), ",");
    let mut s = "\n        DELETE FROM ".to_owned();
    s.append(qualified.as_str());
    s.append(" WHERE (");
    s.append(keys.as_str());
    s.append(") in (SELECT ");
    s.append(keys.as_str());
    s.append(" FROM (\n            ");
    s.append(temp_query.as_str());
    s.append("\n            EXCEPT\n            ");
    s.append(new_query.as_str());
    s.append("\n        )) RETURNING __corro_rowid,");
    s.append(outputs.as_str());
    s
}

/// The statement that removes the shadow table.
pub fn drop_sql(qualified: &String) -> (s: String)
    ensures
        s@ == drop_spec(qualified@),
{
    let mut s = "DROP TABLE ".to_owned();
    s.append(qualified.as_str());
    s
}

} // verus!
