//! The decisions of the local store's writes: which keys are written, which
//! are refused, and the SQL text that the SQLite driver runs.

use vstd::prelude::*;
use crate::db_error::{DbError, DbResult};
use crate::schema::{has_column, Column, Schema, TableSchema};
use crate::text::{
    chars_of, join, push_chars, push_decimal, push_join, push_signed_decimal, push_str,
    signed_decimal, starts_with_char, str_eq, str_starts_with_char, string_from_chars, decimal,
};

verus! {

/// Keys the store writes itself: those starting with `_`, and `id` where the
/// row id is generated.
pub open spec fn is_internal_key(k: Seq<char>, skip_id: bool) -> bool {
    starts_with_char(k, '_') || (skip_id && k == "id"@)
}

/// A key that is written but names no column of the table.
pub open spec fn is_unknown_key(cols: Seq<Column>, k: Seq<char>, skip_id: bool) -> bool {
    !is_internal_key(k, skip_id) && !has_column(cols, k)
}

/// The positions of the keys that are written, in order.
pub open spec fn kept_positions(keys: Seq<Seq<char>>, skip_id: bool) -> Seq<int>
    decreases keys.len(),
{
    if keys.len() == 0 {
        Seq::empty()
    } else if is_internal_key(keys.last(), skip_id) {
        kept_positions(keys.drop_last(), skip_id)
    } else {
        kept_positions(keys.drop_last(), skip_id).push(keys.len() - 1)
    }
}

/// `"?1", "?2", ..., "?n"`.
pub open spec fn placeholders(n: nat) -> Seq<Seq<char>> {
    Seq::new(n, |i: int| seq!['?'] + decimal((i + 1) as nat))
}

/// `VERB table (c1, c2) VALUES (?1, ?2)`.
pub open spec fn insert_text(verb: Seq<char>, table: Seq<char>, cols: Seq<Seq<char>>) -> Seq<char> {
    verb + " "@ + table + " ("@ + join(cols, ", "@) + ") VALUES ("@ + join(
        placeholders(cols.len()),
        ", "@,
    ) + ")"@
}

/// `UPDATE table SET c1 = ?, ..., _updated_at = CURRENT_TIMESTAMP, _synced = 0 WHERE id = ?`.
pub open spec fn update_text(table: Seq<char>, cols: Seq<Seq<char>>) -> Seq<char> {
    "UPDATE "@ + table + " SET "@ + join(
        cols.map_values(|c: Seq<char>| c + " = ?"@) + seq![
            "_updated_at = CURRENT_TIMESTAMP"@,
            "_synced = 0"@,
        ],
        ", "@,
    ) + " WHERE id = ?"@
}

/// What a write does: its SQL text, and which of the given keys (by position)
/// it binds, in the order of the placeholders.
pub struct WritePlan {
    pub sql: String,
    pub kept: Vec<usize>,
}

/// The outcome of checking `keys` against the table's columns: the positions
/// kept, or the first written key that is not a column.
pub open spec fn key_check(cols: Seq<Column>, keys: Seq<Seq<char>>, skip_id: bool, r: Result<
    Seq<int>,
    Seq<char>,
>) -> bool {
    match r {
        Ok(kept) => kept == kept_positions(keys, skip_id) && forall|i: int|
            0 <= i < keys.len() ==> !is_unknown_key(cols, #[trigger] keys[i], skip_id),
        Err(k) => exists|i: int|
            0 <= i < keys.len() && keys[i] == k && is_unknown_key(cols, k, skip_id) && forall|
                j: int,
            |
                0 <= j < i ==> !is_unknown_key(cols, #[trigger] keys[j], skip_id),
    }
}

fn is_internal(k: &str, skip_id: bool) -> (r: bool)
    ensures
        r == is_internal_key(k@, skip_id),
{
    str_starts_with_char(k, '_') || (skip_id && str_eq(k, "id"))
}

fn check_keys(table: &TableSchema, keys: &[String], skip_id: bool) -> (r: Result<
    Vec<usize>,
    String,
>)
    ensures
        key_check(
            table.columns@,
            keys@.map_values(|k: String| k@),
            skip_id,
            match r {
                Ok(v) => Ok(v@.map_values(|i: usize| i as int)),
                Err(k) => Err(k@),
            },
        ),
{
    let ghost ks = keys@.map_values(|k: String| k@);
    let mut kept: Vec<usize> = Vec::new();
    let mut i: usize = 0;
    while i < keys.len()
        invariant
            0 <= i <= keys@.len(),
            ks == keys@.map_values(|k: String| k@),
            kept@.map_values(|i: usize| i as int) == kept_positions(ks.take(i as int), skip_id),
            forall|j: int| 0 <= j < i ==> !is_unknown_key(table.columns@, #[trigger] ks[j], skip_id),
        decreases keys.len() - i,
    {
        let k = keys[i].as_str();
        proof {
            assert(ks.take(i + 1).drop_last() =~= ks.take(i as int));
            assert(ks.take(i + 1).last() == ks[i as int]);
        }
        if !is_internal(k, skip_id) {
            if table.get_column(k).is_none() {
                return Err(keys[i].clone());
            }
            kept.push(i);
            assert(kept@.map_values(|i: usize| i as int) =~= kept_positions(
                ks.take(i + 1),
                skip_id,
            ));
        }
        i = i + 1;
    }
    assert(ks.take(ks.len() as int) =~= ks);
    Ok(kept)
}

fn selected_names(keys: &[String], kept: &Vec<usize>) -> (r: Vec<Vec<char>>)
    requires
        forall|j: int| 0 <= j < kept@.len() ==> #[trigger] kept@[j] < keys@.len(),
    ensures
        r@.map_values(|p: Vec<char>| p@) == kept@.map_values(|i: usize| keys@[i as int]@),
{
    let mut r: Vec<Vec<char>> = Vec::new();
    let mut j: usize = 0;
    while j < kept.len()
        invariant
            0 <= j <= kept@.len(),
            forall|j: int| 0 <= j < kept@.len() ==> #[trigger] kept@[j] < keys@.len(),
            r@.len() == j,
            forall|k: int| 0 <= k < j ==> #[trigger] r@[k]@ == keys@[kept@[k] as int]@,
        decreases kept.len() - j,
    {
        let c = chars_of(keys[kept[j]].as_str());
        r.push(c);
        j = j + 1;
    }
    assert(r@.map_values(|p: Vec<char>| p@) =~= kept@.map_values(|i: usize| keys@[i as int]@));
    r
}

fn placeholder_parts(n: usize) -> (r: Vec<Vec<char>>)
    ensures
        r@.map_values(|p: Vec<char>| p@) == placeholders(n as nat),
{
    let mut r: Vec<Vec<char>> = Vec::new();
    let mut i: usize = 0;
    while i < n
        invariant
            0 <= i <= n,
            r@.len() == i,
            forall|k: int| 0 <= k < i ==> #[trigger] r@[k]@ == seq!['?'] + decimal((k + 1) as nat),
        decreases n - i,
    {
        let mut p: Vec<char> = Vec::new();
        p.push('?');
        push_decimal(&mut p, (i as u64) + 1);
        assert(p@ =~= seq!['?'] + decimal((i + 1) as nat));
        r.push(p);
        i = i + 1;
    }
    assert(r@.map_values(|p: Vec<char>| p@) =~= placeholders(n as nat));
    r
}

/// The text of an insert-like statement with the given verb.
fn insert_statement_chars(verb: &str, table: &str, cols: &Vec<Vec<char>>) -> (r: Vec<char>)
    ensures
        r@ == insert_text(verb@, table@, cols@.map_values(|p: Vec<char>| p@)),
{
    let mut out: Vec<char> = Vec::new();
    push_str(&mut out, verb);
    push_str(&mut out, " ");
    push_str(&mut out, table);
    push_str(&mut out, " (");
    push_join(&mut out, cols, ", ");
    push_str(&mut out, ") VALUES (");
    let ph = placeholder_parts(cols.len());
    push_join(&mut out, &ph, ", ");
    push_str(&mut out, ")");
    out
}

/// The column list of a write, from the given names.
pub fn insert_statement(replace: bool, table: &str, columns: &[String]) -> (r: String)
    ensures
        r@ == insert_text(
            if replace {
                "REPLACE INTO"@
            } else {
                "INSERT INTO"@
            },
            table@,
            columns@.map_values(|c: String| c@),
        ),
{
    let mut all: Vec<usize> = Vec::new();
    let mut i: usize = 0;
    while i < columns.len()
        invariant
            0 <= i <= columns@.len(),
            all@ == Seq::new(i as nat, |k: int| k as usize),
        decreases columns.len() - i,
    {
        all.push(i);
        i = i + 1;
        assert(all@ =~= Seq::new(i as nat, |k: int| k as usize));
    }
    let names = selected_names(columns, &all);
    assert(all@.map_values(|k: usize| columns@[k as int]@) =~= columns@.map_values(
        |c: String| c@,
    ));
    let v = if replace {
        insert_statement_chars("REPLACE INTO", table, &names)
    } else {
        insert_statement_chars("INSERT INTO", table, &names)
    };
    string_from_chars(v.as_slice())
}

/// `DELETE FROM table`.
pub fn delete_all_statement(table: &str) -> (r: String)
    ensures
        r@ == "DELETE FROM "@ + table@,
{
    let mut out: Vec<char> = Vec::new();
    push_str(&mut out, "DELETE FROM ");
    push_str(&mut out, table);
    string_from_chars(out.as_slice())
}

/// The schema of a registered table, or `TableNotFound`.
pub fn get_table_schema<'a>(schema: &'a Schema, table: &str) -> (r: DbResult<&'a TableSchema>)
    ensures
        schema@.contains_key(table@) ==> (r matches Ok(t) && *t == schema@[table@]),
        !schema@.contains_key(table@) ==> (r matches Err(DbError::TableNotFound(n)) && n@
            == table@),
{
    match schema.get_table(table) {
        Some(t) => Ok(t),
        None => Err(DbError::TableNotFound(String::from_str(table))),
    }
}

/// The names of the kept keys, as characters.
pub open spec fn kept_names(keys: Seq<Seq<char>>, skip_id: bool) -> Seq<Seq<char>> {
    kept_positions(keys, skip_id).map_values(|i: int| keys[i])
}

proof fn lemma_kept_in_range(keys: Seq<Seq<char>>, skip_id: bool)
    ensures
        forall|j: int|
            0 <= j < kept_positions(keys, skip_id).len() ==> 0 <= #[trigger] kept_positions(
                keys,
                skip_id,
            )[j] < keys.len(),
    decreases keys.len(),
{
    if keys.len() > 0 {
        let init = keys.drop_last();
        lemma_kept_in_range(init, skip_id);
        let k = kept_positions(keys, skip_id);
        let ki = kept_positions(init, skip_id);
        assert forall|j: int| 0 <= j < k.len() implies 0 <= #[trigger] k[j] < keys.len() by {
            if j < ki.len() {
                assert(k[j] == ki[j]);
            }
        }
    }
}

/// The outcome of planning a write of the keys `keys` into `table`.
pub open spec fn write_outcome(schema: Map<Seq<char>, TableSchema>, table: Seq<char>, keys: Seq<
    Seq<char>,
>, skip_id: bool, r: Result<Seq<int>, DbError>) -> bool {
    if !schema.contains_key(table) {
        r matches Err(DbError::TableNotFound(n)) && n@ == table
    } else {
        let cols = schema[table].columns@;
        match r {
            Ok(kept) => key_check(cols, keys, skip_id, Ok(kept)),
            Err(DbError::ColumnNotFound(k)) => key_check(cols, keys, skip_id, Err(k@)),
            Err(_) => false,
        }
    }
}

/// Plans an insert of a row given by its keys (the JSON object's keys, in
/// order): internal keys are left to the store, every other key must be a
/// column, and the statement binds the kept keys in order.
pub fn plan_insert(schema: &Schema, table: &str, keys: &[String], skip_id: bool) -> (r: DbResult<
    WritePlan,
>)
    ensures
        write_outcome(
            schema@,
            table@,
            keys@.map_values(|k: String| k@),
            skip_id,
            match r {
                Ok(p) => Ok(p.kept@.map_values(|i: usize| i as int)),
                Err(e) => Err(e),
            },
        ),
        r matches Ok(p) ==> p.sql@ == insert_text(
            "INSERT INTO"@,
            table@,
            kept_names(keys@.map_values(|k: String| k@), skip_id),
        ),
{
    let t = get_table_schema(schema, table)?;
    let kept = match check_keys(t, keys, skip_id) {
        Ok(k) => k,
        Err(k) => {
            return Err(DbError::ColumnNotFound(k));
        },
    };
    let ghost ks = keys@.map_values(|k: String| k@);
    proof {
        lemma_kept_in_range(ks, skip_id);
        assert forall|j: int| 0 <= j < kept@.len() implies #[trigger] kept@[j] < keys@.len() by {
            assert(kept@.map_values(|i: usize| i as int)[j] == kept@[j] as int);
        }
    }
    let names = selected_names(keys, &kept);
    assert(kept@.map_values(|i: usize| keys@[i as int]@) =~= kept_names(ks, skip_id));
    let v = insert_statement_chars("INSERT INTO", table, &names);
    Ok(WritePlan { sql: string_from_chars(v.as_slice()), kept })
}

/// Plans an update of row `id` from the given keys; the row is also marked
/// as changed and not synced.
pub fn plan_update(schema: &Schema, table: &str, keys: &[String]) -> (r: DbResult<WritePlan>)
    ensures
        write_outcome(
            schema@,
            table@,
            keys@.map_values(|k: String| k@),
            true,
            match r {
                Ok(p) => Ok(p.kept@.map_values(|i: usize| i as int)),
                Err(e) => Err(e),
            },
        ),
        r matches Ok(p) ==> p.sql@ == update_text(
            table@,
            kept_names(keys@.map_values(|k: String| k@), true),
        ),
{
    let t = get_table_schema(schema, table)?;
    let kept = match check_keys(t, keys, true) {
        Ok(k) => k,
        Err(k) => {
            return Err(DbError::ColumnNotFound(k));
        },
    };
    let ghost ks = keys@.map_values(|k: String| k@);
    proof {
        lemma_kept_in_range(ks, true);
        assert forall|j: int| 0 <= j < kept@.len() implies #[trigger] kept@[j] < keys@.len() by {
            assert(kept@.map_values(|i: usize| i as int)[j] == kept@[j] as int);
        }
    }
    let names = selected_names(keys, &kept);
    let ghost nv = names@.map_values(|p: Vec<char>| p@);
    assert(nv =~= kept_names(ks, true));
    let mut sets: Vec<Vec<char>> = Vec::new();
    let mut j: usize = 0;
    while j < names.len()
        invariant
            0 <= j <= names@.len(),
            nv == names@.map_values(|p: Vec<char>| p@),
            sets@.len() == j,
            forall|k: int| 0 <= k < j ==> #[trigger] sets@[k]@ == nv[k] + " = ?"@,
        decreases names.len() - j,
    {
        let mut s: Vec<char> = Vec::new();
        push_chars(&mut s, names[j].as_slice());
        push_str(&mut s, " = ?");
        sets.push(s);
        j = j + 1;
    }
    assert(sets@.map_values(|p: Vec<char>| p@) =~= nv.map_values(|c: Seq<char>| c + " = ?"@));
    let ghost sets0 = sets@.map_values(|p: Vec<char>| p@);
    sets.push(chars_of("_updated_at = CURRENT_TIMESTAMP"));
    sets.push(chars_of("_synced = 0"));
    let mut out: Vec<char> = Vec::new();
    push_str(&mut out, "UPDATE ");
    push_str(&mut out, table);
    push_str(&mut out, " SET ");
    push_join(&mut out, &sets, ", ");
    push_str(&mut out, " WHERE id = ?");
    assert(sets@.map_values(|p: Vec<char>| p@) =~= sets0 + seq![
        "_updated_at = CURRENT_TIMESTAMP"@,
        "_synced = 0"@,
    ]);
    Ok(WritePlan { sql: string_from_chars(out.as_slice()), kept })
}

/// Plans the deletion of one row: `DELETE FROM table WHERE id = ?`.
pub fn plan_delete(schema: &Schema, table: &str) -> (r: DbResult<String>)
    ensures
        schema@.contains_key(table@) ==> (r matches Ok(s) && s@ == "DELETE FROM "@ + table@
            + " WHERE id = ?"@),
        !schema@.contains_key(table@) ==> (r matches Err(DbError::TableNotFound(n)) && n@
            == table@),
{
    get_table_schema(schema, table)?;
    let mut out: Vec<char> = Vec::new();
    push_str(&mut out, "DELETE FROM ");
    push_str(&mut out, table);
    push_str(&mut out, " WHERE id = ?");
    Ok(string_from_chars(out.as_slice()))
}

/// The error for an update or delete that touched no row.
pub fn row_not_found(id: i64, table: &str) -> (e: DbError)
    ensures
        e matches DbError::Schema(m) && m@ == "Row "@ + signed_decimal(id as int) + " not found in "@
            + table@,
{
    let mut out: Vec<char> = Vec::new();
    push_str(&mut out, "Row ");
    push_signed_decimal(&mut out, id);
    push_str(&mut out, " not found in ");
    push_str(&mut out, table);
    DbError::Schema(string_from_chars(out.as_slice()))
}

/// A change of the local store waiting to be synced: the queue entry's id,
/// the table and row, the operation, the row's JSON (if any) and when the
/// change was queued.
#[derive(Debug, Clone)]
pub struct SyncOperation {
    pub id: i64,
    pub table_name: String,
    pub row_id: i64,
    pub operation: String,
    pub data_json: Option<String>,
    pub created_at: String,
}

} // verus!
