//! SQL text for queries, inserts, updates and deletes of the local store.

use vstd::prelude::*;
use crate::db_error::{DbError, DbResult};
use crate::schema::{has_column, Schema, TableSchema};
use crate::text::join;
use crate::text::{
    chars_of, push_chars, push_decimal, push_signed_decimal, push_str, signed_decimal,
    starts_with_char, str_eq, str_starts_with_char, string_from_chars, decimal,
};
use crate::value::{Value, ValueView};

verus! {

/// One condition of a `WHERE` clause.
#[derive(Debug, Clone, PartialEq)]
pub enum WhereClause {
    Equals { column: String, value: Value },
    NotEquals { column: String, value: Value },
    GreaterThan { column: String, value: Value },
    LessThan { column: String, value: Value },
    Like { column: String, pattern: String },
    IsNull { column: String },
    IsNotNull { column: String },
}

/// The SQL text of one condition (values become `?` placeholders).
pub open spec fn clause_text(c: WhereClause) -> Seq<char> {
    match c {
        WhereClause::Equals { column, .. } => column@ + " = ?"@,
        WhereClause::NotEquals { column, .. } => column@ + " != ?"@,
        WhereClause::GreaterThan { column, .. } => column@ + " > ?"@,
        WhereClause::LessThan { column, .. } => column@ + " < ?"@,
        WhereClause::Like { column, .. } => column@ + " LIKE ?"@,
        WhereClause::IsNull { column } => column@ + " IS NULL"@,
        WhereClause::IsNotNull { column } => column@ + " IS NOT NULL"@,
    }
}

/// The parameters one condition binds.
pub open spec fn clause_params(c: WhereClause) -> Seq<ValueView> {
    match c {
        WhereClause::Equals { value, .. } => seq![value@],
        WhereClause::NotEquals { value, .. } => seq![value@],
        WhereClause::GreaterThan { value, .. } => seq![value@],
        WhereClause::LessThan { value, .. } => seq![value@],
        WhereClause::Like { pattern, .. } => seq![ValueView::Text(pattern@)],
        WhereClause::IsNull { .. } => Seq::empty(),
        WhereClause::IsNotNull { .. } => Seq::empty(),
    }
}

/// The parameters of all conditions, in order.
pub open spec fn params_of(cs: Seq<WhereClause>) -> Seq<ValueView>
    decreases cs.len(),
{
    if cs.len() == 0 {
        Seq::empty()
    } else {
        params_of(cs.drop_last()) + clause_params(cs.last())
    }
}

/// The conditions joined with ` AND `.
pub open spec fn where_text(cs: Seq<WhereClause>) -> Seq<char> {
    join(cs.map_values(|c: WhereClause| clause_text(c)), " AND "@)
}

/// ` WHERE ...` when there are conditions, else nothing.
pub open spec fn where_suffix(cs: Seq<WhereClause>) -> Seq<char> {
    if cs.len() == 0 {
        Seq::empty()
    } else {
        " WHERE "@ + where_text(cs)
    }
}

/// Each condition is written with its own SQL operator on its column, with a
/// `?` for its value: `=` for equality, `!=` for inequality, the strict `>`
/// and `<` for the comparisons, `LIKE` for patterns, and `IS NULL` /
/// `IS NOT NULL`; a condition binds its value (a pattern as text), the null
/// tests bind nothing. Several conditions are all required: their texts are
/// joined with ` AND ` in order, and their values are bound in the same
/// order.
pub proof fn law_condition_sql(column: String, value: Value, pattern: String, cs: Seq<WhereClause>, c: WhereClause)
    ensures
        where_text(seq![WhereClause::Equals { column, value }]) == column@ + " = ?"@,
        where_text(seq![WhereClause::NotEquals { column, value }]) == column@ + " != ?"@,
        where_text(seq![WhereClause::GreaterThan { column, value }]) == column@ + " > ?"@,
        where_text(seq![WhereClause::LessThan { column, value }]) == column@ + " < ?"@,
        where_text(seq![WhereClause::Like { column, pattern }]) == column@ + " LIKE ?"@,
        where_text(seq![WhereClause::IsNull { column }]) == column@ + " IS NULL"@,
        where_text(seq![WhereClause::IsNotNull { column }]) == column@ + " IS NOT NULL"@,
        params_of(seq![WhereClause::LessThan { column, value }]) == seq![value@],
        params_of(seq![WhereClause::GreaterThan { column, value }]) == seq![value@],
        params_of(seq![WhereClause::Equals { column, value }]) == seq![value@],
        params_of(seq![WhereClause::NotEquals { column, value }]) == seq![value@],
        params_of(seq![WhereClause::Like { column, pattern }]) == seq![ValueView::Text(pattern@)],
        params_of(seq![WhereClause::IsNull { column }]).len() == 0,
        params_of(seq![WhereClause::IsNotNull { column }]).len() == 0,
        cs.len() > 0 ==> where_text(cs.push(c)) == where_text(cs) + " AND "@ + where_text(
            seq![c],
        ),
        params_of(cs.push(c)) == params_of(cs) + params_of(seq![c]),
{
    let one = seq![c];
    assert(one.drop_last() =~= Seq::<WhereClause>::empty());
    assert(params_of(Seq::<WhereClause>::empty()) =~= Seq::<ValueView>::empty());
    assert(params_of(one) =~= clause_params(c));
    assert(cs.push(c).drop_last() =~= cs);
    assert(cs.push(c).map_values(|x: WhereClause| clause_text(x)) =~= cs.map_values(
        |x: WhereClause| clause_text(x),
    ).push(clause_text(c)));
    assert(one.map_values(|x: WhereClause| clause_text(x)) =~= seq![clause_text(c)]);
    assert(cs.len() > 0 ==> cs.push(c).map_values(|x: WhereClause| clause_text(x)).drop_last()
        =~= cs.map_values(|x: WhereClause| clause_text(x)));
    let ks = seq![
        WhereClause::Equals { column, value },
        WhereClause::NotEquals { column, value },
        WhereClause::GreaterThan { column, value },
        WhereClause::LessThan { column, value },
        WhereClause::Like { column, pattern },
        WhereClause::IsNull { column },
        WhereClause::IsNotNull { column },
    ];
    assert forall|k: int| 0 <= k < 7 implies {
        &&& #[trigger] where_text(seq![ks[k]]) == clause_text(ks[k])
        &&& params_of(seq![ks[k]]) == clause_params(ks[k])
    } by {
        let o = seq![ks[k]];
        assert(o.map_values(|x: WhereClause| clause_text(x)) =~= seq![clause_text(ks[k])]);
        assert(o.drop_last() =~= Seq::<WhereClause>::empty());
        assert(params_of(Seq::<WhereClause>::empty()) =~= Seq::<ValueView>::empty());
        assert(params_of(o) =~= clause_params(ks[k]));
    }
    assert(where_text(seq![ks[0]]) == clause_text(ks[0]));
    assert(where_text(seq![ks[1]]) == clause_text(ks[1]));
    assert(where_text(seq![ks[2]]) == clause_text(ks[2]));
    assert(where_text(seq![ks[3]]) == clause_text(ks[3]));
    assert(where_text(seq![ks[4]]) == clause_text(ks[4]));
    assert(where_text(seq![ks[5]]) == clause_text(ks[5]));
    assert(where_text(seq![ks[6]]) == clause_text(ks[6]));
}

/// A `SELECT` over one table: its conditions, ordering and paging.
pub struct QueryBuilder {
    pub table: String,
    pub where_clauses: Vec<WhereClause>,
    pub order_by: Option<String>,
    pub limit: Option<usize>,
    pub offset: Option<usize>,
}

pub open spec fn select_sql(q: QueryBuilder) -> Seq<char> {
    "SELECT * FROM "@ + q.table@ + where_suffix(q.where_clauses@) + (match q.order_by {
        Some(o) => " ORDER BY "@ + o@,
        None => Seq::empty(),
    }) + (match q.limit {
        Some(l) => " LIMIT "@ + decimal(l as nat),
        None => Seq::empty(),
    }) + (match q.offset {
        Some(o) => " OFFSET "@ + decimal(o as nat),
        None => Seq::empty(),
    })
}

pub open spec fn count_sql(q: QueryBuilder) -> Seq<char> {
    "SELECT COUNT(*) as count FROM "@ + q.table@ + where_suffix(q.where_clauses@)
}

fn push_clause(out: &mut Vec<char>, params: &mut Vec<Value>, c: &WhereClause)
    ensures
        final(out)@ == old(out)@ + clause_text(*c),
        final(params)@.map_values(|v: Value| v@) == old(params)@.map_values(|v: Value| v@)
            + clause_params(*c),
{
    let ghost p0 = params@.map_values(|v: Value| v@);
    match c {
        WhereClause::Equals { column, value } => {
            push_str(out, column.as_str());
            push_str(out, " = ?");
            params.push(value.duplicate());
        },
        WhereClause::NotEquals { column, value } => {
            push_str(out, column.as_str());
            push_str(out, " != ?");
            params.push(value.duplicate());
        },
        WhereClause::GreaterThan { column, value } => {
            push_str(out, column.as_str());
            push_str(out, " > ?");
            params.push(value.duplicate());
        },
        WhereClause::LessThan { column, value } => {
            push_str(out, column.as_str());
            push_str(out, " < ?");
            params.push(value.duplicate());
        },
        WhereClause::Like { column, pattern } => {
            push_str(out, column.as_str());
            push_str(out, " LIKE ?");
            params.push(Value::Text(pattern.clone()));
        },
        WhereClause::IsNull { column } => {
            push_str(out, column.as_str());
            push_str(out, " IS NULL");
        },
        WhereClause::IsNotNull { column } => {
            push_str(out, column.as_str());
            push_str(out, " IS NOT NULL");
        },
    }
    assert(params@.map_values(|v: Value| v@) =~= p0 + clause_params(*c));
}

impl QueryBuilder {
    pub fn new(table: &str) -> (r: Self)
        ensures
            r.table@ == table@,
            r.where_clauses@ == Seq::<WhereClause>::empty(),
            r.order_by is None,
            r.limit is None,
            r.offset is None,
    {
        QueryBuilder {
            table: String::from_str(table),
            where_clauses: Vec::new(),
            order_by: None,
            limit: None,
            offset: None,
        }
    }

    /// Adds a condition; the others and the rest of the query are kept.
    pub fn with_clause(self, clause: WhereClause) -> (r: Self)
        ensures
            r.table == self.table,
            r.where_clauses@ == self.where_clauses@.push(clause),
            r.order_by == self.order_by,
            r.limit == self.limit,
            r.offset == self.offset,
    {
        let mut q = self;
        q.where_clauses.push(clause);
        q
    }

    /// Adds `column = value`.
    pub fn where_eq(self, column: &str, value: Value) -> (r: Self)
        ensures
            r.table == self.table,
            r.where_clauses@.drop_last() == self.where_clauses@,
            r.where_clauses@.len() == self.where_clauses@.len() + 1,
            r.where_clauses@.last() matches WhereClause::Equals { column: c, value: v } && c@
                == column@ && v == value,
            r.order_by == self.order_by && r.limit == self.limit && r.offset == self.offset,
    {
        let r = self.with_clause(WhereClause::Equals { column: String::from_str(column), value });
        assert(r.where_clauses@.drop_last() =~= self.where_clauses@);
        r
    }

    /// Adds `column != value`.
    pub fn where_ne(self, column: &str, value: Value) -> (r: Self)
        ensures
            r.table == self.table,
            r.where_clauses@.drop_last() == self.where_clauses@,
            r.where_clauses@.len() == self.where_clauses@.len() + 1,
            r.where_clauses@.last() matches WhereClause::NotEquals { column: c, value: v } && c@
                == column@ && v == value,
            r.order_by == self.order_by && r.limit == self.limit && r.offset == self.offset,
    {
        let r = self.with_clause(
            WhereClause::NotEquals { column: String::from_str(column), value },
        );
        assert(r.where_clauses@.drop_last() =~= self.where_clauses@);
        r
    }

    /// Adds `column > value`.
    pub fn where_gt(self, column: &str, value: Value) -> (r: Self)
        ensures
            r.table == self.table,
            r.where_clauses@.drop_last() == self.where_clauses@,
            r.where_clauses@.len() == self.where_clauses@.len() + 1,
            r.where_clauses@.last() matches WhereClause::GreaterThan { column: c, value: v } && c@
                == column@ && v == value,
            r.order_by == self.order_by && r.limit == self.limit && r.offset == self.offset,
    {
        let r = self.with_clause(
            WhereClause::GreaterThan { column: String::from_str(column), value },
        );
        assert(r.where_clauses@.drop_last() =~= self.where_clauses@);
        r
    }

    /// Adds `column < value`.
    pub fn where_lt(self, column: &str, value: Value) -> (r: Self)
        ensures
            r.table == self.table,
            r.where_clauses@.drop_last() == self.where_clauses@,
            r.where_clauses@.len() == self.where_clauses@.len() + 1,
            r.where_clauses@.last() matches WhereClause::LessThan { column: c, value: v } && c@
                == column@ && v == value,
            r.order_by == self.order_by && r.limit == self.limit && r.offset == self.offset,
    {
        let r = self.with_clause(
            WhereClause::LessThan { column: String::from_str(column), value },
        );
        assert(r.where_clauses@.drop_last() =~= self.where_clauses@);
        r
    }

    /// Adds `column LIKE pattern`.
    pub fn where_like(self, column: &str, pattern: &str) -> (r: Self)
        ensures
            r.table == self.table,
            r.where_clauses@.drop_last() == self.where_clauses@,
            r.where_clauses@.len() == self.where_clauses@.len() + 1,
            r.where_clauses@.last() matches WhereClause::Like { column: c, pattern: p } && c@
                == column@ && p@ == pattern@,
            r.order_by == self.order_by && r.limit == self.limit && r.offset == self.offset,
    {
        let r = self.with_clause(
            WhereClause::Like {
                column: String::from_str(column),
                pattern: String::from_str(pattern),
            },
        );
        assert(r.where_clauses@.drop_last() =~= self.where_clauses@);
        r
    }

    /// Adds `column IS NULL`.
    pub fn where_null(self, column: &str) -> (r: Self)
        ensures
            r.table == self.table,
            r.where_clauses@.drop_last() == self.where_clauses@,
            r.where_clauses@.len() == self.where_clauses@.len() + 1,
            r.where_clauses@.last() matches WhereClause::IsNull { column: c } && c@ == column@,
            r.order_by == self.order_by && r.limit == self.limit && r.offset == self.offset,
    {
        let r = self.with_clause(WhereClause::IsNull { column: String::from_str(column) });
        assert(r.where_clauses@.drop_last() =~= self.where_clauses@);
        r
    }

    /// Adds `column IS NOT NULL`.
    pub fn where_not_null(self, column: &str) -> (r: Self)
        ensures
            r.table == self.table,
            r.where_clauses@.drop_last() == self.where_clauses@,
            r.where_clauses@.len() == self.where_clauses@.len() + 1,
            r.where_clauses@.last() matches WhereClause::IsNotNull { column: c } && c@
                == column@,
            r.order_by == self.order_by && r.limit == self.limit && r.offset == self.offset,
    {
        let r = self.with_clause(WhereClause::IsNotNull { column: String::from_str(column) });
        assert(r.where_clauses@.drop_last() =~= self.where_clauses@);
        r
    }

    /// Sets the ordering to `column ASC` or `column DESC`.
    pub fn order_by(self, column: &str, ascending: bool) -> (r: Self)
        ensures
            r.table == self.table,
            r.where_clauses == self.where_clauses,
            r.order_by matches Some(o) && o@ == column@ + " "@ + (if ascending {
                "ASC"@
            } else {
                "DESC"@
            }),
            r.limit == self.limit && r.offset == self.offset,
    {
        let mut o: Vec<char> = Vec::new();
        push_str(&mut o, column);
        push_str(&mut o, " ");
        if ascending {
            push_str(&mut o, "ASC");
        } else {
            push_str(&mut o, "DESC");
        }
        let mut q = self;
        q.order_by = Some(string_from_chars(o.as_slice()));
        q
    }

    pub fn limit(self, limit: usize) -> (r: Self)
        ensures
            r.table == self.table,
            r.where_clauses == self.where_clauses,
            r.order_by == self.order_by,
            r.limit == Some(limit),
            r.offset == self.offset,
    {
        let mut q = self;
        q.limit = Some(limit);
        q
    }

    pub fn offset(self, offset: usize) -> (r: Self)
        ensures
            r.table == self.table,
            r.where_clauses == self.where_clauses,
            r.order_by == self.order_by,
            r.limit == self.limit,
            r.offset == Some(offset),
    {
        let mut q = self;
        q.offset = Some(offset);
        q
    }

    fn where_chars(&self) -> (r: (Vec<char>, Vec<Value>))
        ensures
            r.0@ == where_text(self.where_clauses@),
            r.1@.map_values(|v: Value| v@) == params_of(self.where_clauses@),
    {
        let ghost parts = self.where_clauses@.map_values(|c: WhereClause| clause_text(c));
        let mut out: Vec<char> = Vec::new();
        let mut params: Vec<Value> = Vec::new();
        let mut i: usize = 0;
        while i < self.where_clauses.len()
            invariant
                0 <= i <= self.where_clauses@.len(),
                parts == self.where_clauses@.map_values(|c: WhereClause| clause_text(c)),
                out@ == join(parts.take(i as int), " AND "@),
                params@.map_values(|v: Value| v@) == params_of(self.where_clauses@.take(i as int)),
            decreases self.where_clauses.len() - i,
        {
            if i > 0 {
                push_str(&mut out, " AND ");
            }
            let ghost before = out@;
            push_clause(&mut out, &mut params, &self.where_clauses[i]);
            proof {
                let t = parts.take(i + 1);
                assert(t.drop_last() =~= parts.take(i as int));
                if i == 0 {
                    assert(out@ =~= t[0]);
                }
                assert(self.where_clauses@.take(i + 1).drop_last() =~= self.where_clauses@.take(
                    i as int,
                ));
            }
            i = i + 1;
        }
        assert(parts.take(parts.len() as int) =~= parts);
        assert(self.where_clauses@.take(self.where_clauses@.len() as int)
            =~= self.where_clauses@);
        (out, params)
    }

    fn push_where(&self, out: &mut Vec<char>) -> (params: Vec<Value>)
        ensures
            final(out)@ == old(out)@ + where_suffix(self.where_clauses@),
            params@.map_values(|v: Value| v@) == params_of(self.where_clauses@),
    {
        if self.where_clauses.len() > 0 {
            let (w, p) = self.where_chars();
            push_str(out, " WHERE ");
            push_chars(out, w.as_slice());
            assert(final(out)@ =~= old(out)@ + where_suffix(self.where_clauses@));
            p
        } else {
            let p: Vec<Value> = Vec::new();
            assert(p@.map_values(|v: Value| v@) =~= params_of(self.where_clauses@));
            assert(out@ =~= old(out)@ + where_suffix(self.where_clauses@));
            p
        }
    }

    /// The `SELECT` statement and the values it binds, in order.
    pub fn build_sql(&self) -> (r: (String, Vec<Value>))
        ensures
            r.0@ == select_sql(*self),
            r.1@.map_values(|v: Value| v@) == params_of(self.where_clauses@),
    {
        let mut out: Vec<char> = Vec::new();
        push_str(&mut out, "SELECT * FROM ");
        push_str(&mut out, self.table.as_str());
        let params = self.push_where(&mut out);
        let ghost a = out@;
        match &self.order_by {
            Some(o) => {
                push_str(&mut out, " ORDER BY ");
                push_str(&mut out, o.as_str());
            },
            None => {},
        }
        let ghost b = out@;
        match self.limit {
            Some(l) => {
                push_str(&mut out, " LIMIT ");
                push_decimal(&mut out, l as u64);
            },
            None => {},
        }
        let ghost c = out@;
        match self.offset {
            Some(o) => {
                push_str(&mut out, " OFFSET ");
                push_decimal(&mut out, o as u64);
            },
            None => {},
        }
        assert(out@ =~= select_sql(*self));
        (string_from_chars(out.as_slice()), params)
    }

    /// The `SELECT COUNT(*)` statement and the values it binds.
    pub fn build_count_sql(&self) -> (r: (String, Vec<Value>))
        ensures
            r.0@ == count_sql(*self),
            r.1@.map_values(|v: Value| v@) == params_of(self.where_clauses@),
    {
        let mut out: Vec<char> = Vec::new();
        push_str(&mut out, "SELECT COUNT(*) as count FROM ");
        push_str(&mut out, self.table.as_str());
        let params = self.push_where(&mut out);
        (string_from_chars(out.as_slice()), params)
    }

    /// The conditions joined with ` AND ` and the values they bind.
    pub fn build_where_clause(&self) -> (r: (String, Vec<Value>))
        ensures
            r.0@ == where_text(self.where_clauses@),
            r.1@.map_values(|v: Value| v@) == params_of(self.where_clauses@),
    {
        let (w, p) = self.where_chars();
        (string_from_chars(w.as_slice()), p)
    }
}

} // verus!
