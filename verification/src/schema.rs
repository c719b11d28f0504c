//! Table schemas, their SQL definitions and the registry of known tables.

use vstd::prelude::*;
use crate::db_error::{DbError, DbResult};
use crate::text::{join, push_str, string_from_chars, str_eq};

verus! {

/// SQL column types.
#[derive(Debug, Clone, Copy, PartialEq, Eq, Structural)]
pub enum DataType {
    Integer,
    Real,
    Text,
    Blob,
    Boolean,
    Timestamp,
}

impl DataType {
    /// The SQLite type name (booleans are stored as integers).
    pub open spec fn sqlite_name(self) -> Seq<char> {
        match self {
            DataType::Integer => "INTEGER"@,
            DataType::Real => "REAL"@,
            DataType::Text => "TEXT"@,
            DataType::Blob => "BLOB"@,
            DataType::Boolean => "INTEGER"@,
            DataType::Timestamp => "DATETIME"@,
        }
    }

    /// The PostgreSQL type name.
    pub open spec fn postgres_name(self) -> Seq<char> {
        match self {
            DataType::Integer => "BIGINT"@,
            DataType::Real => "DOUBLE PRECISION"@,
            DataType::Text => "TEXT"@,
            DataType::Blob => "BYTEA"@,
            DataType::Boolean => "BOOLEAN"@,
            DataType::Timestamp => "TIMESTAMP"@,
        }
    }

    pub fn to_sqlite(&self) -> (r: &'static str)
        ensures
            r@ == self.sqlite_name(),
    {
        match self {
            DataType::Integer => "INTEGER",
            DataType::Real => "REAL",
            DataType::Text => "TEXT",
            DataType::Blob => "BLOB",
            DataType::Boolean => "INTEGER",
            DataType::Timestamp => "DATETIME",
        }
    }

    pub fn to_postgres(&self) -> (r: &'static str)
        ensures
            r@ == self.postgres_name(),
    {
        match self {
            DataType::Integer => "BIGINT",
            DataType::Real => "DOUBLE PRECISION",
            DataType::Text => "TEXT",
            DataType::Blob => "BYTEA",
            DataType::Boolean => "BOOLEAN",
            DataType::Timestamp => "TIMESTAMP",
        }
    }
}

/// Column types are named so that no two are confused in PostgreSQL: two
/// data types get the same PostgreSQL name only when they are the same type.
/// In SQLite only booleans share a name, with integers (SQLite stores
/// booleans as integers); every other pair of types is told apart. Text is
/// `TEXT` in both dialects, and binary data is never named like text.
pub proof fn law_type_names_distinguish_types(a: DataType, b: DataType)
    ensures
        a.postgres_name() == b.postgres_name() <==> a == b,
        a.sqlite_name() == b.sqlite_name() <==> (a == b || (a == DataType::Integer && b
            == DataType::Boolean) || (a == DataType::Boolean && b == DataType::Integer)),
        DataType::Text.postgres_name() == "TEXT"@,
        DataType::Text.sqlite_name() == DataType::Text.postgres_name(),
        DataType::Blob.postgres_name() != DataType::Text.postgres_name(),
        DataType::Blob.sqlite_name() != DataType::Text.sqlite_name(),
{
    reveal_strlit("INTEGER");
    reveal_strlit("REAL");
    reveal_strlit("TEXT");
    reveal_strlit("BLOB");
    reveal_strlit("DATETIME");
    reveal_strlit("BIGINT");
    reveal_strlit("DOUBLE PRECISION");
    reveal_strlit("BYTEA");
    reveal_strlit("BOOLEAN");
    reveal_strlit("TIMESTAMP");
    assert("BIGINT"@.len() == 6 && "DOUBLE PRECISION"@.len() == 16 && "TEXT"@.len() == 4
        && "BYTEA"@.len() == 5 && "BOOLEAN"@.len() == 7 && "TIMESTAMP"@.len() == 9);
    if a != b {
        assert(a.postgres_name().len() != b.postgres_name().len());
    }
    assert("INTEGER"@.len() == 7 && "DATETIME"@.len() == 8 && "REAL"@[0] == 'R' && "TEXT"@[0]
        == 'T' && "BLOB"@[0] == 'B');
    if a.sqlite_name() == b.sqlite_name() {
        assert(a.sqlite_name().len() == b.sqlite_name().len());
        assert(a.sqlite_name()[0] == b.sqlite_name()[0]);
    }
}

/// Column constraints.
#[derive(Debug, Clone, PartialEq)]
pub enum ColumnConstraint {
    PrimaryKey,
    NotNull,
    Unique,
    AutoIncrement,
    Default(String),
    ForeignKey { table: String, column: String },
}

/// The SQL text of one constraint (the same for SQLite and PostgreSQL, except
/// that PostgreSQL has no `AUTOINCREMENT`).
pub open spec fn constraint_text(c: ColumnConstraint) -> Seq<char> {
    match c {
        ColumnConstraint::PrimaryKey => "PRIMARY KEY"@,
        ColumnConstraint::NotNull => "NOT NULL"@,
        ColumnConstraint::Unique => "UNIQUE"@,
        ColumnConstraint::AutoIncrement => "AUTOINCREMENT"@,
        ColumnConstraint::Default(v) => "DEFAULT "@ + v@,
        ColumnConstraint::ForeignKey { table, column } => "REFERENCES "@ + table@ + "("@
            + column@ + ")"@,
    }
}

/// Each SQLite constraint, preceded by a space.
pub open spec fn sqlite_constraints_text(cs: Seq<ColumnConstraint>) -> Seq<char>
    decreases cs.len(),
{
    if cs.len() == 0 {
        Seq::empty()
    } else {
        sqlite_constraints_text(cs.drop_last()) + " "@ + constraint_text(cs.last())
    }
}

/// Each PostgreSQL constraint, preceded by a space; `AUTOINCREMENT` is left out.
pub open spec fn postgres_constraints_text(cs: Seq<ColumnConstraint>) -> Seq<char>
    decreases cs.len(),
{
    if cs.len() == 0 {
        Seq::empty()
    } else if cs.last() is AutoIncrement {
        postgres_constraints_text(cs.drop_last())
    } else {
        postgres_constraints_text(cs.drop_last()) + " "@ + constraint_text(cs.last())
    }
}

/// Without `AUTOINCREMENT`, a column's constraints read the same in
/// PostgreSQL as in SQLite; PostgreSQL drops `AUTOINCREMENT` and keeps the
/// others in order.
pub proof fn law_constraints_agree_across_dialects(cs: Seq<ColumnConstraint>)
    ensures
        (forall|i: int| 0 <= i < cs.len() ==> !(#[trigger] cs[i] is AutoIncrement))
            ==> postgres_constraints_text(cs) == sqlite_constraints_text(cs),
        postgres_constraints_text(cs.push(ColumnConstraint::AutoIncrement))
            == postgres_constraints_text(cs),
    decreases cs.len(),
{
    assert(cs.push(ColumnConstraint::AutoIncrement).drop_last() =~= cs);
    if cs.len() > 0 {
        let init = cs.drop_last();
        law_constraints_agree_across_dialects(init);
        if forall|i: int| 0 <= i < cs.len() ==> !(#[trigger] cs[i] is AutoIncrement) {
            assert forall|i: int| 0 <= i < init.len() implies !(#[trigger] init[i] is AutoIncrement) by {
                assert(init[i] == cs[i]);
            }
            assert(!(cs[cs.len() - 1] is AutoIncrement));
        }
    }
}

/// Each constraint adds a space and its SQL keyword at the end of the
/// column's definition, in both dialects: `PRIMARY KEY`, `NOT NULL`,
/// `UNIQUE`, `AUTOINCREMENT` (SQLite only), `DEFAULT` and the value, or
/// `REFERENCES table(column)`.
pub proof fn law_constraint_keywords(cs: Seq<ColumnConstraint>, v: String, t: String, c: String)
    ensures
        sqlite_constraints_text(cs.push(ColumnConstraint::PrimaryKey))
            == sqlite_constraints_text(cs) + " "@ + "PRIMARY KEY"@,
        sqlite_constraints_text(cs.push(ColumnConstraint::NotNull)) == sqlite_constraints_text(cs)
            + " "@ + "NOT NULL"@,
        sqlite_constraints_text(cs.push(ColumnConstraint::Unique)) == sqlite_constraints_text(cs)
            + " "@ + "UNIQUE"@,
        sqlite_constraints_text(cs.push(ColumnConstraint::AutoIncrement))
            == sqlite_constraints_text(cs) + " "@ + "AUTOINCREMENT"@,
        sqlite_constraints_text(cs.push(ColumnConstraint::Default(v))) == sqlite_constraints_text(
            cs,
        ) + " "@ + "DEFAULT "@ + v@,
        sqlite_constraints_text(cs.push(ColumnConstraint::ForeignKey { table: t, column: c }))
            == sqlite_constraints_text(cs) + " "@ + "REFERENCES "@ + t@ + "("@ + c@ + ")"@,
        postgres_constraints_text(cs.push(ColumnConstraint::PrimaryKey))
            == postgres_constraints_text(cs) + " "@ + "PRIMARY KEY"@,
        postgres_constraints_text(cs.push(ColumnConstraint::NotNull))
            == postgres_constraints_text(cs) + " "@ + "NOT NULL"@,
        postgres_constraints_text(cs.push(ColumnConstraint::Unique)) == postgres_constraints_text(
            cs,
        ) + " "@ + "UNIQUE"@,
{
    assert(cs.push(ColumnConstraint::PrimaryKey).drop_last() =~= cs);
    assert(cs.push(ColumnConstraint::NotNull).drop_last() =~= cs);
    assert(cs.push(ColumnConstraint::Unique).drop_last() =~= cs);
    assert(cs.push(ColumnConstraint::AutoIncrement).drop_last() =~= cs);
    assert(cs.push(ColumnConstraint::Default(v)).drop_last() =~= cs);
    assert(cs.push(ColumnConstraint::ForeignKey { table: t, column: c }).drop_last() =~= cs);
}

/// A column definition.
#[derive(Debug, Clone, PartialEq)]
pub struct Column {
    pub name: String,
    pub data_type: DataType,
    pub constraints: Vec<ColumnConstraint>,
}

/// `name TYPE CONSTRAINT ...` for SQLite.
pub open spec fn sqlite_column_ddl(c: Column) -> Seq<char> {
    c.name@ + " "@ + c.data_type.sqlite_name() + sqlite_constraints_text(c.constraints@)
}

/// `name TYPE CONSTRAINT ...` for PostgreSQL.
pub open spec fn postgres_column_ddl(c: Column) -> Seq<char> {
    c.name@ + " "@ + c.data_type.postgres_name() + postgres_constraints_text(c.constraints@)
}

fn push_constraint(out: &mut Vec<char>, c: &ColumnConstraint)
    ensures
        final(out)@ == old(out)@ + " "@ + constraint_text(*c),
{
    push_str(out, " ");
    match c {
        ColumnConstraint::PrimaryKey => push_str(out, "PRIMARY KEY"),
        ColumnConstraint::NotNull => push_str(out, "NOT NULL"),
        ColumnConstraint::Unique => push_str(out, "UNIQUE"),
        ColumnConstraint::AutoIncrement => push_str(out, "AUTOINCREMENT"),
        ColumnConstraint::Default(v) => {
            push_str(out, "DEFAULT ");
            push_str(out, v.as_str());
        },
        ColumnConstraint::ForeignKey { table, column } => {
            push_str(out, "REFERENCES ");
            push_str(out, table.as_str());
            push_str(out, "(");
            push_str(out, column.as_str());
            push_str(out, ")");
        },
    }
}

impl Column {
    pub fn new(name: String, data_type: DataType, constraints: Vec<ColumnConstraint>) -> (r:
        Self)
        ensures
            r.name == name,
            r.data_type == data_type,
            r.constraints == constraints,
    {
        Column { name, data_type, constraints }
    }

    fn sqlite_ddl_chars(&self) -> (r: Vec<char>)
        ensures
            r@ == sqlite_column_ddl(*self),
    {
        let mut out: Vec<char> = Vec::new();
        push_str(&mut out, self.name.as_str());
        push_str(&mut out, " ");
        push_str(&mut out, self.data_type.to_sqlite());
        let mut i: usize = 0;
        while i < self.constraints.len()
            invariant
                0 <= i <= self.constraints@.len(),
                out@ == self.name@ + " "@ + self.data_type.sqlite_name()
                    + sqlite_constraints_text(self.constraints@.take(i as int)),
            decreases self.constraints.len() - i,
        {
            push_constraint(&mut out, &self.constraints[i]);
            proof {
                let cs = self.constraints@.take(i + 1);
                assert(cs.drop_last() =~= self.constraints@.take(i as int));
            }
            i = i + 1;
        }
        assert(self.constraints@.take(self.constraints@.len() as int) =~= self.constraints@);
        out
    }

    fn postgres_ddl_chars(&self) -> (r: Vec<char>)
        ensures
            r@ == postgres_column_ddl(*self),
    {
        let mut out: Vec<char> = Vec::new();
        push_str(&mut out, self.name.as_str());
        push_str(&mut out, " ");
        push_str(&mut out, self.data_type.to_postgres());
        let mut i: usize = 0;
        while i < self.constraints.len()
            invariant
                0 <= i <= self.constraints@.len(),
                out@ == self.name@ + " "@ + self.data_type.postgres_name()
                    + postgres_constraints_text(self.constraints@.take(i as int)),
            decreases self.constraints.len() - i,
        {
            match &self.constraints[i] {
                ColumnConstraint::AutoIncrement => {},
                other => push_constraint(&mut out, other),
            }
            proof {
                let cs = self.constraints@.take(i + 1);
                assert(cs.drop_last() =~= self.constraints@.take(i as int));
            }
            i = i + 1;
        }
        assert(self.constraints@.take(self.constraints@.len() as int) =~= self.constraints@);
        out
    }

    /// The column's definition in a SQLite `CREATE TABLE`.
    pub fn to_sqlite_ddl(&self) -> (r: String)
        ensures
            r@ == sqlite_column_ddl(*self),
    {
        let v = self.sqlite_ddl_chars();
        string_from_chars(v.as_slice())
    }

    /// The column's definition in a PostgreSQL `CREATE TABLE`.
    pub fn to_postgres_ddl(&self) -> (r: String)
        ensures
            r@ == postgres_column_ddl(*self),
    {
        let v = self.postgres_ddl_chars();
        string_from_chars(v.as_slice())
    }
}

/// A table: its name and its columns, in order.
#[derive(Debug, Clone, PartialEq)]
pub struct TableSchema {
    pub name: String,
    pub columns: Vec<Column>,
}

/// `CREATE TABLE IF NOT EXISTS name (\n  col,\n  col\n)` built from the given
/// column definitions.
pub open spec fn create_statement(name: Seq<char>, column_ddls: Seq<Seq<char>>) -> Seq<char> {
    "CREATE TABLE IF NOT EXISTS "@ + name + " (\n  "@ + join(column_ddls, ",\n  "@) + "\n)"@
}

pub open spec fn sqlite_create(t: TableSchema) -> Seq<char> {
    create_statement(t.name@, t.columns@.map_values(|c: Column| sqlite_column_ddl(c)))
}

pub open spec fn postgres_create(t: TableSchema) -> Seq<char> {
    create_statement(t.name@, t.columns@.map_values(|c: Column| postgres_column_ddl(c)))
}

/// Whether some column of `cols` has the given name.
pub open spec fn has_column(cols: Seq<Column>, name: Seq<char>) -> bool {
    exists|i: int| 0 <= i < cols.len() && #[trigger] cols[i].name@ == name
}

impl TableSchema {
    pub fn new(name: String) -> (r: Self)
        ensures
            r.name == name,
            r.columns@ == Seq::<Column>::empty(),
    {
        TableSchema { name, columns: Vec::new() }
    }

    pub fn add_column(&mut self, column: Column)
        ensures
            final(self).name == old(self).name,
            final(self).columns@ == old(self).columns@.push(column),
    {
        self.columns.push(column);
    }

    /// The first column with the given name.
    pub fn get_column(&self, name: &str) -> (r: Option<&Column>)
        ensures
            r is Some <==> has_column(self.columns@, name@),
            r matches Some(c) ==> exists|i: int|
                0 <= i < self.columns@.len() && self.columns@[i] == *c && c.name@ == name@
                    && forall|j: int| 0 <= j < i ==> #[trigger] self.columns@[j].name@ != name@,
    {
        let mut i: usize = 0;
        while i < self.columns.len()
            invariant
                0 <= i <= self.columns@.len(),
                forall|j: int| 0 <= j < i ==> #[trigger] self.columns@[j].name@ != name@,
            decreases self.columns.len() - i,
        {
            if str_eq(self.columns[i].name.as_str(), name) {
                return Some(&self.columns[i]);
            }
            i = i + 1;
        }
        None
    }

    fn create_chars(&self, postgres: bool) -> (r: Vec<char>)
        ensures
            r@ == (if postgres {
                postgres_create(*self)
            } else {
                sqlite_create(*self)
            }),
    {
        let ghost ddls = if postgres {
            self.columns@.map_values(|c: Column| postgres_column_ddl(c))
        } else {
            self.columns@.map_values(|c: Column| sqlite_column_ddl(c))
        };
        let mut body: Vec<char> = Vec::new();
        let mut i: usize = 0;
        while i < self.columns.len()
            invariant
                0 <= i <= self.columns@.len(),
                ddls.len() == self.columns@.len(),
                forall|k: int| 0 <= k < ddls.len() ==> #[trigger] ddls[k] == (if postgres {
                    postgres_column_ddl(self.columns@[k])
                } else {
                    sqlite_column_ddl(self.columns@[k])
                }),
                body@ == join(ddls.take(i as int), ",\n  "@),
            decreases self.columns.len() - i,
        {
            let d = if postgres {
                self.columns[i].postgres_ddl_chars()
            } else {
                self.columns[i].sqlite_ddl_chars()
            };
            let ghost before = body@;
            if i > 0 {
                push_str(&mut body, ",\n  ");
            }
            let mut k: usize = 0;
            let ghost mid = body@;
            while k < d.len()
                invariant
                    0 <= k <= d@.len(),
                    body@ == mid + d@.take(k as int),
                decreases d.len() - k,
            {
                body.push(d[k]);
                k = k + 1;
                assert(body@ =~= mid + d@.take(k as int));
            }
            proof {
                assert(d@.take(d@.len() as int) =~= d@);
                let t = ddls.take(i + 1);
                assert(t.drop_last() =~= ddls.take(i as int));
                assert(t.last() == d@);
                if i == 0 {
                    assert(t.len() == 1);
                    assert(body@ =~= t[0]);
                }
            }
            i = i + 1;
        }
        assert(ddls.take(ddls.len() as int) =~= ddls);
        let mut out: Vec<char> = Vec::new();
        push_str(&mut out, "CREATE TABLE IF NOT EXISTS ");
        push_str(&mut out, self.name.as_str());
        push_str(&mut out, " (\n  ");
        let ghost mid = out@;
        let mut k: usize = 0;
        while k < body.len()
            invariant
                0 <= k <= body@.len(),
                out@ == mid + body@.take(k as int),
            decreases body.len() - k,
        {
            out.push(body[k]);
            k = k + 1;
            assert(out@ =~= mid + body@.take(k as int));
        }
        assert(body@.take(body@.len() as int) =~= body@);
        push_str(&mut out, "\n)");
        out
    }

    /// The SQLite `CREATE TABLE IF NOT EXISTS` statement of this table.
    pub fn to_sqlite_create(&self) -> (r: String)
        ensures
            r@ == sqlite_create(*self),
    {
        let v = self.create_chars(false);
        string_from_chars(v.as_slice())
    }

    /// The PostgreSQL `CREATE TABLE IF NOT EXISTS` statement of this table.
    pub fn to_postgres_create(&self) -> (r: String)
        ensures
            r@ == postgres_create(*self),
    {
        let v = self.create_chars(true);
        string_from_chars(v.as_slice())
    }
}


/// The tables of a sequence, keyed by name (a later table with the same name
/// would win; the registry never holds two).
pub open spec fn tables_map(ts: Seq<TableSchema>) -> Map<Seq<char>, TableSchema>
    decreases ts.len(),
{
    if ts.len() == 0 {
        Map::empty()
    } else {
        tables_map(ts.drop_last()).insert(ts.last().name@, ts.last())
    }
}

/// No two tables share a name.
pub open spec fn names_distinct(ts: Seq<TableSchema>) -> bool {
    forall|i: int, j: int|
        0 <= i < ts.len() && 0 <= j < ts.len() && i != j ==> #[trigger] ts[i].name@
            != #[trigger] ts[j].name@
}

proof fn lemma_tables_map(ts: Seq<TableSchema>)
    requires
        names_distinct(ts),
    ensures
        forall|n: Seq<char>| #[trigger]
            tables_map(ts).contains_key(n) <==> exists|i: int|
                0 <= i < ts.len() && ts[i].name@ == n,
        forall|i: int| 0 <= i < ts.len() ==> #[trigger] tables_map(ts)[ts[i].name@] == ts[i],
    decreases ts.len(),
{
    if ts.len() > 0 {
        let init = ts.drop_last();
        assert(names_distinct(init)) by {
            assert forall|i: int, j: int|
                0 <= i < init.len() && 0 <= j < init.len() && i != j implies #[trigger] init[i].name@
                != #[trigger] init[j].name@ by {
                assert(init[i] == ts[i] && init[j] == ts[j]);
            }
        }
        lemma_tables_map(init);
        assert forall|n: Seq<char>| #[trigger]
            tables_map(ts).contains_key(n) implies exists|i: int|
                0 <= i < ts.len() && ts[i].name@ == n by {
            if n != ts.last().name@ {
                assert(tables_map(init).contains_key(n));
                let i = choose|i: int| 0 <= i < init.len() && init[i].name@ == n;
                assert(ts[i] == init[i]);
            } else {
                assert(ts[ts.len() - 1].name@ == n);
            }
        }
        assert forall|n: Seq<char>|
            (exists|i: int| 0 <= i < ts.len() && ts[i].name@ == n) implies #[trigger]
            tables_map(ts).contains_key(n) by {
            let i = choose|i: int| 0 <= i < ts.len() && ts[i].name@ == n;
            if i < ts.len() - 1 {
                assert(init[i] == ts[i]);
                assert(tables_map(init).contains_key(n));
            }
        }
        assert forall|i: int| 0 <= i < ts.len() implies #[trigger] tables_map(ts)[ts[i].name@]
            == ts[i] by {
            if i < ts.len() - 1 {
                assert(init[i] == ts[i]);
                assert(ts[i].name@ != ts[ts.len() - 1].name@);
                assert(tables_map(init)[init[i].name@] == init[i]);
            }
        }
    }
}

/// The registry of table schemas known to the local store.
#[derive(Debug)]
pub struct Schema {
    tables: Vec<TableSchema>,
}

impl View for Schema {
    type V = Map<Seq<char>, TableSchema>;

    closed spec fn view(&self) -> Map<Seq<char>, TableSchema> {
        tables_map(self.tables@)
    }
}

impl Schema {
    #[verifier::type_invariant]
    closed spec fn inv(self) -> bool {
        names_distinct(self.tables@)
    }

    /// The table names, in registration order.
    pub closed spec fn names(self) -> Seq<Seq<char>> {
        self.tables@.map_values(|t: TableSchema| t.name@)
    }

    pub fn new() -> (r: Self)
        ensures
            r@ == Map::<Seq<char>, TableSchema>::empty(),
            r.names() == Seq::<Seq<char>>::empty(),
    {
        let r = Schema { tables: Vec::new() };
        assert(r.names() =~= Seq::<Seq<char>>::empty());
        r
    }

    fn position(&self, name: &str) -> (r: Option<usize>)
        ensures
            r matches Some(i) ==> i < self.tables@.len() && self.tables@[i as int].name@ == name@,
            r is None ==> forall|j: int|
                0 <= j < self.tables@.len() ==> #[trigger] self.tables@[j].name@ != name@,
    {
        let mut i: usize = 0;
        while i < self.tables.len()
            invariant
                0 <= i <= self.tables@.len(),
                forall|j: int| 0 <= j < i ==> #[trigger] self.tables@[j].name@ != name@,
            decreases self.tables.len() - i,
        {
            if str_eq(self.tables[i].name.as_str(), name) {
                return Some(i);
            }
            i = i + 1;
        }
        None
    }

    /// Registers a table; a second table of the same name is refused.
    pub fn add_table(&mut self, table: TableSchema) -> (r: DbResult<()>)
        ensures
            r is Ok <==> !old(self)@.contains_key(table.name@),
            r is Ok ==> final(self)@ == old(self)@.insert(table.name@, table)
                && final(self).names() == old(self).names().push(table.name@),
            r matches Err(e) ==> final(self)@ == old(self)@ && final(self).names() == old(
                self,
            ).names() && e == DbError::Schema(
                e->Schema_0,
            ) && e->Schema_0@ == "Table '"@ + table.name@ + "' already exists"@,
    {
        proof {
            use_type_invariant(&*self);
            lemma_tables_map(self.tables@);
        }
        if let Some(_) = self.position(table.name.as_str()) {
            let mut msg: Vec<char> = Vec::new();
            push_str(&mut msg, "Table '");
            push_str(&mut msg, table.name.as_str());
            push_str(&mut msg, "' already exists");
            return Err(DbError::Schema(string_from_chars(msg.as_slice())));
        }
        let ghost old_tables = self.tables@;
        let ghost n = table.name@;
        let mut ts: Vec<TableSchema> = Vec::new();
        std::mem::swap(&mut ts, &mut self.tables);
        ts.push(table);
        proof {
            let ts = ts@;
            assert(ts.drop_last() =~= old_tables);
            assert forall|i: int, j: int|
                0 <= i < ts.len() && 0 <= j < ts.len() && i != j implies #[trigger] ts[i].name@
                != #[trigger] ts[j].name@ by {
                if i < ts.len() - 1 && j < ts.len() - 1 {
                    assert(ts[i] == old_tables[i] && ts[j] == old_tables[j]);
                } else if i < ts.len() - 1 {
                    assert(ts[i] == old_tables[i]);
                } else if j < ts.len() - 1 {
                    assert(ts[j] == old_tables[j]);
                }
            }
        }
        self.tables = ts;
        assert(self.names() =~= old_tables.map_values(|t: TableSchema| t.name@).push(n));
        Ok(())
    }

    /// The table registered under `name`, if any.
    pub fn get_table(&self, name: &str) -> (r: Option<&TableSchema>)
        ensures
            r is Some <==> self@.contains_key(name@),
            r matches Some(t) ==> *t == self@[name@],
    {
        proof {
            use_type_invariant(self);
            lemma_tables_map(self.tables@);
        }
        match self.position(name) {
            Some(i) => Some(&self.tables[i]),
            None => None,
        }
    }

    pub fn table_exists(&self, name: &str) -> (r: bool)
        ensures
            r == self@.contains_key(name@),
    {
        proof {
            use_type_invariant(self);
            lemma_tables_map(self.tables@);
        }
        self.position(name).is_some()
    }

    /// The names of all registered tables, in registration order.
    pub fn list_tables(&self) -> (r: Vec<String>)
        ensures
            r@.map_values(|s: String| s@) == self.names(),
            forall|n: Seq<char>| self@.contains_key(n) <==> r@.map_values(|s: String| s@).contains(n),
    {
        proof {
            use_type_invariant(self);
            lemma_tables_map(self.tables@);
        }
        let mut r: Vec<String> = Vec::new();
        let mut i: usize = 0;
        while i < self.tables.len()
            invariant
                0 <= i <= self.tables@.len(),
                r@.len() == i,
                forall|k: int| 0 <= k < i ==> #[trigger] r@[k]@ == self.tables@[k].name@,
            decreases self.tables.len() - i,
        {
            let s = self.tables[i].name.clone();
            r.push(s);
            i = i + 1;
        }
        assert(r@.map_values(|s: String| s@) =~= self.names());
        proof {
            let names = r@.map_values(|s: String| s@);
            assert forall|n: Seq<char>| self@.contains_key(n) <==> names.contains(n) by {
                if self@.contains_key(n) {
                    let i = choose|i: int| 0 <= i < self.tables@.len() && self.tables@[i].name@ == n;
                    assert(names[i] == n);
                }
                if names.contains(n) {
                    let i = choose|i: int| 0 <= i < names.len() && names[i] == n;
                    assert(self.tables@[i].name@ == n);
                }
            }
        }
        r
    }
}

/// Collects the user columns of a new table. Every table also gets an `id`
/// primary key first and three bookkeeping columns last.
pub struct TableBuilder {
    pub name: String,
    pub columns: Vec<Column>,
}

/// `c` is a column with the given name and type whose only constraint is a
/// default value `v`.
pub open spec fn is_default_column(c: Column, name: Seq<char>, t: DataType, v: Seq<char>) -> bool {
    &&& c.name@ == name
    &&& c.data_type == t
    &&& c.constraints@.len() == 1
    &&& c.constraints@[0] matches ColumnConstraint::Default(d) && d@ == v
}

/// The columns of a table built from the user columns `user`: `id INTEGER
/// PRIMARY KEY AUTOINCREMENT`, the user columns in order, then `_created_at`
/// and `_updated_at` (timestamps defaulting to `CURRENT_TIMESTAMP`) and
/// `_synced` (boolean defaulting to `0`).
pub open spec fn is_built_columns(cols: Seq<Column>, user: Seq<Column>) -> bool {
    let n = user.len() as int;
    &&& cols.len() == n + 4
    &&& cols[0].name@ == "id"@
    &&& cols[0].data_type == DataType::Integer
    &&& cols[0].constraints@ == seq![ColumnConstraint::PrimaryKey, ColumnConstraint::AutoIncrement]
    &&& cols.subrange(1, n + 1) == user
    &&& is_default_column(cols[n + 1], "_created_at"@, DataType::Timestamp, "CURRENT_TIMESTAMP"@)
    &&& is_default_column(cols[n + 2], "_updated_at"@, DataType::Timestamp, "CURRENT_TIMESTAMP"@)
    &&& is_default_column(cols[n + 3], "_synced"@, DataType::Boolean, "0"@)
}

fn default_column(name: &str, t: DataType, v: &str) -> (c: Column)
    ensures
        is_default_column(c, name@, t, v@),
{
    let mut cs: Vec<ColumnConstraint> = Vec::new();
    cs.push(ColumnConstraint::Default(String::from_str(v)));
    Column::new(String::from_str(name), t, cs)
}

impl TableBuilder {
    pub fn new(name: &str) -> (r: Self)
        ensures
            r.name@ == name@,
            r.columns@ == Seq::<Column>::empty(),
    {
        TableBuilder { name: String::from_str(name), columns: Vec::new() }
    }

    /// Adds a user column.
    pub fn column(self, name: &str, data_type: DataType, constraints: Vec<ColumnConstraint>) -> (r:
        Self)
        ensures
            r.name == self.name,
            r.columns@.len() == self.columns@.len() + 1,
            r.columns@.drop_last() == self.columns@,
            r.columns@.last().name@ == name@,
            r.columns@.last().data_type == data_type,
            r.columns@.last().constraints == constraints,
    {
        let mut b = self;
        let ghost before = b.columns@;
        b.columns.push(Column::new(String::from_str(name), data_type, constraints));
        assert(b.columns@.drop_last() =~= before);
        b
    }

    /// The schema of the table: the user columns framed by `id` and the
    /// bookkeeping columns.
    pub fn build(self) -> (r: TableSchema)
        ensures
            r.name == self.name,
            is_built_columns(r.columns@, self.columns@),
    {
        let ghost user = self.columns@;
        let mut schema = TableSchema::new(self.name);
        let mut id_cs: Vec<ColumnConstraint> = Vec::new();
        id_cs.push(ColumnConstraint::PrimaryKey);
        id_cs.push(ColumnConstraint::AutoIncrement);
        schema.add_column(Column::new(String::from_str("id"), DataType::Integer, id_cs));
        let mut user_cols = self.columns;
        let mut cols = schema.columns;
        cols.append(&mut user_cols);
        schema.columns = cols;
        schema.add_column(default_column("_created_at", DataType::Timestamp, "CURRENT_TIMESTAMP"));
        schema.add_column(default_column("_updated_at", DataType::Timestamp, "CURRENT_TIMESTAMP"));
        schema.add_column(default_column("_synced", DataType::Boolean, "0"));
        proof {
            let cs = schema.columns@;
            let n = user.len() as int;
            assert(cs.len() == n + 4);
            assert(cs.subrange(1, n + 1) =~= user);
            assert(cs[0].constraints@ =~= seq![ColumnConstraint::PrimaryKey, ColumnConstraint::AutoIncrement]);
            assert(is_default_column(cs[n + 1], "_created_at"@, DataType::Timestamp, "CURRENT_TIMESTAMP"@));
            assert(is_default_column(cs[n + 3], "_synced"@, DataType::Boolean, "0"@));
        }
        schema
    }
}

} // verus!
