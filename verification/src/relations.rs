//! What statements mean to the database engine: how the texts of statements are built, what a
//! change does to the rows of the tables, and which rows a query returns.
//!
//! Only the part of the language is covered that the statements of this library use. A table numbers
//! its rows from 1 on and uses no number twice; the number of a row is its column `id`, or `rowid`.

use vstd::prelude::*;
use crate::codec::json_chunks;
use crate::sql::ParamView;
use crate::text::{byte_len, decimal, is_digit};

verus! {

/// A value in a row of a table.
pub enum Cell {
    Null,
    Integer(int),
    Text(Seq<char>),
    Blob(Seq<u8>),
    /// The vector that a JSON text denotes.
    Vector(Seq<char>),
    /// The cosine distance of two vectors.
    Distance(Seq<char>, Seq<char>),
}

/// The value that a parameter is bound to.
pub open spec fn param_cell(p: ParamView) -> Cell {
    match p {
        ParamView::Integer(n) => Cell::Integer(n as int),
        ParamView::Text(s) => Cell::Text(s),
        ParamView::Blob(b) => Cell::Blob(b),
    }
}

/// The values of the columns of a row.
pub type Columns = Map<Seq<char>, Cell>;

/// An expression.
pub enum Term {
    /// A column of the row that is looked at.
    Column(Seq<char>),
    /// A column of the row that goes by a name.
    Of(Seq<char>, Seq<char>),
    /// What a parameter is bound to.
    Param(nat),
    /// A text.
    Text(Seq<char>),
    /// A number.
    Number(nat),
    /// No value.
    Null,
    /// The time.
    Now,
    /// The vector that a JSON text denotes.
    Vector(Box<Term>),
    /// The cosine distance of two vectors.
    Distance(Box<Term>, Box<Term>),
    /// A value, or another where there is none.
    Coalesce(Box<Term>, Box<Term>),
    /// The number of bytes of a blob.
    Length(Box<Term>),
    /// The number of bytes of a text.
    TextLength(Box<Term>),
    /// The number of elements of a JSON array.
    ArrayLength(Box<Term>),
    /// A value, by a name of its own.
    Named(Box<Term>, Seq<char>),
}

impl Term {
    /// How the expression is written.
    pub open spec fn text(self) -> Seq<char>
        decreases self,
    {
        match self {
            Term::Column(c) => c,
            Term::Of(name, c) => name + "."@ + c,
            Term::Param(k) => "?"@ + decimal(k),
            Term::Text(s) => "'"@ + s + "'"@,
            Term::Number(n) => decimal(n),
            Term::Null => "NULL"@,
            Term::Now => "unixepoch()"@,
            Term::Vector(a) => "vector("@ + a.text() + ")"@,
            Term::Distance(a, b) => "vector_distance_cos("@ + a.text() + ", "@ + b.text() + ")"@,
            Term::Coalesce(a, b) => "COALESCE("@ + a.text() + ", "@ + b.text() + ")"@,
            Term::Length(a) => "LENGTH("@ + a.text() + ")"@,
            Term::TextLength(a) => "LENGTH(CAST("@ + a.text() + " AS BLOB))"@,
            Term::ArrayLength(a) => "json_array_length("@ + a.text() + ")"@,
            Term::Named(a, name) => a.text() + " AS "@ + name,
        }
    }
}

/// A condition.
pub enum Condition {
    /// Two values are the same.
    Same(Term, Term),
    /// A text has a shape: `*` stands for any characters, `[0-9]` for a digit.
    Shaped(Term, Seq<char>),
    /// Both conditions hold.
    Both(Box<Condition>, Box<Condition>),
    /// There is no row in a table, by the name behind it, for which two values are the same.
    NoRow(Seq<char>, Seq<char>, Term, Term),
}

impl Condition {
    /// How the condition is written.
    pub open spec fn text(self) -> Seq<char>
        decreases self,
    {
        match self {
            Condition::Same(a, b) => a.text() + " = "@ + b.text(),
            Condition::Shaped(a, shape) => a.text() + " GLOB '"@ + shape + "'"@,
            Condition::Both(a, b) => a.text() + " AND "@ + b.text(),
            Condition::NoRow(table, name, a, b) => "NOT EXISTS (SELECT 1 FROM "@ + table + " "@
                + name + " WHERE "@ + a.text() + " = "@ + b.text() + ")"@,
        }
    }
}

/// Texts with commas between them, the first `n` of a list.
pub open spec fn list(parts: Seq<Seq<char>>, n: int) -> Seq<char>
    decreases n,
{
    if n <= 0 {
        Seq::empty()
    } else if n == 1 {
        parts[0]
    } else {
        list(parts, n - 1) + ", "@ + parts[n - 1]
    }
}

/// How expressions are written.
pub open spec fn term_texts(terms: Seq<Term>) -> Seq<Seq<char>> {
    terms.map_values(|t: Term| t.text())
}

/// How assignments are written.
pub open spec fn set_texts(sets: Seq<(Seq<char>, Term)>) -> Seq<Seq<char>> {
    sets.map_values(|s: (Seq<char>, Term)| s.0 + " = "@ + s.1.text())
}

/// A column as a table declares it: its name, its type, whether it must have a value, and what it
/// holds in a row for which nothing else is said.
pub struct Column {
    pub name: Seq<char>,
    pub kind: Seq<char>,
    pub required: bool,
    pub default: Option<Term>,
}

impl Column {
    /// How the column is declared.
    pub open spec fn text(self) -> Seq<char> {
        self.name + " "@ + self.kind + (if self.required {
            " NOT NULL"@
        } else {
            Seq::empty()
        }) + match self.default {
            None => Seq::empty(),
            Some(Term::Now) => " DEFAULT (unixepoch())"@,
            Some(t) => " DEFAULT "@ + t.text(),
        }
    }
}

/// How columns are declared.
pub open spec fn column_texts(columns: Seq<Column>) -> Seq<Seq<char>> {
    columns.map_values(|c: Column| c.text())
}

/// How a table of numbered rows is declared, given the columns behind the number.
pub open spec fn table_text(name: Seq<char>, columns: Seq<Column>) -> Seq<char> {
    "CREATE TABLE IF NOT EXISTS "@ + name + " (id INTEGER PRIMARY KEY AUTOINCREMENT, "@ + list(
        column_texts(columns),
        columns.len() as int,
    ) + ")"@
}

/// A table: its columns, its rows by their numbers, and the number that the next row gets.
pub struct Table {
    pub columns: Seq<Column>,
    pub rows: Map<i64, Columns>,
    pub next: int,
}

/// The tables of a database by their names.
pub type Database = Map<Seq<char>, Table>;

/// A row that is looked at, and the name by which it goes.
pub struct Scope {
    pub name: Seq<char>,
    pub id: i64,
    pub row: Columns,
}

/// What a column of a row holds.
pub open spec fn cell(scope: Scope, column: Seq<char>) -> Cell {
    if column == "id"@ || column == "rowid"@ {
        Cell::Integer(scope.id as int)
    } else {
        scope.row[column]
    }
}

/// The innermost row that goes by a name.
pub open spec fn named(scopes: Seq<Scope>, name: Seq<char>) -> Scope
    decreases scopes.len(),
{
    if scopes.len() == 0 || scopes.last().name == name {
        scopes.last()
    } else {
        named(scopes.drop_last(), name)
    }
}

/// The value of an expression, for the rows that are looked at, what the parameters are bound to
/// and the time.
pub open spec fn value(t: Term, scopes: Seq<Scope>, params: Seq<ParamView>, now: int) -> Cell
    decreases t,
{
    match t {
        Term::Column(c) => cell(scopes.last(), c),
        Term::Of(name, c) => cell(named(scopes, name), c),
        Term::Param(k) => param_cell(params[k - 1]),
        Term::Text(s) => Cell::Text(s),
        Term::Number(n) => Cell::Integer(n as int),
        Term::Null => Cell::Null,
        Term::Now => Cell::Integer(now),
        Term::Vector(a) => match value(*a, scopes, params, now) {
            Cell::Text(s) => Cell::Vector(s),
            _ => Cell::Null,
        },
        Term::Distance(a, b) => match (
            value(*a, scopes, params, now),
            value(*b, scopes, params, now),
        ) {
            (Cell::Vector(x), Cell::Vector(y)) => Cell::Distance(x, y),
            _ => Cell::Null,
        },
        Term::Coalesce(a, b) => match value(*a, scopes, params, now) {
            Cell::Null => value(*b, scopes, params, now),
            x => x,
        },
        Term::Length(a) => match value(*a, scopes, params, now) {
            Cell::Blob(b) => Cell::Integer(b.len() as int),
            _ => Cell::Null,
        },
        Term::TextLength(a) => match value(*a, scopes, params, now) {
            Cell::Text(s) => Cell::Integer(byte_len(s) as int),
            _ => Cell::Null,
        },
        Term::ArrayLength(a) => match value(*a, scopes, params, now) {
            Cell::Text(s) => match json_chunks(s) {
                Some(chunks) => Cell::Integer(chunks.len() as int),
                None => Cell::Null,
            },
            _ => Cell::Null,
        },
        Term::Named(a, _) => value(*a, scopes, params, now),
    }
}

/// Whether a text has a shape.
pub open spec fn has_shape(s: Seq<char>, shape: Seq<char>) -> bool
    decreases shape.len(), s.len(),
{
    if shape.len() == 0 {
        s.len() == 0
    } else if shape[0] == '*' {
        has_shape(s, shape.skip(1)) || (s.len() > 0 && has_shape(s.skip(1), shape))
    } else if shape.len() >= 5 && shape.take(5) == "[0-9]"@ {
        s.len() > 0 && is_digit(s[0]) && has_shape(s.skip(1), shape.skip(5))
    } else {
        s.len() > 0 && s[0] == shape[0] && has_shape(s.skip(1), shape.skip(1))
    }
}

/// Whether two expressions have the same value. What has no value is the same as nothing.
pub open spec fn are_same(
    a: Term,
    b: Term,
    scopes: Seq<Scope>,
    params: Seq<ParamView>,
    now: int,
) -> bool {
    let x = value(a, scopes, params, now);
    x != Cell::Null && x == value(b, scopes, params, now)
}

/// Whether a table has no row for which two expressions have the same value.
pub open spec fn no_such_row(
    table: Table,
    name: Seq<char>,
    a: Term,
    b: Term,
    scopes: Seq<Scope>,
    params: Seq<ParamView>,
    now: int,
) -> bool {
    forall|id: i64| #[trigger]
        table.rows.dom().contains(id) ==> !are_same(
            a,
            b,
            scopes.push(Scope { name, id, row: table.rows[id] }),
            params,
            now,
        )
}

/// Whether a condition holds.
pub open spec fn holds(
    c: Condition,
    db: Database,
    scopes: Seq<Scope>,
    params: Seq<ParamView>,
    now: int,
) -> bool
    decreases c,
{
    match c {
        Condition::Same(a, b) => are_same(a, b, scopes, params, now),
        Condition::Shaped(a, shape) => match value(a, scopes, params, now) {
            Cell::Text(s) => has_shape(s, shape),
            _ => false,
        },
        Condition::Both(a, b) => holds(*a, db, scopes, params, now) && holds(
            *b,
            db,
            scopes,
            params,
            now,
        ),
        Condition::NoRow(table, name, a, b) => no_such_row(
            db[table],
            name,
            a,
            b,
            scopes,
            params,
            now,
        ),
    }
}

/// A change of a database.
pub enum Change {
    /// Adds a row to a table, with these values in these columns.
    Insert(Seq<char>, Seq<Seq<char>>, Seq<Term>),
    /// Assigns values to columns of the rows of a table for which the condition holds.
    Update(Seq<char>, Seq<(Seq<char>, Term)>, Condition),
    /// Takes the rows from a table for which the condition holds.
    Delete(Seq<char>, Condition),
}

impl Change {
    /// How the change is written.
    pub open spec fn text(self) -> Seq<char> {
        match self {
            Change::Insert(table, columns, values) => "INSERT INTO "@ + table + " ("@ + list(
                columns,
                columns.len() as int,
            ) + ") VALUES ("@ + list(term_texts(values), values.len() as int) + ")"@,
            Change::Update(table, sets, c) => "UPDATE "@ + table + " SET "@ + list(
                set_texts(sets),
                sets.len() as int,
            ) + " WHERE "@ + c.text(),
            Change::Delete(table, c) => "DELETE FROM "@ + table + " WHERE "@ + c.text(),
        }
    }
}

/// What the first `n` columns of a new row hold where nothing is said of them.
pub open spec fn defaults(columns: Seq<Column>, n: int, now: int) -> Columns
    decreases n,
{
    if n <= 0 {
        Map::empty()
    } else {
        defaults(columns, n - 1, now).insert(
            columns[n - 1].name,
            match columns[n - 1].default {
                Some(t) => value(t, Seq::empty(), Seq::empty(), now),
                None => Cell::Null,
            },
        )
    }
}

/// A row once the first `n` of a list of values are in their columns.
pub open spec fn filled(
    row: Columns,
    columns: Seq<Seq<char>>,
    values: Seq<Term>,
    n: int,
    params: Seq<ParamView>,
    now: int,
) -> Columns
    decreases n,
{
    if n <= 0 {
        row
    } else {
        filled(row, columns, values, n - 1, params, now).insert(
            columns[n - 1],
            value(values[n - 1], Seq::empty(), params, now),
        )
    }
}

/// A row once the first `n` of a list of assignments are made.
pub open spec fn assigned(
    scope: Scope,
    sets: Seq<(Seq<char>, Term)>,
    n: int,
    params: Seq<ParamView>,
    now: int,
) -> Columns
    decreases n,
{
    if n <= 0 {
        scope.row
    } else {
        assigned(scope, sets, n - 1, params, now).insert(
            sets[n - 1].0,
            value(sets[n - 1].1, seq![scope], params, now),
        )
    }
}

/// Whether a condition holds for a row of a table.
pub open spec fn chosen(
    db: Database,
    table: Seq<char>,
    c: Condition,
    id: i64,
    params: Seq<ParamView>,
    now: int,
) -> bool {
    holds(c, db, seq![Scope { name: table, id, row: db[table].rows[id] }], params, now)
}

/// The row that an insertion adds.
pub open spec fn new_row(
    table: Table,
    columns: Seq<Seq<char>>,
    values: Seq<Term>,
    params: Seq<ParamView>,
    now: int,
) -> Columns {
    filled(
        defaults(table.columns, table.columns.len() as int, now),
        columns,
        values,
        columns.len() as int,
        params,
        now,
    )
}

/// A table after a change of it.
pub open spec fn changed_table(
    db: Database,
    change: Change,
    params: Seq<ParamView>,
    now: int,
) -> Table {
    match change {
        Change::Insert(table, columns, values) => Table {
            rows: db[table].rows.insert(
                db[table].next as i64,
                new_row(db[table], columns, values, params, now),
            ),
            next: db[table].next + 1,
            ..db[table]
        },
        Change::Update(table, sets, c) => Table {
            rows: db[table].rows.map_entries(
                |id: i64, row: Columns|
                    if chosen(db, table, c, id, params, now) {
                        assigned(
                            Scope { name: table, id, row },
                            sets,
                            sets.len() as int,
                            params,
                            now,
                        )
                    } else {
                        row
                    },
            ),
            ..db[table]
        },
        Change::Delete(table, c) => Table {
            rows: db[table].rows.remove_keys(
                Set::new(|id: i64| chosen(db, table, c, id, params, now)),
            ),
            ..db[table]
        },
    }
}

/// The table that a change is about.
pub open spec fn table_of(change: Change) -> Seq<char> {
    match change {
        Change::Insert(table, _, _) => table,
        Change::Update(table, _, _) => table,
        Change::Delete(table, _) => table,
    }
}

/// A database after a change.
pub open spec fn changed(
    db: Database,
    change: Change,
    params: Seq<ParamView>,
    now: int,
) -> Database {
    db.insert(table_of(change), changed_table(db, change, params, now))
}

/// A key by which rows are sorted: a column, and whether the highest comes first.
pub struct SortKey {
    pub column: Seq<char>,
    pub descending: bool,
}

/// How sort keys are written.
pub open spec fn key_texts(keys: Seq<SortKey>) -> Seq<Seq<char>> {
    keys.map_values(
        |k: SortKey|
            k.column + if k.descending {
                " DESC"@
            } else {
                Seq::empty()
            },
    )
}

/// A query.
pub enum Query {
    /// Expressions for the rows of a table for which the condition holds, sorted and limited.
    Rows {
        values: Seq<Term>,
        table: Seq<char>,
        condition: Option<Condition>,
        order: Seq<SortKey>,
        limit: Option<Term>,
    },
    /// How many rows of a table there are, by another name of it, for which the condition holds.
    Count { table: Seq<char>, name: Option<Seq<char>>, condition: Option<Condition> },
    /// How many rows of a table have each value of a column.
    CountBy { table: Seq<char>, column: Seq<char> },
}

/// How a condition is written behind a table.
pub open spec fn where_text(condition: Option<Condition>) -> Seq<char> {
    match condition {
        None => Seq::empty(),
        Some(c) => " WHERE "@ + c.text(),
    }
}

impl Query {
    /// How the query is written.
    pub open spec fn text(self) -> Seq<char> {
        match self {
            Query::Rows { values, table, condition, order, limit } => "SELECT "@ + list(
                term_texts(values),
                values.len() as int,
            ) + " FROM "@ + table + where_text(condition) + (if order.len() > 0 {
                " ORDER BY "@ + list(key_texts(order), order.len() as int)
            } else {
                Seq::empty()
            }) + match limit {
                None => Seq::empty(),
                Some(t) => " LIMIT "@ + t.text(),
            },
            Query::Count { table, name, condition } => "SELECT COUNT(*) FROM "@ + table + (
            match name {
                None => Seq::empty(),
                Some(n) => " "@ + n,
            }) + where_text(condition),
            Query::CountBy { table, column } => "SELECT "@ + column + ", COUNT(*) FROM "@ + table
                + " GROUP BY "@ + column,
        }
    }
}

/// Whether a row of a table is one that a condition asks for.
pub open spec fn wanted(
    db: Database,
    table: Seq<char>,
    name: Seq<char>,
    condition: Option<Condition>,
    id: i64,
    params: Seq<ParamView>,
) -> bool {
    &&& db[table].rows.dom().contains(id)
    &&& condition matches Some(c) ==> holds(
        c,
        db,
        seq![Scope { name, id, row: db[table].rows[id] }],
        params,
        0,
    )
}

/// The number in a column of a row.
pub open spec fn number(db: Database, table: Seq<char>, id: i64, column: Seq<char>) -> int {
    match cell(Scope { name: table, id, row: db[table].rows[id] }, column) {
        Cell::Integer(n) => n,
        _ => 0,
    }
}

/// Whether a row comes before another by the sort keys from the `k`-th on.
pub open spec fn sorted_before(
    db: Database,
    table: Seq<char>,
    order: Seq<SortKey>,
    k: int,
    a: i64,
    b: i64,
) -> bool
    decreases order.len() - k,
{
    if k < 0 || k >= order.len() {
        false
    } else {
        let x = number(db, table, a, order[k].column);
        let y = number(db, table, b, order[k].column);
        if x == y {
            sorted_before(db, table, order, k + 1, a, b)
        } else {
            (x < y) != order[k].descending
        }
    }
}

/// Whether these are the numbers of the rows that a query returns, in their order: rows that are
/// wanted, each once and sorted. A wanted row is left out only where the limit is reached and it
/// comes behind all others.
pub open spec fn is_selection(
    db: Database,
    table: Seq<char>,
    condition: Option<Condition>,
    order: Seq<SortKey>,
    limit: Option<int>,
    params: Seq<ParamView>,
    ids: Seq<i64>,
) -> bool {
    &&& forall|i: int|
        0 <= i < ids.len() ==> wanted(db, table, table, condition, #[trigger] ids[i], params)
    &&& forall|i: int, j: int|
        0 <= i < j < ids.len() ==> (#[trigger] ids[i]) != (#[trigger] ids[j]) && (order.len() > 0
            ==> sorted_before(db, table, order, 0, ids[i], ids[j]))
    &&& limit matches Some(n) ==> ids.len() <= n
    &&& forall|id: i64| #[trigger]
        wanted(db, table, table, condition, id, params) && !ids.contains(id) ==> {
            &&& limit matches Some(n) && ids.len() == n
            &&& forall|i: int|
                0 <= i < ids.len() && order.len() > 0 ==> sorted_before(
                    db,
                    table,
                    order,
                    0,
                    #[trigger] ids[i],
                    id,
                )
        }
}

/// The values that a query returns for a row.
pub open spec fn shown(
    db: Database,
    table: Seq<char>,
    values: Seq<Term>,
    id: i64,
    params: Seq<ParamView>,
) -> Seq<Cell> {
    values.map_values(
        |t: Term|
            value(t, seq![Scope { name: table, id, row: db[table].rows[id] }], params, 0),
    )
}

/// The limit of a query, where there is one. A negative number is none.
pub open spec fn row_limit(limit: Option<Term>, params: Seq<ParamView>) -> Option<int> {
    match limit {
        None => None,
        Some(t) => match value(t, Seq::empty(), params, 0) {
            Cell::Integer(n) => if n < 0 {
                None
            } else {
                Some(n)
            },
            _ => None,
        },
    }
}

/// The rows of a table that a condition asks for.
pub open spec fn all_wanted(
    db: Database,
    table: Seq<char>,
    name: Seq<char>,
    condition: Option<Condition>,
    params: Seq<ParamView>,
) -> Set<i64> {
    db[table].rows.dom().filter(|id: i64| wanted(db, table, name, condition, id, params))
}

/// The rows of a table that have a value in a column.
pub open spec fn all_with(
    table: Table,
    column: Seq<char>,
    x: Cell,
) -> Set<i64> {
    table.rows.dom().filter(|id: i64| table.rows[id][column] == x)
}

/// Whether these rows count the rows of a table by a column: one for each value that occurs there,
/// with the value and how many have it.
pub open spec fn are_counts(table: Table, column: Seq<char>, rows: Seq<Seq<Cell>>) -> bool {
    &&& forall|i: int|
        0 <= i < rows.len() ==> {
            &&& (#[trigger] rows[i]).len() == 2
            &&& all_with(table, column, rows[i][0]).len() > 0
            &&& rows[i][1] == Cell::Integer(all_with(table, column, rows[i][0]).len() as int)
        }
    &&& forall|i: int, j: int|
        0 <= i < j < rows.len() ==> (#[trigger] rows[i])[0] != (#[trigger] rows[j])[0]
    &&& forall|id: i64| #[trigger]
        table.rows.dom().contains(id) ==> exists|i: int|
            0 <= i < rows.len() && (#[trigger] rows[i])[0] == table.rows[id][column]
}

/// Whether these are the rows that a query returns.
pub open spec fn answers(
    db: Database,
    query: Query,
    params: Seq<ParamView>,
    rows: Seq<Seq<Cell>>,
) -> bool {
    match query {
        Query::Rows { values, table, condition, order, limit } => exists|ids: Seq<i64>|
            {
                &&& #[trigger] is_selection(
                    db,
                    table,
                    condition,
                    order,
                    row_limit(limit, params),
                    params,
                    ids,
                )
                &&& rows.len() == ids.len()
                &&& forall|i: int|
                    0 <= i < ids.len() ==> (#[trigger] rows[i]) == shown(
                        db,
                        table,
                        values,
                        ids[i],
                        params,
                    )
            },
        Query::Count { table, name, condition } => {
            let by = match name {
                None => table,
                Some(n) => n,
            };
            rows == seq![
                seq![Cell::Integer(all_wanted(db, table, by, condition, params).len() as int)],
            ]
        },
        Query::CountBy { table, column } => are_counts(db[table], column, rows),
    }
}

/// Whether a text is a name: letters, digits and underscores.
pub open spec fn is_name(s: Seq<char>) -> bool {
    &&& s.len() > 0
    &&& forall|i: int|
        0 <= i < s.len() ==> {
            let c = #[trigger] s[i];
            ('a' <= c && c <= 'z') || ('0' <= c && c <= '9') || c == '_'
        }
}

impl Term {
    /// Whether the names in an expression are names, and its texts hold no quote.
    pub open spec fn wf(self) -> bool
        decreases self,
    {
        match self {
            Term::Column(c) => is_name(c),
            Term::Of(name, c) => is_name(name) && is_name(c),
            Term::Text(s) => !s.contains('\''),
            Term::Vector(a) => a.wf(),
            Term::Distance(a, b) => a.wf() && b.wf(),
            Term::Coalesce(a, b) => a.wf() && b.wf(),
            Term::Length(a) => a.wf(),
            Term::TextLength(a) => a.wf(),
            Term::ArrayLength(a) => a.wf(),
            Term::Named(a, name) => a.wf() && is_name(name),
            _ => true,
        }
    }
}

impl Condition {
    /// Whether the names in a condition are names, and its texts hold no quote.
    pub open spec fn wf(self) -> bool
        decreases self,
    {
        match self {
            Condition::Same(a, b) => a.wf() && b.wf(),
            Condition::Shaped(a, shape) => a.wf() && !shape.contains('\''),
            Condition::Both(a, b) => a.wf() && b.wf(),
            Condition::NoRow(table, name, a, b) => {
                &&& is_name(table)
                &&& is_name(name)
                &&& a.wf()
                &&& b.wf()
            },
        }
    }
}

/// Whether all of some texts are names.
pub open spec fn are_names(s: Seq<Seq<char>>) -> bool {
    forall|i: int| 0 <= i < s.len() ==> is_name(#[trigger] s[i])
}

/// Whether all of some expressions are well-formed.
pub open spec fn are_terms(s: Seq<Term>) -> bool {
    forall|i: int| 0 <= i < s.len() ==> (#[trigger] s[i]).wf()
}

impl Change {
    /// Whether the change is well-formed: its names are names, its texts hold no quote, and there
    /// is a value for each column.
    pub open spec fn wf(self) -> bool {
        match self {
            Change::Insert(table, columns, values) => {
                &&& is_name(table)
                &&& are_names(columns)
                &&& are_terms(values)
                &&& columns.len() == values.len()
            },
            Change::Update(table, sets, c) => {
                &&& is_name(table)
                &&& forall|i: int|
                    0 <= i < sets.len() ==> is_name((#[trigger] sets[i]).0) && sets[i].1.wf()
                &&& c.wf()
            },
            Change::Delete(table, c) => is_name(table) && c.wf(),
        }
    }
}

impl Query {
    /// Whether the query is well-formed: its names are names, and its texts hold no quote.
    pub open spec fn wf(self) -> bool {
        match self {
            Query::Rows { values, table, condition, order, limit } => {
                &&& are_terms(values)
                &&& is_name(table)
                &&& condition matches Some(c) ==> c.wf()
                &&& forall|i: int| 0 <= i < order.len() ==> is_name((#[trigger] order[i]).column)
                &&& limit matches Some(t) ==> t.wf()
            },
            Query::Count { table, name, condition } => {
                &&& is_name(table)
                &&& name matches Some(n) ==> is_name(n)
                &&& condition matches Some(c) ==> c.wf()
            },
            Query::CountBy { table, column } => is_name(table) && is_name(column),
        }
    }
}

/// Whether columns are well-formed: each has a name and a type of capital letters, and a default
/// without a quote.
pub open spec fn are_columns(columns: Seq<Column>) -> bool {
    forall|i: int|
        0 <= i < columns.len() ==> {
            &&& is_name((#[trigger] columns[i]).name)
            &&& columns[i].kind.len() > 0
            &&& forall|k: int|
                0 <= k < columns[i].kind.len() ==> 'A' <= #[trigger] columns[i].kind[k]
                    && columns[i].kind[k] <= 'Z'
            &&& columns[i].default matches Some(t) ==> t.wf()
        }
}

/// A search by similarity: expressions for the rows that an index finds, each joined with a row of a
/// table and that with a row of another. The rows go by the names `v`, `e` and `d`.
pub struct Search {
    pub values: Seq<Term>,
    pub index: Seq<char>,
    pub vector: Term,
    pub count: Term,
    pub first: Seq<char>,
    pub on_first: Condition,
    pub second: Seq<char>,
    pub on_second: Condition,
}

impl Search {
    /// How the search is written.
    pub open spec fn text(self) -> Seq<char> {
        "SELECT "@ + list(term_texts(self.values), self.values.len() as int)
            + " FROM vector_top_k('"@ + self.index + "', "@ + self.vector.text() + ", "@
            + self.count.text() + ") v JOIN "@ + self.first + " e ON "@ + self.on_first.text()
            + " JOIN "@ + self.second + " d ON "@ + self.on_second.text()
    }

    /// Whether the search is well-formed: its names are names, and its texts hold no quote.
    pub open spec fn wf(self) -> bool {
        &&& are_terms(self.values)
        &&& is_name(self.index)
        &&& self.vector.wf()
        &&& self.count.wf()
        &&& is_name(self.first)
        &&& self.on_first.wf()
        &&& is_name(self.second)
        &&& self.on_second.wf()
    }
}

/// The numbers that indexes find, the nearest first, given the name of the index, a vector and how
/// many are wanted.
pub type Nearest = spec_fn((Seq<char>, Cell, Cell)) -> Seq<i64>;

/// The rows that are looked at for a number that an index found.
pub open spec fn joined_rows(db: Database, s: Search, found: i64, e: i64, d: i64) -> Seq<Scope> {
    seq![
        Scope { name: "v"@, id: found, row: Map::empty() },
        Scope { name: "e"@, id: e, row: db[s.first].rows[e] },
        Scope { name: "d"@, id: d, row: db[s.second].rows[d] },
    ]
}

/// Whether two rows belong to a number that an index found.
pub open spec fn belong(
    db: Database,
    s: Search,
    params: Seq<ParamView>,
    found: i64,
    e: i64,
    d: i64,
) -> bool {
    &&& db[s.first].rows.dom().contains(e)
    &&& db[s.second].rows.dom().contains(d)
    &&& holds(s.on_first, db, joined_rows(db, s, found, e, d), params, 0)
    &&& holds(s.on_second, db, joined_rows(db, s, found, e, d), params, 0)
}

/// What an index finds for a search.
pub open spec fn found_by(s: Search, nearest: Nearest, params: Seq<ParamView>) -> Seq<i64> {
    nearest(
        (
            s.index,
            value(s.vector, Seq::empty(), params, 0),
            value(s.count, Seq::empty(), params, 0),
        ),
    )
}

/// Whether a row is what a search returns for a number that the index found.
pub open spec fn is_found_row(
    db: Database,
    s: Search,
    params: Seq<ParamView>,
    found: i64,
    row: Seq<Cell>,
) -> bool {
    exists|e: i64, d: i64| #[trigger]
        belong(db, s, params, found, e, d) && row == s.values.map_values(
            |t: Term| value(t, joined_rows(db, s, found, e, d), params, 0),
        )
}

/// Whether these are the rows that a search returns, where every number that the index finds has
/// rows that belong to it.
pub open spec fn search_answers(
    db: Database,
    s: Search,
    nearest: Nearest,
    params: Seq<ParamView>,
    rows: Seq<Seq<Cell>>,
) -> bool {
    &&& rows.len() == found_by(s, nearest, params).len()
    &&& forall|i: int|
        0 <= i < rows.len() ==> is_found_row(
            db,
            s,
            params,
            found_by(s, nearest, params)[i],
            #[trigger] rows[i],
        )
}

/// How a table is declared whose rows belong to those of another, by the number in a column: where a
/// row of the other is taken away, so are those that belong to it.
pub open spec fn linked_table_text(
    name: Seq<char>,
    columns: Seq<Column>,
    column: Seq<char>,
    other: Seq<char>,
) -> Seq<char> {
    "CREATE TABLE IF NOT EXISTS "@ + name + " (id INTEGER PRIMARY KEY AUTOINCREMENT, "@ + list(
        column_texts(columns),
        columns.len() as int,
    ) + ", FOREIGN KEY("@ + column + ") REFERENCES "@ + other + "(id) ON DELETE CASCADE)"@
}

/// How an index by similarity is declared.
pub open spec fn index_text(
    name: Seq<char>,
    table: Seq<char>,
    column: Seq<char>,
    metric: Seq<char>,
) -> Seq<char> {
    "CREATE INDEX IF NOT EXISTS "@ + name + " ON "@ + table + "(libsql_vector_idx("@ + column
        + ", 'metric="@ + metric + "'))"@
}

/// How a value is written under a key, in place of the one it has.
pub open spec fn upsert_text(table: Seq<char>, key: Seq<char>, item: Seq<char>) -> Seq<char> {
    "INSERT INTO "@ + table + " ("@ + key + ", "@ + item + ") VALUES (?1, ?2) ON CONFLICT("@ + key
        + ") DO UPDATE SET "@ + item + " = excluded."@ + item
}

/// Whether a row has a value under a key.
pub open spec fn has_key(table: Table, key: Seq<char>, x: Cell) -> bool {
    exists|id: i64| #[trigger] table.rows.dom().contains(id) && table.rows[id][key] == x
}

/// A table once a value is written under a key, in place of the one it has.
pub open spec fn upserted(
    table: Table,
    key: Seq<char>,
    item: Seq<char>,
    params: Seq<ParamView>,
) -> Table {
    let x = param_cell(params[0]);
    let y = param_cell(params[1]);
    if has_key(table, key, x) {
        Table {
            rows: table.rows.map_entries(
                |id: i64, row: Columns|
                    if row[key] == x {
                        row.insert(item, y)
                    } else {
                        row
                    },
            ),
            ..table
        }
    } else {
        Table {
            rows: table.rows.insert(
                table.next as i64,
                Map::<Seq<char>, Cell>::empty().insert(key, x).insert(item, y),
            ),
            next: table.next + 1,
            ..table
        }
    }
}

} // verus!
