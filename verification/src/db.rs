use vstd::prelude::*;
use vstd::string::StringExecFns;

use crate::text::{decimal, decimal_string};

verus! {

// ---------------------------------------------------------------------------
// The SQLite connection (rusqlite) and the calls made on it
// ---------------------------------------------------------------------------

#[verifier::external_type_specification]
#[verifier::external_body]
pub struct ExConnection(rusqlite::Connection);

#[verifier::external_type_specification]
#[verifier::external_body]
pub struct ExSqlError(rusqlite::Error);

#[verifier::external_type_specification]
#[verifier::external_body]
pub struct ExSqlValue(rusqlite::types::Value);

#[verifier::external_type_specification]
#[verifier::external_body]
pub struct ExStatement<'conn>(rusqlite::Statement<'conn>);

#[verifier::external_type_specification]
#[verifier::external_body]
pub struct ExRow<'stmt>(rusqlite::Row<'stmt>);

/// One value read from a result row, as SQLite stores it. A `REAL` value is recorded as such,
/// without its number (no column of this schema holds one).
pub enum SqlCell {
    Null,
    Integer(i64),
    Real,
    Text(String),
    Blob(Vec<u8>),
}

/// A value of a result row with the name of its column.
pub struct SqlField {
    pub name: String,
    pub cell: SqlCell,
}

/// A positional parameter of a statement.
pub enum SqlParam {
    Null,
    Integer(i64),
    Text(String),
}

pub enum ParamView {
    Null,
    Integer(i64),
    Text(Seq<char>),
}

impl View for SqlParam {
    type V = ParamView;

    open spec fn view(&self) -> ParamView {
        match self {
            SqlParam::Null => ParamView::Null,
            SqlParam::Integer(i) => ParamView::Integer(*i),
            SqlParam::Text(s) => ParamView::Text(s@),
        }
    }
}

/// The views of a list of parameters.
pub open spec fn param_views(ps: Seq<SqlParam>) -> Seq<ParamView> {
    ps.map_values(|p: SqlParam| p@)
}

/// `rusqlite::types::Value` of the same kind as a parameter.
#[verifier::external_body]
fn sql_value(p: SqlParam) -> rusqlite::types::Value {
    match p {
        SqlParam::Null => rusqlite::types::Value::Null,
        SqlParam::Integer(i) => rusqlite::types::Value::Integer(i),
        SqlParam::Text(s) => rusqlite::types::Value::Text(s),
    }
}

/// What came of a call on the database.
pub enum SqlOutcome {
    /// A statement was run; the message of its error, if it failed.
    Done(Result<(), Seq<char>>),
    /// A query was run: the rows read, or the message of its error.
    Rows(Result<Seq<Vec<SqlField>>, Seq<char>>),
    /// A statement was run whose error is handed on as it is: whether it succeeded.
    Ran(bool),
    /// A query was run whose error is handed on as it is: the rows read, if it succeeded.
    RowsRan(Option<Seq<Vec<SqlField>>>),
    /// A statement was prepared, and not run; the message of its error, if it failed.
    Prepared(Result<(), Seq<char>>),
}

/// One call on the database: the statement, its parameters, and what came of it.
pub struct SqlCall {
    pub sql: Seq<char>,
    pub params: Seq<ParamView>,
    pub outcome: SqlOutcome,
}

/// An open database, with the calls made on it through this library (a ghost record: the
/// statements and parameters handed to SQLite, in order, and what came back).
pub struct Db {
    conn: rusqlite::Connection,
    log: Ghost<Seq<SqlCall>>,
}

impl Db {
    /// The calls made so far, oldest first.
    pub closed spec fn calls(&self) -> Seq<SqlCall> {
        self.log@
    }

    /// Opens the library's access to a connection; no call has been made through it.
    pub fn new(conn: rusqlite::Connection) -> (db: Db)
        ensures
            db.calls() == Seq::<SqlCall>::empty(),
    {
        Db { conn, log: Ghost(Seq::empty()) }
    }

    /// The connection itself.
    pub fn connection(&self) -> &rusqlite::Connection {
        &self.conn
    }
}

/// A row that does not decode stops the decoding of any longer list of rows with its error.
pub proof fn lemma_decode_rows_stops<T>(rows: Seq<Vec<SqlField>>, k: int, dec: spec_fn(Seq<SqlField>) -> Result<T, Seq<char>>)
    requires
        0 <= k <= rows.len(),
        decode_rows(rows.take(k), dec) is Err,
    ensures
        decode_rows(rows, dec) == decode_rows(rows.take(k), dec),
    decreases rows.len() - k,
{
    if k < rows.len() {
        assert(rows.take(k + 1).drop_last() =~= rows.take(k));
        lemma_decode_rows_stops(rows, k + 1, dec);
    } else {
        assert(rows.take(k) =~= rows);
    }
}

/// The calls made since `before`, when `after` extends it.
pub open spec fn calls_since(before: Seq<SqlCall>, after: Seq<SqlCall>) -> Seq<SqlCall> {
    after.subrange(before.len() as int, after.len() as int)
}

/// Whether `after` is `before` followed by more calls.
pub open spec fn extends(before: Seq<SqlCall>, after: Seq<SqlCall>) -> bool {
    &&& before.len() <= after.len()
    &&& forall|i: int| 0 <= i < before.len() ==> after[i] == before[i]
}

/// Calls made in two stretches, one after the other, are those of the first followed by those
/// of the second.
pub proof fn lemma_calls_since_chain(a: Seq<SqlCall>, b: Seq<SqlCall>, c: Seq<SqlCall>)
    requires
        extends(a, b),
        extends(b, c),
    ensures
        extends(a, c),
        calls_since(a, c) == calls_since(a, b) + calls_since(b, c),
{
    assert(calls_since(a, c) =~= calls_since(a, b) + calls_since(b, c));
}

/// The call of a statement.
pub open spec fn done_call(sql: Seq<char>, params: Seq<ParamView>, r: Result<(), Seq<char>>) -> SqlCall {
    SqlCall { sql, params, outcome: SqlOutcome::Done(r) }
}

/// Whether `c` is the query `sql` with `params`.
pub open spec fn is_query(c: SqlCall, sql: Seq<char>, params: Seq<ParamView>) -> bool {
    c.sql == sql && c.params == params && c.outcome is Rows
}

/// Whether `c` is the statement `sql` with `params`.
pub open spec fn is_statement(c: SqlCall, sql: Seq<char>, params: Seq<ParamView>) -> bool {
    c.sql == sql && c.params == params && c.outcome is Done
}

/// The rows a query call read, or the message of its error.
pub open spec fn rows_of(c: SqlCall) -> Result<Seq<Vec<SqlField>>, Seq<char>> {
    match c.outcome {
        SqlOutcome::Rows(q) => q,
        _ => Err(Seq::empty()),
    }
}

/// What came of a statement call.
pub open spec fn result_of(c: SqlCall) -> Result<(), Seq<char>> {
    match c.outcome {
        SqlOutcome::Done(r) => r,
        _ => Ok(()),
    }
}

/// The view of a statement's result.
pub open spec fn unit_view(r: Result<(), String>) -> Result<(), Seq<char>> {
    match r {
        Ok(_) => Ok(()),
        Err(e) => Err(e@),
    }
}

/// The view of a query's result.
pub open spec fn rows_view(r: Result<Vec<Vec<SqlField>>, String>) -> Result<Seq<Vec<SqlField>>, Seq<char>> {
    match r {
        Ok(rows) => Ok(rows@),
        Err(e) => Err(e@),
    }
}

/// Decodes rows one after another with `dec`, stopping at the first row that does not decode.
pub open spec fn decode_rows<T>(rows: Seq<Vec<SqlField>>, dec: spec_fn(Seq<SqlField>) -> Result<T, Seq<char>>) -> Result<Seq<T>, Seq<char>>
    decreases rows.len(),
{
    if rows.len() == 0 {
        Ok(Seq::empty())
    } else {
        match decode_rows(rows.drop_last(), dec) {
            Err(e) => Err(e),
            Ok(done) => match dec(rows.last()@) {
                Ok(x) => Ok(done.push(x)),
                Err(e) => Err(e),
            },
        }
    }
}

/// The message of a rusqlite error (its `Display`). Nothing is claimed of the text.
#[verifier::external_body]
pub(crate) fn sql_error_text(e: &rusqlite::Error) -> String {
    e.to_string()
}

/// `rusqlite::Error::QueryReturnedNoRows`, what rusqlite reports when a single-row query finds none.
#[verifier::external_body]
pub(crate) fn no_rows_error() -> rusqlite::Error {
    rusqlite::Error::QueryReturnedNoRows
}

/// `rusqlite::Connection::execute` with positional parameters, each `SqlParam` turned into the
/// `rusqlite::types::Value` of the same kind. What it does to the database and what it returns
/// depend on the database's state: nothing is claimed.
#[verifier::external_body]
fn execute(conn: &rusqlite::Connection, sql: &str, params: Vec<SqlParam>) -> Result<usize, rusqlite::Error> {
    conn.execute(sql, rusqlite::params_from_iter(params.into_iter().map(sql_value)))
}

/// `rusqlite::Connection::execute_batch`. Nothing is claimed.
#[verifier::external_body]
fn execute_batch(conn: &rusqlite::Connection, sql: &str) -> Result<(), rusqlite::Error> {
    conn.execute_batch(sql)
}

/// `rusqlite::Connection::prepare`. Nothing is claimed.
#[verifier::external_body]
fn prepare<'c>(conn: &'c rusqlite::Connection, sql: &str) -> Result<
    rusqlite::Statement<'c>,
    rusqlite::Error,
> {
    conn.prepare(sql)
}

/// `rusqlite::Statement::column_names`, each name copied into a `String`. Nothing is claimed
/// of the names, which SQLite gives.
#[verifier::external_body]
fn column_names(stmt: &rusqlite::Statement) -> Vec<String> {
    stmt.column_names().into_iter().map(|n| n.to_string()).collect()
}

/// `rusqlite::Row::get_ref`, told apart by kind; a text value is read with
/// `rusqlite::Row::get::<String>`, which gives an error (not a panic) for text that is not
/// UTF-8. Nothing is claimed of the value, which comes from the database.
#[verifier::external_body]
fn row_cell(row: &rusqlite::Row, i: usize) -> Result<SqlCell, rusqlite::Error> {
    match row.get_ref(i) {
        Ok(rusqlite::types::ValueRef::Null) => Ok(SqlCell::Null),
        Ok(rusqlite::types::ValueRef::Integer(n)) => Ok(SqlCell::Integer(n)),
        Ok(rusqlite::types::ValueRef::Real(_)) => Ok(SqlCell::Real),
        Ok(rusqlite::types::ValueRef::Text(_)) => row.get::<usize, String>(i).map(SqlCell::Text),
        Ok(rusqlite::types::ValueRef::Blob(b)) => Ok(SqlCell::Blob(b.to_vec())),
        Err(e) => Err(e),
    }
}

/// The values of a result row, one for each of the named columns, each with its column's name.
pub(crate) fn read_row(row: &rusqlite::Row, names: &Vec<String>) -> (r: Result<Vec<SqlField>, rusqlite::Error>)
    ensures
        r matches Ok(fields) ==> fields@.len() == names@.len() && forall|i: int|
            0 <= i < names@.len() ==> (#[trigger] fields@[i]).name@ == names@[i]@,
{
    let mut fields: Vec<SqlField> = Vec::new();
    let mut i: usize = 0;
    while i < names.len()
        invariant
            i <= names@.len(),
            fields@.len() == i,
            forall|k: int| 0 <= k < i ==> (#[trigger] fields@[k]).name@ == names@[k]@,
        decreases names.len() - i,
    {
        let c = row_cell(row, i)?;
        fields.push(SqlField { name: names[i].clone(), cell: c });
        i += 1;
    }
    Ok(fields)
}

/// Whether `row` holds one value for each of the columns `names`, in order, each with its
/// column's name.
pub open spec fn row_has_columns(row: Seq<SqlField>, names: Seq<Seq<char>>) -> bool {
    &&& row.len() == names.len()
    &&& forall|j: int| 0 <= j < names.len() ==> (#[trigger] row[j]).name@ == names[j]
}

/// Whether every row of `rows` holds the columns `names`.
pub open spec fn rows_have_columns(rows: Seq<Vec<SqlField>>, names: Seq<Seq<char>>) -> bool {
    forall|i: int| 0 <= i < rows.len() ==> row_has_columns(#[trigger] rows[i]@, names)
}

/// `rusqlite::Statement::query_map` with positional parameters, each row read by `read_row`,
/// and all rows collected. The rows come from the database; claimed only what `read_row`
/// gives each of them: one value per name in `names`, with that name.
#[verifier::external_body]
fn query_rows(stmt: &mut rusqlite::Statement, params: Vec<SqlParam>, names: &Vec<String>) -> (r: Result<
    Vec<Vec<SqlField>>,
    rusqlite::Error,
>)
    ensures
        r matches Ok(rows) ==> rows_have_columns(rows@, names@.map_values(|n: String| n@)),
{
    stmt.query_map(rusqlite::params_from_iter(params.into_iter().map(sql_value)), |row| read_row(row, names))?.collect()
}

/// Runs a query and returns all its rows, each with one named value per column of the
/// statement (the same names in every row).
fn query(conn: &rusqlite::Connection, sql: &str, params: Vec<SqlParam>) -> (r:
    Result<Vec<Vec<SqlField>>, rusqlite::Error>)
    ensures
        r matches Ok(rows) ==> exists|names: Seq<Seq<char>>| #[trigger] rows_have_columns(rows@, names),
{
    let mut stmt = prepare(conn, sql)?;
    let names = column_names(&stmt);
    let rows = query_rows(&mut stmt, params, &names)?;
    assert(rows_have_columns(rows@, names@.map_values(|n: String| n@)));
    let r: Result<Vec<Vec<SqlField>>, rusqlite::Error> = Ok(rows);
    assert(r matches Ok(x) && x == rows);
    r
}

/// The message of `rusqlite::Error::QueryReturnedNoRows` (its `Display`, which writes
/// "Query returned no rows"). Claimed: that text.
#[verifier::external_body]
fn no_rows_text() -> (m: String)
    ensures
        m@ == "Query returned no rows"@,
{
    rusqlite::Error::QueryReturnedNoRows.to_string()
}

/// The rusqlite message for a single-row query that found no row.
pub(crate) fn no_rows_message() -> (m: String)
    ensures
        m@ == "Query returned no rows"@,
{
    no_rows_text()
}

// ---------------------------------------------------------------------------
// Reading typed columns
// ---------------------------------------------------------------------------

/// The name SQLite gives the kind of a value.
pub open spec fn cell_kind(c: SqlCell) -> Seq<char> {
    match c {
        SqlCell::Null => "Null"@,
        SqlCell::Integer(_) => "Integer"@,
        SqlCell::Real => "Real"@,
        SqlCell::Text(_) => "Text"@,
        SqlCell::Blob(_) => "Blob"@,
    }
}

/// The message for a column that does not hold the expected kind of value.
pub open spec fn column_type_error(f: SqlField, i: nat) -> Seq<char> {
    "Invalid column type "@ + cell_kind(f.cell) + " at index: "@ + decimal(i) + ", name: "@ + f.name@
}

fn kind_name(c: &SqlCell) -> (r: &'static str)
    ensures
        r@ == cell_kind(*c),
{
    match c {
        SqlCell::Null => "Null",
        SqlCell::Integer(_) => "Integer",
        SqlCell::Real => "Real",
        SqlCell::Text(_) => "Text",
        SqlCell::Blob(_) => "Blob",
    }
}

fn type_error(f: &SqlField, i: usize) -> (r: String)
    ensures
        r@ == column_type_error(*f, i as nat),
{
    let mut r = String::from_str("Invalid column type ");
    r.append(kind_name(&f.cell));
    r.append(" at index: ");
    r.append(decimal_string(i as u64).as_str());
    r.append(", name: ");
    r.append(f.name.as_str());
    r
}

/// The text in column `i` (a `TEXT` value).
pub open spec fn text_at(row: Seq<SqlField>, i: int) -> Result<Seq<char>, Seq<char>> {
    if 0 <= i < row.len() {
        match row[i].cell {
            SqlCell::Text(s) => Ok(s@),
            _ => Err(column_type_error(row[i], i as nat)),
        }
    } else {
        Err("Invalid column index: "@ + decimal(i as nat))
    }
}

/// The optional text in column `i` (`NULL` or a `TEXT` value).
pub open spec fn opt_text_at(row: Seq<SqlField>, i: int) -> Result<Option<Seq<char>>, Seq<char>> {
    if 0 <= i < row.len() {
        match row[i].cell {
            SqlCell::Null => Ok(None),
            SqlCell::Text(s) => Ok(Some(s@)),
            _ => Err(column_type_error(row[i], i as nat)),
        }
    } else {
        Err("Invalid column index: "@ + decimal(i as nat))
    }
}

/// The integer in column `i` (an `INTEGER` value).
pub open spec fn int_at(row: Seq<SqlField>, i: int) -> Result<i64, Seq<char>> {
    if 0 <= i < row.len() {
        match row[i].cell {
            SqlCell::Integer(n) => Ok(n),
            _ => Err(column_type_error(row[i], i as nat)),
        }
    } else {
        Err("Invalid column index: "@ + decimal(i as nat))
    }
}

fn index_error(i: usize) -> (r: String)
    ensures
        r@ == "Invalid column index: "@ + decimal(i as nat),
{
    let mut r = String::from_str("Invalid column index: ");
    r.append(decimal_string(i as u64).as_str());
    r
}

pub fn get_text(row: &Vec<SqlField>, i: usize) -> (r: Result<String, String>)
    ensures
        match (r, text_at(row@, i as int)) {
            (Ok(a), Ok(b)) => a@ == b,
            (Err(a), Err(b)) => a@ == b,
            _ => false,
        },
{
    if i >= row.len() {
        return Err(index_error(i));
    }
    match &row[i].cell {
        SqlCell::Text(s) => Ok(s.clone()),
        _ => Err(type_error(&row[i], i)),
    }
}

pub fn get_opt_text(row: &Vec<SqlField>, i: usize) -> (r: Result<Option<String>, String>)
    ensures
        match (r, opt_text_at(row@, i as int)) {
            (Ok(Some(a)), Ok(Some(b))) => a@ == b,
            (Ok(None), Ok(None)) => true,
            (Err(a), Err(b)) => a@ == b,
            _ => false,
        },
{
    if i >= row.len() {
        return Err(index_error(i));
    }
    match &row[i].cell {
        SqlCell::Null => Ok(None),
        SqlCell::Text(s) => Ok(Some(s.clone())),
        _ => Err(type_error(&row[i], i)),
    }
}

pub fn get_int(row: &Vec<SqlField>, i: usize) -> (r: Result<i64, String>)
    ensures
        match (r, int_at(row@, i as int)) {
            (Ok(a), Ok(b)) => a == b,
            (Err(a), Err(b)) => a@ == b,
            _ => false,
        },
{
    if i >= row.len() {
        return Err(index_error(i));
    }
    match &row[i].cell {
        SqlCell::Integer(n) => Ok(*n),
        _ => Err(type_error(&row[i], i)),
    }
}

/// Runs a statement, giving the message of any error, and records the call.
pub(crate) fn exec(db: &mut Db, sql: &str, params: Vec<SqlParam>) -> (r: Result<(), String>)
    ensures
        final(db).calls() == old(db).calls().push(done_call(sql@, param_views(params@), unit_view(r))),
{
    let ghost pv = param_views(params@);
    let r = match execute(&db.conn, sql, params) {
        Ok(_) => Ok(()),
        Err(e) => Err(sql_error_text(&e)),
    };
    db.log = Ghost(db.log@.push(done_call(sql@, pv, unit_view(r))));
    r
}

/// Runs a query, giving the message of any error, and records the call with the rows read.
pub(crate) fn select(db: &mut Db, sql: &str, params: Vec<SqlParam>) -> (r: Result<Vec<Vec<SqlField>>, String>)
    ensures
        final(db).calls() == old(db).calls().push(
            SqlCall { sql: sql@, params: param_views(params@), outcome: SqlOutcome::Rows(rows_view(r)) },
        ),
        r matches Ok(rows) ==> exists|names: Seq<Seq<char>>| #[trigger] rows_have_columns(rows@, names),
{
    let ghost pv = param_views(params@);
    let r: Result<Vec<Vec<SqlField>>, String> = match query(&db.conn, sql, params) {
        Ok(rows) => {
            let ghost names = choose|names: Seq<Seq<char>>| rows_have_columns(rows@, names);
            assert(rows_have_columns(rows@, names));
            let r: Result<Vec<Vec<SqlField>>, String> = Ok(rows);
            assert(r matches Ok(x) && x == rows);
            r
        },
        Err(e) => Err(sql_error_text(&e)),
    };
    db.log = Ghost(db.log@.push(SqlCall { sql: sql@, params: pv, outcome: SqlOutcome::Rows(rows_view(r)) }));
    r
}

/// Runs a statement whose error is handed on as it is, and records the call.
pub(crate) fn exec_raw(db: &mut Db, sql: &str, params: Vec<SqlParam>) -> (r: Result<(), rusqlite::Error>)
    ensures
        final(db).calls() == old(db).calls().push(
            SqlCall { sql: sql@, params: param_views(params@), outcome: SqlOutcome::Ran(r is Ok) },
        ),
{
    let ghost pv = param_views(params@);
    let r = match execute(&db.conn, sql, params) {
        Ok(_) => Ok(()),
        Err(e) => Err(e),
    };
    db.log = Ghost(db.log@.push(SqlCall { sql: sql@, params: pv, outcome: SqlOutcome::Ran(r is Ok) }));
    r
}

/// Runs statements separated by `;` (no parameters), handing on the error as it is, and
/// records the call.
pub(crate) fn exec_batch(db: &mut Db, sql: &str) -> (r: Result<(), rusqlite::Error>)
    ensures
        final(db).calls() == old(db).calls().push(
            SqlCall { sql: sql@, params: Seq::empty(), outcome: SqlOutcome::Ran(r is Ok) },
        ),
{
    let r = execute_batch(&db.conn, sql);
    db.log = Ghost(db.log@.push(SqlCall { sql: sql@, params: Seq::empty(), outcome: SqlOutcome::Ran(r is Ok) }));
    r
}

/// Runs a query whose error is handed on as it is, and records the call with the rows read.
pub(crate) fn select_raw(db: &mut Db, sql: &str, params: Vec<SqlParam>) -> (r: Result<Vec<Vec<SqlField>>, rusqlite::Error>)
    ensures
        final(db).calls() == old(db).calls().push(
            SqlCall {
                sql: sql@,
                params: param_views(params@),
                outcome: SqlOutcome::RowsRan(
                    match r {
                        Ok(rows) => Some(rows@),
                        Err(_) => None,
                    },
                ),
            },
        ),
{
    let ghost pv = param_views(params@);
    let r = query(&db.conn, sql, params);
    let ghost o = match &r {
        Ok(rows) => Some(rows@),
        Err(_) => None,
    };
    db.log = Ghost(db.log@.push(SqlCall { sql: sql@, params: pv, outcome: SqlOutcome::RowsRan(o) }));
    r
}

/// Prepares a statement without running it (SQLite checks its text against the schema),
/// giving the message of any error, and records the call.
pub(crate) fn prepare_only(db: &mut Db, sql: &str) -> (r: Result<(), String>)
    ensures
        final(db).calls() == old(db).calls().push(
            SqlCall { sql: sql@, params: Seq::empty(), outcome: SqlOutcome::Prepared(unit_view(r)) },
        ),
{
    let r = match prepare(&db.conn, sql) {
        Ok(_) => Ok(()),
        Err(e) => Err(sql_error_text(&e)),
    };
    db.log = Ghost(db.log@.push(SqlCall { sql: sql@, params: Seq::empty(), outcome: SqlOutcome::Prepared(unit_view(r)) }));
    r
}

/// Whether a stored value is the one a parameter gives.
pub open spec fn cell_holds(c: SqlCell, p: ParamView) -> bool {
    match (c, p) {
        (SqlCell::Null, ParamView::Null) => true,
        (SqlCell::Integer(n), ParamView::Integer(m)) => n == m,
        (SqlCell::Text(s), ParamView::Text(t)) => s@ == t,
        _ => false,
    }
}

/// Whether `row` holds, column by column, the values of the parameters `ps`.
pub open spec fn row_holds(row: Seq<SqlField>, ps: Seq<ParamView>) -> bool {
    &&& row.len() == ps.len()
    &&& forall|i: int| 0 <= i < ps.len() ==> cell_holds(#[trigger] row[i].cell, ps[i])
}

} // verus!
