//! The calls into `rusqlite` (besides the `ToString` of its error). Nothing here is proved: what a statement does is
//! up to SQLite and to what the database holds, so the contracts below leave
//! every result free, and the verified code around them checks what comes back.

use vstd::prelude::*;
use crate::value::{Param, Datum};

verus! {

#[verifier::external_type_specification]
#[verifier::external_body]
pub struct ExConnection(rusqlite::Connection);

#[verifier::external_type_specification]
#[verifier::external_body]
pub struct ExError(rusqlite::Error);

#[verifier::external_type_specification]
#[verifier::external_body]
pub struct ExStatement<'conn>(rusqlite::Statement<'conn>);

#[verifier::external_type_specification]
#[verifier::external_body]
pub struct ExSqlValue(rusqlite::types::Value);

/// `rusqlite::Connection::execute`: runs one statement with positional
/// parameters and gives back the number of rows it changed, or SQLite's error.
/// What it changes and whether it succeeds depend on the database, so nothing
/// is claimed of the result.
#[verifier::external_body]
pub(crate) fn execute(conn: &rusqlite::Connection, sql: &str, params: &Vec<Param>) -> (r: Result<usize, rusqlite::Error>)
{
    conn.execute(sql, rusqlite::params_from_iter(params.iter().map(to_sql_value)))
}

/// `rusqlite::Connection::prepare`: compiles one statement, or gives back
/// SQLite's error when it cannot (bad SQL, a missing table or column). Which
/// happens depends on the database's schema, so nothing is claimed of it.
#[verifier::external_body]
pub(crate) fn prepare<'conn>(conn: &'conn rusqlite::Connection, sql: &str) -> (r: Result<rusqlite::Statement<'conn>, rusqlite::Error>)
{
    conn.prepare(sql)
}

/// `rusqlite::Statement::execute`: binds the positional parameters and runs
/// the compiled statement once, giving back the number of rows it changed,
/// or SQLite's error (a constraint the row breaks, among others). What it
/// changes depends on the database, so nothing is claimed of the result.
#[verifier::external_body]
pub(crate) fn run_prepared(stmt: &mut rusqlite::Statement, params: &Vec<Param>) -> (r: Result<usize, rusqlite::Error>)
{
    stmt.execute(rusqlite::params_from_iter(params.iter().map(to_sql_value)))
}

/// `rusqlite::Connection::prepare`, then `rusqlite::Statement::query`, then
/// `rusqlite::Rows::next` until the statement yields no further row, reading
/// every column of each row with `rusqlite::Row::get` as SQLite's own dynamic
/// value. The rows and their order are up to the database, so nothing is
/// claimed of the result. (A cursor has no bound that a loop in verified code
/// could decrease, so the stepping stays here.)
#[verifier::external_body]
pub(crate) fn query_all(conn: &rusqlite::Connection, sql: &str, params: &Vec<Param>) -> (r: Result<Vec<Vec<Datum>>, rusqlite::Error>)
{
    let mut stmt = conn.prepare(sql)?;
    let width = stmt.column_count();
    let mut rows = stmt.query(rusqlite::params_from_iter(params.iter().map(to_sql_value)))?;
    let mut table = Vec::new();
    while let Some(row) = rows.next()? {
        let mut cells = Vec::new();
        for i in 0..width {
            cells.push(from_sql_value(row.get(i)?));
        }
        table.push(cells);
    }
    Ok(table)
}

/// A column value in the library's form, variant for variant.
#[verifier::external_body]
fn from_sql_value(v: rusqlite::types::Value) -> (d: Datum)
{
    match v {
        rusqlite::types::Value::Null => Datum::Null,
        rusqlite::types::Value::Integer(i) => Datum::Integer(i),
        rusqlite::types::Value::Real(_) => Datum::Real,
        rusqlite::types::Value::Text(s) => Datum::Text(s),
        rusqlite::types::Value::Blob(b) => Datum::Blob(b),
    }
}

/// The `rusqlite` form of a statement parameter, variant for variant.
#[verifier::external_body]
fn to_sql_value(p: &Param) -> (r: rusqlite::types::Value)
{
    match p {
        Param::Null => rusqlite::types::Value::Null,
        Param::Integer(i) => rusqlite::types::Value::Integer(*i),
        Param::Text(s) => rusqlite::types::Value::Text(s.clone()),
    }
}

} // verus!
