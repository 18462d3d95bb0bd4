//! Reading and writing whole rows through `rusqlite`.

use vstd::prelude::*;
use crate::errors::SqliteInterfaceError;
use crate::rows::Record;
use crate::sqlite;
use crate::value::{stored, Datum, Param};

verus! {

/// A row type with a fixed column layout.
pub trait Stored: Record {
    /// The row that the cells of one stored row read as, if they do.
    spec fn decoded(cells: Seq<Datum>) -> Option<Self>;

    /// The parameters that write `row`, column by column.
    spec fn cells_of(row: Self) -> Seq<Param>;

    fn decode(cells: &Vec<Datum>) -> (r: Option<Self>)
        ensures
            r == Self::decoded(cells@),
    ;

    fn encode(&self) -> (cells: Vec<Param>)
        ensures
            cells@ == Self::cells_of(*self),
    ;

    /// The parameters that pick out `row` by the table's key, in the order
    /// of the key's columns.
    spec fn key_of(row: Self) -> Seq<Param>;

    fn key(&self) -> (key: Vec<Param>)
        ensures
            key@ == Self::key_of(*self),
    ;

    /// The statement that creates the table if it does not exist.
    spec fn definition_text() -> Seq<char>;

    fn definition() -> (sql: &'static str)
        ensures
            sql@ == Self::definition_text(),
    ;

    /// The statement that reads every row of the table.
    spec fn select_all_text() -> Seq<char>;

    fn select_all() -> (sql: &'static str)
        ensures
            sql@ == Self::select_all_text(),
    ;

    /// The statement that deletes the row with a key, whose parameters are
    /// `key_of` the row.
    spec fn delete_by_key_text() -> Seq<char>;

    fn delete_by_key() -> (sql: &'static str)
        ensures
            sql@ == Self::delete_by_key_text(),
    ;

    /// The error text of a stored row that does not read.
    spec fn malformed_text() -> Seq<char>;

    fn malformed() -> (text: &'static str)
        ensures
            text@ == Self::malformed_text(),
    ;
}

/// The keys of `rows`, in order.
pub open spec fn keys_of<T: Stored>(rows: Seq<T>) -> Seq<Seq<Param>> {
    rows.map_values(|row: T| T::key_of(row))
}

/// The key parameters of each of `rows`, in order: what `delete_each` hands
/// to the delete statement, one list per row.
pub fn keys<T: Stored>(rows: &Vec<T>) -> (keys: Vec<Vec<Param>>)
    ensures
        keys@.len() == rows@.len(),
        forall|i: int| 0 <= i < rows@.len() ==> (#[trigger] keys@[i])@ == keys_of(rows@)[i],
{
    let mut keys: Vec<Vec<Param>> = Vec::new();
    let mut i: usize = 0;
    while i < rows.len()
        invariant
            i <= rows.len(),
            keys@.len() == i,
            forall|k: int| 0 <= k < i ==> (#[trigger] keys@[k])@ == keys_of(rows@)[k],
        decreases rows.len() - i,
    {
        keys.push(rows[i].key());
        i = i + 1;
    }
    keys
}

/// What a write that changed `n` rows gives back: the row it wrote, or
/// `None` when it changed none (or there was no row to write).
pub open spec fn if_written<T>(n: int, row: Option<T>) -> Option<T> {
    if n > 0 {
        row
    } else {
        None
    }
}

/// The row a write of `row` that changed `n` rows gives back.
pub fn written<T>(n: usize, row: T) -> (r: Option<T>)
    ensures
        r == if_written(n as int, Some(row)),
{
    if n > 0 {
        Some(row)
    } else {
        None
    }
}

/// What an insert of `row` that stored `n` rows comes to: the row when it
/// stored exactly one, else the library's error `refused`.
pub fn inserted<T>(n: usize, row: T, refused: &str) -> (r: Result<T, SqliteInterfaceError>)
    ensures
        n == 1 ==> r == Ok::<T, SqliteInterfaceError>(row),
        n != 1 ==> (r matches Err(e) && e.is_custom(refused@)),
{
    if n == 1 {
        Ok(row)
    } else {
        Err(SqliteInterfaceError::Custom(refused.to_string()))
    }
}

/// The statement that opens the savepoint of one operation.
pub fn savepoint() -> (sql: &'static str)
    ensures
        sql@ == "SAVEPOINT operation"@,
{
    "SAVEPOINT operation"
}

/// The statement that keeps what the operation wrote and closes its
/// savepoint.
pub fn release() -> (sql: &'static str)
    ensures
        sql@ == "RELEASE operation"@,
{
    "RELEASE operation"
}

/// The statement that undoes what the operation wrote.
pub fn rollback() -> (sql: &'static str)
    ensures
        sql@ == "ROLLBACK TO operation"@,
{
    "ROLLBACK TO operation"
}

/// Creates the table of `T` if it does not exist, with `T::definition()`.
pub fn create_table<T: Stored>(conn: &rusqlite::Connection) -> (r: Result<(), SqliteInterfaceError>)
    ensures
        r matches Err(e) ==> e is Rusqlite,
{
    run(conn, T::definition(), &Vec::new())?;
    Ok(())
}

/// The cells SQLite hands back for a row written from `params`, when each
/// column keeps its value as given.
pub open spec fn stored_cells(params: Seq<Param>) -> Seq<Datum> {
    params.map_values(|p: Param| stored(p))
}

/// Runs one statement; SQLite's error becomes the library's.
pub fn run(conn: &rusqlite::Connection, sql: &str, params: &Vec<Param>) -> (r: Result<usize, SqliteInterfaceError>)
    ensures
        r matches Err(e) ==> e is Rusqlite,
{
    match sqlite::execute(conn, sql, params) {
        Ok(n) => Ok(n),
        Err(e) => Err(SqliteInterfaceError::Rusqlite(e)),
    }
}

/// Writes `row` with a statement whose parameters are its columns in order.
pub fn write<T: Stored>(conn: &rusqlite::Connection, sql: &str, row: &T) -> (r: Result<usize, SqliteInterfaceError>)
    ensures
        r matches Err(e) ==> e is Rusqlite,
{
    run(conn, sql, &row.encode())
}

/// Opens the savepoint inside which one operation reads the table and
/// writes its result, so that no other connection writes in between and a
/// failure part way leaves the table as it was.
pub fn begin(conn: &rusqlite::Connection) -> (r: Result<(), SqliteInterfaceError>)
    ensures
        r matches Err(e) ==> e is Rusqlite,
{
    run(conn, savepoint(), &Vec::new())?;
    Ok(())
}

/// Closes the savepoint `begin` opened: keeps what the operation wrote when
/// its result `r` is `Ok`, undoes it when `r` is an error. `r` is handed back,
/// unless SQLite fails to keep the writes, whose error is then handed back.
pub fn finish<T>(conn: &rusqlite::Connection, r: Result<T, SqliteInterfaceError>) -> (out: Result<T, SqliteInterfaceError>)
    ensures
        out is Ok ==> out == r,
        out matches Err(e) ==> out == r || e is Rusqlite,
{
    match r {
        Ok(x) => match run(conn, release(), &Vec::new()) {
            Ok(_) => Ok(x),
            Err(e) => Err(e),
        },
        Err(e) => {
            let _ = run(conn, rollback(), &Vec::new());
            let _ = run(conn, release(), &Vec::new());
            Err(e)
        },
    }
}

/// Stores `row` with the insert `sql`, whose parameters are its columns in
/// order. A statement SQLite cannot compile fails with SQLite's error; a row
/// SQLite refuses when the statement runs (a key that is taken, among others)
/// fails with the library's error `refused`.
pub fn insert<T: Stored>(conn: &rusqlite::Connection, sql: &str, row: &T, refused: &str) -> (r: Result<usize, SqliteInterfaceError>)
    ensures
        r matches Err(e) ==> e is Rusqlite || e.is_custom(refused@),
{
    let mut stmt = match sqlite::prepare(conn, sql) {
        Ok(stmt) => stmt,
        Err(e) => return Err(SqliteInterfaceError::Rusqlite(e)),
    };
    ran_insert(sqlite::run_prepared(&mut stmt, &row.encode()), refused)
}

/// What an insert that compiled comes to: the number of rows it stored, or,
/// when SQLite refused to run it, the library's error `refused`.
pub fn ran_insert(ran: Result<usize, rusqlite::Error>, refused: &str) -> (r: Result<usize, SqliteInterfaceError>)
    ensures
        ran matches Ok(n) ==> r == Ok::<usize, SqliteInterfaceError>(n),
        ran is Err ==> (r matches Err(e) && e.is_custom(refused@)),
{
    match ran {
        Ok(n) => Ok(n),
        Err(_) => Err(SqliteInterfaceError::Custom(refused.to_string())),
    }
}

/// Deletes each of `rows` of the table of `T`: `T::delete_by_key()` with the
/// parameters `keys(rows)`, one row at a time; it stops at the first error
/// SQLite reports.
pub fn delete_each<T: Stored>(conn: &rusqlite::Connection, rows: &Vec<T>) -> (r: Result<(), SqliteInterfaceError>)
    ensures
        r matches Err(e) ==> e is Rusqlite,
{
    let sql = T::delete_by_key();
    let keys = keys(rows);
    let mut i: usize = 0;
    while i < keys.len()
        decreases keys.len() - i,
    {
        run(conn, sql, &keys[i])?;
        i = i + 1;
    }
    Ok(())
}

/// `rows` are what the stored rows `raw` read as, row for row.
pub open spec fn reads_as<T: Stored>(raw: Seq<Seq<Datum>>, rows: Seq<T>) -> bool {
    &&& raw.len() == rows.len()
    &&& forall|i: int| 0 <= i < raw.len() ==> T::decoded(#[trigger] raw[i]) == Some(rows[i])
}

/// The cells of each row that a query returned.
pub open spec fn table_cells(raw: Seq<Vec<Datum>>) -> Seq<Seq<Datum>> {
    raw.map_values(|cells: Vec<Datum>| cells@)
}

/// The rows that a query returned, read as `T`: all of them when each reads,
/// else the error `malformed`.
pub fn decode_rows<T: Stored>(raw: &Vec<Vec<Datum>>, malformed: &str) -> (r: Result<Vec<T>, SqliteInterfaceError>)
    ensures
        r matches Ok(rows) ==> reads_as(table_cells(raw@), rows@),
        r matches Err(e) ==> e.is_custom(malformed@),
        r is Err <==> exists|i: int| 0 <= i < raw@.len() && T::decoded(#[trigger] raw@[i]@) is None,
{
    let mut rows: Vec<T> = Vec::new();
    let mut i: usize = 0;
    while i < raw.len()
        invariant
            i <= raw.len(),
            rows@.len() == i,
            forall|k: int| 0 <= k < i ==> T::decoded(#[trigger] raw@[k]@) == Some(rows@[k]),
        decreases raw.len() - i,
    {
        match T::decode(&raw[i]) {
            Some(row) => rows.push(row),
            None => return Err(SqliteInterfaceError::Custom(malformed.to_string())),
        }
        i = i + 1;
    }
    proof {
        assert(reads_as(table_cells(raw@), rows@));
        assert forall|k: int| 0 <= k < raw@.len() implies T::decoded(#[trigger] raw@[k]@) is Some by {}
    }
    Ok(rows)
}

/// Every row of the table of `T` (`T::select_all()`), read as `T`; a row
/// that does not read fails the whole load with `T::malformed()`.
pub fn load<T: Stored>(conn: &rusqlite::Connection) -> (r: Result<Vec<T>, SqliteInterfaceError>)
    ensures
        r matches Ok(rows) ==> exists|raw: Seq<Seq<Datum>>| #[trigger] reads_as(raw, rows@),
        r matches Err(e) ==> e is Rusqlite || e.is_custom(T::malformed_text()),
{
    let raw = match sqlite::query_all(conn, T::select_all(), &Vec::new()) {
        Ok(raw) => raw,
        Err(e) => return Err(SqliteInterfaceError::Rusqlite(e)),
    };
    decode_rows(&raw, T::malformed())
}

} // verus!
