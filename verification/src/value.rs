//! Column values as the database hands them back, statement parameters, and
//! the reading of one column as a field of a row.

use vstd::prelude::*;

verus! {

/// One column value of a stored row, as the database hands it back.
#[derive(Debug)]
pub enum Datum {
    Null,
    Integer(i64),
    /// A floating-point value; no column of this library holds one, and the
    /// number itself is not carried.
    Real,
    Text(String),
    Blob(Vec<u8>),
}

/// One positional parameter of a statement.
#[derive(Debug)]
pub enum Param {
    Null,
    Integer(i64),
    Text(String),
}

/// An `INTEGER` column read as an `i64`: only an integer value reads.
pub open spec fn int_of(d: Datum) -> Option<i64> {
    match d {
        Datum::Integer(i) => Some(i),
        _ => None,
    }
}

/// A nullable `INTEGER` column read as an `Option<i64>`.
pub open spec fn opt_int_of(d: Datum) -> Option<Option<i64>> {
    match d {
        Datum::Null => Some(None),
        Datum::Integer(i) => Some(Some(i)),
        _ => None,
    }
}

/// An `INTEGER` column read as a `bool`: any integer but zero is `true`.
pub open spec fn bool_of(d: Datum) -> Option<bool> {
    match d {
        Datum::Integer(i) => Some(i != 0),
        _ => None,
    }
}

/// A `TEXT` column read as a `String`.
pub open spec fn text_of(d: Datum) -> Option<String> {
    match d {
        Datum::Text(s) => Some(s),
        _ => None,
    }
}

pub fn read_int(d: &Datum) -> (r: Option<i64>)
    ensures
        r == int_of(*d),
{
    match d {
        Datum::Integer(i) => Some(*i),
        _ => None,
    }
}

pub fn read_opt_int(d: &Datum) -> (r: Option<Option<i64>>)
    ensures
        r == opt_int_of(*d),
{
    match d {
        Datum::Null => Some(None),
        Datum::Integer(i) => Some(Some(*i)),
        _ => None,
    }
}

pub fn read_bool(d: &Datum) -> (r: Option<bool>)
    ensures
        r == bool_of(*d),
{
    match d {
        Datum::Integer(i) => Some(*i != 0),
        _ => None,
    }
}

pub fn read_text(d: &Datum) -> (r: Option<String>)
    ensures
        r == text_of(*d),
{
    match d {
        Datum::Text(s) => Some(s.clone()),
        _ => None,
    }
}

/// The parameter that stores `v` in an `INTEGER` column.
pub open spec fn int_param(v: i64) -> Param {
    Param::Integer(v)
}

/// The parameter that stores `v` in a nullable `INTEGER` column.
pub open spec fn opt_int_param(v: Option<i64>) -> Param {
    match v {
        Some(i) => Param::Integer(i),
        None => Param::Null,
    }
}

/// The parameter that stores `v` in an `INTEGER` column: 1 or 0.
pub open spec fn bool_param(v: bool) -> Param {
    Param::Integer(if v { 1 } else { 0 })
}

pub fn opt_int(v: Option<i64>) -> (p: Param)
    ensures
        p == opt_int_param(v),
{
    match v {
        Some(i) => Param::Integer(i),
        None => Param::Null,
    }
}

pub fn boolean(v: bool) -> (p: Param)
    ensures
        p == bool_param(v),
{
    Param::Integer(if v { 1 } else { 0 })
}

pub fn text(s: &String) -> (p: Param)
    ensures
        p == Param::Text(*s),
{
    Param::Text(s.clone())
}

/// The value SQLite hands back for a parameter stored in a column that keeps
/// it as given.
pub open spec fn stored(p: Param) -> Datum {
    match p {
        Param::Null => Datum::Null,
        Param::Integer(i) => Datum::Integer(i),
        Param::Text(s) => Datum::Text(s),
    }
}

} // verus!
