//! The error every storage function reports.

use vstd::prelude::*;

verus! {

/// Either an error that SQLite reported, or one this library raises.
#[derive(Debug, PartialEq)]
pub enum SqliteInterfaceError {
    Rusqlite(rusqlite::Error),
    Custom(String),
}

impl SqliteInterfaceError {
    /// An error this library raises, with exactly this text.
    pub open spec fn is_custom(self, text: Seq<char>) -> bool {
        self matches SqliteInterfaceError::Custom(m) && m@ == text
    }

    /// The text of the error: what `rusqlite` displays for SQLite's own error
    /// (through `ToString`), or the library's text.
    pub fn message(&self) -> (text: String)
        ensures
            self matches SqliteInterfaceError::Custom(m) ==> text@ == m@,
            self matches SqliteInterfaceError::Rusqlite(e) ==> vstd::string::to_string_from_display_ensures::<rusqlite::Error>(&e, text),
    {
        match self {
            SqliteInterfaceError::Rusqlite(e) => e.to_string(),
            SqliteInterfaceError::Custom(m) => m.clone(),
        }
    }
}

} // verus!
