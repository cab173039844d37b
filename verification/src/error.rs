//! The errors the store reports.

use vstd::prelude::*;
use vstd::string::*;

verus! {

/// Why an operation failed.
///
/// The last four variants carry the message of a failure that happened
/// outside the store: while reading or writing a file, while encoding or
/// decoding a snapshot, while running a system command, or while mounting a
/// volume.
#[derive(Debug, Clone, PartialEq, Eq)]
pub enum DbError {
    KeyNotFound,
    InvalidType,
    InvalidPath,
    Io(String),
    Serialization(String),
    System(String),
    Mount(String),
}

impl DbError {
    /// The words that open the message of each kind of error; for the kinds
    /// that carry a message of their own, that message follows.
    pub open spec fn heading(self) -> Seq<char> {
        match self {
            DbError::KeyNotFound => "Key not found"@,
            DbError::InvalidType => "Invalid value type"@,
            DbError::InvalidPath => "Invalid path format"@,
            DbError::Io(_) => "IO error: "@,
            DbError::Serialization(_) => "Serialization error: "@,
            DbError::System(_) => "System error: "@,
            DbError::Mount(_) => "Mount error: "@,
        }
    }

    /// The message carried by the error, empty for the kinds that carry
    /// none.
    pub open spec fn detail(self) -> Seq<char> {
        match self {
            DbError::Io(m) => m@,
            DbError::Serialization(m) => m@,
            DbError::System(m) => m@,
            DbError::Mount(m) => m@,
            _ => Seq::empty(),
        }
    }

    /// The error in words.
    pub fn message(&self) -> (text: String)
        ensures
            text@ == self.heading() + self.detail(),
    {
        let (heading, detail) = match self {
            DbError::KeyNotFound => ("Key not found", ""),
            DbError::InvalidType => ("Invalid value type", ""),
            DbError::InvalidPath => ("Invalid path format", ""),
            DbError::Io(m) => ("IO error: ", m.as_str()),
            DbError::Serialization(m) => ("Serialization error: ", m.as_str()),
            DbError::System(m) => ("System error: ", m.as_str()),
            DbError::Mount(m) => ("Mount error: ", m.as_str()),
        };
        proof {
            reveal_strlit("");
            assert(""@ =~= Seq::<char>::empty());
        }
        heading.to_owned().concat(detail)
    }
}

} // verus!
