//! What can go wrong when a mesh is loaded or stored.

use vstd::prelude::*;
use vstd::string::StringExecFns;

verus! {

#[derive(Debug, Clone, Copy, PartialEq, Eq, Structural)]
pub enum ImportError {
    FileNotFound,
    InvalidExtention,
    FileCorrupted,
}

#[derive(Debug, Clone, Copy, PartialEq, Eq, Structural)]
pub enum Error {
    Import(ImportError),
    /// The user dismissed a dialog; nothing failed.
    Cancel,
    Unknown,
}

impl ImportError {
    /// The text that `to_string` returns.
    pub open spec fn text(self) -> Seq<char> {
        match self {
            ImportError::FileNotFound => "file not found"@,
            ImportError::InvalidExtention => "invalid extention"@,
            ImportError::FileCorrupted => "file corrupted"@,
        }
    }

    pub fn to_string(&self) -> (s: String)
        ensures
            s@ == self.text(),
    {
        match self {
            ImportError::FileNotFound => String::from_str("file not found"),
            ImportError::InvalidExtention => String::from_str("invalid extention"),
            ImportError::FileCorrupted => String::from_str("file corrupted"),
        }
    }
}

impl Error {
    /// The text that `to_string` returns.
    pub open spec fn text(self) -> Seq<char> {
        match self {
            Error::Import(err) => "Import failed: "@ + err.text(),
            Error::Cancel => "Canceled"@,
            Error::Unknown => "Unknown error"@,
        }
    }

    pub fn to_string(&self) -> (s: String)
        ensures
            s@ == self.text(),
    {
        match self {
            Error::Import(err) => {
                let detail = err.to_string();
                String::from_str("Import failed: ").concat(detail.as_str())
            },
            Error::Cancel => String::from_str("Canceled"),
            Error::Unknown => String::from_str("Unknown error"),
        }
    }
}

} // verus!
