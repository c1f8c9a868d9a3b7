//! The ways in which an operation can fail.

use vstd::prelude::*;

verus! {

/// How a pointer file broke the format.
#[derive(Debug, Clone, Copy, PartialEq, Eq, Structural)]
pub enum ProtocolError {
    /// A line holds no space between a key and a value.
    NotKeyValue,
    /// The `version` line names another version of the format.
    Version,
    /// The `oid` line names a hash other than sha256.
    HashAlgorithm,
    /// The `oid` line names the hash and then no oid.
    MissingOid,
    /// The `size` line holds no decimal number that fits.
    Size,
}

/// How the body of a batch response broke the schema.
#[derive(Debug, Clone, Copy, PartialEq, Eq, Structural)]
pub enum SchemaError {
    /// The body is no JSON document at all.
    NotJson,
    /// The body is JSON, but not a batch response.
    WrongShape,
    /// The responses hold no object for one of the pointers asked for.
    MissingObject,
}

/// How the path of a file in an archive broke the layout of an index.
#[derive(Debug, Clone, Copy, PartialEq, Eq, Structural)]
pub enum ArchiveError {
    /// A file stands in `mods` itself, under no mod.
    NoModId,
    /// The path of a file ends at the directory of its mod.
    NoFile,
    /// The archive itself could not be read.
    Unreadable,
}

/// Why an operation failed.
#[derive(Debug, Clone, Copy, PartialEq, Eq, Structural)]
pub enum IndexError {
    /// A request could not be sent, or its response could not be received.
    Transport,
    /// A response was not of the expected shape.
    Schema(SchemaError),
    /// A pointer file was not of the expected format.
    Protocol(ProtocolError),
    /// An archive was not laid out as an index.
    Archive(ArchiveError),
    /// A cursor stood at or past the end of its collection.
    Bounds { offset: usize, len: usize },
    /// A blob was read before any download of it was tried.
    NotYetFetched,
}

impl IndexError {
    /// A short text for the kind of failure.
    pub fn describe(&self) -> (text: &'static str)
        ensures
            text@ == (match *self {
                IndexError::Transport => "couldn't send request or read its response"@,
                IndexError::Schema(SchemaError::NotJson) => "response was not json"@,
                IndexError::Schema(SchemaError::WrongShape) => "couldn't parse response"@,
                IndexError::Schema(SchemaError::MissingObject) => "response lacks a requested object"@,
                IndexError::Protocol(ProtocolError::NotKeyValue) => "line is not a key-value pair"@,
                IndexError::Protocol(ProtocolError::Version) => "unexpected lfs api version"@,
                IndexError::Protocol(ProtocolError::HashAlgorithm) => "lfs hash algorithm is not sha256"@,
                IndexError::Protocol(ProtocolError::MissingOid) => "oid missing"@,
                IndexError::Protocol(ProtocolError::Size) => "couldn't parse size"@,
                IndexError::Archive(ArchiveError::NoModId) => "path is not pathing"@,
                IndexError::Archive(ArchiveError::NoFile) => "sub-path is not pathing"@,
                IndexError::Archive(ArchiveError::Unreadable) => "couldn't read archive"@,
                IndexError::Bounds { .. } => "cursor out of bounds"@,
                IndexError::NotYetFetched => "no download attempts yet"@,
            }),
    {
        match *self {
            IndexError::Transport => "couldn't send request or read its response",
            IndexError::Schema(SchemaError::NotJson) => "response was not json",
            IndexError::Schema(SchemaError::WrongShape) => "couldn't parse response",
            IndexError::Schema(SchemaError::MissingObject) => "response lacks a requested object",
            IndexError::Protocol(ProtocolError::NotKeyValue) => "line is not a key-value pair",
            IndexError::Protocol(ProtocolError::Version) => "unexpected lfs api version",
            IndexError::Protocol(ProtocolError::HashAlgorithm) => "lfs hash algorithm is not sha256",
            IndexError::Protocol(ProtocolError::MissingOid) => "oid missing",
            IndexError::Protocol(ProtocolError::Size) => "couldn't parse size",
            IndexError::Archive(ArchiveError::NoModId) => "path is not pathing",
            IndexError::Archive(ArchiveError::NoFile) => "sub-path is not pathing",
            IndexError::Archive(ArchiveError::Unreadable) => "couldn't read archive",
            IndexError::Bounds { .. } => "cursor out of bounds",
            IndexError::NotYetFetched => "no download attempts yet",
        }
    }
}

} // verus!
