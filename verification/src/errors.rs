//! Error kinds surfaced by ingestion, parsing and lookup.

use vstd::prelude::*;

verus! {

use crate::bed::BedError;
use crate::gff::GffError;

/// A source file could not be used at all.
#[derive(Debug)]
pub enum FileError {
    /// The file could not be opened; the payload is its name.
    CannotOpen { filename: String },
    /// The file's name could not be decoded.
    InvalidFilename(String),
}

/// Errors of the persisted table and of the query engine.
#[derive(Debug)]
pub enum DataError {
    /// The queried gene id is not in the book.
    UnknownId(String),
    /// The database file could not be opened; the payload carries
    /// its name and the storage engine's message.
    FailedToConnect { filename: String, message: String },
    /// In-place mutation was asked of the lazy strategy, which
    /// holds no resident records.
    ImmutableBook,
    /// The storage engine failed mid-operation; the payload is its message.
    StorageError(String),
    /// A persisted row holds a field that does not parse back.
    CorruptRow(String),
}

/// Errors of the record decoders.
#[derive(Debug)]
pub enum ParseError {
    GffError(GffError),
    BedError(BedError),
    /// The textual phase column is none of `0`, `1`, `2`.
    InvalidPhase(String),
    /// A numeric phase above two.
    InvalidPhaseIndex(usize),
    /// The strand column is none of the recognized codes.
    InvalidStrand(String),
}

} // verus!
