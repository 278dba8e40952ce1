use vstd::prelude::*;
use crate::token::TokenRecord;

verus! {

/// An opaque handle for a source file, handed out by whatever registry
/// holds the file contents.
#[derive(Debug, PartialEq, Eq, Clone, Copy, Structural)]
pub struct FileIdentifier(pub usize);

/// The location of a source file, kept for diagnostics.
#[derive(Debug, Clone)]
pub struct FilePath {
    pub path: String,
}

/// A lexing failure bound to its file: no token rule matched at byte
/// offset `index`.
#[derive(Debug, PartialEq, Eq, Clone, Copy, Structural)]
pub struct TokenError {
    pub file: FileIdentifier,
    pub index: usize,
}

impl TokenError {
    pub fn new(file: FileIdentifier, index: usize) -> (r: TokenError)
        ensures
            r.file == file,
            r.index == index,
    {
        TokenError { file, index }
    }
}

/// A parsing failure bound to its file: the token that could not be
/// accepted, with a rendered message.
#[derive(Debug)]
pub struct UnexpectedTokenError {
    pub file: FileIdentifier,
    pub record: TokenRecord,
    pub message: String,
}

impl UnexpectedTokenError {
    pub fn new(file: FileIdentifier, record: TokenRecord, message: String) -> (r:
        UnexpectedTokenError)
        ensures
            r.file == file,
            r.record == record,
            r.message@ == message@,
    {
        UnexpectedTokenError { file, record, message }
    }
}

/// A parsing failure bound to its file: the input ended where more was
/// required; `index` is the length of the lexed text.
#[derive(Debug, PartialEq, Eq, Clone, Copy, Structural)]
pub struct UnexpectedEndOfFileError {
    pub file: FileIdentifier,
    pub index: usize,
}

impl UnexpectedEndOfFileError {
    pub fn new(file: FileIdentifier, index: usize) -> (r: UnexpectedEndOfFileError)
        ensures
            r.file == file,
            r.index == index,
    {
        UnexpectedEndOfFileError { file, index }
    }
}

} // verus!
