//! A message-carrying error with a kind.
use vstd::prelude::*;

verus! {

#[derive(Debug, Copy, Clone, PartialEq, Eq, Structural)]
pub enum ErrorKind {
    IoError,
    InvalidFileSignature,
    InvalidEntrySignature,
    Utf16Error,
}

#[derive(Debug, Clone)]
pub struct MftError {
    /// The formatted message.
    pub message: String,
    /// The type of error.
    pub kind: ErrorKind,
    /// Any additional information, such as the argument that caused the error.
    pub info: Option<Vec<String>>,
}

impl MftError {
    pub fn invalid_file_signature(err: String) -> (r: MftError)
        ensures
            r.message@ == err@,
            r.kind == ErrorKind::InvalidFileSignature,
            r.info matches Some(v) && v@.len() == 0,
    {
        MftError { message: err, kind: ErrorKind::InvalidFileSignature, info: Some(Vec::new()) }
    }

    /// Reports a bad entry signature; it carries the file-signature kind.
    pub fn invalid_entry_signature(err: String) -> (r: MftError)
        ensures
            r.message@ == err@,
            r.kind == ErrorKind::InvalidFileSignature,
            r.info matches Some(v) && v@.len() == 0,
    {
        MftError { message: err, kind: ErrorKind::InvalidFileSignature, info: Some(Vec::new()) }
    }

    pub fn decode_error(err: String) -> (r: MftError)
        ensures
            r.message@ == err@,
            r.kind == ErrorKind::Utf16Error,
            r.info matches Some(v) && v@.len() == 0,
    {
        MftError { message: err, kind: ErrorKind::Utf16Error, info: Some(Vec::new()) }
    }
}

} // verus!
