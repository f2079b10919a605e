//! The errors of the library.

use vstd::prelude::*;

verus! {

/// What went wrong. Outside failures carry their description as text.
#[derive(Debug, Clone, PartialEq, Eq)]
pub enum BiliLiveError {
    /// A request did not reach the service or its answer did not arrive.
    NetworkError(String),
    /// A JSON document, or the stored record, is malformed.
    JsonError(String),
    /// A file could not be read or written.
    IoError(String),
    /// The login code could not be drawn.
    QrCodeError(String),
    /// The login code image could not be written.
    ImageError(String),
    /// No stored credentials: the user has not logged in.
    NotFound,
    /// A broadcast request was made with no stored credentials.
    AuthRequired,
    /// The service answered with a non-zero status; the text is its message.
    ApiError(String),
    /// The login was refused: the service's status code and its message.
    LoginError(i32, String),
    /// What the user typed could not be used.
    InputError(String),
    /// An answer lacks a field that it should have, or the login failed.
    ParseError(String),
}

} // verus!
