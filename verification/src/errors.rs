//! The errors of loading a document, their messages, and their numeric
//! identifiers in the C interface.

use vstd::prelude::*;

verus! {

/// An error of loading a document.
#[derive(Clone, Debug)]
pub enum Error {
    /// Only `svg` and `svgz` suffixes are supported.
    InvalidFileSuffix,
    /// Failed to open the provided file.
    FileOpenFailed,
    /// Only UTF-8 content is supported.
    NotAnUtf8Str,
    /// Compressed SVG must use the GZip algorithm.
    MalformedGZip,
    /// The document has no valid size.
    InvalidSize,
    /// Failed to parse the SVG data; holds the parser's own message.
    ParsingFailed(String),
}

/// The message of an error.
pub open spec fn error_message(e: Error) -> Seq<char> {
    match e {
        Error::InvalidFileSuffix => "invalid file suffix"@,
        Error::FileOpenFailed => "failed to open the provided file"@,
        Error::NotAnUtf8Str => "provided data has not an UTF-8 encoding"@,
        Error::MalformedGZip => "provided data has a malformed GZip content"@,
        Error::InvalidSize => "SVG has an invalid size"@,
        Error::ParsingFailed(cause) => "SVG data parsing failed cause "@ + cause@,
    }
}

impl Error {
    /// The message of the error, as it is displayed.
    pub fn message(&self) -> (r: String)
        ensures
            r@ == error_message(*self),
    {
        match self {
            Error::InvalidFileSuffix => "invalid file suffix".to_owned(),
            Error::FileOpenFailed => "failed to open the provided file".to_owned(),
            Error::NotAnUtf8Str => "provided data has not an UTF-8 encoding".to_owned(),
            Error::MalformedGZip => "provided data has a malformed GZip content".to_owned(),
            Error::InvalidSize => "SVG has an invalid size".to_owned(),
            Error::ParsingFailed(cause) => {
                let mut s = "SVG data parsing failed cause ".to_owned();
                s.append(cause.as_str());
                s
            },
        }
    }
}

/// The result of a call of the C interface.
#[derive(Clone, Copy, PartialEq, Eq, Debug, Structural)]
pub enum ErrorId {
    /// The call succeeded.
    Success,
    NotAnUtf8Str,
    FileOpenFailed,
    InvalidFileSuffix,
    MalformedGZip,
    InvalidSize,
    ParsingFailed,
}

/// The number by which the C interface reports a result.
pub open spec fn error_code(id: ErrorId) -> i32 {
    match id {
        ErrorId::Success => 0,
        ErrorId::NotAnUtf8Str => 1,
        ErrorId::FileOpenFailed => 2,
        ErrorId::InvalidFileSuffix => 3,
        ErrorId::MalformedGZip => 4,
        ErrorId::InvalidSize => 5,
        ErrorId::ParsingFailed => 6,
    }
}

impl ErrorId {
    /// The number by which the C interface reports this result.
    pub fn code(self) -> (r: i32)
        ensures
            r == error_code(self),
    {
        match self {
            ErrorId::Success => 0,
            ErrorId::NotAnUtf8Str => 1,
            ErrorId::FileOpenFailed => 2,
            ErrorId::InvalidFileSuffix => 3,
            ErrorId::MalformedGZip => 4,
            ErrorId::InvalidSize => 5,
            ErrorId::ParsingFailed => 6,
        }
    }
}

/// The identifier of an error's kind.
pub open spec fn spec_error_id(e: Error) -> ErrorId {
    match e {
        Error::InvalidFileSuffix => ErrorId::InvalidFileSuffix,
        Error::FileOpenFailed => ErrorId::FileOpenFailed,
        Error::NotAnUtf8Str => ErrorId::NotAnUtf8Str,
        Error::MalformedGZip => ErrorId::MalformedGZip,
        Error::InvalidSize => ErrorId::InvalidSize,
        Error::ParsingFailed(_) => ErrorId::ParsingFailed,
    }
}

/// Maps an error to its identifier in the C interface.
pub fn convert_error(e: &Error) -> (r: ErrorId)
    ensures
        r == spec_error_id(*e),
{
    match e {
        Error::InvalidFileSuffix => ErrorId::InvalidFileSuffix,
        Error::FileOpenFailed => ErrorId::FileOpenFailed,
        Error::NotAnUtf8Str => ErrorId::NotAnUtf8Str,
        Error::MalformedGZip => ErrorId::MalformedGZip,
        Error::InvalidSize => ErrorId::InvalidSize,
        Error::ParsingFailed(_) => ErrorId::ParsingFailed,
    }
}

/// An error is never reported as success, and distinct results are reported
/// by distinct numbers.
pub proof fn lemma_error_codes_distinct(e: Error, a: ErrorId, b: ErrorId)
    ensures
        error_code(spec_error_id(e)) != error_code(ErrorId::Success),
        a != b ==> error_code(a) != error_code(b),
{
}

} // verus!
