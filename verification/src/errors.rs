//! The failure taxonomy of the decoder.

use vstd::prelude::*;

verus! {

/// Why a page or an archive failed to decode.
#[derive(Debug)]
pub enum ParseError {
    /// No page-start marker remains in the buffer.
    NoPageFound,
    /// A marker was found but the fixed-size header is malformed, or it
    /// declares a stream length beyond the bytes actually available.
    InvalidHeader,
    /// A recognized legacy-format page, which this decoder deliberately
    /// does not read.
    UnsupportedVersion,
    /// The archive could not be decompressed; carries the underlying
    /// failure's message.
    IoError(String),
}

impl ParseError {
    /// A short human-readable rendering of the failure.
    pub fn describe(&self) -> (r: String)
        ensures
            match self {
                ParseError::NoPageFound => r@ == "no page found"@,
                ParseError::InvalidHeader => r@ == "invalid header"@,
                ParseError::UnsupportedVersion => r@ == "page version not supported"@,
                ParseError::IoError(m) => r@ == m@,
            },
    {
        match self {
            ParseError::NoPageFound => String::from_str("no page found"),
            ParseError::InvalidHeader => String::from_str("invalid header"),
            ParseError::UnsupportedVersion => String::from_str("page version not supported"),
            ParseError::IoError(m) => m.clone(),
        }
    }
}

} // verus!
