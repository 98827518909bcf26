//! Error values surfaced by the parsing and turn-lifecycle entry points.

use vstd::prelude::*;

verus! {

/// Any failure the library reports to its caller.
#[derive(Clone, Copy, Debug, PartialEq, Eq, Structural)]
pub enum Error {
    /// An unknown or malformed setup parameter line was encountered.
    BadParameter,
    /// A field expected to parse as an integer did not.
    ParseInt,
    /// A line did not fit the shape the protocol calls for at this point.
    UnexpectedLine,
    /// The input ended before the setup handshake completed.
    UnexpectedEof,
    /// Reading from the input source failed.  The library never produces
    /// this itself; the surrounding program maps read failures onto it.
    Io,
    /// The first token of a diff line named no known command.
    UnknownCommand,
}

impl Error {
    /// A short human-readable account of the error.
    pub fn description(&self) -> (r: &'static str)
        ensures
            r@ == match *self {
                Error::BadParameter => "Bad world parameter"@,
                Error::ParseInt => "Integer parse failure"@,
                Error::UnexpectedLine => "Unexpected line"@,
                Error::UnexpectedEof => "Unexpected Eof"@,
                Error::Io => "IO error"@,
                Error::UnknownCommand => "Unknown command"@,
            },
    {
        match *self {
            Error::BadParameter => "Bad world parameter",
            Error::ParseInt => "Integer parse failure",
            Error::UnexpectedLine => "Unexpected line",
            Error::UnexpectedEof => "Unexpected Eof",
            Error::Io => "IO error",
            Error::UnknownCommand => "Unknown command",
        }
    }
}

} // verus!
