//! What can go wrong while a payload is read from an element.

use vstd::prelude::*;

verus! {

/// Why a string is not a decimal number of the wanted width.
#[derive(Debug, Clone, Copy, PartialEq, Eq, Structural)]
pub enum ParseIntError {
    /// The string is empty.
    Empty,
    /// A character is not a digit, or a sign stands alone.
    InvalidDigit,
    /// The number does not fit.
    PosOverflow,
}

/// Why an element is not the payload that was asked for.
#[derive(Debug)]
pub enum Error {
    /// The element breaks the payload's grammar; the message says where.
    ParseError(&'static str),
    /// An attribute that holds a number does not hold one.
    ParseIntError(ParseIntError),
    /// Text that holds base64 does not decode.
    Base64Error,
    /// Text that holds an address is not one; the message says why.
    JidParseError(String),
}

/// An error as a mathematical value.
pub enum ErrorView {
    ParseError(Seq<char>),
    ParseIntError(ParseIntError),
    Base64Error,
    JidParseError(Seq<char>),
}

impl View for Error {
    type V = ErrorView;

    open spec fn view(&self) -> ErrorView {
        match *self {
            Error::ParseError(m) => ErrorView::ParseError(m@),
            Error::ParseIntError(e) => ErrorView::ParseIntError(e),
            Error::Base64Error => ErrorView::Base64Error,
            Error::JidParseError(m) => ErrorView::JidParseError(m@),
        }
    }
}

/// The outcome of reading a payload, as a mathematical value.
pub open spec fn outcome<T: View>(r: Result<T, Error>) -> Result<T::V, ErrorView> {
    match r {
        Ok(v) => Ok(v@),
        Err(e) => Err(e@),
    }
}

impl ParseIntError {
    /// The error in words.
    pub fn description(&self) -> (r: &'static str)
        ensures
            r@ == match *self {
                ParseIntError::Empty => "cannot parse integer from empty string"@,
                ParseIntError::InvalidDigit => "invalid digit found in string"@,
                ParseIntError::PosOverflow => "number too large to fit in target type"@,
            },
    {
        match self {
            ParseIntError::Empty => "cannot parse integer from empty string",
            ParseIntError::InvalidDigit => "invalid digit found in string",
            ParseIntError::PosOverflow => "number too large to fit in target type",
        }
    }
}

} // verus!
