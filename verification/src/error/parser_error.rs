//! The error of the parser: an unexpected or a missing token.

use vstd::prelude::*;
use vstd::string::*;
use crate::error::{BasicError, ErrorType};

verus! {

/// A grammar violation, at the token that caused it.
#[derive(Debug)]
pub struct ParserError {
    pub basic_error: BasicError,
}

impl Clone for ParserError {
    fn clone(&self) -> (r: Self)
        ensures
            r == *self,
    {
        ParserError { basic_error: self.basic_error.clone() }
    }
}

impl ParserError {
    /// The parse error at the place `basic_error`.
    pub fn new(basic_error: BasicError) -> (r: ErrorType)
        ensures
            r == ErrorType::ParserError(ParserError { basic_error }),
    {
        ErrorType::ParserError(ParserError { basic_error })
    }

    /// The printed form: the place, then `Error at parser` on a line of its own.
    pub open spec fn message(&self) -> Seq<char> {
        self.basic_error.message() + ",\nError at parser"@
    }

    /// Prints the error as [`ParserError::message`] says.
    pub fn to_string(&self) -> (s: String)
        ensures
            s@ == self.message(),
    {
        let mut s = self.basic_error.to_string();
        s.append(",\nError at parser");
        s
    }
}

} // verus!
