//! The errors that lexing, parsing, name lookup and method dispatch report.
//!
//! Every error carries a [`BasicError`]: the zero-based line and column of
//! the offending token and its text. Reports print both one-based.

use vstd::prelude::*;
use vstd::string::*;
use crate::text::{decimal_digits, u128_to_string};
use crate::error::environment::{
    GetNonlocalVariableError, GetVariableError, NamespaceNotFound, SetVariableError,
};
use crate::error::object_error::{
    ObjBasicError, ObjDataTypeNotAttr, ObjMethodCallError, ObjMethodNotAttr,
};
use crate::error::parser_error::ParserError;

pub mod environment;
pub mod object_error;
pub mod parser_error;

verus! {

/// Where an error arose: a zero-based line and column, and the text found there.
#[derive(Debug)]
pub struct BasicError {
    pub lexeme: String,
    pub col_offset: u64,
    pub lineno: u64,
}

impl Default for BasicError {
    fn default() -> (r: Self)
        ensures
            r.lexeme@ == Seq::<char>::empty(),
            r.col_offset == 0,
            r.lineno == 0,
    {
        BasicError { lexeme: String::new(), col_offset: 0, lineno: 0 }
    }
}

impl Clone for BasicError {
    fn clone(&self) -> (r: Self)
        ensures
            r == *self,
    {
        BasicError {
            lexeme: self.lexeme.clone(),
            col_offset: self.col_offset,
            lineno: self.lineno,
        }
    }
}

impl BasicError {
    /// Sets the offending text and hands back a copy of the updated error.
    pub fn lexeme(&mut self, s: String) -> (r: Self)
        ensures
            *final(self) == (BasicError { lexeme: s, ..*old(self) }),
            r == *final(self),
    {
        self.lexeme = s;
        self.clone()
    }

    /// Sets the column and hands back a copy of the updated error.
    pub fn col_offset(&mut self, col_offset: u64) -> (r: Self)
        ensures
            *final(self) == (BasicError { col_offset, ..*old(self) }),
            r == *final(self),
    {
        self.col_offset = col_offset;
        self.clone()
    }

    /// Sets the line and hands back a copy of the updated error.
    pub fn lineno(&mut self, lineno: u64) -> (r: Self)
        ensures
            *final(self) == (BasicError { lineno, ..*old(self) }),
            r == *final(self),
    {
        self.lineno = lineno;
        self.clone()
    }

    /// The printed form: `Error at L:C`, line and column counted from one.
    /// Whether the error carries no place in a program: its line and its
    /// column are the first.
    pub open spec fn unplaced(&self) -> bool {
        self.lineno == 0 && self.col_offset == 0
    }

    /// Whether the error carries neither a place nor a word.
    pub open spec fn blank(&self) -> bool {
        self.unplaced() && self.lexeme@ == Seq::<char>::empty()
    }

    pub open spec fn message(&self) -> Seq<char> {
        "Error at "@ + decimal_digits((self.lineno + 1) as nat) + ":"@ + decimal_digits(
            (self.col_offset + 1) as nat,
        )
    }

    /// Prints the error as [`BasicError::message`] says.
    pub fn to_string(&self) -> (s: String)
        ensures
            s@ == self.message(),
    {
        let mut s = String::from_str("Error at ");
        let line = u128_to_string(self.lineno as u128 + 1);
        s.append(line.as_str());
        s.append(":");
        let col = u128_to_string(self.col_offset as u128 + 1);
        s.append(col.as_str());
        s
    }
}

/// Every error of the library, by kind.
#[derive(Debug)]
pub enum ErrorType {
    BasicError(BasicError),
    ObjBasicError(ObjBasicError),
    ObjMethodCallError(ObjMethodCallError),
    ParserError(ParserError),
    GetVariableError(GetVariableError),
    SetVariableError(SetVariableError),
    GetNonlocalVariableError(GetNonlocalVariableError),
    NamespaceNotFound(NamespaceNotFound),
    ObjMethodNotAttr(ObjMethodNotAttr),
    ObjDatatypeNotAttr(ObjDataTypeNotAttr),
}

impl Clone for ErrorType {
    fn clone(&self) -> (r: Self)
        ensures
            r == *self,
    {
        match self {
            ErrorType::BasicError(x) => ErrorType::BasicError(x.clone()),
            ErrorType::ObjBasicError(x) => ErrorType::ObjBasicError(x.clone()),
            ErrorType::ObjMethodCallError(x) => ErrorType::ObjMethodCallError(x.clone()),
            ErrorType::ParserError(x) => ErrorType::ParserError(x.clone()),
            ErrorType::GetVariableError(x) => ErrorType::GetVariableError(x.clone()),
            ErrorType::SetVariableError(x) => ErrorType::SetVariableError(x.clone()),
            ErrorType::GetNonlocalVariableError(x) => ErrorType::GetNonlocalVariableError(
                x.clone(),
            ),
            ErrorType::NamespaceNotFound(x) => ErrorType::NamespaceNotFound(x.clone()),
            ErrorType::ObjMethodNotAttr(x) => ErrorType::ObjMethodNotAttr(x.clone()),
            ErrorType::ObjDatatypeNotAttr(x) => ErrorType::ObjDatatypeNotAttr(x.clone()),
        }
    }
}

impl ErrorType {
    /// The printed form of the error: that of the variant it holds.
    pub open spec fn message(&self) -> Seq<char> {
        match self {
            ErrorType::BasicError(x) => x.message(),
            ErrorType::ObjBasicError(x) => x.message(),
            ErrorType::ObjMethodCallError(x) => x.message(),
            ErrorType::ParserError(x) => x.message(),
            ErrorType::GetVariableError(x) => x.message(),
            ErrorType::SetVariableError(x) => x.message(),
            ErrorType::GetNonlocalVariableError(x) => x.message(),
            ErrorType::NamespaceNotFound(x) => x.message(),
            ErrorType::ObjMethodNotAttr(x) => x.message(),
            ErrorType::ObjDatatypeNotAttr(x) => x.message(),
        }
    }

    /// Prints the error as [`ErrorType::message`] says.
    pub fn to_string(&self) -> (s: String)
        ensures
            s@ == self.message(),
    {
        match self {
            ErrorType::BasicError(x) => x.to_string(),
            ErrorType::ObjBasicError(x) => x.to_string(),
            ErrorType::ObjMethodCallError(x) => x.to_string(),
            ErrorType::ParserError(x) => x.to_string(),
            ErrorType::GetVariableError(x) => x.to_string(),
            ErrorType::SetVariableError(x) => x.to_string(),
            ErrorType::GetNonlocalVariableError(x) => x.to_string(),
            ErrorType::NamespaceNotFound(x) => x.to_string(),
            ErrorType::ObjMethodNotAttr(x) => x.to_string(),
            ErrorType::ObjDatatypeNotAttr(x) => x.to_string(),
        }
    }

    /// The place that the error reports.
    pub open spec fn place(&self) -> BasicError {
        match self {
            ErrorType::BasicError(x) => *x,
            ErrorType::ObjBasicError(x) => x.basic_error,
            ErrorType::ObjMethodCallError(x) => x.obj.basic_error,
            ErrorType::ParserError(x) => x.basic_error,
            ErrorType::GetVariableError(x) => x.basic_error,
            ErrorType::SetVariableError(x) => x.basic_error,
            ErrorType::GetNonlocalVariableError(x) => x.basic_error,
            ErrorType::NamespaceNotFound(x) => x.basic_error,
            ErrorType::ObjMethodNotAttr(x) => x.obj.basic_error,
            ErrorType::ObjDatatypeNotAttr(x) => x.obj.basic_error,
        }
    }
}

} // verus!
