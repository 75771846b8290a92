//! The errors of name lookup and of scope handling.

use vstd::prelude::*;
use vstd::string::*;
use crate::error::{BasicError, ErrorType};

verus! {

/// A name that no binding was found for, and the scope it was sought in.
#[derive(Debug)]
pub struct GetVariableError {
    pub basic_error: BasicError,
    pub id: String,
    pub namespace: String,
}

impl Clone for GetVariableError {
    fn clone(&self) -> (r: Self)
        ensures
            r == *self,
    {
        GetVariableError {
            basic_error: self.basic_error.clone(),
            id: self.id.clone(),
            namespace: self.namespace.clone(),
        }
    }
}

impl GetVariableError {
    /// The lookup error for the name `id` in the scope `namespace`.
    pub fn new(basic_error: BasicError, id: String, namespace: String) -> (r: ErrorType)
        ensures
            r == ErrorType::GetVariableError(GetVariableError { basic_error, id, namespace }),
    {
        ErrorType::GetVariableError(GetVariableError { basic_error, id, namespace })
    }

    /// The printed form: the place, then the name and the scope.
    pub open spec fn message(&self) -> Seq<char> {
        self.basic_error.message() + ",\nError at getting variable:get "@ + self.id@ + " from "@
            + self.namespace@
    }

    /// Prints the error as [`GetVariableError::message`] says.
    pub fn to_string(&self) -> (s: String)
        ensures
            s@ == self.message(),
    {
        let mut s = self.basic_error.to_string();
        s.append(",\nError at getting variable:get ");
        s.append(self.id.as_str());
        s.append(" from ");
        s.append(self.namespace.as_str());
        s
    }
}

/// A name that could not be bound in a scope.
#[derive(Debug)]
pub struct SetVariableError {
    pub basic_error: BasicError,
    pub id: String,
    pub namespace: String,
}

impl Clone for SetVariableError {
    fn clone(&self) -> (r: Self)
        ensures
            r == *self,
    {
        SetVariableError {
            basic_error: self.basic_error.clone(),
            id: self.id.clone(),
            namespace: self.namespace.clone(),
        }
    }
}

impl SetVariableError {
    /// The binding error for the name `id` in the scope `namespace`.
    pub fn new(basic_error: BasicError, id: String, namespace: String) -> (r: ErrorType)
        ensures
            r == ErrorType::SetVariableError(SetVariableError { basic_error, id, namespace }),
    {
        ErrorType::SetVariableError(SetVariableError { basic_error, id, namespace })
    }

    /// The printed form: the place, then the name and the scope.
    pub open spec fn message(&self) -> Seq<char> {
        self.basic_error.message() + ",\nError at setting variable:set "@ + self.id@ + " in "@
            + self.namespace@
    }

    /// Prints the error as [`SetVariableError::message`] says.
    pub fn to_string(&self) -> (s: String)
        ensures
            s@ == self.message(),
    {
        let mut s = self.basic_error.to_string();
        s.append(",\nError at setting variable:set ");
        s.append(self.id.as_str());
        s.append(" in ");
        s.append(self.namespace.as_str());
        s
    }
}

/// A segment of a local-scope path that names no scope.
#[derive(Debug)]
pub struct NamespaceNotFound {
    pub basic_error: BasicError,
    pub namespace: String,
}

impl Clone for NamespaceNotFound {
    fn clone(&self) -> (r: Self)
        ensures
            r == *self,
    {
        NamespaceNotFound {
            basic_error: self.basic_error.clone(),
            namespace: self.namespace.clone(),
        }
    }
}

impl NamespaceNotFound {
    /// The error for the missing scope `namespace`.
    pub fn new(basic_error: BasicError, namespace: String) -> (r: ErrorType)
        ensures
            r == ErrorType::NamespaceNotFound(NamespaceNotFound { basic_error, namespace }),
    {
        ErrorType::NamespaceNotFound(NamespaceNotFound { basic_error, namespace })
    }

    /// The printed form: the place, then the scope that is missing.
    pub open spec fn message(&self) -> Seq<char> {
        self.basic_error.message() + ",\nError found namespace:"@ + self.namespace@
    }

    /// Prints the error as [`NamespaceNotFound::message`] says.
    pub fn to_string(&self) -> (s: String)
        ensures
            s@ == self.message(),
    {
        let mut s = self.basic_error.to_string();
        s.append(",\nError found namespace:");
        s.append(self.namespace.as_str());
        s
    }
}

/// A name that no enclosing scope of a nested scope binds.
#[derive(Debug)]
pub struct GetNonlocalVariableError {
    pub basic_error: BasicError,
    pub id: String,
    pub namespace: String,
}

impl Clone for GetNonlocalVariableError {
    fn clone(&self) -> (r: Self)
        ensures
            r == *self,
    {
        GetNonlocalVariableError {
            basic_error: self.basic_error.clone(),
            id: self.id.clone(),
            namespace: self.namespace.clone(),
        }
    }
}

impl GetNonlocalVariableError {
    /// The lookup error for the non-local name `id`, sought from `namespace`.
    pub fn new(basic_error: BasicError, id: String, namespace: String) -> (r: ErrorType)
        ensures
            r == ErrorType::GetNonlocalVariableError(
                GetNonlocalVariableError { basic_error, id, namespace },
            ),
    {
        ErrorType::GetNonlocalVariableError(GetNonlocalVariableError { basic_error, id, namespace })
    }

    /// The printed form: the place, then the name and the scope.
    pub open spec fn message(&self) -> Seq<char> {
        self.basic_error.message() + ",\nError at getting nonlocal variable:get "@ + self.id@
            + " from "@ + self.namespace@
    }

    /// Prints the error as [`GetNonlocalVariableError::message`] says.
    pub fn to_string(&self) -> (s: String)
        ensures
            s@ == self.message(),
    {
        let mut s = self.basic_error.to_string();
        s.append(",\nError at getting nonlocal variable:get ");
        s.append(self.id.as_str());
        s.append(" from ");
        s.append(self.namespace.as_str());
        s
    }
}

} // verus!
