//! The errors of the object model: a method that an object does not have,
//! and an attribute of the wrong kind.

use vstd::prelude::*;
use vstd::string::*;
use crate::error::BasicError;

verus! {

/// An error about one object, named by its identity.
#[derive(Debug)]
pub struct ObjBasicError {
    pub identity: String,
    pub basic_error: BasicError,
}

impl Default for ObjBasicError {
    fn default() -> (r: Self)
        ensures
            r.identity@ == Seq::<char>::empty(),
            r.basic_error.lexeme@ == Seq::<char>::empty(),
            r.basic_error.col_offset == 0,
            r.basic_error.lineno == 0,
    {
        ObjBasicError { identity: String::new(), basic_error: BasicError::default() }
    }
}

impl Clone for ObjBasicError {
    fn clone(&self) -> (r: Self)
        ensures
            r == *self,
    {
        ObjBasicError { identity: self.identity.clone(), basic_error: self.basic_error.clone() }
    }
}

impl ObjBasicError {
    /// Sets the object's identity and hands back a copy of the updated error.
    pub fn identity(&mut self, identity: String) -> (r: Self)
        ensures
            *final(self) == (ObjBasicError { identity, ..*old(self) }),
            r == *final(self),
    {
        self.identity = identity;
        self.clone()
    }

    /// Sets the place and hands back a copy of the updated error.
    pub fn basic_error(&mut self, basic_error: BasicError) -> (r: Self)
        ensures
            *final(self) == (ObjBasicError { basic_error, ..*old(self) }),
            r == *final(self),
    {
        self.basic_error = basic_error;
        self.clone()
    }

    /// The printed form: the place, then the object's identity.
    pub open spec fn message(&self) -> Seq<char> {
        self.basic_error.message() + ",\n object:"@ + self.identity@
    }

    /// Prints the error as [`ObjBasicError::message`] says.
    pub fn to_string(&self) -> (s: String)
        ensures
            s@ == self.message(),
    {
        let mut s = self.basic_error.to_string();
        s.append(",\n object:");
        s.append(self.identity.as_str());
        s
    }
}

/// A method that was called on an object whose identity does not define it.
#[derive(Debug)]
pub struct ObjMethodCallError {
    pub obj: ObjBasicError,
    pub method: String,
}

impl Default for ObjMethodCallError {
    fn default() -> (r: Self)
        ensures
            r.method@ == Seq::<char>::empty(),
            r.obj.identity@ == Seq::<char>::empty(),
            r.obj.basic_error.lexeme@ == Seq::<char>::empty(),
            r.obj.basic_error.col_offset == 0,
            r.obj.basic_error.lineno == 0,
    {
        ObjMethodCallError { obj: ObjBasicError::default(), method: String::new() }
    }
}

impl Clone for ObjMethodCallError {
    fn clone(&self) -> (r: Self)
        ensures
            r == *self,
    {
        ObjMethodCallError { obj: self.obj.clone(), method: self.method.clone() }
    }
}

impl ObjMethodCallError {
    /// Sets the object and hands back a copy of the updated error.
    pub fn obj(&mut self, obj_basic_error: ObjBasicError) -> (r: Self)
        ensures
            *final(self) == (ObjMethodCallError { obj: obj_basic_error, ..*old(self) }),
            r == *final(self),
    {
        self.obj = obj_basic_error;
        self.clone()
    }

    /// Sets the method's name and hands back a copy of the updated error.
    pub fn method(&mut self, method: String) -> (r: Self)
        ensures
            *final(self) == (ObjMethodCallError { method, ..*old(self) }),
            r == *final(self),
    {
        self.method = method;
        self.clone()
    }

    /// The printed form: the object, then the method.
    pub open spec fn message(&self) -> Seq<char> {
        self.obj.message() + ",at method call:"@ + self.method@
    }

    /// Prints the error as [`ObjMethodCallError::message`] says.
    pub fn to_string(&self) -> (s: String)
        ensures
            s@ == self.message(),
    {
        let mut s = self.obj.to_string();
        s.append(",at method call:");
        s.append(self.method.as_str());
        s
    }
}

/// A method that exists on the object but cannot be called.
#[derive(Debug)]
pub struct ObjMethodNotAttr {
    pub obj: ObjBasicError,
    pub method: String,
}

impl Clone for ObjMethodNotAttr {
    fn clone(&self) -> (r: Self)
        ensures
            r == *self,
    {
        ObjMethodNotAttr { obj: self.obj.clone(), method: self.method.clone() }
    }
}

impl ObjMethodNotAttr {
    /// The printed form: the object, then the method.
    pub open spec fn message(&self) -> Seq<char> {
        self.obj.message() + ",method is not callable:"@ + self.method@
    }

    /// Prints the error as [`ObjMethodNotAttr::message`] says.
    pub fn to_string(&self) -> (s: String)
        ensures
            s@ == self.message(),
    {
        let mut s = self.obj.to_string();
        s.append(",method is not callable:");
        s.append(self.method.as_str());
        s
    }
}

/// An attribute that exists on the object but holds no native value.
#[derive(Debug)]
pub struct ObjDataTypeNotAttr {
    pub obj: ObjBasicError,
    pub attr: String,
}

impl Clone for ObjDataTypeNotAttr {
    fn clone(&self) -> (r: Self)
        ensures
            r == *self,
    {
        ObjDataTypeNotAttr { obj: self.obj.clone(), attr: self.attr.clone() }
    }
}

impl ObjDataTypeNotAttr {
    /// The printed form: the object, then the attribute.
    pub open spec fn message(&self) -> Seq<char> {
        self.obj.message() + ",attribute holds no native value:"@ + self.attr@
    }

    /// Prints the error as [`ObjDataTypeNotAttr::message`] says.
    pub fn to_string(&self) -> (s: String)
        ensures
            s@ == self.message(),
    {
        let mut s = self.obj.to_string();
        s.append(",attribute holds no native value:");
        s.append(self.attr.as_str());
        s
    }
}

} // verus!
