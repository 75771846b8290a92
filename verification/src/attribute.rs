//! The attributes of an object: native values held in place, and other
//! objects, which are held in the variable pool and referred to by their
//! identifiers.

use vstd::prelude::*;
use vstd::string::*;
use crate::data_type::DataType;
use crate::error::object_error::ObjBasicError;
use crate::error::{BasicError, ErrorType};
use crate::namespace::PyNamespace;
use crate::object::{
    lemma_attr_bound, PyObjAttr, PyObjAttrView, PyObject, PyVariable, PyVariableView,
};
use crate::pool::stores;
use crate::table::{bind, find};

verus! {

impl PyObject {
    /// Stores the object `value` in the pool of `env` and makes the
    /// attribute `id` refer to it.
    pub fn set_attr(&mut self, id: String, value: PyObject, env: &mut PyNamespace) -> (uuid: u128)
        requires
            old(env).wf(),
        ensures
            stores(old(env).variable_pool, value@, final(env).variable_pool, uuid),
            final(env).builtin_namespace == old(env).builtin_namespace,
            final(env).global_namespace == old(env).global_namespace,
            final(env).enclosing_namespace == old(env).enclosing_namespace,
            final(self).identity == old(self).identity,
            final(self).behaviors == old(self).behaviors,
            final(self)@.attr == old(self)@.attr.insert(id@, PyObjAttrView::Interpreter(uuid)),
    {
        let uuid = env.variable_pool.store_new_value(value);
        proof {
            lemma_attr_bound(self.attr@, id, PyObjAttr::Interpreter(uuid));
        }
        bind(&mut self.attr, id, PyObjAttr::Interpreter(uuid));
        uuid
    }

    /// Makes the attribute `id` hold the native value `value`.
    pub fn set_attr_data_type(&mut self, id: String, value: DataType)
        ensures
            final(self).identity == old(self).identity,
            final(self).behaviors == old(self).behaviors,
            final(self)@.attr == old(self)@.attr.insert(id@, PyObjAttrView::Rust(value@)),
    {
        proof {
            lemma_attr_bound(self.attr@, id, PyObjAttr::Rust(value));
        }
        bind(&mut self.attr, id, PyObjAttr::Rust(value));
    }

    /// What the attribute `id` holds: the pooled object that it refers to,
    /// or its native value. An error names the object where it has no
    /// such attribute, where the attribute holds nothing, or where the
    /// pool does not hold the object referred to.
    pub fn get_attr(&self, id: String, env: &PyNamespace) -> (r: Result<PyVariable, ErrorType>)
        requires
            env.wf(),
        ensures
            match r {
                Ok(v) => self@.attr.dom().contains(id@) && (match self@.attr[id@] {
                    PyObjAttrView::Interpreter(uuid) => env.value_of(uuid) is Some && v@
                        == PyVariableView::Object(env.value_of(uuid).unwrap()),
                    PyObjAttrView::Rust(d) => v@ == PyVariableView::DataType(d),
                    PyObjAttrView::Nil => false,
                }),
                Err(e) => (e matches ErrorType::ObjBasicError(b) && b.identity@ == self.identity@
                    && b.basic_error.blank())
                    && (self@.attr.dom().contains(id@) ==> (match self@.attr[id@] {
                    PyObjAttrView::Interpreter(uuid) => env.value_of(uuid) is None,
                    PyObjAttrView::Rust(_) => false,
                    PyObjAttrView::Nil => true,
                })),
            },
    {
        let found = match find(&self.attr, &id) {
            Some(i) => match &self.attr[i].1 {
                PyObjAttr::Interpreter(uuid) => match env.variable_pool.get_value(*uuid) {
                    Some(o) => Some(PyVariable::Object(o)),
                    None => None,
                },
                PyObjAttr::Rust(d) => Some(PyVariable::DataType(d.clone())),
                PyObjAttr::Nil => None,
            },
            None => None,
        };
        match found {
            Some(v) => Ok(v),
            None => Err(
                ErrorType::ObjBasicError(
                    ObjBasicError {
                        identity: self.identity.clone(),
                        basic_error: BasicError::default(),
                    },
                ),
            ),
        }
    }
}

} // verus!
