//! Calling the methods of an object, and the conversions of an object to
//! a truth value and to text, which go through its methods.

use vstd::prelude::*;
use vstd::string::*;
use crate::core_type::{
    argument_data, get_obj_until_rust, is_native_result, native_outcome, obj_bool, object_of,
    payload_of, NativeOutcome,
};
use crate::data_type::{text_of, truth_of, DataType, DataTypeView};
use crate::error::object_error::{ObjBasicError, ObjMethodCallError, ObjMethodNotAttr};
use crate::error::{BasicError, ErrorType};
use crate::object::{
    Frame, PyObjBehaviors, PyObjBehaviorsView, PyObject, PyObjectView, PyResult, PyVariable,
};
use crate::table::{bind, bound, find, lemma_bound, lookup};

verus! {

/// Whether `r` is the error of a method that the object names but does not
/// implement, or does not name at all.
pub open spec fn is_not_implemented(r: PyResult, o: PyObjectView, method: Seq<char>) -> bool {
    r matches PyResult::Error(ErrorType::ObjMethodCallError(e)) && e.method@ == method
        && e.obj.identity@ == o.identity && e.obj.basic_error.blank()
}

/// How the call of a method ends.
pub enum CallOutcome {
    /// The object does not implement the method.
    NotImplemented,
    /// The method is an interpreted one.
    Interpreted,
    /// The method is a native one of the named type, under the given
    /// name, and ends as the native function does.
    Native(Seq<char>, Seq<char>, NativeOutcome),
}

/// How the call of the method `method` of the object `o` with the operand
/// `operand` ends. A native method is carried out on the object's own
/// native value.
pub open spec fn call_outcome(
    o: PyObjectView,
    method: Seq<char>,
    operand: Option<DataTypeView>,
) -> CallOutcome {
    if o.behaviors.dom().contains(method) {
        match o.behaviors[method] {
            PyObjBehaviorsView::Rust(b) => CallOutcome::Native(
                b.name,
                b.method,
                native_outcome(b.name, b.method, payload_of(o), operand),
            ),
            PyObjBehaviorsView::Interpreter(_) => CallOutcome::Interpreted,
            PyObjBehaviorsView::Nil => CallOutcome::NotImplemented,
        }
    } else {
        CallOutcome::NotImplemented
    }
}

/// Whether `r` is the result of calling the method `method` of the object
/// `o` with the operand `operand`.
///
/// A native method gives what the native function of its type gives. An
/// interpreted method cannot be carried out without an environment and is
/// an error here. A method that the object does not implement is an
/// error.
pub open spec fn is_call_result(
    r: PyResult,
    o: PyObjectView,
    method: Seq<char>,
    operand: Option<DataTypeView>,
) -> bool {
    match call_outcome(o, method, operand) {
        CallOutcome::Native(name, native, out) => is_native_result(r, out, name, native),
        CallOutcome::Interpreted => r matches PyResult::Error(ErrorType::ObjMethodNotAttr(e))
            && e.method@ == method && e.obj.identity@ == o.identity && e.obj.basic_error.blank(),
        CallOutcome::NotImplemented => is_not_implemented(r, o, method),
    }
}

/// The native value that a call gives, where it gives one.
pub open spec fn outcome_value(c: CallOutcome) -> Option<DataTypeView> {
    match c {
        CallOutcome::Native(_, _, NativeOutcome::Value(v)) => Some(v),
        _ => None,
    }
}

/// Whether a call ends with the error of a method that cannot be had:
/// one that the object does not implement, or a native one that failed.
pub open spec fn outcome_is_call_error(c: CallOutcome) -> bool {
    match c {
        CallOutcome::NotImplemented => true,
        CallOutcome::Native(_, _, NativeOutcome::Failed(_)) => true,
        CallOutcome::Native(_, _, NativeOutcome::WrongReceiver) => true,
        CallOutcome::Native(_, _, NativeOutcome::UnknownType) => true,
        _ => false,
    }
}

/// The truth value of an object.
///
/// That of a `bool` object is the flag it holds. Any other object is asked
/// by `__bool__`; where it does not have that method, by `__len__`, and a
/// length other than zero counts as true. There is no other way: an
/// object that answers neither has no truth value.
pub open spec fn object_truth(o: PyObjectView) -> Option<bool> {
    if o.identity == "bool"@ {
        match payload_of(o) {
            Some(d) => Some(truth_of(d)),
            None => None,
        }
    } else {
        let asked = call_outcome(o, "__bool__"@, None);
        match outcome_value(asked) {
            Some(v) => Some(truth_of(v)),
            None => if outcome_is_call_error(asked) {
                match outcome_value(call_outcome(o, "__len__"@, None)) {
                    Some(v) => Some(truth_of(v)),
                    None => None,
                }
            } else {
                None
            },
        }
    }
}

/// The text of an object.
///
/// That of a `str` object is the string it holds. Any other object is
/// asked by `__str__`. An object that gives no text is shown by its
/// identity.
pub open spec fn object_text(o: PyObjectView) -> Seq<char> {
    if o.identity == "str"@ && payload_of(o) is Some && payload_of(o).unwrap() is Str {
        text_of(payload_of(o).unwrap()).unwrap()
    } else {
        match outcome_value(call_outcome(o, "__str__"@, None)) {
            Some(v) => match text_of(v) {
                Ok(t) => t,
                Err(_) => o.identity,
            },
            None => o.identity,
        }
    }
}

/// The object of a native value holds that value.
pub proof fn lemma_payload_of_object(v: DataTypeView)
    ensures
        payload_of(object_of(v)) == Some(v),
{
    let pairs = seq![("x"@, crate::object::PyObjAttrView::Rust(v))];
    assert(pairs.drop_last() =~= Seq::empty());
    assert(crate::object::overlay(Map::empty(), pairs.drop_last()) == Map::<
        Seq<char>,
        crate::object::PyObjAttrView,
    >::empty());
}

/// The names `self` and `other` differ.
proof fn lemma_self_is_not_other()
    ensures
        "self"@ != "other"@,
{
    reveal_strlit("self");
    reveal_strlit("other");
    assert("self"@.len() != "other"@.len());
}

impl PyObject {
    /// The error for the method `method`, which the object does not
    /// implement.
    fn create_obj_call_error(&self, method: String) -> (r: ObjMethodCallError)
        ensures
            r.method == method,
            r.obj.identity == self.identity,
            r.obj.basic_error.blank(),
    {
        ObjMethodCallError {
            obj: ObjBasicError {
                identity: self.identity.clone(),
                basic_error: BasicError::default(),
            },
            method,
        }
    }

    /// Looks the method up and carries it out on the frame made of the
    /// receiver, bound to `self`, and the arguments `other`.
    fn inner_call(&self, behavior: String, other: Frame) -> (r: PyResult)
        ensures
            is_call_result(r, self@, behavior@, argument_data(other@, "other"@)),
    {
        match find(&self.behaviors, &behavior) {
            None => PyResult::Error(
                ErrorType::ObjMethodCallError(self.create_obj_call_error(behavior)),
            ),
            Some(i) => {
                match &self.behaviors[i].1 {
                    PyObjBehaviors::Interpreter(_) => PyResult::Error(
                        ErrorType::ObjMethodNotAttr(
                            ObjMethodNotAttr {
                                obj: ObjBasicError {
                                    identity: self.identity.clone(),
                                    basic_error: BasicError::default(),
                                },
                                method: behavior,
                            },
                        ),
                    ),
                    PyObjBehaviors::Rust(x) => {
                        let mut frame = other;
                        let receiver = PyVariable::Object(self.clone());
                        let key = String::from_str("self");
                        proof {
                            lemma_self_is_not_other();
                            lemma_bound(frame@, key, receiver, "other"@);
                        }
                        bind(&mut frame, key, receiver);
                        x.exec(&frame)
                    },
                    PyObjBehaviors::Nil => PyResult::Error(
                        ErrorType::ObjMethodCallError(self.create_obj_call_error(behavior)),
                    ),
                }
            },
        }
    }

    /// Calls the method `behavior` with the arguments `other`. The object
    /// itself is left as it was.
    pub fn call(&mut self, behavior: String, other: Frame) -> (r: PyResult)
        ensures
            *final(self) == *old(self),
            is_call_result(r, old(self)@, behavior@, argument_data(other@, "other"@)),
    {
        self.inner_call(behavior, other)
    }

    /// Names the arguments `value` of a call of `method` by the parameters
    /// of the method, which follow its first one, the receiver. Gives
    /// `None` where the method is not a native one, or takes another
    /// number of arguments.
    pub fn convert_vec_to_hashmap(&self, method: &String, value: Vec<PyVariable>) -> (r: Option<
        Frame,
    >)
        ensures
            match lookup(self.behaviors@, method@) {
                Some(PyObjBehaviors::Rust(b)) => if b.args@.len() == value@.len() + 1 {
                    r matches Some(frame) && frame@.len() == value@.len() && (forall|i: int|
                        0 <= i < value@.len() ==> (#[trigger] frame@[i]).0@ == b.args@[i + 1]@
                            && frame@[i].1@ == value@[i]@)
                } else {
                    r is None
                },
                _ => r is None,
            },
    {
        let i = match find(&self.behaviors, method) {
            Some(i) => i,
            None => {
                return None;
            },
        };
        match &self.behaviors[i].1 {
            PyObjBehaviors::Rust(b) => {
                if b.args.len() == 0 || b.args.len() - 1 != value.len() {
                    return None;
                }
                let mut frame: Frame = Vec::new();
                let mut k: usize = 0;
                while k < value.len()
                    invariant
                        k <= value.len(),
                        b.args@.len() == value@.len() + 1,
                        frame@.len() == k,
                        forall|j: int|
                            0 <= j < k ==> (#[trigger] frame@[j]).0@ == b.args@[j + 1]@
                                && frame@[j].1@ == value@[j]@,
                    decreases value.len() - k,
                {
                    frame.push((b.args[k + 1].clone(), value[k].clone()));
                    k += 1;
                }
                Some(frame)
            },
            _ => None,
        }
    }

    /// Calls `__init__` with the arguments `args`.
    pub fn init(&mut self, args: Frame) -> (r: PyResult)
        ensures
            *final(self) == *old(self),
            is_call_result(r, old(self)@, "__init__"@, argument_data(args@, "other"@)),
    {
        self.call(String::from_str("__init__"), args)
    }

    /// Calls `__add__`.
    pub fn add(&mut self, other: Frame) -> (r: PyResult)
        ensures
            *final(self) == *old(self),
            is_call_result(r, old(self)@, "__add__"@, argument_data(other@, "other"@)),
    {
        self.call(String::from_str("__add__"), other)
    }

    /// Calls `__sub__`.
    pub fn sub(&mut self, other: Frame) -> (r: PyResult)
        ensures
            *final(self) == *old(self),
            is_call_result(r, old(self)@, "__sub__"@, argument_data(other@, "other"@)),
    {
        self.call(String::from_str("__sub__"), other)
    }

    /// Calls `__mult__`.
    pub fn mul(&mut self, other: Frame) -> (r: PyResult)
        ensures
            *final(self) == *old(self),
            is_call_result(r, old(self)@, "__mult__"@, argument_data(other@, "other"@)),
    {
        self.call(String::from_str("__mult__"), other)
    }

    /// Calls `__div__`.
    pub fn div(&mut self, other: Frame) -> (r: PyResult)
        ensures
            *final(self) == *old(self),
            is_call_result(r, old(self)@, "__div__"@, argument_data(other@, "other"@)),
    {
        self.call(String::from_str("__div__"), other)
    }

    /// Calls `__lt__`.
    pub fn lt(&mut self, other: Frame) -> (r: PyResult)
        ensures
            *final(self) == *old(self),
            is_call_result(r, old(self)@, "__lt__"@, argument_data(other@, "other"@)),
    {
        self.call(String::from_str("__lt__"), other)
    }

    /// Calls `__gt__`.
    pub fn gt(&mut self, other: Frame) -> (r: PyResult)
        ensures
            *final(self) == *old(self),
            is_call_result(r, old(self)@, "__gt__"@, argument_data(other@, "other"@)),
    {
        self.call(String::from_str("__gt__"), other)
    }

    /// Calls `__eq__`.
    pub fn py_eq(&mut self, other: Frame) -> (r: PyResult)
        ensures
            *final(self) == *old(self),
            is_call_result(r, old(self)@, "__eq__"@, argument_data(other@, "other"@)),
    {
        self.call(String::from_str("__eq__"), other)
    }

    /// Calls `__ne__`.
    pub fn py_ne(&mut self, other: Frame) -> (r: PyResult)
        ensures
            *final(self) == *old(self),
            is_call_result(r, old(self)@, "__ne__"@, argument_data(other@, "other"@)),
    {
        self.call(String::from_str("__ne__"), other)
    }

    /// Calls `__ge__`.
    pub fn ge(&mut self, other: Frame) -> (r: PyResult)
        ensures
            *final(self) == *old(self),
            is_call_result(r, old(self)@, "__ge__"@, argument_data(other@, "other"@)),
    {
        self.call(String::from_str("__ge__"), other)
    }

    /// Calls `__le__`.
    pub fn le(&mut self, other: Frame) -> (r: PyResult)
        ensures
            *final(self) == *old(self),
            is_call_result(r, old(self)@, "__le__"@, argument_data(other@, "other"@)),
    {
        self.call(String::from_str("__le__"), other)
    }

    /// Calls the method `method`, which takes no operand.
    fn call_unary(&mut self, method: &str) -> (r: PyResult)
        ensures
            *final(self) == *old(self),
            is_call_result(r, old(self)@, method@, None),
    {
        let other: Frame = Vec::new();
        self.call(String::from_str(method), other)
    }

    /// Calls `__neg__`.
    pub fn neg(&mut self) -> (r: PyResult)
        ensures
            *final(self) == *old(self),
            is_call_result(r, old(self)@, "__neg__"@, None),
    {
        self.call_unary("__neg__")
    }

    /// Calls `__pos__`.
    pub fn pos(&mut self) -> (r: PyResult)
        ensures
            *final(self) == *old(self),
            is_call_result(r, old(self)@, "__pos__"@, None),
    {
        self.call_unary("__pos__")
    }

    /// Calls `__bool__`.
    pub fn bool(&mut self) -> (r: PyResult)
        ensures
            *final(self) == *old(self),
            is_call_result(r, old(self)@, "__bool__"@, None),
    {
        self.call_unary("__bool__")
    }

    /// Calls `__len__`.
    pub fn len(&mut self) -> (r: PyResult)
        ensures
            *final(self) == *old(self),
            is_call_result(r, old(self)@, "__len__"@, None),
    {
        self.call_unary("__len__")
    }

    /// Calls `__str__`.
    pub fn str(&mut self) -> (r: PyResult)
        ensures
            *final(self) == *old(self),
            is_call_result(r, old(self)@, "__str__"@, None),
    {
        self.call_unary("__str__")
    }
}

/// The error of an object that has no truth value.
fn conversion_error(obj: &PyObject) -> (r: ErrorType)
    ensures
        r matches ErrorType::ObjBasicError(e) && e.identity@ == obj.identity@
            && e.basic_error.blank(),
{
    ErrorType::ObjBasicError(
        ObjBasicError { identity: obj.identity.clone(), basic_error: BasicError::default() },
    )
}

/// The truth value of the native value that an object which a native
/// function made holds.
fn native_truth(made: &PyObject, Ghost(v): Ghost<DataTypeView>) -> (r: bool)
    requires
        made@ == object_of(v),
    ensures
        r == truth_of(v),
{
    proof {
        lemma_payload_of_object(v);
    }
    match get_obj_until_rust(made) {
        Some(d) => d.bool(),
        None => false,
    }
}

/// The truth value of an object, as [`object_truth`] says; the error names
/// an object that has none.
pub fn obj_to_bool(obj: PyObject) -> (r: Result<bool, ErrorType>)
    ensures
        match object_truth(obj@) {
            Some(b) => r matches Ok(x) && x == b,
            None => r matches Err(ErrorType::ObjBasicError(e)) && e.identity@ == obj.identity@
                && e.basic_error.blank(),
        },
{
    let mut obj = obj;
    if crate::text::str_is(&obj.identity, "bool") {
        return match get_obj_until_rust(&obj) {
            Some(d) => Ok(d.bool()),
            None => Err(conversion_error(&obj)),
        };
    }
    let ghost asked = call_outcome(obj@, "__bool__"@, None);
    match obj.bool() {
        PyResult::Value(x) => Ok(native_truth(&x, Ghost(outcome_value(asked).unwrap()))),
        PyResult::Error(ErrorType::ObjMethodCallError(_)) => {
            let ghost length = call_outcome(obj@, "__len__"@, None);
            match obj.len() {
                PyResult::Value(y) => Ok(
                    native_truth(&y, Ghost(outcome_value(length).unwrap())),
                ),
                _ => Err(conversion_error(&obj)),
            }
        },
        _ => Err(conversion_error(&obj)),
    }
}

/// The text of an object, as [`object_text`] says.
pub fn obj_to_str(obj: PyObject) -> (r: String)
    ensures
        r@ == object_text(obj@),
{
    let mut obj = obj;
    if crate::text::str_is(&obj.identity, "str") {
        match get_obj_until_rust(&obj) {
            Some(DataType::Str(s)) => {
                return s;
            },
            _ => {},
        }
    }
    let ghost asked = call_outcome(obj@, "__str__"@, None);
    match obj.str() {
        PyResult::Value(x) => {
            proof {
                lemma_payload_of_object(outcome_value(asked).unwrap());
            }
            match get_obj_until_rust(&x) {
                Some(d) => match d.str() {
                    Ok(t) => t,
                    Err(_) => obj.identity.clone(),
                },
                None => obj.identity.clone(),
            }
        },
        _ => obj.identity.clone(),
    }
}

impl PyObject {
    /// The object of the opposite of the object's truth value.
    pub fn not(&mut self) -> (r: PyResult)
        ensures
            *final(self) == *old(self),
            match object_truth(old(self)@) {
                Some(b) => r matches PyResult::Value(o) && o@ == object_of(DataTypeView::Bool(!b)),
                None => r matches PyResult::Error(ErrorType::ObjBasicError(e)) && e.identity@
                    == old(self).identity@ && e.basic_error.blank(),
            },
    {
        match obj_to_bool(self.clone()) {
            Ok(b) => PyResult::Value(obj_bool(!b)),
            Err(e) => PyResult::Error(e),
        }
    }
}

} // verus!
