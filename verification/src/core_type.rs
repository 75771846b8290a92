//! The built-in types `int`, `float`, `bool` and `str`: how their objects
//! are made, and the native functions that carry out their methods.
//!
//! Dispatch has two levels. An object's identity selects the native
//! function of its type; that function selects by the method's name. The
//! ten binary methods are common to the four types and go by the kinds of
//! the two operands; the others belong to one type each.

use vstd::prelude::*;
use vstd::string::*;
use crate::data_type::{
    compare_values, difference_of, product_of, quotient_of, sum_of, text_of, truth_of, CalcError,
    CompareResult, DataType, DataTypeView,
};
use crate::error::object_error::{ObjBasicError, ObjDataTypeNotAttr, ObjMethodCallError};
use crate::error::{BasicError, ErrorType};
use crate::object::{
    attr_pairs, behavior_pairs, default_behaviors, names_of, overlay, Frame, PyObjAttr,
    PyObjAttrView, PyObjBehaviors, PyObjBehaviorsView, PyObject, PyObjectView, PyResult,
    PyVariable, RustObjBehavior, RustObjBehaviorView,
};
use crate::table::{find, lookup};
use crate::text::{i64_to_string, signed_decimal, str_is};

verus! {

/// The names of the binary methods, which every built-in type has.
pub open spec fn binary_names() -> Seq<Seq<char>> {
    seq![
        "__add__"@,
        "__sub__"@,
        "__mult__"@,
        "__div__"@,
        "__eq__"@,
        "__lt__"@,
        "__gt__"@,
        "__ne__"@,
        "__le__"@,
        "__ge__"@,
    ]
}

/// Whether the error `e` reports arithmetic on a number with a decimal
/// point, which is left to the host: the error of a method that failed
/// for that reason, or of a method of the type `float`.
pub fn asks_for_decimals(e: &ErrorType) -> (r: bool)
    ensures
        r == (e matches ErrorType::ObjMethodCallError(x) && (x.obj.basic_error.lexeme@ == reason(
            CalcError::FloatArithmetic,
        ) || x.obj.identity@ == "float"@)),
{
    match e {
        ErrorType::ObjMethodCallError(x) => str_is(&x.obj.basic_error.lexeme, "float arithmetic")
            || str_is(&x.obj.identity, "float"),
        _ => false,
    }
}

/// Whether `method` is one of the binary methods.
pub open spec fn is_binary(method: Seq<char>) -> bool {
    method == "__add__"@ || method == "__sub__"@ || method == "__mult__"@ || method == "__div__"@
        || method == "__eq__"@ || method == "__lt__"@ || method == "__gt__"@ || method
        == "__ne__"@ || method == "__le__"@ || method == "__ge__"@
}

/// The names of the parameters of a binary method.
pub open spec fn binary_params() -> Seq<Seq<char>> {
    seq!["self"@, "other"@]
}

/// The name of the built-in type of a native value.
pub open spec fn kind_name(v: DataTypeView) -> Seq<char> {
    match v {
        DataTypeView::Int(_) => "int"@,
        DataTypeView::Float(_) => "float"@,
        DataTypeView::Bool(_) => "bool"@,
        DataTypeView::Str(_) => "str"@,
        DataTypeView::List(_) => "list"@,
        DataTypeView::Nil => "NoneType"@,
    }
}

/// The names of the methods that belong to the type of a native value
/// alone.
pub open spec fn own_names(v: DataTypeView) -> Seq<Seq<char>> {
    match v {
        DataTypeView::Int(_) => seq!["__bool__"@, "__neg__"@, "__pos__"@, "__str__"@],
        DataTypeView::Float(_) => seq!["__bool__"@, "__str__"@],
        DataTypeView::Bool(_) => seq!["__bool__"@, "__neg__"@, "__pos__"@, "__str__"@],
        DataTypeView::Str(_) => seq!["__len__"@],
        DataTypeView::List(_) => seq!["__len__"@],
        DataTypeView::Nil => Seq::empty(),
    }
}

/// The entries that bind each of `methods` to the native function of the
/// type `name`, with the parameters `args`.
pub open spec fn method_pairs(name: Seq<char>, methods: Seq<Seq<char>>, args: Seq<Seq<char>>) -> Seq<
    (Seq<char>, PyObjBehaviorsView),
> {
    methods.map_values(
        |m: Seq<char>|
            (m, PyObjBehaviorsView::Rust(RustObjBehaviorView { name, method: m, args })),
    )
}

/// The object of a built-in type that holds the native value `v`: its
/// identity is the type's name, its attribute `x` holds `v`, and its
/// methods are the default ones, then the binary ones and the type's own,
/// native.
pub open spec fn object_of(v: DataTypeView) -> PyObjectView {
    PyObjectView {
        attr: overlay(Map::empty(), seq![("x"@, PyObjAttrView::Rust(v))]),
        behaviors: overlay(
            default_behaviors(),
            method_pairs(kind_name(v), binary_names(), binary_params()) + method_pairs(
                kind_name(v),
                own_names(v),
                Seq::empty(),
            ),
        ),
        identity: kind_name(v),
    }
}

/// The entry that binds `method` to the native function of the type
/// `name`, with the parameters `args`.
pub fn build_rust_method(name: String, method: String, args: Vec<String>) -> (r: (
    String,
    PyObjBehaviors,
))
    ensures
        r.0@ == method@,
        r.1@ == PyObjBehaviorsView::Rust(
            RustObjBehaviorView { name: name@, method: method@, args: names_of(args@) },
        ),
{
    (method.clone(), PyObjBehaviors::Rust(Box::new(RustObjBehavior { name, method, args })))
}

/// The entries of the binary methods for the type `name`.
fn binary_methods(name: &str) -> (r: Vec<(String, PyObjBehaviors)>)
    ensures
        behavior_pairs(r@) == method_pairs(name@, binary_names(), binary_params()),
{
    let mut r: Vec<(String, PyObjBehaviors)> = Vec::new();
    r.push(own_method(name, "__add__", true));
    r.push(own_method(name, "__sub__", true));
    r.push(own_method(name, "__mult__", true));
    r.push(own_method(name, "__div__", true));
    r.push(own_method(name, "__eq__", true));
    r.push(own_method(name, "__lt__", true));
    r.push(own_method(name, "__gt__", true));
    r.push(own_method(name, "__ne__", true));
    r.push(own_method(name, "__le__", true));
    r.push(own_method(name, "__ge__", true));
    assert(behavior_pairs(r@) =~= method_pairs(name@, binary_names(), binary_params()));
    r
}

/// The entry of one native method of the type `name`: binary, with the
/// parameters `self` and `other`, or without parameters.
fn own_method(name: &str, method: &str, binary: bool) -> (r: (String, PyObjBehaviors))
    ensures
        r.0@ == method@,
        r.1@ == PyObjBehaviorsView::Rust(
            RustObjBehaviorView {
                name: name@,
                method: method@,
                args: if binary {
                    binary_params()
                } else {
                    Seq::empty()
                },
            },
        ),
{
    let mut args: Vec<String> = Vec::new();
    if binary {
        args.push(String::from_str("self"));
        args.push(String::from_str("other"));
        assert(names_of(args@) =~= binary_params());
    } else {
        assert(names_of(args@) =~= Seq::<Seq<char>>::empty());
    }
    build_rust_method(String::from_str(name), String::from_str(method), args)
}

/// The entries of the methods that belong to the type of `data` alone.
fn own_methods(data: &DataType) -> (r: Vec<(String, PyObjBehaviors)>)
    ensures
        behavior_pairs(r@) == method_pairs(kind_name(data@), own_names(data@), Seq::empty()),
{
    let mut r: Vec<(String, PyObjBehaviors)> = Vec::new();
    match data {
        DataType::Int(_) => {
            r.push(own_method("int", "__bool__", false));
            r.push(own_method("int", "__neg__", false));
            r.push(own_method("int", "__pos__", false));
            r.push(own_method("int", "__str__", false));
        },
        DataType::Float(_) => {
            r.push(own_method("float", "__bool__", false));
            r.push(own_method("float", "__str__", false));
        },
        DataType::Bool(_) => {
            r.push(own_method("bool", "__bool__", false));
            r.push(own_method("bool", "__neg__", false));
            r.push(own_method("bool", "__pos__", false));
            r.push(own_method("bool", "__str__", false));
        },
        DataType::Str(_) => {
            r.push(own_method("str", "__len__", false));
        },
        DataType::List(_) => {
            r.push(own_method("list", "__len__", false));
        },
        DataType::Nil => {},
    }
    assert(behavior_pairs(r@) =~= method_pairs(kind_name(data@), own_names(data@), Seq::empty()));
    r
}

/// The name of the built-in type of a native value.
fn kind_of(data: &DataType) -> (r: &'static str)
    ensures
        r@ == kind_name(data@),
{
    match data {
        DataType::Int(_) => "int",
        DataType::Float(_) => "float",
        DataType::Bool(_) => "bool",
        DataType::Str(_) => "str",
        DataType::List(_) => "list",
        DataType::Nil => "NoneType",
    }
}

/// The object of a built-in type that holds the native value `x`.
pub fn data_type_to_obj(x: DataType) -> (r: PyObject)
    ensures
        r@ == object_of(x@),
{
    let name = kind_of(&x);
    let mut methods = binary_methods(name);
    let mut own = own_methods(&x);
    let ghost first = behavior_pairs(methods@);
    let ghost second = behavior_pairs(own@);
    methods.append(&mut own);
    assert(behavior_pairs(methods@) =~= first + second);
    let mut attrs: Vec<(String, PyObjAttr)> = Vec::new();
    let ghost xv = x@;
    attrs.push((String::from_str("x"), PyObjAttr::Rust(x)));
    assert(attr_pairs(attrs@) =~= seq![("x"@, PyObjAttrView::Rust(xv))]);
    let mut obj = PyObject::default();
    obj.identity(String::from_str(name));
    obj.attr(attrs);
    obj.extend_behavior(methods);
    obj
}

/// The `int` object of the whole number `x`.
pub fn obj_int(x: i64) -> (r: PyObject)
    ensures
        r@ == object_of(DataTypeView::Int(x)),
{
    data_type_to_obj(DataType::Int(x))
}

/// The `bool` object of the truth value `x`.
pub fn obj_bool(x: bool) -> (r: PyObject)
    ensures
        r@ == object_of(DataTypeView::Bool(x)),
{
    data_type_to_obj(DataType::Bool(x))
}

/// The `str` object of the string `x`.
pub fn obj_str(x: String) -> (r: PyObject)
    ensures
        r@ == object_of(DataTypeView::Str(x@)),
{
    data_type_to_obj(DataType::Str(x))
}

/// The `float` object of the number whose numeral is `x`.
pub fn obj_float(x: String) -> (r: PyObject)
    ensures
        r@ == object_of(DataTypeView::Float(x@)),
{
    data_type_to_obj(DataType::Float(x))
}

/// The `list` object of the pooled values `x`.
pub fn obj_list(x: Vec<u128>) -> (r: PyObject)
    ensures
        r@ == object_of(DataTypeView::List(x@)),
{
    data_type_to_obj(DataType::List(x))
}

/// The base object: identity `object`, no attribute, and each of the
/// default methods, not implemented.
pub fn object() -> (r: PyObject)
    ensures
        r@ == (PyObjectView { identity: "object"@, ..crate::object::default_object() }),
{
    let mut obj = PyObject::default();
    obj.identity(String::from_str("object"));
    obj
}

// ---------------------------------------------------------------------
// What the native functions compute
// ---------------------------------------------------------------------

/// The native value that an object holds: that of its attribute `x`.
pub open spec fn payload_of(o: PyObjectView) -> Option<DataTypeView> {
    if o.attr.dom().contains("x"@) {
        match o.attr["x"@] {
            PyObjAttrView::Rust(d) => Some(d),
            _ => None,
        }
    } else {
        None
    }
}

/// The native value of the argument `name` of a call: the argument itself
/// where it is a native value, else the one that the object holds.
pub open spec fn argument_data(frame: Seq<(String, PyVariable)>, name: Seq<char>) -> Option<
    DataTypeView,
> {
    match lookup(frame, name) {
        Some(PyVariable::DataType(d)) => Some(d@),
        Some(PyVariable::Object(o)) => payload_of(o@),
        None => None,
    }
}

/// The native value of the receiver of a call: the one that the object
/// bound to `self` holds.
pub open spec fn receiver_data(frame: Seq<(String, PyVariable)>) -> Option<DataTypeView> {
    match lookup(frame, "self"@) {
        Some(PyVariable::Object(o)) => payload_of(o@),
        _ => None,
    }
}

/// Whether the comparison that `method` asks for holds of two values that
/// compare as `c`.
pub open spec fn holds(method: Seq<char>, c: CompareResult) -> bool {
    if method == "__lt__"@ {
        c is Less
    } else if method == "__gt__"@ {
        c is Great
    } else if method == "__eq__"@ {
        c is Equal
    } else if method == "__ne__"@ {
        !(c is Equal)
    } else if method == "__ge__"@ {
        !(c is Less)
    } else {
        !(c is Great)
    }
}

/// The result of the binary method `method` on the native values `x` and
/// `o`: the sum, the difference, the product, the quotient, or the truth
/// value of the comparison.
pub open spec fn binary_result(method: Seq<char>, x: DataTypeView, o: DataTypeView) -> Result<
    DataTypeView,
    CalcError,
> {
    if method == "__add__"@ {
        sum_of(x, o)
    } else if method == "__sub__"@ {
        difference_of(x, o)
    } else if method == "__mult__"@ {
        product_of(x, o)
    } else if method == "__div__"@ {
        quotient_of(x, o)
    } else {
        match compare_values(x, o) {
            Ok(c) => Ok(DataTypeView::Bool(holds(method, c))),
            Err(e) => Err(e),
        }
    }
}

/// How a native function ends.
pub enum NativeOutcome {
    /// The type does not have the method.
    Nothing,
    /// With a native value, which is handed back as an object.
    Value(DataTypeView),
    /// With an error of the operation.
    Failed(CalcError),
    /// The receiver is missing, or holds no native value of the type.
    WrongReceiver,
    /// The operand is missing, or holds no native value.
    MissingOperand,
    /// No built-in type has the name.
    UnknownType,
}

/// What a binary method gives for the receiver's value `x`; nothing for
/// every other method.
pub open spec fn custom_outcome(
    x: DataTypeView,
    method: Seq<char>,
    operand: Option<DataTypeView>,
) -> NativeOutcome {
    if !is_binary(method) {
        NativeOutcome::Nothing
    } else {
        match operand {
            None => NativeOutcome::MissingOperand,
            Some(o) => match binary_result(method, x, o) {
                Ok(v) => NativeOutcome::Value(v),
                Err(c) => NativeOutcome::Failed(c),
            },
        }
    }
}

/// What the methods of a native value's own type give.
pub open spec fn own_outcome(x: DataTypeView, method: Seq<char>) -> NativeOutcome {
    match x {
        DataTypeView::Int(n) => if method == "__bool__"@ {
            NativeOutcome::Value(DataTypeView::Bool(n != 0))
        } else if method == "__neg__"@ {
            if n == i64::MIN {
                NativeOutcome::Failed(CalcError::Overflow)
            } else {
                NativeOutcome::Value(DataTypeView::Int((-n) as i64))
            }
        } else if method == "__pos__"@ {
            NativeOutcome::Value(x)
        } else if method == "__str__"@ {
            NativeOutcome::Value(DataTypeView::Str(signed_decimal(n as int)))
        } else {
            NativeOutcome::Nothing
        },
        DataTypeView::Bool(b) => if method == "__bool__"@ {
            NativeOutcome::Value(x)
        } else if method == "__neg__"@ {
            NativeOutcome::Value(
                DataTypeView::Int(
                    if b {
                        -1i64
                    } else {
                        0i64
                    },
                ),
            )
        } else if method == "__pos__"@ {
            NativeOutcome::Value(
                DataTypeView::Int(
                    if b {
                        1i64
                    } else {
                        0i64
                    },
                ),
            )
        } else if method == "__str__"@ {
            NativeOutcome::Value(DataTypeView::Str(text_of(x).unwrap()))
        } else {
            NativeOutcome::Nothing
        },
        DataTypeView::Float(t) => if method == "__bool__"@ {
            NativeOutcome::Value(DataTypeView::Bool(truth_of(x)))
        } else if method == "__str__"@ {
            NativeOutcome::Value(DataTypeView::Str(t))
        } else {
            NativeOutcome::Nothing
        },
        DataTypeView::Str(t) => if method == "__len__"@ && t.len() <= i64::MAX {
            NativeOutcome::Value(DataTypeView::Int(t.len() as i64))
        } else {
            NativeOutcome::Nothing
        },
        _ => NativeOutcome::Nothing,
    }
}

/// What the native function of a built-in type gives for a receiver that
/// holds `x`: the result of a binary method, else that of one of the
/// type's own.
pub open spec fn typed_outcome(
    x: DataTypeView,
    method: Seq<char>,
    operand: Option<DataTypeView>,
) -> NativeOutcome {
    if is_binary(method) {
        custom_outcome(x, method, operand)
    } else {
        own_outcome(x, method)
    }
}

/// What the native function of the type `int` gives.
pub open spec fn int_outcome(
    method: Seq<char>,
    receiver: Option<DataTypeView>,
    operand: Option<DataTypeView>,
) -> NativeOutcome {
    match receiver {
        Some(DataTypeView::Int(x)) => typed_outcome(DataTypeView::Int(x), method, operand),
        _ => NativeOutcome::WrongReceiver,
    }
}

/// What the native function of the type `float` gives.
pub open spec fn float_outcome(
    method: Seq<char>,
    receiver: Option<DataTypeView>,
    operand: Option<DataTypeView>,
) -> NativeOutcome {
    match receiver {
        Some(DataTypeView::Float(x)) => typed_outcome(DataTypeView::Float(x), method, operand),
        _ => NativeOutcome::WrongReceiver,
    }
}

/// What the native function of the type `bool` gives.
pub open spec fn bool_outcome(
    method: Seq<char>,
    receiver: Option<DataTypeView>,
    operand: Option<DataTypeView>,
) -> NativeOutcome {
    match receiver {
        Some(DataTypeView::Bool(x)) => typed_outcome(DataTypeView::Bool(x), method, operand),
        _ => NativeOutcome::WrongReceiver,
    }
}

/// What the native function of the type `str` gives.
pub open spec fn str_outcome(
    method: Seq<char>,
    receiver: Option<DataTypeView>,
    operand: Option<DataTypeView>,
) -> NativeOutcome {
    match receiver {
        Some(DataTypeView::Str(x)) => typed_outcome(DataTypeView::Str(x), method, operand),
        _ => NativeOutcome::WrongReceiver,
    }
}

/// What the native function of the type `name` gives for the method
/// `method`, the receiver and the operand of a call.
pub open spec fn native_outcome(
    name: Seq<char>,
    method: Seq<char>,
    receiver: Option<DataTypeView>,
    operand: Option<DataTypeView>,
) -> NativeOutcome {
    if name == "int"@ {
        int_outcome(method, receiver, operand)
    } else if name == "float"@ {
        float_outcome(method, receiver, operand)
    } else if name == "bool"@ {
        bool_outcome(method, receiver, operand)
    } else if name == "str"@ {
        str_outcome(method, receiver, operand)
    } else {
        NativeOutcome::UnknownType
    }
}

/// The words by which an error of an operation is reported.
pub open spec fn reason(c: CalcError) -> Seq<char> {
    match c {
        CalcError::TypeMismatch => "unsupported operand"@,
        CalcError::Overflow => "overflow"@,
        CalcError::DivisionByZero => "division by zero"@,
        CalcError::FloatArithmetic => "float arithmetic"@,
    }
}

/// Whether the result `r` of the method `method` of the type `name` is
/// what the outcome `out` asks for: the object of the value; nothing; or
/// the error that names the type, the method and the cause.
pub open spec fn is_native_result(
    r: PyResult,
    out: NativeOutcome,
    name: Seq<char>,
    method: Seq<char>,
) -> bool {
    match out {
        NativeOutcome::Nothing => r is Nil,
        NativeOutcome::Value(v) => r matches PyResult::Value(o) && o@ == object_of(v),
        NativeOutcome::Failed(c) => is_method_error(r, name, method, reason(c)),
        NativeOutcome::WrongReceiver => is_method_error(r, name, method, "self"@),
        NativeOutcome::MissingOperand => r matches PyResult::Error(
            ErrorType::ObjDatatypeNotAttr(e),
        ) && e.attr@ == "other"@ && e.obj.identity@ == name && e.obj.basic_error.blank(),
        NativeOutcome::UnknownType => is_method_error(r, name, method, "type"@),
    }
}

/// Whether `r` is the error of the method `method` of the type `name`
/// that failed for `cause`.
pub open spec fn is_method_error(
    r: PyResult,
    name: Seq<char>,
    method: Seq<char>,
    cause: Seq<char>,
) -> bool {
    r matches PyResult::Error(ErrorType::ObjMethodCallError(e)) && e.method@ == method
        && e.obj.identity@ == name && e.obj.basic_error.lexeme@ == cause
        && e.obj.basic_error.unplaced()
}

// ---------------------------------------------------------------------
// The native functions
// ---------------------------------------------------------------------

/// The argument `name` of a call.
pub fn get_from_hashmap(name: &str, args: &Frame) -> (r: Option<PyVariable>)
    ensures
        match lookup(args@, name@) {
            Some(v) => r matches Some(w) && w@ == v@,
            None => r is None,
        },
{
    match find(args, &String::from_str(name)) {
        Some(i) => Some(args[i].1.clone()),
        None => None,
    }
}

/// The attribute `name` of an object.
pub fn get_from_obj(name: &str, obj: &PyObject) -> (r: Option<PyObjAttr>)
    ensures
        match r {
            Some(a) => obj@.attr.dom().contains(name@) && a@ == obj@.attr[name@],
            None => !obj@.attr.dom().contains(name@),
        },
{
    obj.get_value(&String::from_str(name))
}

/// The native value that the attribute `x` of an object holds.
pub fn get_obj_until_rust(obj: &PyObject) -> (r: Option<DataType>)
    ensures
        match payload_of(obj@) {
            Some(d) => r matches Some(e) && e@ == d,
            None => r is None,
        },
{
    match get_from_obj("x", obj) {
        Some(PyObjAttr::Rust(d)) => Some(d),
        _ => None,
    }
}

/// The native value of an argument: the argument itself where it is a
/// native value, else the one that the object holds.
pub fn get_attr_until_rust(attr: PyVariable) -> (r: Option<DataType>)
    ensures
        match attr@ {
            crate::object::PyVariableView::DataType(d) => r matches Some(e) && e@ == d,
            crate::object::PyVariableView::Object(o) => match payload_of(o) {
                Some(d) => r matches Some(e) && e@ == d,
                None => r is None,
            },
        },
{
    match attr {
        PyVariable::Object(o) => get_obj_until_rust(&o),
        PyVariable::DataType(d) => Some(d),
    }
}

/// The native value of the receiver of a call.
pub fn obj_parser(args: &Frame) -> (r: Option<DataType>)
    ensures
        match receiver_data(args@) {
            Some(d) => r matches Some(e) && e@ == d,
            None => r is None,
        },
{
    match get_from_hashmap("self", args) {
        Some(PyVariable::Object(o)) => get_obj_until_rust(&o),
        _ => None,
    }
}

/// The native value of the operand of a call.
fn operand_of(args: &Frame) -> (r: Option<DataType>)
    ensures
        match argument_data(args@, "other"@) {
            Some(d) => r matches Some(e) && e@ == d,
            None => r is None,
        },
{
    match get_from_hashmap("other", args) {
        Some(v) => get_attr_until_rust(v),
        None => None,
    }
}

/// The error of a method of the type `name` that failed for `cause`.
fn method_error(name: &str, method: &String, cause: &str) -> (r: PyResult)
    ensures
        is_method_error(r, name@, method@, cause@),
{
    PyResult::Error(
        ErrorType::ObjMethodCallError(
            ObjMethodCallError {
                obj: ObjBasicError {
                    identity: String::from_str(name),
                    basic_error: BasicError {
                        lexeme: String::from_str(cause),
                        col_offset: 0,
                        lineno: 0,
                    },
                },
                method: method.clone(),
            },
        ),
    )
}

/// The result of a native function that ended with the error `c`.
fn failed(name: &str, method: &String, c: CalcError) -> (r: PyResult)
    ensures
        is_native_result(r, NativeOutcome::Failed(c), name@, method@),
{
    match c {
        CalcError::TypeMismatch => method_error(name, method, "unsupported operand"),
        CalcError::Overflow => method_error(name, method, "overflow"),
        CalcError::DivisionByZero => method_error(name, method, "division by zero"),
        CalcError::FloatArithmetic => method_error(name, method, "float arithmetic"),
    }
}

/// Whether `method` is one of the binary methods.
fn method_is_binary(method: &String) -> (b: bool)
    ensures
        b == is_binary(method@),
{
    str_is(method, "__add__") || str_is(method, "__sub__") || str_is(method, "__mult__") || str_is(
        method,
        "__div__",
    ) || str_is(method, "__eq__") || str_is(method, "__lt__") || str_is(method, "__gt__")
        || str_is(method, "__ne__") || str_is(method, "__le__") || str_is(method, "__ge__")
}

/// The truth value of the comparison that `method` asks for.
fn compared(x: DataType, o: DataType, method: &String) -> (r: Result<DataType, CalcError>)
    ensures
        match compare_values(x@, o@) {
            Ok(c) => r matches Ok(d) && d@ == DataTypeView::Bool(holds(method@, c)),
            Err(e) => r matches Err(f) && f == e,
        },
{
    match x.cmp(o) {
        Ok(c) => {
            let b = if str_is(method, "__lt__") {
                match c {
                    CompareResult::Less => true,
                    _ => false,
                }
            } else if str_is(method, "__gt__") {
                match c {
                    CompareResult::Great => true,
                    _ => false,
                }
            } else if str_is(method, "__eq__") {
                match c {
                    CompareResult::Equal => true,
                    _ => false,
                }
            } else if str_is(method, "__ne__") {
                match c {
                    CompareResult::Equal => false,
                    _ => true,
                }
            } else if str_is(method, "__ge__") {
                match c {
                    CompareResult::Less => false,
                    _ => true,
                }
            } else {
                match c {
                    CompareResult::Great => false,
                    _ => true,
                }
            };
            Ok(DataType::Bool(b))
        },
        Err(e) => Err(e),
    }
}

/// Carries out a binary method on the receiver's value `obj_x`: gives the
/// object of the result, or the error; gives nothing for any other
/// method.
pub fn custom_behaviour(obj_x: DataType, method: &String, args: &Frame) -> (r: PyResult)
    ensures
        is_native_result(
            r,
            custom_outcome(obj_x@, method@, argument_data(args@, "other"@)),
            kind_name(obj_x@),
            method@,
        ),
{
    if !method_is_binary(method) {
        return PyResult::Nil;
    }
    let name = kind_of(&obj_x);
    let other = match operand_of(args) {
        Some(o) => o,
        None => {
            return PyResult::Error(
                ErrorType::ObjDatatypeNotAttr(
                    ObjDataTypeNotAttr {
                        obj: ObjBasicError {
                            identity: String::from_str(name),
                            basic_error: BasicError::default(),
                        },
                        attr: String::from_str("other"),
                    },
                ),
            );
        },
    };
    let result = if str_is(method, "__add__") {
        obj_x.add(other)
    } else if str_is(method, "__sub__") {
        obj_x.sub(other)
    } else if str_is(method, "__mult__") {
        obj_x.mul(other)
    } else if str_is(method, "__div__") {
        obj_x.div(other)
    } else {
        compared(obj_x, other, method)
    };
    match result {
        Ok(v) => PyResult::Value(data_type_to_obj(v)),
        Err(c) => failed(name, method, c),
    }
}

/// The result of a native function whose receiver is missing or holds
/// no native value of the type.
fn wrong_receiver(name: &str, method: &String) -> (r: PyResult)
    ensures
        is_native_result(r, NativeOutcome::WrongReceiver, name@, method@),
{
    method_error(name, method, "self")
}

/// The native function of the type `int`.
pub fn int_behaviour(method: &String, args: &Frame) -> (r: PyResult)
    ensures
        is_native_result(
            r,
            int_outcome(method@, receiver_data(args@), argument_data(args@, "other"@)),
            "int"@,
            method@,
        ),
{
    let data = match obj_parser(args) {
        Some(d) => d,
        None => {
            return wrong_receiver("int", method);
        },
    };
    let int_x: i64 = match data {
        DataType::Int(x) => x,
        _ => {
            return wrong_receiver("int", method);
        },
    };
    if method_is_binary(method) {
        return custom_behaviour(data, method, args);
    }
    if str_is(method, "__bool__") {
        PyResult::Value(obj_bool(int_x != 0))
    } else if str_is(method, "__neg__") {
        if int_x == i64::MIN {
            failed("int", method, CalcError::Overflow)
        } else {
            PyResult::Value(obj_int(-int_x))
        }
    } else if str_is(method, "__pos__") {
        PyResult::Value(obj_int(int_x))
    } else if str_is(method, "__str__") {
        PyResult::Value(obj_str(i64_to_string(int_x)))
    } else {
        PyResult::Nil
    }
}

/// The native function of the type `bool`.
pub fn bool_behaviour(method: &String, args: &Frame) -> (r: PyResult)
    ensures
        is_native_result(
            r,
            bool_outcome(method@, receiver_data(args@), argument_data(args@, "other"@)),
            "bool"@,
            method@,
        ),
{
    let data = match obj_parser(args) {
        Some(d) => d,
        None => {
            return wrong_receiver("bool", method);
        },
    };
    let bool_x: bool = match data {
        DataType::Bool(x) => x,
        _ => {
            return wrong_receiver("bool", method);
        },
    };
    if method_is_binary(method) {
        return custom_behaviour(data, method, args);
    }
    if str_is(method, "__bool__") {
        PyResult::Value(obj_bool(bool_x))
    } else if str_is(method, "__neg__") {
        PyResult::Value(
            obj_int(
                if bool_x {
                    -1
                } else {
                    0
                },
            ),
        )
    } else if str_is(method, "__pos__") {
        PyResult::Value(
            obj_int(
                if bool_x {
                    1
                } else {
                    0
                },
            ),
        )
    } else if str_is(method, "__str__") {
        match data.str() {
            Ok(s) => PyResult::Value(obj_str(s)),
            Err(c) => failed("bool", method, c),
        }
    } else {
        PyResult::Nil
    }
}

/// The native function of the type `float`.
pub fn float_behaviour(method: &String, args: &Frame) -> (r: PyResult)
    ensures
        is_native_result(
            r,
            float_outcome(method@, receiver_data(args@), argument_data(args@, "other"@)),
            "float"@,
            method@,
        ),
{
    let data = match obj_parser(args) {
        Some(d) => d,
        None => {
            return wrong_receiver("float", method);
        },
    };
    match &data {
        DataType::Float(_) => {},
        _ => {
            return wrong_receiver("float", method);
        },
    }
    if method_is_binary(method) {
        return custom_behaviour(data, method, args);
    }
    if str_is(method, "__bool__") {
        PyResult::Value(obj_bool(data.bool()))
    } else if str_is(method, "__str__") {
        match data {
            DataType::Float(t) => PyResult::Value(obj_str(t)),
            _ => PyResult::Nil,
        }
    } else {
        PyResult::Nil
    }
}

/// The native function of the type `str`.
pub fn str_behaviour(method: &String, args: &Frame) -> (r: PyResult)
    ensures
        is_native_result(
            r,
            str_outcome(method@, receiver_data(args@), argument_data(args@, "other"@)),
            "str"@,
            method@,
        ),
{
    let data = match obj_parser(args) {
        Some(d) => d,
        None => {
            return wrong_receiver("str", method);
        },
    };
    match &data {
        DataType::Str(_) => {},
        _ => {
            return wrong_receiver("str", method);
        },
    }
    if method_is_binary(method) {
        return custom_behaviour(data, method, args);
    }
    if str_is(method, "__len__") {
        match data {
            DataType::Str(t) => {
                let n = t.as_str().unicode_len();
                if n as u64 <= 0x7fff_ffff_ffff_ffff {
                    PyResult::Value(obj_int(n as i64))
                } else {
                    PyResult::Nil
                }
            },
            _ => PyResult::Nil,
        }
    } else {
        PyResult::Nil
    }
}

impl RustObjBehavior {
    /// Carries out the native method on the arguments `x`: the native
    /// function of the type is selected by the type's name, and selects by
    /// the method's name.
    pub fn exec(&self, x: &Frame) -> (r: PyResult)
        ensures
            is_native_result(
                r,
                native_outcome(
                    self.name@,
                    self.method@,
                    receiver_data(x@),
                    argument_data(x@, "other"@),
                ),
                self.name@,
                self.method@,
            ),
    {
        if str_is(&self.name, "int") {
            int_behaviour(&self.method, x)
        } else if str_is(&self.name, "float") {
            float_behaviour(&self.method, x)
        } else if str_is(&self.name, "bool") {
            bool_behaviour(&self.method, x)
        } else if str_is(&self.name, "str") {
            str_behaviour(&self.method, x)
        } else {
            PyResult::Error(
                ErrorType::ObjMethodCallError(
                    ObjMethodCallError {
                        obj: ObjBasicError {
                            identity: self.name.clone(),
                            basic_error: BasicError {
                                lexeme: String::from_str("type"),
                                col_offset: 0,
                                lineno: 0,
                            },
                        },
                        method: self.method.clone(),
                    },
                ),
            )
        }
    }
}

} // verus!
