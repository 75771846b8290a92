use pyinterp::core_type::{
    asks_for_decimals, build_rust_method, custom_behaviour, data_type_to_obj, get_obj_until_rust,
    int_behaviour, obj_bool, obj_float, obj_int, obj_list, obj_str, object,
};
use pyinterp::data_type::DataType;
use pyinterp::dispatch::{obj_to_bool, obj_to_str};
use pyinterp::error::ErrorType;
use pyinterp::function::{ExecFunction, PyFunction};
use pyinterp::namespace::{Namespace, PyNamespace};
use pyinterp::object::{
    Frame, PyObjAttr, PyObjBehaviors, PyObject, PyResult, PyVariable, RustObjBehavior,
};
use pyinterp::run_commands::RunState;

fn other(obj: PyObject) -> Frame {
    vec![(String::from("other"), PyVariable::Object(obj))]
}

fn payload(r: PyResult) -> DataType {
    match r {
        PyResult::Value(o) => get_obj_until_rust(&o).unwrap(),
        other => panic!("{:?}", other),
    }
}

fn call_error(r: PyResult) -> (String, String, String) {
    match r {
        PyResult::Error(ErrorType::ObjMethodCallError(e)) => {
            (e.obj.identity, e.method, e.obj.basic_error.lexeme)
        }
        other => panic!("{:?}", other),
    }
}

#[test]
fn py_object_test_object() {
    let mut py_namespace = PyNamespace::default();
    let mut obj = PyObject::default().identity("int".to_string());
    obj.set_attr_data_type("test".to_string(), DataType::Int(1));
    let uuid = py_namespace.set_global("test_obj".to_string(), obj.clone());
    let pool_obj = py_namespace.variable_pool.get_value(uuid);
    println!("{:#?}", obj);
    assert_eq!(pool_obj.unwrap(), obj);
    assert_eq!(
        obj.get_value(&String::from("test")),
        Some(PyObjAttr::Rust(DataType::Int(1)))
    );
    assert!(matches!(
        obj.get_attr("test".to_string(), &py_namespace),
        Ok(PyVariable::DataType(DataType::Int(1)))
    ));
    // a function of the object: without statements, the call gives what
    // the native function gave
    obj.set_behavior("test2".to_string(), PyObjBehaviors::Interpreter(0));
    let functions = vec![PyFunction::default().arg(vec!["self".to_string()])];
    let uuid = py_namespace.set_global("test_obj".to_string(), obj.clone());
    let pool_obj = py_namespace.variable_pool.get_value(uuid).unwrap();
    let mut run = RunState::new(10);
    assert!(matches!(
        pool_obj.call_with(
            "test2".to_string(),
            vec![],
            PyResult::Nil,
            &functions,
            &mut py_namespace,
            &Namespace::Global,
            &mut run,
        ),
        PyResult::Nil
    ));
    assert_eq!(py_namespace.enclosing_namespace.len(), 1);
}

#[test]
fn faults_that_ask_for_decimal_arithmetic() {
    match obj_int(1).add(other(obj_float(String::from("2.0")))) {
        PyResult::Error(e) => assert!(asks_for_decimals(&e)),
        other => panic!("{:?}", other),
    }
    match obj_float(String::from("2.0")).add(other(obj_int(1))) {
        PyResult::Error(e) => assert!(asks_for_decimals(&e)),
        other => panic!("{:?}", other),
    }
    match obj_int(1).add(other(obj_str(String::from("a")))) {
        PyResult::Error(e) => assert!(!asks_for_decimals(&e)),
        other => panic!("{:?}", other),
    }
    match obj_int(1).div(other(obj_int(0))) {
        PyResult::Error(e) => assert!(!asks_for_decimals(&e)),
        other => panic!("{:?}", other),
    }
}

#[test]
fn the_default_object() {
    let obj = PyObject::default();
    assert_eq!(obj.identity, "obj");
    assert!(obj.attr.is_empty());
    assert_eq!(obj.behaviors.len(), 18);
    assert!(obj.behaviors.iter().all(|(_, b)| *b == PyObjBehaviors::Nil));
    assert_eq!(object().identity, "object");
    assert_eq!(object().return_identity(), "object");
}

#[test]
fn built_in_objects_hold_their_value_and_methods() {
    let obj = obj_int(5);
    assert_eq!(obj.identity, "int");
    assert_eq!(obj.get_value(&String::from("x")), Some(PyObjAttr::Rust(DataType::Int(5))));
    let add = obj.behaviors.iter().find(|(k, _)| k == "__add__").unwrap();
    assert_eq!(
        add.1,
        PyObjBehaviors::Rust(Box::new(RustObjBehavior {
            name: String::from("int"),
            method: String::from("__add__"),
            args: vec![String::from("self"), String::from("other")],
        }))
    );
    // binding a method again replaces it: no name occurs twice
    let mut names: Vec<&String> = obj.behaviors.iter().map(|(k, _)| k).collect();
    let count = names.len();
    names.sort();
    names.dedup();
    assert_eq!(names.len(), count);
    assert_eq!(obj_bool(true).identity, "bool");
    assert_eq!(obj_str(String::from("a")).identity, "str");
    assert_eq!(obj_float(String::from("1.5")).identity, "float");
    assert_eq!(obj_list(vec![1, 2]).identity, "list");
    assert_eq!(data_type_to_obj(DataType::Nil).identity, "NoneType");
    assert_eq!(data_type_to_obj(DataType::Int(5)), obj);
}

#[test]
fn build_rust_method_names_type_and_method() {
    let (name, behavior) =
        build_rust_method(String::from("int"), String::from("__neg__"), vec![]);
    assert_eq!(name, "__neg__");
    assert_eq!(
        behavior,
        PyObjBehaviors::Rust(Box::new(RustObjBehavior {
            name: String::from("int"),
            method: String::from("__neg__"),
            args: vec![],
        }))
    );
}

#[test]
fn scalar_arithmetic_table() {
    assert_eq!(payload(obj_int(1).add(other(obj_int(2)))), DataType::Int(3));
    assert_eq!(payload(obj_bool(true).add(other(obj_int(1)))), DataType::Int(2));
    assert_eq!(
        payload(obj_str(String::from("a")).mul(other(obj_int(3)))),
        DataType::Str(String::from("aaa"))
    );
    assert_eq!(
        payload(obj_str(String::from("a")).add(other(obj_str(String::from("b"))))),
        DataType::Str(String::from("ab"))
    );
    assert_eq!(payload(obj_int(7).sub(other(obj_int(9)))), DataType::Int(-2));
    assert_eq!(payload(obj_int(7).div(other(obj_bool(true)))), DataType::Int(7));
    // division by zero is an error, not a silent value
    assert_eq!(
        call_error(obj_int(1).div(other(obj_int(0)))),
        (String::from("int"), String::from("__div__"), String::from("division by zero"))
    );
    assert_eq!(
        call_error(obj_int(i64::MAX).add(other(obj_int(1)))),
        (String::from("int"), String::from("__add__"), String::from("overflow"))
    );
    assert_eq!(
        call_error(obj_int(1).add(other(obj_str(String::from("a"))))),
        (String::from("int"), String::from("__add__"), String::from("unsupported operand"))
    );
    // arithmetic with a decimal point is left to the host
    assert_eq!(
        call_error(obj_int(1).add(other(obj_float(String::from("2.0"))))),
        (String::from("int"), String::from("__add__"), String::from("float arithmetic"))
    );
}

#[test]
fn comparisons_give_truth_values() {
    assert_eq!(payload(obj_int(1).lt(other(obj_int(2)))), DataType::Bool(true));
    assert_eq!(payload(obj_int(2).lt(other(obj_int(2)))), DataType::Bool(false));
    assert_eq!(payload(obj_int(2).le(other(obj_int(2)))), DataType::Bool(true));
    assert_eq!(payload(obj_int(3).gt(other(obj_int(2)))), DataType::Bool(true));
    assert_eq!(payload(obj_int(1).ge(other(obj_int(2)))), DataType::Bool(false));
    assert_eq!(payload(obj_int(2).py_eq(other(obj_int(2)))), DataType::Bool(true));
    assert_eq!(payload(obj_int(2).py_ne(other(obj_int(2)))), DataType::Bool(false));
    assert_eq!(payload(obj_bool(true).py_eq(other(obj_int(1)))), DataType::Bool(true));
    assert_eq!(
        payload(obj_str(String::from("ab")).lt(other(obj_str(String::from("b"))))),
        DataType::Bool(true)
    );
    // values of kinds without an order are unequal
    assert_eq!(
        payload(obj_str(String::from("a")).py_eq(other(obj_int(1)))),
        DataType::Bool(false)
    );
    assert_eq!(
        payload(obj_str(String::from("a")).py_ne(other(obj_int(1)))),
        DataType::Bool(true)
    );
}

#[test]
fn methods_of_one_type() {
    assert_eq!(payload(obj_int(5).neg()), DataType::Int(-5));
    assert_eq!(payload(obj_int(-5).pos()), DataType::Int(-5));
    assert_eq!(payload(obj_int(0).bool()), DataType::Bool(false));
    assert_eq!(payload(obj_int(12).str()), DataType::Str(String::from("12")));
    assert_eq!(payload(obj_bool(true).neg()), DataType::Int(-1));
    assert_eq!(payload(obj_bool(true).pos()), DataType::Int(1));
    assert_eq!(payload(obj_bool(false).str()), DataType::Str(String::from("false")));
    assert_eq!(payload(obj_str(String::from("abc")).len()), DataType::Int(3));
    assert_eq!(payload(obj_float(String::from("0.0")).bool()), DataType::Bool(false));
    assert_eq!(
        call_error(obj_int(i64::MIN).neg()),
        (String::from("int"), String::from("__neg__"), String::from("overflow"))
    );
}

#[test]
fn a_method_that_is_not_implemented_is_an_error() {
    let mut s = obj_str(String::from("a"));
    assert_eq!(call_error(s.neg()), (String::from("str"), String::from("__neg__"), String::new()));
    let mut plain = PyObject::default();
    assert_eq!(
        call_error(plain.call(String::from("__nothing__"), vec![])),
        (String::from("obj"), String::from("__nothing__"), String::new())
    );
    let mut interpreted = PyObject::default();
    interpreted.set_behavior(String::from("__call__"), PyObjBehaviors::Interpreter(0));
    assert!(matches!(
        interpreted.call(String::from("__call__"), vec![]),
        PyResult::Error(ErrorType::ObjMethodNotAttr(_))
    ));
}

#[test]
fn a_call_leaves_the_receiver_as_it_was() {
    let mut a = obj_int(1);
    let before = a.clone();
    a.add(other(obj_int(2)));
    assert_eq!(a, before);
}

#[test]
fn a_missing_operand_is_an_error() {
    match obj_int(1).add(vec![]) {
        PyResult::Error(ErrorType::ObjDatatypeNotAttr(e)) => {
            assert_eq!(e.attr, "other");
            assert_eq!(e.obj.identity, "int");
        }
        other => panic!("{:?}", other),
    }
}

#[test]
fn dispatch_goes_by_the_name_of_the_type() {
    let frame: Frame = vec![
        (String::from("self"), PyVariable::Object(obj_int(4))),
        (String::from("other"), PyVariable::DataType(DataType::Int(6))),
    ];
    let native = ExecFunction { obj: String::from("int"), method: String::from("__mult__") };
    assert_eq!(payload(native.exec(&frame)), DataType::Int(24));
    assert_eq!(payload(int_behaviour(&String::from("__sub__"), &frame)), DataType::Int(-2));
    assert_eq!(
        payload(custom_behaviour(DataType::Int(4), &String::from("__add__"), &frame)),
        DataType::Int(10)
    );
    assert!(matches!(
        custom_behaviour(DataType::Int(4), &String::from("__bool__"), &frame),
        PyResult::Nil
    ));
    // the receiver has to hold a value of the type
    let wrong = ExecFunction { obj: String::from("str"), method: String::from("__len__") };
    assert_eq!(
        call_error(wrong.exec(&frame)),
        (String::from("str"), String::from("__len__"), String::from("self"))
    );
    let unknown = ExecFunction { obj: String::from("dict"), method: String::from("__len__") };
    assert_eq!(
        call_error(unknown.exec(&frame)),
        (String::from("dict"), String::from("__len__"), String::from("type"))
    );
}

#[test]
fn truth_of_objects() {
    assert_eq!(obj_to_bool(obj_bool(true)).unwrap(), true);
    assert_eq!(obj_to_bool(obj_bool(false)).unwrap(), false);
    assert_eq!(obj_to_bool(obj_int(3)).unwrap(), true);
    assert_eq!(obj_to_bool(obj_int(0)).unwrap(), false);
    // a string has no `__bool__`: its length decides
    assert_eq!(obj_to_bool(obj_str(String::from("a"))).unwrap(), true);
    assert_eq!(obj_to_bool(obj_str(String::new())).unwrap(), false);
    match obj_to_bool(PyObject::default()) {
        Err(ErrorType::ObjBasicError(e)) => assert_eq!(e.identity, "obj"),
        other => panic!("{:?}", other),
    }
    let mut t = obj_int(0);
    assert_eq!(payload(t.not()), DataType::Bool(true));
}

#[test]
fn text_of_objects() {
    assert_eq!(obj_to_str(obj_str(String::from("hi"))), "hi");
    assert_eq!(obj_to_str(obj_int(-7)), "-7");
    assert_eq!(obj_to_str(obj_bool(true)), "true");
    assert_eq!(obj_to_str(obj_float(String::from("1.5"))), "1.5");
    assert_eq!(obj_to_str(PyObject::default()), "obj");
}

#[test]
fn structural_equality() {
    assert!(obj_int(1).same(&obj_int(1)));
    assert!(!obj_int(1).same(&obj_int(2)));
    assert!(!obj_int(1).same(&obj_bool(true)));
    // the order in which attributes were set does not count
    let mut a = PyObject::default();
    a.set_attr_data_type(String::from("p"), DataType::Int(1));
    a.set_attr_data_type(String::from("q"), DataType::Int(2));
    let mut b = PyObject::default();
    b.set_attr_data_type(String::from("q"), DataType::Int(2));
    b.set_attr_data_type(String::from("p"), DataType::Int(1));
    assert!(a.same(&b));
    b.set_attr_data_type(String::from("p"), DataType::Int(3));
    assert!(!a.same(&b));
}

#[test]
fn arguments_are_named_by_the_parameters() {
    let obj = obj_int(1);
    let frame = obj
        .convert_vec_to_hashmap(
            &String::from("__add__"),
            vec![PyVariable::DataType(DataType::Int(2))],
        )
        .unwrap();
    assert_eq!(frame.len(), 1);
    assert_eq!(frame[0].0, "other");
    assert!(obj.convert_vec_to_hashmap(&String::from("__add__"), vec![]).is_none());
    assert!(obj.convert_vec_to_hashmap(&String::from("__init__"), vec![]).is_none());
}
