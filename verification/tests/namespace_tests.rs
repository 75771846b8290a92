use pyinterp::core_type::{obj_int, obj_str};
use pyinterp::error::ErrorType;
use pyinterp::namespace::{Namespace, PyNamespace};
use pyinterp::object::PyObject;
use pyinterp::pool::VariablePool;
use pyinterp::table::{find, unused_key};
use uuid::Uuid;

#[test]
fn test_namespace() {
    let mut env = PyNamespace::default();
    let uuid = Uuid::new_v4();
    env.variable_pool.insert(uuid.as_u128(), PyObject::default());
    let uuid2 = env.variable_pool.store_new_value(PyObject::default());
    assert_eq!(uuid.as_u128(), uuid2);
    // store a same value
    let uuid1 = env.set_global("global_test".to_string(), PyObject::default());
    let uuid2 = env.set_global("global_test2".to_string(), PyObject::default());
    assert_eq!(PyObject::default(), PyObject::default());
    assert_eq!(uuid1, uuid2)
}

#[test]
fn pool_gives_equal_values_one_identifier() {
    let mut pool = VariablePool::default();
    let a = pool.store_new_value(obj_int(1));
    let b = pool.store_new_value(obj_int(1));
    let c = pool.store_new_value(obj_int(2));
    assert_eq!(a, b);
    assert_ne!(a, c);
    assert_eq!(pool.get_value(a), Some(obj_int(1)));
    assert_eq!(pool.get_value(c), Some(obj_int(2)));
    assert_eq!(pool.bi_hash_map.len(), 2);
    assert_eq!(pool.count_map, vec![2, 1]);
}

#[test]
fn pool_keeps_a_value_while_it_is_referred_to() {
    let mut pool = VariablePool::default();
    let a = pool.store_new_value(obj_int(1));
    pool.store_new_value(obj_int(1));
    pool.del_variable(a);
    assert_eq!(pool.get_value(a), Some(obj_int(1)));
    pool.del_variable(a);
    assert_eq!(pool.get_value(a), None);
    assert!(pool.bi_hash_map.is_empty());
    // giving up a value that the pool does not hold changes nothing
    pool.del_variable(a);
    assert_eq!(pool.get_value(a), None);
    // the value gets a new slot when it is stored again
    let b = pool.store_new_value(obj_int(1));
    assert_eq!(pool.get_value(b), Some(obj_int(1)));
}

#[test]
fn pool_update_insert_delete() {
    let mut pool = VariablePool::default();
    let a = pool.store_new_value(obj_int(1));
    pool.store_new_value(obj_int(1));
    pool.update_value(a, obj_int(5));
    assert_eq!(pool.get_value(a), Some(obj_int(5)));
    // the count of references stays: two releases remove the value
    pool.del_variable(a);
    assert_eq!(pool.get_value(a), Some(obj_int(5)));
    pool.del_variable(a);
    assert_eq!(pool.get_value(a), None);
    pool.update_value(7, obj_int(9));
    assert_eq!(pool.get_value(7), Some(obj_int(9)));
    pool.insert(7, obj_int(10));
    assert_eq!(pool.get_value(7), Some(obj_int(10)));
    pool.delete(7);
    assert_eq!(pool.get_value(7), None);
}

#[test]
fn pool_identifiers_are_fresh_even_where_small_numbers_are_taken() {
    let mut pool = VariablePool::default();
    pool.insert(0, obj_int(0));
    pool.insert(1, obj_int(1));
    let mut seen = vec![0u128, 1u128];
    for k in 2..40 {
        let id = pool.store_new_value(obj_int(k));
        assert!(!seen.contains(&id));
        seen.push(id);
    }
    assert_eq!(pool.bi_hash_map.len(), 40);
}

#[test]
fn builtin_and_global_scopes() {
    let mut env = PyNamespace::default();
    env.set_builtin(String::from("x"), obj_int(1));
    env.set_global(String::from("x"), obj_int(2));
    assert_eq!(env.get_builtin(String::from("x")).unwrap(), obj_int(1));
    assert_eq!(env.get_global(String::from("x")).unwrap(), obj_int(2));
    match env.get_global(String::from("y")) {
        Err(ErrorType::GetVariableError(e)) => {
            assert_eq!(e.id, "y");
            assert_eq!(e.namespace, "Global");
            assert_eq!(
                e.to_string(),
                "Error at 1:1,\nError at getting variable:get y from Global"
            );
        }
        other => panic!("{:?}", other),
    }
    assert!(env.update_global(String::from("x"), obj_int(3)).is_none());
    assert_eq!(env.get_global(String::from("x")).unwrap(), obj_int(3));
    match env.update_builtin(String::from("nope"), obj_int(3)) {
        Some(ErrorType::SetVariableError(e)) => {
            assert_eq!(e.id, "nope");
            assert_eq!(e.namespace, "Builtin");
        }
        other => panic!("{:?}", other),
    }
}

#[test]
fn scope_resolution_order() {
    let mut env = PyNamespace::default();
    env.set_builtin(String::from("b"), obj_int(0));
    env.set_global(String::from("x"), obj_int(1));
    env.set_global(String::from("g"), obj_int(5));
    env.set_enclosing(String::from("call"), String::from("x"), obj_int(2));
    let inside = Namespace::Enclosing(String::from("call"));
    let x = String::from("x");
    let from_call = env.resolve(&inside, &x).unwrap();
    let from_global = env.resolve(&Namespace::Global, &x).unwrap();
    assert_eq!(env.variable_pool.get_value(from_call), Some(obj_int(2)));
    assert_eq!(env.variable_pool.get_value(from_global), Some(obj_int(1)));
    assert_eq!(env.lookup_variable(&inside, &x).unwrap(), obj_int(2));
    assert_eq!(env.lookup_variable(&Namespace::Global, &x).unwrap(), obj_int(1));
    // what the call does not bind is sought further out
    assert_eq!(env.lookup_variable(&inside, &String::from("g")).unwrap(), obj_int(5));
    assert_eq!(env.lookup_variable(&inside, &String::from("b")).unwrap(), obj_int(0));
    let nested = Namespace::Local(String::from("call"), vec![String::from("block")]);
    assert_eq!(env.lookup_variable(&nested, &x).unwrap(), obj_int(2));
    match env.lookup_variable(&inside, &String::from("nowhere")) {
        Err(ErrorType::GetVariableError(e)) => {
            assert_eq!(e.id, "nowhere");
            assert_eq!(e.namespace, "Enclosing(call)");
        }
        other => panic!("{:?}", other),
    }
}

#[test]
fn local_scopes_come_into_being_with_the_first_write() {
    let mut env = PyNamespace::default();
    let path = vec![String::from("a"), String::from("b")];
    let id = env.set_local(String::from("call"), path.clone(), String::from("t"), obj_int(1));
    assert_eq!(
        env.get_local(String::from("call"), path.clone(), String::from("t")).unwrap(),
        obj_int(1)
    );
    assert_eq!(
        env.get_any_uuid(Namespace::Local(String::from("call"), path.clone()), String::from("t"))
            .unwrap(),
        id
    );
    // the scopes on the way exist, and bind nothing
    assert!(matches!(
        env.get_local(String::from("call"), vec![String::from("a")], String::from("t")),
        Err(ErrorType::GetVariableError(_))
    ));
    assert!(matches!(
        env.get_enclosing(String::from("call"), String::from("t")),
        Err(ErrorType::GetVariableError(_))
    ));
    // a scope that was never written to does not exist
    match env.get_local(String::from("call"), vec![String::from("z")], String::from("t")) {
        Err(ErrorType::NamespaceNotFound(e)) => assert_eq!(e.namespace, "z"),
        other => panic!("{:?}", other),
    }
    // a call that has no scope: the name is missing, and the error names
    // the name and the scope
    match env.get_enclosing(String::from("other"), String::from("t")) {
        Err(ErrorType::GetVariableError(e)) => {
            assert_eq!(e.id, "t");
            assert_eq!(e.namespace, "Enclosing(other)");
        }
        other => panic!("{:?}", other),
    }
    match env.get_local(String::from("other"), vec![String::from("a")], String::from("t")) {
        Err(ErrorType::GetVariableError(e)) => {
            assert_eq!(e.id, "t");
            assert_eq!(e.namespace, "Local(other,[\"a\"])");
        }
        other => panic!("{:?}", other),
    }
    assert!(matches!(
        env.get_any_uuid(Namespace::Enclosing(String::from("other")), String::from("t")),
        Err(ErrorType::GetVariableError(_))
    ));
    // a scope on the way that binds nothing names itself in the error
    match env.get_local(String::from("call"), vec![String::from("a")], String::from("t")) {
        Err(ErrorType::GetVariableError(e)) => {
            assert_eq!(e.id, "t");
            assert_eq!(
                e.namespace,
                Namespace::Local(String::from("call"), vec![String::from("a")]).to_string()
            );
        }
        other => panic!("{:?}", other),
    }
}

#[test]
fn scopes_exist_once_made() {
    let mut env = PyNamespace::default();
    let call = Namespace::Enclosing(String::from("call"));
    let nested = Namespace::Local(String::from("call"), vec![String::from("a")]);
    assert!(env.has_scope(&Namespace::Builtin));
    assert!(env.has_scope(&Namespace::Global));
    assert!(!env.has_scope(&call));
    assert!(!env.has_scope(&nested));
    env.create_enclosing_namespace(String::from("call"));
    assert!(env.has_scope(&call));
    assert!(!env.has_scope(&nested));
    env.set_local(String::from("call"), vec![String::from("a")], String::from("x"), obj_int(1));
    assert!(env.has_scope(&nested));
    assert!(!env.has_scope(&Namespace::Local(String::from("call"), vec![String::from("b")])));
    assert!(!env.has_scope(&Namespace::Local(String::from("other"), vec![String::from("a")])));
}

#[test]
fn creating_a_scope_is_idempotent() {
    let mut env = PyNamespace::default();
    env.set_enclosing(String::from("call"), String::from("x"), obj_int(1));
    env.create_enclosing_namespace(String::from("call"));
    assert_eq!(env.get_enclosing(String::from("call"), String::from("x")).unwrap(), obj_int(1));
    env.create_local_namespace(String::from("call"), vec![String::from("a")]);
    env.set_local(String::from("call"), vec![String::from("a")], String::from("y"), obj_int(2));
    env.create_local_namespace(String::from("call"), vec![String::from("a")]);
    assert_eq!(
        env.get_local(String::from("call"), vec![String::from("a")], String::from("y")).unwrap(),
        obj_int(2)
    );
    assert_eq!(env.enclosing_namespace.len(), 1);
}

#[test]
fn nonlocal_lookup_goes_from_the_inside_out() {
    let mut env = PyNamespace::default();
    let call = String::from("call");
    env.set_enclosing(call.clone(), String::from("x"), obj_int(1));
    env.set_local(call.clone(), vec![String::from("a")], String::from("x"), obj_int(2));
    env.set_local(
        call.clone(),
        vec![String::from("a"), String::from("b")],
        String::from("x"),
        obj_int(3),
    );
    let inner = vec![String::from("a"), String::from("b")];
    let (value, path) = env.get_nonlocal(call.clone(), inner, String::from("x")).unwrap();
    assert_eq!(value, obj_int(2));
    assert_eq!(path, vec![String::from("a")]);
    let (value, path) =
        env.get_nonlocal(call.clone(), vec![String::from("a")], String::from("x")).unwrap();
    assert_eq!(value, obj_int(1));
    assert!(path.is_empty());
    assert!(matches!(
        env.get_nonlocal(call, vec![], String::from("x")),
        Err(ErrorType::GetNonlocalVariableError(_))
    ));
}

#[test]
fn set_any_writes_to_the_scope_that_is_named() {
    let mut env = PyNamespace::default();
    let id = env.set_any(Namespace::Global, String::from("s"), obj_str(String::from("v")));
    env.set_any_from_uuid(Namespace::Enclosing(String::from("c")), String::from("t"), id);
    assert_eq!(
        env.get_any(Namespace::Enclosing(String::from("c")), String::from("t")).unwrap(),
        obj_str(String::from("v"))
    );
    assert_eq!(env.get_any_uuid(Namespace::Global, String::from("s")).unwrap(), id);
    assert!(env.get_any_uuid(Namespace::Builtin, String::from("s")).is_err());
}

#[test]
fn scopes_print_their_names() {
    assert_eq!(Namespace::Builtin.to_string(), "Builtin");
    assert_eq!(Namespace::Global.to_string(), "Global");
    assert_eq!(Namespace::Enclosing(String::from("f")).to_string(), "Enclosing(f)");
    assert_eq!(
        Namespace::Local(String::from("f"), vec![String::from("a"), String::from("b")])
            .to_string(),
        "Local(f,[\"a\", \"b\"])"
    );
    assert_eq!(Namespace::Local(String::from("f"), vec![]).to_string(), "Local(f,[])");
}

#[test]
fn an_unused_scope_name_names_no_scope() {
    let mut env = PyNamespace::default();
    let global = env.unused_scope_name(&Namespace::Global);
    assert!(!global.is_empty());
    env.create_enclosing_namespace(String::from("0"));
    env.create_enclosing_namespace(String::from("call"));
    env.create_local_namespace(String::from("call"), vec![String::from("0"), String::from("b")]);
    let name = env.unused_scope_name(&Namespace::Global);
    assert!(!env.has_scope(&Namespace::Enclosing(name)));
    let call = Namespace::Enclosing(String::from("call"));
    let name = env.unused_scope_name(&call);
    assert!(name != "0");
    assert!(!env.has_scope(&Namespace::Local(String::from("call"), vec![name])));
    let nested = Namespace::Local(String::from("call"), vec![String::from("0")]);
    let name = env.unused_scope_name(&nested);
    assert!(name != "b");
    assert!(!env.has_scope(&Namespace::Local(
        String::from("call"),
        vec![String::from("0"), name]
    )));
    // under a scope that does not exist, every name is unused
    let name = env.unused_scope_name(&Namespace::Enclosing(String::from("other")));
    assert!(!env.has_scope(&Namespace::Local(String::from("other"), vec![name])));
}

#[test]
fn an_unused_key_is_in_no_entry() {
    let empty: Vec<(String, u128)> = Vec::new();
    assert_eq!(unused_key(&empty), "0");
    let table = vec![(String::from("0"), 1u128), (String::from("0a"), 2u128)];
    let key = unused_key(&table);
    assert_eq!(key, "000a");
    assert_eq!(find(&table, &key), None);
    assert_eq!(find(&table, &String::from("0a")), Some(1));
}

#[test]
fn a_name_bound_to_an_identifier_without_a_value_is_missing() {
    let mut env = PyNamespace::default();
    env.set_any_from_uuid(Namespace::Global, String::from("x"), 12345);
    match env.lookup_variable(&Namespace::Global, &String::from("x")) {
        Err(ErrorType::GetVariableError(e)) => {
            assert_eq!(e.id, "x");
            assert_eq!(e.namespace, "Global");
            assert_eq!(e.basic_error.lexeme, "");
            assert_eq!((e.basic_error.lineno, e.basic_error.col_offset), (0, 0));
        }
        other => panic!("{:?}", other),
    }
    match env.get_global(String::from("x")) {
        Err(ErrorType::GetVariableError(e)) => assert_eq!(e.namespace, "Global"),
        other => panic!("{:?}", other),
    }
    let nested = Namespace::Local(String::from("c"), vec![String::from("a")]);
    env.set_any_from_uuid(nested, String::from("y"), 12345);
    match env.get_nonlocal(
        String::from("c"),
        vec![String::from("a"), String::from("b")],
        String::from("y"),
    ) {
        Err(ErrorType::GetVariableError(e)) => {
            assert_eq!(e.id, "y");
            assert_eq!(e.namespace, "c");
        }
        other => panic!("{:?}", other),
    }
    match env.get_nonlocal(
        String::from("c"),
        vec![String::from("a"), String::from("b")],
        String::from("z"),
    ) {
        Err(ErrorType::GetNonlocalVariableError(e)) => {
            assert_eq!(e.id, "z");
            assert_eq!(e.namespace, "c");
        }
        other => panic!("{:?}", other),
    }
}

#[test]
fn no_two_identifiers_hold_equal_values() {
    let mut pool = VariablePool::default();
    let a = pool.store_new_value(obj_int(1));
    let b = pool.store_new_value(obj_int(2));
    assert_ne!(a, b);
    // the value is held under `a`: it is stored there, and `b` keeps its own
    assert_eq!(pool.update_value(b, obj_int(1)), a);
    assert_eq!(pool.get_value(a), Some(obj_int(1)));
    assert_eq!(pool.get_value(b), Some(obj_int(2)));
    assert_eq!(pool.store_new_value(obj_int(1)), a);
    // three references to the value by now
    pool.del_variable(a);
    pool.del_variable(a);
    assert_eq!(pool.get_value(a), Some(obj_int(1)));
    pool.del_variable(a);
    assert_eq!(pool.get_value(a), None);
    // the same of a value that is put under a given identifier
    assert_eq!(pool.insert(9, obj_int(2)), b);
    assert_eq!(pool.get_value(9), None);
    assert_eq!(pool.insert(9, obj_int(3)), 9);
    assert_eq!(pool.get_value(9), Some(obj_int(3)));
    // a value that only the identifier itself holds is put in place
    assert_eq!(pool.update_value(b, obj_int(2)), b);
    assert_eq!(pool.update_value(b, obj_int(4)), b);
    assert_eq!(pool.get_value(b), Some(obj_int(4)));
    assert_eq!(pool.store_new_value(obj_int(4)), b);
}

#[test]
fn updating_a_name_to_a_held_value_binds_it_to_the_holder() {
    let mut env = PyNamespace::default();
    let one = env.set_global(String::from("x"), obj_int(1));
    let two = env.set_global(String::from("y"), obj_int(2));
    assert!(env.update_global(String::from("y"), obj_int(1)).is_none());
    assert_eq!(env.get_any_uuid(Namespace::Global, String::from("y")).unwrap(), one);
    assert_eq!(env.get_global(String::from("y")).unwrap(), obj_int(1));
    assert_eq!(env.get_global(String::from("x")).unwrap(), obj_int(1));
    assert_eq!(env.variable_pool.get_value(two), Some(obj_int(2)));
    // a value that the pool does not hold is put in place
    assert!(env.update_global(String::from("y"), obj_int(7)).is_none());
    assert_eq!(env.get_any_uuid(Namespace::Global, String::from("y")).unwrap(), one);
    assert_eq!(env.get_global(String::from("x")).unwrap(), obj_int(7));
}
