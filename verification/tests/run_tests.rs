use pyinterp::ast_struct::{
    Assign, BoolOp, Compare, Constant, Name, Operator, PyCtx, PyRootNode, Type,
};
use pyinterp::core_type::{obj_bool, obj_int, obj_str};
use pyinterp::error::ErrorType;
use pyinterp::function::{new_scope_name, PyFunction};
use pyinterp::namespace::{Namespace, PyNamespace};
use pyinterp::object::{PyObjBehaviors, PyObject, PyResult};
use pyinterp::parser::build_parser;
use pyinterp::run_commands::{deref_expression, exec_commands, Calc, RunAble, RunState};
use pyinterp::scanner::build_scanner;

fn run_source(source: &str) -> (Result<Type, ErrorType>, Vec<String>, PyNamespace) {
    let mut nodes = PyRootNode::default();
    nodes.parser(String::from(source)).unwrap();
    let mut env = PyNamespace::default();
    let mut run = RunState::new(1000);
    let result = nodes.exec(&mut env, &mut run);
    (result, run.output, env)
}

fn output(source: &str) -> Vec<String> {
    let (result, out, _) = run_source(source);
    result.unwrap();
    out
}

fn value(source: &str) -> Type {
    run_source(source).0.unwrap()
}

fn constant(obj: PyObject) -> Type {
    Type::Constant(Constant::new(obj))
}

#[test]
fn test_run() {
    let source = String::from("print 2+5");
    let mut scanner = build_scanner(source);
    scanner.scan().unwrap();
    let mut parser = build_parser(scanner);
    let mut ast = PyRootNode::default();
    ast.body = parser.create_vec().unwrap();
    let mut env = PyNamespace::default();
    let mut run = RunState::new(100);
    ast.exec(&mut env, &mut run).unwrap();
    assert_eq!(run.output, vec![String::from("7")]);
}

#[test]
fn end_to_end_if() {
    assert_eq!(output("a=1\nif a:\n    a=a+1\nprint a"), vec![String::from("2")]);
}

#[test]
fn end_to_end_while_else() {
    assert_eq!(
        output("a=0\nwhile a<3:\n    a=a+1\nelse:\n    a=a+10\nprint a"),
        vec![String::from("13")]
    );
}

#[test]
fn end_to_end_while_break() {
    assert_eq!(
        output("a=0\nwhile a<3:\n    a=a+1\n    break\nelse:\n    a=a+10\nprint a"),
        vec![String::from("1")]
    );
}

#[test]
fn comparison_chains_are_evaluated_pair_by_pair() {
    assert_eq!(value("1 < 2 < 0"), constant(obj_bool(false)));
    assert_eq!(value("1 < 2 < 3"), constant(obj_bool(true)));
    assert_eq!(value("1 is not 2"), constant(obj_bool(true)));
    assert_eq!(value("1 is not 1"), constant(obj_bool(false)));
    // the chain stops at the first comparison that fails: `nowhere` is never looked up
    assert_eq!(value("2 < 1 < nowhere"), constant(obj_bool(false)));
}

#[test]
fn logical_operators_stop_at_the_operand_that_decides() {
    assert_eq!(value("1 and 0 and nowhere"), constant(obj_bool(false)));
    assert_eq!(value("0 or 2 or nowhere"), constant(obj_bool(true)));
    assert_eq!(value("1 and 2"), constant(obj_bool(true)));
    assert_eq!(value("0 or 0"), constant(obj_bool(false)));
    assert!(matches!(
        run_source("1 and nowhere").0,
        Err(ErrorType::GetVariableError(_))
    ));
    // an operand with an observable effect: it fails when it is evaluated
    let node = BoolOp {
        op: Operator::And,
        values: vec![
            constant(obj_bool(false)),
            Type::Name(Name { id: String::from("unbound"), ctx: PyCtx::Load }),
        ],
    };
    let env = PyNamespace::default();
    assert_eq!(node.calc_value(&env, &Namespace::Global).unwrap().value, obj_bool(false));
}

#[test]
fn arithmetic_in_programs() {
    assert_eq!(output("print 1 + 2"), vec![String::from("3")]);
    assert_eq!(output("print True + 1"), vec![String::from("2")]);
    assert_eq!(output("print \"a\" * 3"), vec![String::from("aaa")]);
    assert_eq!(output("print \"a\" + \"b\""), vec![String::from("ab")]);
    assert_eq!(output("print 2 - 3 - 4"), vec![String::from("3")]);
    assert_eq!(output("print -(2 + 3)"), vec![String::from("-5")]);
    assert_eq!(output("print not 0"), vec![String::from("true")]);
    assert!(matches!(
        run_source("print 1 / 0").0,
        Err(ErrorType::ObjMethodCallError(_))
    ));
}

#[test]
fn the_value_of_the_last_statement_is_handed_on() {
    assert_eq!(value("a = 4\na * 2"), constant(obj_int(8)));
    assert_eq!(value("1\na = 2"), Type::Nil);
    assert_eq!(value(""), Type::Nil);
    assert_eq!(value("\"x\""), constant(obj_str(String::from("x"))));
}

#[test]
fn continue_goes_on_with_the_next_test() {
    let source = "a=0\nb=0\nwhile a<5:\n    a=a+1\n    if a<3: continue\n    b=b+1\nprint b";
    assert_eq!(output(source), vec![String::from("3")]);
}

#[test]
fn nested_loops_and_break() {
    let source =
        "a=0\nn=0\nwhile a<3:\n    a=a+1\n    b=0\n    while True:\n        b=b+1\n        n=n+1\n        if b==2: break\nprint n";
    assert_eq!(output(source), vec![String::from("6")]);
}

#[test]
fn a_loop_runs_no_more_often_than_allowed() {
    let mut nodes = PyRootNode::default();
    nodes.parser(String::from("a=0\nwhile True:\n    a=a+1\n")).unwrap();
    let mut env = PyNamespace::default();
    let mut run = RunState::new(10);
    match nodes.exec(&mut env, &mut run) {
        Err(ErrorType::BasicError(e)) => assert_eq!(e.lexeme, "limit"),
        other => panic!("{:?}", other),
    }
    assert_eq!(env.get_global(String::from("a")).unwrap(), obj_int(10));
    assert_eq!(run.limit, 10);
}

#[test]
fn faults_of_evaluation() {
    match run_source("print x").0 {
        Err(ErrorType::GetVariableError(e)) => {
            assert_eq!(e.id, "x");
            assert_eq!(e.namespace, "Global");
        }
        other => panic!("{:?}", other),
    }
    // a statement is no operand
    match run_source("print (1 + (a = 2\n))").0 {
        Err(ErrorType::BasicError(e)) => assert_eq!(e.lexeme, "expression"),
        other => panic!("{:?}", other),
    }
    assert!(matches!(
        run_source("if \"a\" + 1: print 1\n").0,
        Err(ErrorType::ObjMethodCallError(_))
    ));
    // a write to the built-in scope
    let mut nodes = PyRootNode::default();
    nodes.parser(String::from("a = 1")).unwrap();
    let mut env = PyNamespace::default();
    let mut run = RunState::new(10);
    match exec_commands(&nodes.body, &mut env, &Namespace::Builtin, &mut run) {
        Err(ErrorType::SetVariableError(e)) => {
            assert_eq!(e.id, "a");
            assert_eq!(e.namespace, "Builtin");
        }
        other => panic!("{:?}", other),
    }
    assert!(env.get_builtin(String::from("a")).is_err());
}

#[test]
fn names_resolve_from_the_scope_of_the_call() {
    let mut env = PyNamespace::default();
    env.set_global(String::from("x"), obj_int(1));
    env.set_enclosing(String::from("call"), String::from("x"), obj_int(2));
    let x = Type::Name(Name { id: String::from("x"), ctx: PyCtx::Load });
    let inside = Namespace::Enclosing(String::from("call"));
    assert_eq!(deref_expression(&x, &env, &inside).unwrap().value, obj_int(2));
    assert_eq!(deref_expression(&x, &env, &Namespace::Global).unwrap().value, obj_int(1));
}

#[test]
fn assignment_in_a_call_does_not_touch_the_global_scope() {
    let mut nodes = PyRootNode::default();
    nodes.parser(String::from("x = x + 10\nprint x")).unwrap();
    let mut env = PyNamespace::default();
    env.set_global(String::from("x"), obj_int(1));
    let mut run = RunState::new(10);
    let inside = Namespace::Enclosing(String::from("call"));
    exec_commands(&nodes.body, &mut env, &inside, &mut run).unwrap();
    assert_eq!(run.output, vec![String::from("11")]);
    assert_eq!(env.get_global(String::from("x")).unwrap(), obj_int(1));
    assert_eq!(env.get_enclosing(String::from("call"), String::from("x")).unwrap(), obj_int(11));
}

#[test]
fn object_test_object() {
    let mut env = PyNamespace::default();
    let namespace = Namespace::Global;
    let uuid = env.set_any(namespace, "a".to_string(), obj_int(20));
    let mut body = PyRootNode::default();
    body.parser(String::from("print p\np + 1")).unwrap();
    let function = PyFunction::default()
        .run_default("test".to_string())
        .arg(vec!["p".to_string()])
        .codes(body.body);
    let mut run = RunState::new(10);
    let re = function.run(
        "__call__".to_string(),
        vec![uuid],
        PyResult::Nil,
        &mut env,
        &Namespace::Global,
        &mut run,
    );
    println!("{:?}", re);
    match re {
        PyResult::Value(o) => assert_eq!(o, obj_int(21)),
        other => panic!("{:?}", other),
    }
    assert_eq!(run.output, vec![String::from("20")]);
    // the parameter lives in the scope of the call, not in the global scope
    assert!(env.get_global("p".to_string()).is_err());
    assert_eq!(env.enclosing_namespace.len(), 1);
}

#[test]
fn a_call_uses_defaults_where_arguments_run_out() {
    let mut env = PyNamespace::default();
    let mut body = PyRootNode::default();
    body.parser(String::from("a + b")).unwrap();
    let function = PyFunction::default()
        .arg(vec![String::from("a"), String::from("b")])
        .default_args(vec![(String::from("b"), obj_int(5))])
        .codes(body.body);
    let one = env.variable_pool.store_new_value(obj_int(1));
    let mut run = RunState::new(10);
    let inside = Namespace::Enclosing(String::from("outer"));
    match function.run(String::from("f"), vec![one], PyResult::Nil, &mut env, &inside, &mut run) {
        PyResult::Value(o) => assert_eq!(o, obj_int(6)),
        other => panic!("{:?}", other),
    }
    // a parameter without a value is an error
    assert!(matches!(
        function.run(String::from("f"), vec![], PyResult::Nil, &mut env, &inside, &mut run),
        PyResult::Error(_)
    ));
    assert!(matches!(
        function.run(
            String::from("f"),
            vec![one],
            PyResult::Nil,
            &mut env,
            &Namespace::Builtin,
            &mut run
        ),
        PyResult::Error(_)
    ));
}

#[test]
fn a_call_runs_in_the_scope_it_is_given() {
    let mut env = PyNamespace::default();
    let mut body = PyRootNode::default();
    body.parser(String::from("print p\nq = p + 1")).unwrap();
    let function = PyFunction::default().arg(vec![String::from("p")]).codes(body.body);
    let seven = env.variable_pool.store_new_value(obj_int(7));
    let mut run = RunState::new(10);
    // the statements hand on no value: the result is that of the native function
    match function.run_in(
        String::from("f"),
        String::from("first"),
        PyResult::Value(obj_str(String::from("native"))),
        vec![seven],
        &mut env,
        &Namespace::Global,
        &mut run,
    ) {
        PyResult::Value(o) => assert_eq!(o, obj_str(String::from("native"))),
        other => panic!("{:?}", other),
    }
    assert_eq!(run.output, vec![String::from("7")]);
    assert_eq!(env.get_enclosing(String::from("first"), String::from("p")).unwrap(), obj_int(7));
    assert_eq!(env.get_enclosing(String::from("first"), String::from("q")).unwrap(), obj_int(8));
    assert!(env.get_global(String::from("q")).is_err());
    // a scope of that name exists now: the call is refused and changes nothing
    match function.run_in(
        String::from("f"),
        String::from("first"),
        PyResult::Nil,
        vec![seven],
        &mut env,
        &Namespace::Global,
        &mut run,
    ) {
        PyResult::Error(ErrorType::BasicError(e)) => assert_eq!(e.lexeme, "f"),
        other => panic!("{:?}", other),
    }
    assert_eq!(run.output, vec![String::from("7")]);
    // from the scope of a call, the scope is nested in it
    assert!(matches!(
        function.run_in(
            String::from("f"),
            String::from("second"),
            PyResult::Nil,
            vec![seven],
            &mut env,
            &Namespace::Enclosing(String::from("first")),
            &mut run,
        ),
        PyResult::Nil
    ));
    assert_eq!(
        env.get_local(String::from("first"), vec![String::from("second")], String::from("q"))
            .unwrap(),
        obj_int(8)
    );
    assert!(matches!(
        function.run_in(
            String::from("f"),
            String::from("third"),
            PyResult::Nil,
            vec![seven],
            &mut env,
            &Namespace::Local(String::from("first"), vec![String::from("second")]),
            &mut run,
        ),
        PyResult::Nil
    ));
    assert!(env.has_scope(&Namespace::Local(
        String::from("first"),
        vec![String::from("second"), String::from("third")]
    )));
    // a fault of the statements is the result
    let mut faulty = PyRootNode::default();
    faulty.parser(String::from("missing")).unwrap();
    let function = PyFunction::default().codes(faulty.body);
    match function.run_in(
        String::from("g"),
        String::from("fourth"),
        PyResult::Value(obj_int(1)),
        vec![],
        &mut env,
        &Namespace::Global,
        &mut run,
    ) {
        PyResult::Error(ErrorType::GetVariableError(e)) => {
            assert_eq!(e.id, "missing");
            assert_eq!(e.namespace, "Enclosing(fourth)");
        }
        other => panic!("{:?}", other),
    }
}

#[test]
fn a_call_is_opened_and_then_finished() {
    let mut env = PyNamespace::default();
    let mut body = PyRootNode::default();
    body.parser(String::from("a = a + b")).unwrap();
    let function = PyFunction::default()
        .arg(vec![String::from("a"), String::from("b")])
        .default_args(vec![(String::from("b"), obj_int(5))])
        .codes(body.body);
    let one = env.variable_pool.store_new_value(obj_int(1));
    let mut run = RunState::new(10);
    let name = new_scope_name(&env, &Namespace::Global);
    assert!(!env.has_scope(&Namespace::Enclosing(name.clone())));
    let scope = function
        .enter(String::from("f"), name.clone(), &vec![one], &mut env, &Namespace::Global)
        .unwrap();
    assert_eq!(scope.to_string(), format!("Enclosing({})", name));
    // the parameters are bound, and nothing has run yet
    assert_eq!(env.get_enclosing(name.clone(), String::from("a")).unwrap(), obj_int(1));
    assert_eq!(env.get_enclosing(name.clone(), String::from("b")).unwrap(), obj_int(5));
    // the same scope cannot be opened twice
    match function.enter(String::from("f"), name.clone(), &vec![one], &mut env, &Namespace::Global)
    {
        Err(ErrorType::BasicError(e)) => assert_eq!(e.lexeme, "f"),
        other => panic!("{:?}", other),
    }
    // nor a scope for a call with a parameter that has no value
    let missing = 77u128;
    assert!(env.variable_pool.get_value(missing).is_none());
    match function.enter(
        String::from("g"),
        String::from("another"),
        &vec![missing],
        &mut env,
        &Namespace::Global,
    ) {
        Err(ErrorType::BasicError(e)) => assert_eq!(e.lexeme, "g"),
        other => panic!("{:?}", other),
    }
    assert!(!env.has_scope(&Namespace::Enclosing(String::from("another"))));
    match function.finish(PyResult::Value(obj_int(9)), &scope, &mut env, &mut run) {
        PyResult::Value(o) => assert_eq!(o, obj_int(9)),
        other => panic!("{:?}", other),
    }
    assert_eq!(env.get_enclosing(name, String::from("a")).unwrap(), obj_int(6));
}

#[test]
fn calls_get_scopes_of_their_own() {
    let mut env = PyNamespace::default();
    let mut body = PyRootNode::default();
    body.parser(String::from("p")).unwrap();
    let function = PyFunction::default().arg(vec![String::from("p")]).codes(body.body);
    let seven = env.variable_pool.store_new_value(obj_int(7));
    let mut run = RunState::new(10);
    for n in 1..4usize {
        match function.run(
            String::from("f"),
            vec![seven],
            PyResult::Nil,
            &mut env,
            &Namespace::Global,
            &mut run,
        ) {
            PyResult::Value(o) => assert_eq!(o, obj_int(7)),
            other => panic!("{:?}", other),
        }
        assert_eq!(env.enclosing_namespace.len(), n);
    }
}

#[test]
fn numbers_with_a_decimal_point_print_as_written() {
    let mut nodes = PyRootNode::default();
    nodes.parser(String::from("print 1.5\nprint .5\nx = 2.25\nprint x")).unwrap();
    let mut env = PyNamespace::default();
    let mut run = RunState::new(10);
    nodes.exec(&mut env, &mut run).unwrap();
    assert_eq!(
        run.output,
        vec![String::from("1.5"), String::from("0.5"), String::from("2.25")]
    );
}

#[test]
fn a_comparison_with_more_operators_than_operands_is_a_fault() {
    let compare = Compare {
        left: Box::new(Type::Constant(Constant::new(obj_int(1)))),
        ops: vec![Operator::Lt, Operator::Lt],
        comparators: vec![Type::Constant(Constant::new(obj_int(2)))],
    };
    let env = PyNamespace::default();
    match compare.compare_calc(&env, &Namespace::Global) {
        Err(ErrorType::BasicError(e)) => assert_eq!(e.lexeme, "operator"),
        other => panic!("{:?}", other),
    }
    let compare = Compare {
        left: Box::new(Type::Constant(Constant::new(obj_int(1)))),
        ops: vec![Operator::Lt],
        comparators: vec![Type::Constant(Constant::new(obj_int(2)))],
    };
    assert_eq!(compare.compare_calc(&env, &Namespace::Global).unwrap(), true);
}

#[test]
fn program_text_that_is_no_program() {
    let mut nodes = PyRootNode::default();
    assert!(matches!(
        nodes.parser(String::from("a = ?")),
        Err(ErrorType::BasicError(_))
    ));
    assert!(matches!(
        nodes.parser(String::from("a = ")),
        Err(ErrorType::ParserError(_))
    ));
    assert!(nodes.body.is_empty());
}

#[test]
fn methods_are_called_with_pooled_arguments() {
    let mut env = PyNamespace::default();
    let mut run = RunState::new(10);
    let two = env.variable_pool.store_new_value(obj_int(2));
    // a native method
    let five = obj_int(5);
    match five.call_with(
        String::from("__add__"),
        vec![two],
        PyResult::Nil,
        &vec![],
        &mut env,
        &Namespace::Global,
        &mut run,
    ) {
        PyResult::Value(o) => assert_eq!(o, obj_int(7)),
        other => panic!("{:?}", other),
    }
    // an interpreted method: the receiver is the first argument
    let mut body = PyRootNode::default();
    body.parser(String::from("print n\nn * n")).unwrap();
    let functions = vec![PyFunction::default()
        .arg(vec![String::from("me"), String::from("n")])
        .codes(body.body)];
    let mut square = PyObject::default().identity(String::from("square"));
    square.set_behavior(String::from("__call__"), PyObjBehaviors::Interpreter(0));
    match square.call_with(
        String::from("__call__"),
        vec![two],
        PyResult::Nil,
        &functions,
        &mut env,
        &Namespace::Global,
        &mut run,
    ) {
        PyResult::Value(o) => assert_eq!(o, obj_int(4)),
        other => panic!("{:?}", other),
    }
    assert_eq!(run.output, vec![String::from("2")]);
    square.set_behavior(String::from("__str__"), PyObjBehaviors::Interpreter(3));
    assert!(matches!(
        square.call_with(
            String::from("__str__"),
            vec![],
            PyResult::Nil,
            &functions,
            &mut env,
            &Namespace::Global,
            &mut run
        ),
        PyResult::Error(ErrorType::ObjMethodNotAttr(_))
    ));
    assert!(matches!(
        square.call_with(
            String::from("__len__"),
            vec![],
            PyResult::Nil,
            &functions,
            &mut env,
            &Namespace::Global,
            &mut run
        ),
        PyResult::Error(ErrorType::ObjMethodCallError(_))
    ));
}

#[test]
fn running_a_node_stores_its_value_in_the_pool() {
    let mut nodes = PyRootNode::default();
    nodes.parser(String::from("2 * 21")).unwrap();
    let mut env = PyNamespace::default();
    let mut run = RunState::new(10);
    let id = nodes.body[0].run(&mut env, &Namespace::Global, &mut run).unwrap().unwrap();
    assert_eq!(env.variable_pool.get_value(id), Some(obj_int(42)));
    assert!(Type::Nil.run(&mut env, &Namespace::Global, &mut run).is_none());
}

#[test]
fn operators_that_are_not_carried_out() {
    match run_source("1 not in 2").0 {
        Err(ErrorType::BasicError(e)) => assert_eq!(e.lexeme, "operator"),
        other => panic!("{:?}", other),
    }
    let node = BoolOp { op: Operator::Add, values: vec![] };
    let env = PyNamespace::default();
    match node.calc(&env, &Namespace::Global) {
        Err(ErrorType::BasicError(e)) => assert_eq!(e.lexeme, "operator"),
        other => panic!("{:?}", other.map(|c| c.value)),
    }
}

#[test]
fn an_object_without_a_truth_value_decides_nothing() {
    let mut nodes = PyRootNode::default();
    nodes.parser(String::from("if thing: print 1\n")).unwrap();
    let mut env = PyNamespace::default();
    env.set_global(String::from("thing"), PyObject::default());
    let mut run = RunState::new(10);
    assert!(matches!(
        nodes.exec(&mut env, &mut run),
        Err(ErrorType::ObjBasicError(_))
    ));
    assert!(run.output.is_empty());
}

#[test]
fn only_a_name_that_is_written_can_be_assigned_to() {
    let mut env = PyNamespace::default();
    let run = RunState::new(10);
    let read = Assign {
        target: Box::new(Type::Name(Name { id: String::from("a"), ctx: PyCtx::Load })),
        value: Box::new(constant(obj_int(1))),
        type_comment: String::new(),
    };
    match read.exec(&mut env, &Namespace::Global, &run) {
        Err(ErrorType::BasicError(e)) => assert_eq!(e.lexeme, "target"),
        other => panic!("{:?}", other),
    }
    let constant_target = Assign {
        target: Box::new(constant(obj_int(1))),
        value: Box::new(constant(obj_int(1))),
        type_comment: String::new(),
    };
    assert!(matches!(
        constant_target.exec(&mut env, &Namespace::Global, &run),
        Err(ErrorType::BasicError(_))
    ));
    assert!(env.get_global(String::from("a")).is_err());
}

#[test]
fn values_are_handed_on_as_constants_without_a_comment() {
    let b = BoolOp {
        op: Operator::And,
        values: vec![
            Type::Constant(Constant::new(obj_bool(true))),
            Type::Constant(Constant::new(obj_bool(false))),
            Type::Name(Name { id: String::from("x"), ctx: PyCtx::Load }),
        ],
    };
    let env = PyNamespace::default();
    assert_eq!(b.calc(&env, &Namespace::Global).unwrap(), Constant::new(obj_bool(false)));

    let mut env = PyNamespace::default();
    env.set_global(String::from("x"), obj_int(1));
    env.set_enclosing(String::from("f"), String::from("x"), obj_int(2));
    let n = Name { id: String::from("x"), ctx: PyCtx::Load };
    let inside = Namespace::Enclosing(String::from("f"));
    assert_eq!(n.exec(&env, &inside).unwrap(), Constant::new(obj_int(2)));
    assert_eq!(n.exec(&env, &Namespace::Global).unwrap(), Constant::new(obj_int(1)));

    let mut env = PyNamespace::default();
    env.set_global(String::from("g"), obj_int(7));
    env.create_enclosing_namespace(String::from("f"));
    let g = Name { id: String::from("g"), ctx: PyCtx::Load };
    assert_eq!(g.exec(&env, &inside).unwrap(), Constant::new(obj_int(7)));
    let missing = Name { id: String::from("h"), ctx: PyCtx::Load };
    match missing.exec(&env, &inside) {
        Err(ErrorType::GetVariableError(e)) => assert_eq!(e.id, "h"),
        other => panic!("{:?}", other),
    }
}
