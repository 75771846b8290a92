use colored::Colorize;
use pyinterp::ast_struct::{
    Assign, BinOp, BoolOp, Compare, Constant, If, Name, Operator, Print, PyCtx, Type, UnaryOp,
    While,
};
use pyinterp::core_type::{obj_bool, obj_float, obj_int, obj_str};
use pyinterp::error::ErrorType;
use pyinterp::parser::{build_parser, Parser};
use pyinterp::scanner::{build_scanner, TokenType};

fn parse(source: &str) -> Result<Vec<Type>, ErrorType> {
    let mut scanner = build_scanner(String::from(source));
    scanner.scan().unwrap();
    let mut parser = build_parser(scanner);
    parser.create_vec()
}

fn expr(source: &str) -> Type {
    let mut scanner = build_scanner(String::from(source));
    scanner.scan().unwrap();
    let mut parser = build_parser(scanner);
    parser.expression().unwrap()
}

fn num(x: i64) -> Type {
    Type::Constant(Constant::new(obj_int(x)))
}

fn load(id: &str) -> Type {
    Type::Name(Name { id: String::from(id), ctx: PyCtx::Load })
}

fn assign(id: &str, value: Type) -> Type {
    Type::Assign(Box::new(Assign {
        target: Box::new(Type::Name(Name { id: String::from(id), ctx: PyCtx::Store })),
        value: Box::new(value),
        type_comment: String::new(),
    }))
}

fn binop(left: Type, op: Operator, right: Type) -> Type {
    Type::BinOp(BinOp { left: Box::new(left), op, right: Box::new(right) })
}

fn print(arg: Type) -> Type {
    Type::Print(Box::new(Print { arg: Box::new(arg) }))
}

#[test]
fn ast_analyze_test_parser() {
    println!("{}", "[INFO] Test parser".yellow());
    let source = String::from("a=1\nprint a\nb=2\nprint b");
    let mut scanner = build_scanner(source);
    scanner.scan().unwrap();
    let mut parser = build_parser(scanner);
    let nodes = parser.create_vec().unwrap();
    println!("{:#?}", nodes);
    assert_eq!(
        nodes,
        vec![assign("a", num(1)), print(load("a")), assign("b", num(2)), print(load("b"))]
    );
}

#[test]
fn test_test_parser() {
    println!("{}", "[INFO] Test parser".yellow());
    let source = String::from("1 is not 2 and 2 is not 1 and 1+3*(3+2)");
    let mut scanner = build_scanner(source);
    scanner.scan().unwrap();
    let mut parser = build_parser(scanner);
    let node = parser.parser();
    println!("{:#?}", node);
    let is_not = |a: i64, b: i64| {
        Type::Compare(Compare {
            left: Box::new(num(a)),
            ops: vec![Operator::IsNot],
            comparators: vec![num(b)],
        })
    };
    let sum = binop(
        num(1),
        Operator::Add,
        binop(num(3), Operator::Mult, binop(num(3), Operator::Add, num(2))),
    );
    assert_eq!(
        node.unwrap(),
        Type::BoolOp(BoolOp { op: Operator::And, values: vec![is_not(1, 2), is_not(2, 1), sum] })
    );
}

#[test]
fn comparison_chain_is_one_node() {
    assert_eq!(
        expr("1 < 2 < 0"),
        Type::Compare(Compare {
            left: Box::new(num(1)),
            ops: vec![Operator::Lt, Operator::Lt],
            comparators: vec![num(2), num(0)],
        })
    );
    assert_eq!(
        expr("a <= b != c == d >= e > f not in g"),
        Type::Compare(Compare {
            left: Box::new(load("a")),
            ops: vec![
                Operator::LtE,
                Operator::NotEq,
                Operator::Eq,
                Operator::GtE,
                Operator::Gt,
                Operator::NotIn
            ],
            comparators: vec![load("b"), load("c"), load("d"), load("e"), load("f"), load("g")],
        })
    );
}

#[test]
fn logical_chain_is_one_node() {
    assert_eq!(
        expr("a and b and c"),
        Type::BoolOp(BoolOp { op: Operator::And, values: vec![load("a"), load("b"), load("c")] })
    );
    assert_eq!(
        expr("a or b and c"),
        Type::BoolOp(BoolOp {
            op: Operator::Or,
            values: vec![
                load("a"),
                Type::BoolOp(BoolOp { op: Operator::And, values: vec![load("b"), load("c")] })
            ]
        })
    );
}

#[test]
fn expression_levels() {
    assert_eq!(
        expr("1 + 2 * 3"),
        binop(num(1), Operator::Add, binop(num(2), Operator::Mult, num(3)))
    );
    assert_eq!(
        expr("(1 + 2) * 3"),
        binop(binop(num(1), Operator::Add, num(2)), Operator::Mult, num(3))
    );
    // every binary level groups to the right
    assert_eq!(
        expr("1 - 2 - 3"),
        binop(num(1), Operator::Sub, binop(num(2), Operator::Sub, num(3)))
    );
    assert_eq!(
        expr("8 / 4 / 2"),
        binop(num(8), Operator::Div, binop(num(4), Operator::Div, num(2)))
    );
    assert_eq!(
        expr("-+x"),
        Type::UnaryOp(UnaryOp {
            op: Operator::USub,
            operand: Box::new(Type::UnaryOp(UnaryOp {
                op: Operator::UAdd,
                operand: Box::new(load("x"))
            }))
        })
    );
    assert_eq!(
        expr("not a < b"),
        Type::UnaryOp(UnaryOp {
            op: Operator::Not,
            operand: Box::new(Type::Compare(Compare {
                left: Box::new(load("a")),
                ops: vec![Operator::Lt],
                comparators: vec![load("b")]
            }))
        })
    );
}

#[test]
fn literals() {
    assert_eq!(expr("True"), Type::Constant(Constant::new(obj_bool(true))));
    assert_eq!(expr("False"), Type::Constant(Constant::new(obj_bool(false))));
    assert_eq!(
        expr("\"hi\""),
        Type::Constant(Constant::new(obj_str(String::from("hi"))))
    );
    assert_eq!(
        expr("2.5"),
        Type::Constant(Constant::new(obj_float(String::from("2.5"))))
    );
    assert_eq!(expr("break"), Type::Break);
    assert_eq!(expr("continue"), Type::Continue);
}

#[test]
fn if_with_indented_block_and_else() {
    let nodes = parse("a=1\nif a:\n    a=a+1\nelse:\n    a=0\nprint a").unwrap();
    assert_eq!(
        nodes,
        vec![
            assign("a", num(1)),
            Type::If(Box::new(If {
                test: Box::new(load("a")),
                body: vec![assign("a", binop(load("a"), Operator::Add, num(1)))],
                orelse: vec![assign("a", num(0))],
            })),
            print(load("a")),
        ]
    );
}

#[test]
fn if_on_one_line() {
    let nodes = parse("if a: print a\nprint b").unwrap();
    assert_eq!(
        nodes,
        vec![
            Type::If(Box::new(If {
                test: Box::new(load("a")),
                body: vec![print(load("a"))],
                orelse: vec![],
            })),
            print(load("b")),
        ]
    );
}

#[test]
fn elif_nests_in_orelse() {
    let nodes = parse("if a:\n\tprint 1\nelif b:\n\tprint 2\nelse:\n\tprint 3\n").unwrap();
    assert_eq!(
        nodes,
        vec![Type::If(Box::new(If {
            test: Box::new(load("a")),
            body: vec![print(num(1))],
            orelse: vec![Type::If(Box::new(If {
                test: Box::new(load("b")),
                body: vec![print(num(2))],
                orelse: vec![print(num(3))],
            }))],
        }))]
    );
}

#[test]
fn nested_blocks_resume_the_outer_block() {
    let source = "while a:\n  if b:\n      print 1\n  print 2\nprint 3";
    let nodes = parse(source).unwrap();
    assert_eq!(
        nodes,
        vec![
            Type::While(Box::new(While {
                test: Box::new(load("a")),
                body: vec![
                    Type::If(Box::new(If {
                        test: Box::new(load("b")),
                        body: vec![print(num(1))],
                        orelse: vec![],
                    })),
                    print(num(2)),
                ],
                orelse: vec![],
            })),
            print(num(3)),
        ]
    );
}

#[test]
fn else_belongs_to_the_statement_of_its_width() {
    let source = "if a:\n    if b:\n        print 1\nelse:\n    print 2\n";
    let nodes = parse(source).unwrap();
    assert_eq!(
        nodes,
        vec![Type::If(Box::new(If {
            test: Box::new(load("a")),
            body: vec![Type::If(Box::new(If {
                test: Box::new(load("b")),
                body: vec![print(num(1))],
                orelse: vec![],
            }))],
            orelse: vec![print(num(2))],
        }))]
    );
}

#[test]
fn while_with_else() {
    let nodes = parse("while a<3:\n    a=a+1\nelse:\n    a=a+10\nprint a").unwrap();
    assert_eq!(nodes.len(), 2);
    match &nodes[0] {
        Type::While(w) => {
            assert_eq!(w.body.len(), 1);
            assert_eq!(w.orelse, vec![assign("a", binop(load("a"), Operator::Add, num(10)))]);
        }
        other => panic!("{:?}", other),
    }
}

#[test]
fn test_indent_measures_and_consumes() {
    let mut scanner = build_scanner(String::from("\n \t  x"));
    scanner.scan().unwrap();
    let mut parser = build_parser(scanner);
    assert_eq!(parser.test_indent(), (7, 5));
    assert_eq!(parser.token_iter.peek().token_type, TokenType::IDENTIFIER);
}

#[test]
fn blank_lines_are_passed_over() {
    let nodes = parse("a=1\n\n\nif a:\n\n    print a\n\nprint a\n\n").unwrap();
    assert_eq!(nodes.len(), 3);
}

#[test]
fn parser_without_panic_gives_no_node_for_an_outer_line() {
    let mut scanner = build_scanner(String::from("print a"));
    scanner.scan().unwrap();
    let mut parser = Parser::default().tokens(scanner.token).indent(4, vec![0, 0]);
    assert_eq!(parser.parser_without_panic().unwrap(), Type::Nil);
    assert_eq!(parser.token_iter.current, 0);
}

fn parse_error(source: &str) -> (u64, u64, String) {
    match parse(source) {
        Err(ErrorType::ParserError(e)) => {
            (e.basic_error.lineno, e.basic_error.col_offset, e.basic_error.lexeme)
        }
        other => panic!("{:?}", other),
    }
}

#[test]
fn grammar_violations_name_the_offending_token() {
    // a missing operand
    assert_eq!(parse_error("a = 1 +\n"), (0, 7, String::from("\n")));
    // a parenthesis that is not closed
    assert_eq!(parse_error("print (1 + 2\n"), (0, 12, String::from("\n")));
    // a missing colon
    assert_eq!(parse_error("if a\n    print a\n"), (0, 4, String::from("\n")));
    // a block that is not indented
    assert_eq!(parse_error("if a:\nprint a\n"), (1, 0, String::from("print")));
    // an indentation that fits no block
    assert_eq!(parse_error("if a:\n    print a\n  print b\n"), (2, 2, String::from("print")));
    // else without a colon
    assert_eq!(parse_error("if a:\n  print a\nelse\n  print b\n"), (2, 4, String::from("\n")));
    // an assignment that does not end its line
    assert_eq!(parse_error("a = 1 b\n"), (0, 6, String::from("b")));
    let text = match parse("a = )") {
        Err(e) => e.to_string(),
        Ok(nodes) => panic!("{:?}", nodes),
    };
    assert_eq!(text, "Error at 1:5,\nError at parser");
}

#[test]
fn print_statement_gives_no_node_off_the_word() {
    let mut scanner = build_scanner(String::from("a + 1"));
    scanner.scan().unwrap();
    let mut parser = build_parser(scanner);
    assert_eq!(parser.print_statement().unwrap(), Type::Nil);
    assert_eq!(parser.token_iter.current, 0);
    let mut scanner = build_scanner(String::from("print a + 1"));
    scanner.scan().unwrap();
    let mut parser = build_parser(scanner);
    assert_eq!(
        parser.print_statement().unwrap(),
        print(binop(load("a"), Operator::Add, num(1)))
    );
}

#[test]
fn after_a_failed_parse_the_cursor_stands_on_the_offending_token() {
    for source in ["1 + )", "a = = 2", "if a\n    b", "print (1 + 2"] {
        let mut scanner = build_scanner(String::from(source));
        scanner.scan().unwrap();
        let mut parser = build_parser(scanner);
        match parser.create_vec() {
            Err(ErrorType::ParserError(e)) => {
                let token = parser.token_iter.peek();
                assert_eq!(token.lexeme, e.basic_error.lexeme, "{}", source);
                assert_eq!(token.lineno as u64, e.basic_error.lineno, "{}", source);
                assert_eq!(token.col_offset as u64, e.basic_error.col_offset, "{}", source);
            }
            other => panic!("{}: {:?}", source, other),
        }
    }
}

#[test]
fn identifier_statement_makes_a_name_of_an_identifier_only() {
    let mut scanner = build_scanner(String::from("abc 1"));
    scanner.scan().unwrap();
    let mut parser = build_parser(scanner);
    assert_eq!(
        parser.identifier_statement(PyCtx::Store).unwrap(),
        Type::Name(Name { id: String::from("abc"), ctx: PyCtx::Store })
    );
    assert_eq!(parser.token_iter.current, 1);
    // a blank stands at the cursor now, and no identifier
    let at = parser.token_iter.current;
    match parser.identifier_statement(PyCtx::Load) {
        Err(ErrorType::ParserError(e)) => {
            assert_eq!(e.basic_error.lexeme, parser.token_iter.peek().lexeme)
        }
        other => panic!("{:?}", other),
    }
    assert_eq!(parser.token_iter.current, at);
}

#[test]
fn tokens_close_a_list_that_lacks_its_end() {
    let mut scanner = build_scanner(String::from("a"));
    scanner.scan().unwrap();
    let mut open = scanner.token.clone();
    let end = open.pop().unwrap();
    assert_eq!(end.token_type, TokenType::EOF);
    let n = open.len();
    let parser = Parser::default().tokens(open);
    assert_eq!(parser.token_iter.vec_token.len(), n + 1);
    let closing = &parser.token_iter.vec_token[n];
    assert_eq!(closing.token_type, TokenType::EOF);
    assert_eq!((closing.lineno, closing.col_offset), (0, 0));
    assert_eq!(closing.lexeme, "");
    let parser = Parser::default().tokens(scanner.token.clone());
    assert_eq!(parser.token_iter.vec_token, scanner.token);
}
