use pyinterp::ast_struct::{Name, PyCtx};
use pyinterp::error::environment::{
    GetNonlocalVariableError, GetVariableError, NamespaceNotFound, SetVariableError,
};
use pyinterp::error::object_error::{
    ObjBasicError, ObjDataTypeNotAttr, ObjMethodCallError, ObjMethodNotAttr,
};
use pyinterp::error::parser_error::ParserError;
use pyinterp::error::{BasicError, ErrorType};

fn place(line: u64, col: u64, lexeme: &str) -> BasicError {
    BasicError::default().lineno(line).col_offset(col).lexeme(String::from(lexeme))
}

#[test]
fn basic_error_builders_set_one_field_each() {
    let mut e = BasicError::default();
    assert_eq!((e.lineno, e.col_offset, e.lexeme.as_str()), (0, 0, ""));
    let copy = e.lineno(3);
    assert_eq!(copy.lineno, 3);
    assert_eq!(e.lineno, 3);
    e.col_offset(7);
    e.lexeme(String::from("x"));
    assert_eq!((e.lineno, e.col_offset, e.lexeme.as_str()), (3, 7, "x"));
}

#[test]
fn places_print_counted_from_one() {
    assert_eq!(place(0, 0, "").to_string(), "Error at 1:1");
    assert_eq!(place(9, 41, "x").to_string(), "Error at 10:42");
    assert_eq!(
        place(u64::MAX, u64::MAX, "").to_string(),
        "Error at 18446744073709551616:18446744073709551616"
    );
}

#[test]
fn errors_print_their_place_and_what_they_name() {
    assert_eq!(
        ParserError::new(place(1, 2, "x")).to_string(),
        "Error at 2:3,\nError at parser"
    );
    assert_eq!(
        GetVariableError::new(place(0, 0, ""), String::from("a"), String::from("Global"))
            .to_string(),
        "Error at 1:1,\nError at getting variable:get a from Global"
    );
    assert_eq!(
        SetVariableError::new(place(0, 0, ""), String::from("a"), String::from("Builtin"))
            .to_string(),
        "Error at 1:1,\nError at setting variable:set a in Builtin"
    );
    assert_eq!(
        NamespaceNotFound::new(place(0, 0, ""), String::from("block")).to_string(),
        "Error at 1:1,\nError found namespace:block"
    );
    assert_eq!(
        GetNonlocalVariableError::new(place(0, 0, ""), String::from("a"), String::from("f"))
            .to_string(),
        "Error at 1:1,\nError at getting nonlocal variable:get a from f"
    );
    let obj = ObjBasicError::default().identity(String::from("int")).basic_error(place(2, 0, ""));
    assert_eq!(obj.to_string(), "Error at 3:1,\n object:int");
    let call = ObjMethodCallError::default().obj(obj.clone()).method(String::from("__add__"));
    assert_eq!(call.to_string(), "Error at 3:1,\n object:int,at method call:__add__");
    assert_eq!(
        ErrorType::ObjMethodCallError(call).to_string(),
        "Error at 3:1,\n object:int,at method call:__add__"
    );
    assert_eq!(
        ErrorType::ObjMethodNotAttr(ObjMethodNotAttr {
            obj: obj.clone(),
            method: String::from("__call__")
        })
        .to_string(),
        "Error at 3:1,\n object:int,method is not callable:__call__"
    );
    assert_eq!(
        ErrorType::ObjDatatypeNotAttr(ObjDataTypeNotAttr { obj, attr: String::from("x") })
            .to_string(),
        "Error at 3:1,\n object:int,attribute holds no native value:x"
    );
    assert_eq!(ErrorType::BasicError(place(4, 4, "?")).to_string(), "Error at 5:5");
}

#[test]
fn error_constructors_wrap_what_they_are_given() {
    match GetVariableError::new(place(1, 1, "t"), String::from("a"), String::from("Global")) {
        ErrorType::GetVariableError(e) => {
            assert_eq!(e.id, "a");
            assert_eq!(e.namespace, "Global");
            assert_eq!(e.basic_error.lexeme, "t");
        }
        other => panic!("{:?}", other),
    }
    assert!(matches!(
        SetVariableError::new(place(0, 0, ""), String::new(), String::new()),
        ErrorType::SetVariableError(_)
    ));
    assert!(matches!(
        NamespaceNotFound::new(place(0, 0, ""), String::new()),
        ErrorType::NamespaceNotFound(_)
    ));
    assert!(matches!(
        GetNonlocalVariableError::new(place(0, 0, ""), String::new(), String::new()),
        ErrorType::GetNonlocalVariableError(_)
    ));
    assert!(matches!(ParserError::new(place(0, 0, "")), ErrorType::ParserError(_)));
}

#[test]
fn a_name_is_retagged() {
    let mut name = Name { id: String::from("a"), ctx: PyCtx::Load };
    let copy = name.ctx(PyCtx::Store);
    assert_eq!(copy, Name { id: String::from("a"), ctx: PyCtx::Store });
    assert_eq!(name.ctx, PyCtx::Store);
}
