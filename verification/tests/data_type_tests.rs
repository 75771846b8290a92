use pyinterp::data_type::{CalcError, CompareResult, DataType};

fn whole(x: i64) -> DataType {
    DataType::Int(x)
}

fn text(x: &str) -> DataType {
    DataType::Str(String::from(x))
}

fn decimal(x: &str) -> DataType {
    DataType::Float(String::from(x))
}

#[test]
fn arithmetic_on_whole_numbers() {
    assert!(matches!(whole(1).add(whole(2)), Ok(DataType::Int(3))));
    assert!(matches!(whole(1).sub(whole(2)), Ok(DataType::Int(-1))));
    assert!(matches!(whole(6).mul(whole(7)), Ok(DataType::Int(42))));
    assert!(matches!(whole(i64::MAX).add(whole(1)), Err(CalcError::Overflow)));
    assert!(matches!(whole(i64::MIN).sub(whole(1)), Err(CalcError::Overflow)));
    assert!(matches!(whole(i64::MAX).mul(whole(2)), Err(CalcError::Overflow)));
}

#[test]
fn truth_values_count_as_zero_and_one() {
    assert!(matches!(DataType::Bool(true).add(whole(1)), Ok(DataType::Int(2))));
    assert!(matches!(whole(1).add(DataType::Bool(true)), Ok(DataType::Int(2))));
    assert!(matches!(
        DataType::Bool(true).add(DataType::Bool(true)),
        Ok(DataType::Int(2))
    ));
    assert!(matches!(
        DataType::Bool(false).add(DataType::Bool(false)),
        Ok(DataType::Int(0))
    ));
    assert!(matches!(
        DataType::Bool(false).sub(DataType::Bool(true)),
        Ok(DataType::Int(-1))
    ));
    assert!(matches!(DataType::Bool(true).sub(whole(5)), Ok(DataType::Int(-4))));
    assert!(matches!(whole(5).mul(DataType::Bool(false)), Ok(DataType::Int(0))));
}

#[test]
fn strings_concatenate_and_repeat() {
    match text("a").add(text("b")) {
        Ok(DataType::Str(s)) => assert_eq!(s, "ab"),
        other => panic!("{:?}", other),
    }
    match text("a").mul(whole(3)) {
        Ok(DataType::Str(s)) => assert_eq!(s, "aaa"),
        other => panic!("{:?}", other),
    }
    match text("ab").mul(whole(-2)) {
        Ok(DataType::Str(s)) => assert_eq!(s, ""),
        other => panic!("{:?}", other),
    }
    assert!(matches!(text("a").add(whole(1)), Err(CalcError::TypeMismatch)));
    assert!(matches!(text("a").sub(text("a")), Err(CalcError::TypeMismatch)));
    assert!(matches!(whole(3).mul(text("a")), Err(CalcError::TypeMismatch)));
    assert!(matches!(DataType::Nil.add(whole(1)), Err(CalcError::TypeMismatch)));
}

#[test]
fn division() {
    assert!(matches!(whole(1).div(whole(0)), Err(CalcError::DivisionByZero)));
    assert!(matches!(
        whole(1).div(DataType::Bool(false)),
        Err(CalcError::DivisionByZero)
    ));
    assert!(matches!(
        DataType::Bool(true).div(DataType::Bool(false)),
        Err(CalcError::DivisionByZero)
    ));
    assert!(matches!(whole(7).div(DataType::Bool(true)), Ok(DataType::Int(7))));
    assert!(matches!(
        DataType::Bool(false).div(DataType::Bool(true)),
        Ok(DataType::Int(0))
    ));
    assert!(matches!(whole(4).div(whole(2)), Err(CalcError::FloatArithmetic)));
    assert!(matches!(text("a").div(whole(2)), Err(CalcError::TypeMismatch)));
}

#[test]
fn arithmetic_with_a_decimal_point_is_left_to_the_host() {
    assert!(matches!(whole(1).add(decimal("2.0")), Err(CalcError::FloatArithmetic)));
    assert!(matches!(decimal("2.0").mul(whole(2)), Err(CalcError::FloatArithmetic)));
    assert!(matches!(decimal("2.0").cmp(whole(2)), Err(CalcError::FloatArithmetic)));
    assert!(matches!(decimal("2.0").add(text("a")), Err(CalcError::TypeMismatch)));
}

#[test]
fn comparison() {
    assert_eq!(whole(1).cmp(whole(2)), Ok(CompareResult::Less));
    assert_eq!(whole(2).cmp(whole(2)), Ok(CompareResult::Equal));
    assert_eq!(whole(3).cmp(whole(2)), Ok(CompareResult::Great));
    assert_eq!(DataType::Bool(true).cmp(whole(1)), Ok(CompareResult::Equal));
    assert_eq!(whole(0).cmp(DataType::Bool(true)), Ok(CompareResult::Less));
    assert_eq!(text("abc").cmp(text("abd")), Ok(CompareResult::Less));
    assert_eq!(text("abc").cmp(text("ab")), Ok(CompareResult::Great));
    assert_eq!(text("ab").cmp(text("abc")), Ok(CompareResult::Less));
    assert_eq!(text("").cmp(text("")), Ok(CompareResult::Equal));
    assert_eq!(text("b").cmp(text("")), Ok(CompareResult::Great));
    assert_eq!(text("a").cmp(whole(1)), Ok(CompareResult::NotEq));
    assert_eq!(DataType::Nil.cmp(DataType::Nil), Ok(CompareResult::NotEq));
}

#[test]
fn truth_and_text() {
    assert!(whole(-3).bool());
    assert!(!whole(0).bool());
    assert!(decimal("0.01").bool());
    assert!(!decimal("0.00").bool());
    assert!(text("a").bool());
    assert!(!text("").bool());
    assert!(DataType::List(vec![7]).bool());
    assert!(!DataType::List(vec![]).bool());
    assert!(!DataType::Nil.bool());
    assert_eq!(whole(-120).str(), Ok(String::from("-120")));
    assert_eq!(whole(i64::MIN).str(), Ok(String::from("-9223372036854775808")));
    assert_eq!(whole(0).str(), Ok(String::from("0")));
    assert_eq!(DataType::Bool(true).str(), Ok(String::from("true")));
    assert_eq!(decimal("1.5").str(), Ok(String::from("1.5")));
    assert_eq!(text("x y").str(), Ok(String::from("x y")));
    assert_eq!(DataType::Nil.str(), Err(CalcError::TypeMismatch));
}
