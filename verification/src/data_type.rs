//! The native values that objects of the built-in types hold, and the
//! arithmetic, the comparison and the conversions defined on them.
//!
//! Arithmetic on whole numbers is exact: a result that does not fit in 64
//! bits is reported, not wrapped. A truth value counts as 0 or 1 in
//! arithmetic and in comparisons. A number with a decimal point is carried
//! as its numeral; arithmetic on such numbers is left to the host, and the
//! functions here report [`CalcError::FloatArithmetic`] for it.

use vstd::prelude::*;
use vstd::string::*;
use crate::text::{is_digit, signed_decimal};

verus! {

/// A native value.
#[derive(Debug, PartialEq)]
pub enum DataType {
    Int(i64),
    Float(String),
    Bool(bool),
    Str(String),
    List(Vec<u128>),
    Nil,
}

/// The mathematical value of a [`DataType`].
pub enum DataTypeView {
    Int(i64),
    Float(Seq<char>),
    Bool(bool),
    Str(Seq<char>),
    List(Seq<u128>),
    Nil,
}

impl View for DataType {
    type V = DataTypeView;

    open spec fn view(&self) -> DataTypeView {
        match self {
            DataType::Int(x) => DataTypeView::Int(*x),
            DataType::Float(x) => DataTypeView::Float(x@),
            DataType::Bool(x) => DataTypeView::Bool(*x),
            DataType::Str(x) => DataTypeView::Str(x@),
            DataType::List(x) => DataTypeView::List(x@),
            DataType::Nil => DataTypeView::Nil,
        }
    }
}

impl Clone for DataType {
    fn clone(&self) -> (r: Self)
        ensures
            r@ == self@,
    {
        match self {
            DataType::Int(x) => DataType::Int(*x),
            DataType::Float(x) => DataType::Float(x.clone()),
            DataType::Bool(x) => DataType::Bool(*x),
            DataType::Str(x) => DataType::Str(x.clone()),
            DataType::List(x) => {
                let copy = x.clone();
                assert(copy@ =~= x@);
                DataType::List(copy)
            },
            DataType::Nil => DataType::Nil,
        }
    }
}

/// Why an operation on native values gave no result.
#[derive(Debug, Clone, Copy, PartialEq, Eq, Structural)]
pub enum CalcError {
    /// The operation is not defined on values of these kinds.
    TypeMismatch,
    /// The whole number that results does not fit in 64 bits.
    Overflow,
    /// The divisor is zero.
    DivisionByZero,
    /// The operation takes or gives a number with a decimal point.
    FloatArithmetic,
}

/// How two native values compare.
#[derive(Debug, Clone, Copy, PartialEq, Eq, Structural)]
pub enum CompareResult {
    Great,
    Equal,
    Less,
    /// The values are of kinds that have no order between them.
    NotEq,
}

/// The whole number that a value counts as in arithmetic: itself for a
/// whole number, 0 or 1 for a truth value.
pub open spec fn whole_of(v: DataTypeView) -> Option<int> {
    match v {
        DataTypeView::Int(x) => Some(x as int),
        DataTypeView::Bool(b) => Some(
            if b {
                1int
            } else {
                0int
            },
        ),
        _ => None,
    }
}

/// Whether a value is a number: whole, with a decimal point, or a truth
/// value.
pub open spec fn is_number(v: DataTypeView) -> bool {
    v is Int || v is Bool || v is Float
}

/// The whole number `n` as a value, where it fits in 64 bits.
pub open spec fn whole_result(n: int) -> Result<DataTypeView, CalcError> {
    if i64::MIN <= n <= i64::MAX {
        Ok(DataTypeView::Int(n as i64))
    } else {
        Err(CalcError::Overflow)
    }
}

/// The error for two values that are not both whole numbers: that of
/// arithmetic with a decimal point where both are numbers, else that of
/// kinds that do not go together.
pub open spec fn mixed_error(a: DataTypeView, b: DataTypeView) -> CalcError {
    if is_number(a) && is_number(b) {
        CalcError::FloatArithmetic
    } else {
        CalcError::TypeMismatch
    }
}

/// The sum of two values: of two numbers, or of two strings, set one
/// after the other.
pub open spec fn sum_of(a: DataTypeView, b: DataTypeView) -> Result<DataTypeView, CalcError> {
    match (whole_of(a), whole_of(b)) {
        (Some(x), Some(y)) => whole_result(x + y),
        _ => match (a, b) {
            (DataTypeView::Str(x), DataTypeView::Str(y)) => Ok(DataTypeView::Str(x + y)),
            _ => Err(mixed_error(a, b)),
        },
    }
}

/// The difference of two numbers.
pub open spec fn difference_of(a: DataTypeView, b: DataTypeView) -> Result<
    DataTypeView,
    CalcError,
> {
    match (whole_of(a), whole_of(b)) {
        (Some(x), Some(y)) => whole_result(x - y),
        _ => Err(mixed_error(a, b)),
    }
}

/// `n` copies of `s`, one after the other; nothing for `n <= 0`.
pub open spec fn repeated(s: Seq<char>, n: int) -> Seq<char>
    decreases n,
{
    if n <= 0 {
        Seq::empty()
    } else {
        repeated(s, n - 1) + s
    }
}

/// The product of two numbers, or a string repeated a whole number of
/// times.
pub open spec fn product_of(a: DataTypeView, b: DataTypeView) -> Result<DataTypeView, CalcError> {
    match (whole_of(a), whole_of(b)) {
        (Some(x), Some(y)) => whole_result(x * y),
        _ => match (a, b) {
            (DataTypeView::Str(s), DataTypeView::Int(n)) => Ok(
                DataTypeView::Str(repeated(s, n as int)),
            ),
            _ => Err(mixed_error(a, b)),
        },
    }
}

/// The quotient of two numbers.
///
/// Division by zero is an error. Division by the truth value `True` gives
/// the dividend. Any other quotient is a number with a decimal point.
pub open spec fn quotient_of(a: DataTypeView, b: DataTypeView) -> Result<DataTypeView, CalcError> {
    match (whole_of(a), whole_of(b)) {
        (Some(x), Some(y)) => if y == 0 {
            Err(CalcError::DivisionByZero)
        } else if b is Bool {
            whole_result(x)
        } else {
            Err(CalcError::FloatArithmetic)
        },
        _ => Err(mixed_error(a, b)),
    }
}

/// How two strings compare, character by character from position `i`; a
/// string that another one starts with is the lesser of the two.
pub open spec fn compare_text(a: Seq<char>, b: Seq<char>, i: int) -> CompareResult
    decreases a.len() - i,
{
    if i < 0 {
        CompareResult::NotEq
    } else if i >= a.len() {
        if i >= b.len() {
            CompareResult::Equal
        } else {
            CompareResult::Less
        }
    } else if i >= b.len() {
        CompareResult::Great
    } else if a[i] < b[i] {
        CompareResult::Less
    } else if a[i] > b[i] {
        CompareResult::Great
    } else {
        compare_text(a, b, i + 1)
    }
}

/// How two whole numbers compare.
pub open spec fn compare_whole(x: int, y: int) -> CompareResult {
    if x == y {
        CompareResult::Equal
    } else if x < y {
        CompareResult::Less
    } else {
        CompareResult::Great
    }
}

/// How two values compare: two numbers by size, two strings character by
/// character; values of other kinds have no order between them.
pub open spec fn compare_values(a: DataTypeView, b: DataTypeView) -> Result<
    CompareResult,
    CalcError,
> {
    match (whole_of(a), whole_of(b)) {
        (Some(x), Some(y)) => Ok(compare_whole(x, y)),
        _ => match (a, b) {
            (DataTypeView::Str(x), DataTypeView::Str(y)) => Ok(compare_text(x, y, 0)),
            _ => if is_number(a) && is_number(b) {
                Err(CalcError::FloatArithmetic)
            } else {
                Ok(CompareResult::NotEq)
            },
        },
    }
}

/// Whether a numeral has a digit other than `0`.
pub open spec fn has_nonzero_digit(numeral: Seq<char>) -> bool {
    exists|i: int| 0 <= i < numeral.len() && is_digit(numeral[i]) && numeral[i] != '0'
}

/// The truth value of a native value: a number that is not zero, a string
/// or a list that is not empty, the truth value itself; never the absent
/// value.
pub open spec fn truth_of(v: DataTypeView) -> bool {
    match v {
        DataTypeView::Int(x) => x != 0,
        DataTypeView::Float(x) => has_nonzero_digit(x),
        DataTypeView::Bool(x) => x,
        DataTypeView::Str(x) => x.len() != 0,
        DataTypeView::List(x) => x.len() != 0,
        DataTypeView::Nil => false,
    }
}

/// How a native value prints; a list and the absent value do not print.
pub open spec fn text_of(v: DataTypeView) -> Result<Seq<char>, CalcError> {
    match v {
        DataTypeView::Int(x) => Ok(signed_decimal(x as int)),
        DataTypeView::Float(x) => Ok(x),
        DataTypeView::Bool(x) => Ok(
            if x {
                "true"@
            } else {
                "false"@
            },
        ),
        DataTypeView::Str(x) => Ok(x),
        _ => Err(CalcError::TypeMismatch),
    }
}

} // verus!
