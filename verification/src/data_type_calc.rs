//! The executable arithmetic, comparison and conversions of native values.
//! What each one computes is stated in the module of the values.

use vstd::prelude::*;
use vstd::string::*;
use crate::data_type::{
    compare_text, compare_values, difference_of, has_nonzero_digit, mixed_error, product_of,
    quotient_of, repeated, sum_of, text_of, truth_of, whole_of, CalcError, CompareResult, DataType,
    DataTypeView,
};
use crate::text::{char_is_digit, chars_of, i64_to_string, is_digit};

verus! {

/// Whether the executable outcome `r` is the outcome `expected`.
pub open spec fn is_outcome(
    r: Result<DataType, CalcError>,
    expected: Result<DataTypeView, CalcError>,
) -> bool {
    match expected {
        Ok(v) => r matches Ok(d) && d@ == v,
        Err(e) => r matches Err(f) && f == e,
    }
}

/// The error for two values that are not both whole numbers.
fn mixed(a: &DataType, b: &DataType) -> (e: CalcError)
    ensures
        e == mixed_error(a@, b@),
{
    let a_number = match a {
        DataType::Int(_) => true,
        DataType::Bool(_) => true,
        DataType::Float(_) => true,
        _ => false,
    };
    let b_number = match b {
        DataType::Int(_) => true,
        DataType::Bool(_) => true,
        DataType::Float(_) => true,
        _ => false,
    };
    if a_number && b_number {
        CalcError::FloatArithmetic
    } else {
        CalcError::TypeMismatch
    }
}

impl DataType {
    /// The whole number that the value counts as in arithmetic.
    pub fn whole(&self) -> (r: Option<i64>)
        ensures
            match whole_of(self@) {
                Some(n) => r matches Some(x) && x == n,
                None => r is None,
            },
    {
        match self {
            DataType::Int(x) => Some(*x),
            DataType::Bool(b) => Some(
                if *b {
                    1
                } else {
                    0
                },
            ),
            _ => None,
        }
    }

    /// Adds two values, as [`sum_of`] says.
    pub fn add(self, rhs: Self) -> (r: Result<DataType, CalcError>)
        ensures
            is_outcome(r, sum_of(self@, rhs@)),
    {
        match (self.whole(), rhs.whole()) {
            (Some(x), Some(y)) => match x.checked_add(y) {
                Some(z) => Ok(DataType::Int(z)),
                None => Err(CalcError::Overflow),
            },
            _ => match (self, rhs) {
                (DataType::Str(x), DataType::Str(y)) => {
                    let mut s = x;
                    s.append(y.as_str());
                    Ok(DataType::Str(s))
                },
                (a, b) => Err(mixed(&a, &b)),
            },
        }
    }

    /// Subtracts `rhs` from the value, as [`difference_of`] says.
    pub fn sub(self, rhs: Self) -> (r: Result<DataType, CalcError>)
        ensures
            is_outcome(r, difference_of(self@, rhs@)),
    {
        match (self.whole(), rhs.whole()) {
            (Some(x), Some(y)) => match x.checked_sub(y) {
                Some(z) => Ok(DataType::Int(z)),
                None => Err(CalcError::Overflow),
            },
            _ => Err(mixed(&self, &rhs)),
        }
    }

    /// Multiplies two values, as [`product_of`] says.
    pub fn mul(self, rhs: Self) -> (r: Result<DataType, CalcError>)
        ensures
            is_outcome(r, product_of(self@, rhs@)),
    {
        match (self.whole(), rhs.whole()) {
            (Some(x), Some(y)) => match x.checked_mul(y) {
                Some(z) => Ok(DataType::Int(z)),
                None => Err(CalcError::Overflow),
            },
            _ => match (self, rhs) {
                (DataType::Str(x), DataType::Int(n)) => {
                    let mut s = String::new();
                    let mut k: i64 = 0;
                    assert(s@ =~= repeated(x@, 0));
                    while k < n
                        invariant
                            0 <= k,
                            k <= n || k == 0,
                            s@ == repeated(x@, k as int),
                        decreases n - k,
                    {
                        s.append(x.as_str());
                        k += 1;
                    }
                    Ok(DataType::Str(s))
                },
                (a, b) => Err(mixed(&a, &b)),
            },
        }
    }

    /// Divides the value by `rhs`, as [`quotient_of`] says.
    pub fn div(self, rhs: Self) -> (r: Result<DataType, CalcError>)
        ensures
            is_outcome(r, quotient_of(self@, rhs@)),
    {
        match (self.whole(), rhs.whole()) {
            (Some(x), Some(y)) => {
                if y == 0 {
                    Err(CalcError::DivisionByZero)
                } else {
                    match rhs {
                        DataType::Bool(_) => Ok(DataType::Int(x)),
                        _ => Err(CalcError::FloatArithmetic),
                    }
                }
            },
            _ => Err(mixed(&self, &rhs)),
        }
    }

    /// Compares the value with `rhs`, as [`compare_values`] says.
    pub fn cmp(self, rhs: Self) -> (r: Result<CompareResult, CalcError>)
        ensures
            r == compare_values(self@, rhs@),
    {
        match (self.whole(), rhs.whole()) {
            (Some(x), Some(y)) => {
                if x == y {
                    Ok(CompareResult::Equal)
                } else if x < y {
                    Ok(CompareResult::Less)
                } else {
                    Ok(CompareResult::Great)
                }
            },
            _ => match (&self, &rhs) {
                (DataType::Str(x), DataType::Str(y)) => Ok(text_order(x, y)),
                _ => match mixed(&self, &rhs) {
                    CalcError::FloatArithmetic => Err(CalcError::FloatArithmetic),
                    _ => Ok(CompareResult::NotEq),
                },
            },
        }
    }

    /// The truth value of the value, as [`truth_of`] says.
    pub fn bool(&self) -> (r: bool)
        ensures
            r == truth_of(self@),
    {
        match self {
            DataType::Int(x) => *x != 0,
            DataType::Float(x) => numeral_is_nonzero(x),
            DataType::Bool(x) => *x,
            DataType::Str(x) => x.as_str().unicode_len() != 0,
            DataType::List(x) => x.len() != 0,
            DataType::Nil => false,
        }
    }

    /// Prints the value, as [`text_of`] says.
    pub fn str(&self) -> (r: Result<String, CalcError>)
        ensures
            match text_of(self@) {
                Ok(t) => r matches Ok(s) && s@ == t,
                Err(e) => r matches Err(f) && f == e,
            },
    {
        match self {
            DataType::Int(x) => Ok(i64_to_string(*x)),
            DataType::Float(x) => Ok(x.clone()),
            DataType::Bool(x) => Ok(
                if *x {
                    String::from_str("true")
                } else {
                    String::from_str("false")
                },
            ),
            DataType::Str(x) => Ok(x.clone()),
            _ => Err(CalcError::TypeMismatch),
        }
    }
}

/// How two strings compare, character by character.
fn text_order(x: &String, y: &String) -> (r: CompareResult)
    ensures
        r == compare_text(x@, y@, 0),
{
    let a = chars_of(x.as_str());
    let b = chars_of(y.as_str());
    let mut i: usize = 0;
    while i < a.len() && i < b.len()
        invariant
            i <= a.len(),
            i <= b.len(),
            a@ == x@,
            b@ == y@,
            compare_text(x@, y@, 0) == compare_text(x@, y@, i as int),
        decreases a.len() - i,
    {
        if a[i] < b[i] {
            return CompareResult::Less;
        } else if a[i] > b[i] {
            return CompareResult::Great;
        }
        i += 1;
    }
    if i < b.len() {
        CompareResult::Less
    } else if i < a.len() {
        CompareResult::Great
    } else {
        CompareResult::Equal
    }
}

/// Whether a numeral has a digit other than `0`.
fn numeral_is_nonzero(numeral: &String) -> (r: bool)
    ensures
        r == has_nonzero_digit(numeral@),
{
    let chars = chars_of(numeral.as_str());
    let mut i: usize = 0;
    while i < chars.len()
        invariant
            i <= chars.len(),
            chars@ == numeral@,
            forall|k: int| 0 <= k < i ==> !(is_digit(chars@[k]) && chars@[k] != '0'),
        decreases chars.len() - i,
    {
        if char_is_digit(chars[i]) && chars[i] != '0' {
            return true;
        }
        i += 1;
    }
    false
}

} // verus!
