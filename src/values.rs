use vstd::prelude::*;
use crate::token::{Keyword, Token};

verus! {

/// What a variable holds. A number is the bit pattern of an IEEE-754
/// binary64 value.
#[derive(Debug, PartialEq)]
pub enum VariableValue {
    Number(u64),
    Literal(String),
    Boolean(bool),
}

/// What evaluating a statement yields. A number is the bit pattern of an
/// IEEE-754 binary64 value.
#[derive(Debug, PartialEq)]
pub enum EvalResult {
    Number(u64),
    Literal(String),
    Boolean(bool),
    Assignment { identifier: Box<EvalResult>, value: Box<EvalResult> },
    EmptyResult,
}

/// Why a statement could not be evaluated.
#[derive(Debug, PartialEq)]
pub enum EvalError {
    /// The named variable has no value.
    UndefinedVariable(String),
    /// The named variable is used in arithmetic but holds no number.
    NotANumber(String),
    /// The named variable was not assigned: the value has no stored form.
    UnassignableValue(String),
    /// The node cannot be evaluated on its own, or there is nothing to evaluate.
    EvaluationUnsupported,
}

/// An arithmetic expression with every variable replaced by its value:
/// what remains to be computed in binary64 arithmetic.
#[derive(Debug, PartialEq)]
pub enum NumTerm {
    /// A decimal literal, to be rounded to the nearest binary64 value.
    Literal(String),
    /// A binary64 value, by its bit pattern.
    Value(u64),
    Negate(Box<NumTerm>),
    /// `operator` is one of `Add`, `Subtract`, `Multiply`, `Divide`, `Pow`.
    Binary { left: Box<NumTerm>, operator: Token, right: Box<NumTerm> },
}

pub open spec fn is_nan_bits(b: u64) -> bool {
    (b >> 52u64) & 0x7ffu64 == 0x7ffu64 && b & 0xf_ffff_ffff_ffffu64 != 0
}

pub open spec fn is_zero_bits(b: u64) -> bool {
    b & 0x7fff_ffff_ffff_ffffu64 == 0
}

/// Equality of two binary64 values given by their bit patterns: no NaN is
/// equal to anything, the two zeros are equal, and otherwise the patterns
/// must agree.
pub open spec fn same_number(a: u64, b: u64) -> bool {
    !is_nan_bits(a) && !is_nan_bits(b) && (a == b || (is_zero_bits(a) && is_zero_bits(b)))
}

/// Equality of results: the same kind and an equal value.
pub open spec fn same_result(a: EvalResult, b: EvalResult) -> bool
    decreases a,
{
    match a {
        EvalResult::Number(x) => b matches EvalResult::Number(y) && same_number(x, y),
        EvalResult::Literal(x) => b matches EvalResult::Literal(y) && x@ == y@,
        EvalResult::Boolean(x) => b matches EvalResult::Boolean(y) && x == y,
        EvalResult::Assignment { identifier: i1, value: v1 } => match b {
            EvalResult::Assignment { identifier: i2, value: v2 } => same_result(*i1, *i2)
                && same_result(*v1, *v2),
            _ => false,
        },
        EvalResult::EmptyResult => b is EmptyResult,
    }
}

/// The result that a literal evaluates to: the two boolean keywords give
/// booleans, any other literal its text.
pub open spec fn literal_result(text: String, keyword: Keyword) -> EvalResult {
    match keyword {
        Keyword::True => EvalResult::Boolean(true),
        Keyword::False => EvalResult::Boolean(false),
        _ => EvalResult::Literal(text),
    }
}

/// The result that reading a variable yields.
pub open spec fn stored_result(v: VariableValue) -> EvalResult {
    match v {
        VariableValue::Number(x) => EvalResult::Number(x),
        VariableValue::Literal(s) => EvalResult::Literal(s),
        VariableValue::Boolean(b) => EvalResult::Boolean(b),
    }
}

/// The value a variable takes when it is assigned `r`; `None` for results
/// that cannot be stored.
pub open spec fn storable_value(r: EvalResult) -> Option<VariableValue> {
    match r {
        EvalResult::Number(x) => Some(VariableValue::Number(x)),
        EvalResult::Literal(s) => Some(VariableValue::Literal(s)),
        EvalResult::Boolean(b) => Some(VariableValue::Boolean(b)),
        _ => None,
    }
}

pub fn numbers_equal(a: u64, b: u64) -> (r: bool)
    ensures
        r == same_number(a, b),
{
    let a_nan = (a >> 52u64) & 0x7ffu64 == 0x7ffu64 && a & 0xf_ffff_ffff_ffffu64 != 0;
    let b_nan = (b >> 52u64) & 0x7ffu64 == 0x7ffu64 && b & 0xf_ffff_ffff_ffffu64 != 0;
    let zeros = a & 0x7fff_ffff_ffff_ffffu64 == 0 && b & 0x7fff_ffff_ffff_ffffu64 == 0;
    !a_nan && !b_nan && (a == b || zeros)
}

impl EvalResult {
    /// Whether two results are equal in kind and value.
    pub fn same_as(&self, other: &EvalResult) -> (r: bool)
        ensures
            r == same_result(*self, *other),
        decreases self,
    {
        match self {
            EvalResult::Number(x) => match other {
                EvalResult::Number(y) => numbers_equal(*x, *y),
                _ => false,
            },
            EvalResult::Literal(x) => match other {
                EvalResult::Literal(y) => *x == *y,
                _ => false,
            },
            EvalResult::Boolean(x) => match other {
                EvalResult::Boolean(y) => *x == *y,
                _ => false,
            },
            EvalResult::Assignment { identifier: i1, value: v1 } => match other {
                EvalResult::Assignment { identifier: i2, value: v2 } => {
                    let same_identifier = i1.same_as(i2);
                    same_identifier && v1.same_as(v2)
                },
                _ => false,
            },
            EvalResult::EmptyResult => matches!(other, EvalResult::EmptyResult),
        }
    }

    /// A copy of the result.
    pub fn copy(&self) -> (r: EvalResult)
        ensures
            r == *self,
        decreases self,
    {
        match self {
            EvalResult::Number(x) => EvalResult::Number(*x),
            EvalResult::Literal(s) => EvalResult::Literal(s.clone()),
            EvalResult::Boolean(b) => EvalResult::Boolean(*b),
            EvalResult::Assignment { identifier, value } => EvalResult::Assignment {
                identifier: Box::new(identifier.copy()),
                value: Box::new(value.copy()),
            },
            EvalResult::EmptyResult => EvalResult::EmptyResult,
        }
    }
}

impl VariableValue {
    /// The result that reading a variable with this value yields.
    pub fn to_result(&self) -> (r: EvalResult)
        ensures
            r == stored_result(*self),
    {
        match self {
            VariableValue::Number(x) => EvalResult::Number(*x),
            VariableValue::Literal(s) => EvalResult::Literal(s.clone()),
            VariableValue::Boolean(b) => EvalResult::Boolean(*b),
        }
    }
}

impl NumTerm {
    /// A copy of the term.
    pub fn copy(&self) -> (r: NumTerm)
        ensures
            r == *self,
        decreases self,
    {
        match self {
            NumTerm::Literal(s) => NumTerm::Literal(s.clone()),
            NumTerm::Value(x) => NumTerm::Value(*x),
            NumTerm::Negate(t) => NumTerm::Negate(Box::new(t.copy())),
            NumTerm::Binary { left, operator, right } => {
                NumTerm::Binary { left: Box::new(left.copy()), operator: operator.copy(), right: Box::new(right.copy()) }
            },
        }
    }
}

} // verus!
