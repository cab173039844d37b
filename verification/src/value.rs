//! The typed values a store can hold.

use crate::path::texts;
use std::collections::HashMap;
use vstd::prelude::*;

verus! {

/// A stored value.
///
/// `Float` holds the IEEE-754 bit pattern of a 64-bit float, so that the
/// value can be carried and compared bit for bit.
#[derive(Debug, Clone)]
pub enum Value {
    String(String),
    Integer(i64),
    Float(u64),
    Bool(bool),
    Array(Vec<String>),
    Mapping(HashMap<String, String>),
    Null,
}

/// The mathematical content of a [`Value`].
pub ghost enum ValueView {
    String(Seq<char>),
    Integer(i64),
    Float(u64),
    Bool(bool),
    Array(Seq<Seq<char>>),
    Mapping(Map<String, String>),
    Null,
}

impl View for Value {
    type V = ValueView;

    open spec fn view(&self) -> ValueView {
        match self {
            Value::String(s) => ValueView::String(s@),
            Value::Integer(n) => ValueView::Integer(*n),
            Value::Float(bits) => ValueView::Float(*bits),
            Value::Bool(b) => ValueView::Bool(*b),
            Value::Array(items) => ValueView::Array(texts(items@)),
            Value::Mapping(m) => ValueView::Mapping(m@),
            Value::Null => ValueView::Null,
        }
    }
}

/// Copies a vector of strings.
pub fn copy_strings(items: &Vec<String>) -> (out: Vec<String>)
    ensures
        texts(out@) == texts(items@),
{
    let mut out: Vec<String> = Vec::new();
    let mut i: usize = 0;
    while i < items.len()
        invariant
            i <= items.len(),
            out@.len() == i,
            forall|j: int| 0 <= j < i ==> out@[j]@ == items@[j]@,
        decreases items.len() - i,
    {
        out.push(items[i].clone());
        i += 1;
    }
    assert(texts(out@) =~= texts(items@));
    out
}

/// The number that a sequence of decimal digits writes.
pub open spec fn digits_value(digits: Seq<char>) -> int
    decreases digits.len(),
{
    if digits.len() == 0 {
        0
    } else {
        digits_value(digits.drop_last()) * 10 + (digits.last() as int - '0' as int)
    }
}

/// Every character is one of the digits `0` to `9`.
pub open spec fn all_digits(digits: Seq<char>) -> bool {
    forall|i: int| 0 <= i < digits.len() ==> '0' <= #[trigger] digits[i] <= '9'
}

/// The 64-bit signed integer written in a text: an optional `+` or `-`,
/// then one or more of the digits `0` to `9` and nothing else, where the
/// number so written lies in the 64-bit range.
pub open spec fn decimal_reading(text: Seq<char>) -> Option<i64> {
    let signed = text.len() > 0 && (text[0] == '-' || text[0] == '+');
    let digits = if signed {
        text.subrange(1, text.len() as int)
    } else {
        text
    };
    let magnitude = digits_value(digits);
    let value = if text.len() > 0 && text[0] == '-' {
        -magnitude
    } else {
        magnitude
    };
    if digits.len() > 0 && all_digits(digits) && i64::MIN <= value <= i64::MAX {
        Some(value as i64)
    } else {
        None
    }
}

/// `str::parse::<i64>`: the integer written in the text in decimal, with an
/// optional sign and no other characters, or nothing where the text is not
/// of that form or the number does not fit.
#[verifier::external_body]
pub(crate) fn parse_integer(text: &str) -> (r: Option<i64>)
    ensures
        r == decimal_reading(text@),
{
    match text.parse::<i64>() {
        Ok(n) => Some(n),
        Err(_) => None,
    }
}

/// The number a value stands for when it is used as a counter: an integer
/// stands for itself, a string for the integer written in it, and nothing
/// else for any number.
pub open spec fn numeric_reading(v: ValueView) -> Option<i64> {
    match v {
        ValueView::Integer(n) => Some(n),
        ValueView::String(text) => decimal_reading(text),
        _ => None,
    }
}

/// The value of a counter after one step from `reading`: one more, unless
/// there is no number to step from or the step would leave the 64-bit
/// range.
pub open spec fn stepped(reading: Option<i64>) -> Option<i64> {
    match reading {
        Some(n) => if n < i64::MAX {
            Some((n + 1) as i64)
        } else {
            None
        },
        None => None,
    }
}

/// Steps a counter reading by one.
pub fn step_counter(reading: Option<i64>) -> (r: Option<i64>)
    ensures
        r == stepped(reading),
{
    match reading {
        Some(n) => if n < i64::MAX {
            Some(n + 1)
        } else {
            None
        },
        None => None,
    }
}

impl Value {
    /// The number this value stands for when it is used as a counter.
    pub fn counter_reading(&self) -> (r: Option<i64>)
        ensures
            r == numeric_reading(self@),
    {
        match self {
            Value::Integer(n) => Some(*n),
            Value::String(text) => parse_integer(text.as_str()),
            _ => None,
        }
    }

    /// A copy with the same content.
    pub fn duplicate(&self) -> (out: Value)
        ensures
            out@ == self@,
    {
        match self {
            Value::String(s) => Value::String(s.clone()),
            Value::Integer(n) => Value::Integer(*n),
            Value::Float(bits) => Value::Float(*bits),
            Value::Bool(b) => Value::Bool(*b),
            Value::Array(items) => Value::Array(copy_strings(items)),
            Value::Mapping(m) => Value::Mapping(m.clone()),
            Value::Null => Value::Null,
        }
    }
}

} // verus!
