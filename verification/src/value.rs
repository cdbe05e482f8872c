//! The values that a program computes with, and their conversions.

use vstd::prelude::*;
use vstd::string::*;
use vstd::std_specs::cmp::PartialEqSpecImpl;
use crate::error::{result_view, Error, ErrorView};
use crate::numeric::{Double, Single};
use crate::text::{concat3, decimal, decimal_string, parse_i32, parse_i32_chars, to_chars};
use crate::unit::{
    format_answer,
    format_single_answer,
    parse_answer,
    FloatReply,
    FloatRequest,
    FloatUnit,
    Oracle,
};

verus! {

/// A value of the language.
#[derive(Debug)]
pub enum Value {
    /// A 32-bit integer.
    Integer(i32),
    /// A single-precision floating-point number.
    Single(Single),
    /// A double-precision floating-point number.
    Double(Double),
    /// A string.
    String(String),
    /// No value.
    Nil,
}

/// A `Value` with its string as a sequence of characters.
pub enum ValueView {
    Integer(i32),
    Single(Single),
    Double(Double),
    String(Seq<char>),
    Nil,
}

impl View for Value {
    type V = ValueView;

    open spec fn view(&self) -> ValueView {
        match self {
            Value::Integer(i) => ValueView::Integer(*i),
            Value::Single(s) => ValueView::Single(*s),
            Value::Double(d) => ValueView::Double(*d),
            Value::String(s) => ValueView::String(s@),
            Value::Nil => ValueView::Nil,
        }
    }
}

/// A result that holds a value, seen through the views of both sides.
pub open spec fn value_result_view(r: Result<Value, Error>) -> Result<ValueView, ErrorView> {
    match r {
        Ok(v) => Ok(v@),
        Err(e) => Err(e@),
    }
}

/// The message of a string that is no integer.
pub open spec fn not_an_integer(s: Seq<char>) -> Seq<char> {
    "Cannot convert '"@ + s + "' to integer"@
}

/// The message of a string that is no number.
pub open spec fn not_a_double(s: Seq<char>) -> Seq<char> {
    "Cannot convert '"@ + s + "' to double"@
}

impl ValueView {
    /// The value as an integer: a floating-point number is rounded toward
    /// zero, a string is read as decimal digits, and `Nil` is 0.
    pub open spec fn as_integer(self) -> Result<i32, ErrorView> {
        match self {
            ValueView::Integer(i) => Ok(i),
            ValueView::Single(s) => Ok(s.widened().truncated() as i32),
            ValueView::Double(d) => Ok(d.truncated() as i32),
            ValueView::String(s) => match parse_i32(s) {
                Some(i) => Ok(i),
                None => Err(ErrorView::TypeError(not_an_integer(s))),
            },
            ValueView::Nil => Ok(0),
        }
    }

    /// The value as a double: an integer or a single is widened, a string is
    /// read by the float unit, and `Nil` is 0.
    pub open spec fn as_double(self, o: Oracle) -> Result<Double, ErrorView> {
        match self {
            ValueView::Integer(i) => Ok(Double::of_int(i as int)),
            ValueView::Single(s) => Ok(s.widened()),
            ValueView::Double(d) => Ok(d),
            ValueView::String(s) => match parse_answer(o, s) {
                Some(d) => Ok(d),
                None => Err(ErrorView::TypeError(not_a_double(s))),
            },
            ValueView::Nil => Ok(Double { bits: 0 }),
        }
    }

    /// The text of the value: an integer in decimal, a floating-point number
    /// as the float unit writes it, a string as it is, and nothing for `Nil`.
    pub open spec fn as_string(self, o: Oracle) -> Seq<char> {
        match self {
            ValueView::Integer(i) => decimal(i as int),
            ValueView::Single(s) => format_single_answer(o, s),
            ValueView::Double(d) => format_answer(o, d),
            ValueView::String(s) => s,
            ValueView::Nil => Seq::empty(),
        }
    }

    /// Whether the value is a number. `Nil` counts as one: it converts to 0
    /// as an integer and as a double.
    pub open spec fn is_numeric(self) -> bool {
        self is Integer || self is Single || self is Double || self is Nil
    }

    /// Whether the value is a string.
    pub open spec fn is_string(self) -> bool {
        self is String
    }

    /// Whether the value counts as true in a condition: a number other than
    /// zero, or a string that is not empty.
    pub open spec fn is_true(self) -> bool {
        match self {
            ValueView::Integer(i) => i != 0,
            ValueView::Single(s) => !s.is_zero(),
            ValueView::Double(d) => !d.is_zero(),
            ValueView::String(s) => s.len() != 0,
            ValueView::Nil => false,
        }
    }

    /// The string of a string value; any other value is refused.
    pub open spec fn as_string_result(self) -> Result<Seq<char>, ErrorView> {
        match self {
            ValueView::String(s) => Ok(s),
            _ => Err(ErrorView::TypeError("Expected string value"@)),
        }
    }

    /// Equality of values: numbers of one kind as numbers, strings by their
    /// characters.
    pub open spec fn same(self, other: ValueView) -> bool {
        match (self, other) {
            (ValueView::Integer(a), ValueView::Integer(b)) => a == b,
            (ValueView::Single(a), ValueView::Single(b)) => a.widened().same_number(b.widened()),
            (ValueView::Double(a), ValueView::Double(b)) => a.same_number(b),
            (ValueView::String(a), ValueView::String(b)) => a == b,
            (ValueView::Nil, ValueView::Nil) => true,
            _ => false,
        }
    }
}

/// The numbers and the strings part the values between them: every value
/// is one or the other, and none is both. A number converts to an integer
/// and to a double without failure.
pub proof fn law_kinds_partition(v: ValueView)
    ensures
        v.is_numeric() != v.is_string(),
        v.is_numeric() ==> v.as_integer() is Ok && forall|o: Oracle| v.as_double(o) is Ok,
{
}

impl Value {
    /// The value as an integer.
    pub fn as_integer(&self) -> (r: Result<i32, Error>)
        ensures
            result_view(r) == self@.as_integer(),
    {
        match self {
            Value::Integer(i) => Ok(*i),
            Value::Single(s) => Ok(s.widen().to_i32()),
            Value::Double(d) => Ok(d.to_i32()),
            Value::String(s) => {
                let chars = to_chars(s.as_str());
                match parse_i32_chars(&chars) {
                    Some(i) => Ok(i),
                    None => Err(
                        Error::TypeError(concat3("Cannot convert '", s.as_str(), "' to integer")),
                    ),
                }
            },
            Value::Nil => Ok(0),
        }
    }

    /// The value as a double.
    pub fn as_double<F: Fn(FloatRequest) -> FloatReply>(&self, unit: &FloatUnit<F>) -> (r: Result<
        Double,
        Error,
    >)
        ensures
            result_view(r) == self@.as_double(unit.oracle()),
            !(self@ is String) ==> r is Ok && forall|o: Oracle| result_view(r) == self@.as_double(o),
            self@ is String && r is Err ==> r->Err_0@ == ErrorView::TypeError(
                not_a_double(self@->String_0),
            ),
    {
        match self {
            Value::Integer(i) => Ok(Double::from_i32(*i)),
            Value::Single(s) => Ok(s.widen()),
            Value::Double(d) => Ok(*d),
            Value::String(s) => {
                match unit.parse(s.as_str()) {
                    Some(d) => Ok(d),
                    None => Err(
                        Error::TypeError(concat3("Cannot convert '", s.as_str(), "' to double")),
                    ),
                }
            },
            Value::Nil => Ok(Double::zero()),
        }
    }

    /// The text of the value.
    pub fn as_string<F: Fn(FloatRequest) -> FloatReply>(&self, unit: &FloatUnit<F>) -> (r: String)
        ensures
            r@ == self@.as_string(unit.oracle()),
            !(self@ is Single || self@ is Double) ==> forall|o: Oracle| r@ == self@.as_string(o),
    {
        match self {
            Value::Integer(i) => decimal_string(*i as i64),
            Value::Single(s) => unit.format_single(*s),
            Value::Double(d) => unit.format(*d),
            Value::String(s) => s.clone(),
            Value::Nil => String::new(),
        }
    }

    /// The text of the value, as `as_string` gives it.
    pub fn to_string<F: Fn(FloatRequest) -> FloatReply>(&self, unit: &FloatUnit<F>) -> (r: String)
        ensures
            r@ == self@.as_string(unit.oracle()),
            !(self@ is Single || self@ is Double) ==> forall|o: Oracle| r@ == self@.as_string(o),
    {
        self.as_string(unit)
    }

    /// Whether the value is a number.
    pub fn is_numeric(&self) -> (r: bool)
        ensures
            r == self@.is_numeric(),
    {
        match self {
            Value::String(_) => false,
            _ => true,
        }
    }

    /// Whether the value is a string.
    pub fn is_string(&self) -> (r: bool)
        ensures
            r == self@.is_string(),
    {
        match self {
            Value::String(_) => true,
            _ => false,
        }
    }

    /// Whether the value counts as true in a condition.
    pub fn is_true(&self) -> (r: bool)
        ensures
            r == self@.is_true(),
    {
        match self {
            Value::Integer(i) => *i != 0,
            Value::Single(s) => !s.zero_valued(),
            Value::Double(d) => !d.zero_valued(),
            Value::String(s) => s.as_str().unicode_len() != 0,
            Value::Nil => false,
        }
    }

    /// The string of a string value.
    pub fn as_string_result(&self) -> (r: Result<String, Error>)
        ensures
            match r {
                Ok(s) => self@.as_string_result() == Ok::<Seq<char>, ErrorView>(s@),
                Err(e) => self@.as_string_result() == Err::<Seq<char>, ErrorView>(e@),
            },
    {
        match self {
            Value::String(s) => Ok(s.clone()),
            _ => Err(Error::TypeError(String::from_str("Expected string value"))),
        }
    }
}

impl Clone for Value {
    fn clone(&self) -> (r: Self)
        ensures
            r == *self,
    {
        match self {
            Value::Integer(i) => Value::Integer(*i),
            Value::Single(s) => Value::Single(*s),
            Value::Double(d) => Value::Double(*d),
            Value::String(s) => Value::String(s.clone()),
            Value::Nil => Value::Nil,
        }
    }
}

impl PartialEq for Value {
    fn eq(&self, other: &Self) -> (r: bool) {
        match self {
            Value::Integer(a) => match other {
                Value::Integer(b) => *a == *b,
                _ => false,
            },
            Value::Single(a) => match other {
                Value::Single(b) => a.widen().equals(b.widen()),
                _ => false,
            },
            Value::Double(a) => match other {
                Value::Double(b) => a.equals(*b),
                _ => false,
            },
            Value::String(a) => match other {
                Value::String(b) => *a == *b,
                _ => false,
            },
            Value::Nil => match other {
                Value::Nil => true,
                _ => false,
            },
        }
    }
}

impl PartialEqSpecImpl for Value {
    open spec fn obeys_eq_spec() -> bool {
        true
    }

    open spec fn eq_spec(&self, other: &Self) -> bool {
        self@.same(other@)
    }
}

} // verus!
