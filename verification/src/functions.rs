//! The built-in functions of the language.
//!
//! Each function takes values and gives a value or a failure. Those that
//! compute with floating-point numbers or write them as text ask the float
//! unit. `RND` works on the state of a generator that the caller owns, and
//! the clock functions on a time that the caller supplies, in seconds since
//! the start of 1970.

use vstd::prelude::*;
use vstd::string::*;
use vstd::utf8::encode_utf8;
use crate::error::{Error, ErrorView};
use crate::numeric::{Double, Single};
use crate::text::{
    decimal,
    find_from,
    first_occurrence,
    hex_digits,
    octal_digits,
    padded,
    parse_i32,
    parse_i32_chars,
    push_decimal,
    push_hex_digits,
    push_octal_digits,
    push_padded,
    push_repeated,
    string_of,
    to_chars,
    trim_bounds,
    trimmed,
};
use crate::unit::{
    binary_answer,
    narrow_answer,
    parse_answer,
    single_quotient_answer,
    unary_answer,
    FloatFunction,
    FloatOp,
    FloatReply,
    FloatRequest,
    FloatUnit,
    Oracle,
};
use crate::value::{value_result_view, Value, ValueView};

verus! {

/// The bits of `i`, read as an unsigned integer.
pub open spec fn unsigned_bits(i: i32) -> nat {
    if i >= 0 {
        i as nat
    } else {
        (i + 0x1_0000_0000) as nat
    }
}

/// The integer whose low 32 bits are those of `n`.
pub open spec fn wrap_i32(n: nat) -> i32 {
    let low = n % 0x1_0000_0000;
    if low >= 0x8000_0000 {
        (low - 0x1_0000_0000) as i32
    } else {
        low as i32
    }
}

/// How many of `len` characters a count of `n` takes: all of them where `n`
/// is negative or too large.
pub open spec fn take_count(n: i32, len: nat) -> nat {
    if n < 0 || n >= len {
        len
    } else {
        n as nat
    }
}

/// The position, counted from zero, that a position `n` counted from one
/// names; zero where `n` is below one.
pub open spec fn zero_based(n: i32) -> nat {
    if n < 1 {
        0
    } else {
        (n - 1) as nat
    }
}

/// The character with the code `code`, for codes 0 to 255.
pub open spec fn latin1(code: int) -> char {
    (code as u8) as char
}

/// A failure at run time, with its message.
pub open spec fn runtime_failure(msg: Seq<char>) -> Result<ValueView, ErrorView> {
    Err(ErrorView::RuntimeError(msg))
}

/// A result that is a text.
pub open spec fn text_value(s: Seq<char>) -> Result<ValueView, ErrorView> {
    Ok(ValueView::String(s))
}

/// A result that is an integer.
pub open spec fn integer_value(i: int) -> Result<ValueView, ErrorView> {
    Ok(ValueView::Integer(i as i32))
}

fn unsigned_of(i: i32) -> (r: u64)
    ensures
        r == unsigned_bits(i),
        r < 0x1_0000_0000,
{
    if i >= 0 {
        i as u64
    } else {
        (i as i64 + 0x1_0000_0000) as u64
    }
}

fn wrapped(n: usize) -> (r: i32)
    ensures
        r == wrap_i32(n as nat),
{
    let low: u64 = (n as u64) % 0x1_0000_0000;
    if low >= 0x8000_0000 {
        (low as i64 - 0x1_0000_0000) as i32
    } else {
        low as i32
    }
}

fn count_of(n: i32, len: usize) -> (r: usize)
    ensures
        r == take_count(n, len as nat),
{
    if n < 0 || n as u64 >= len as u64 {
        len
    } else {
        n as usize
    }
}

fn position_of(n: i32) -> (r: usize)
    ensures
        r == zero_based(n),
{
    if n < 1 {
        0
    } else {
        (n - 1) as usize
    }
}

fn failure(msg: &str) -> (r: Result<Value, Error>)
    ensures
        value_result_view(r) == runtime_failure(msg@),
{
    Err(Error::RuntimeError(String::from_str(msg)))
}

// Numbers

/// `ABS`: the number without its sign.
pub open spec fn abs_of(o: Oracle, v: ValueView) -> Result<ValueView, ErrorView> {
    match v.as_double(o) {
        Ok(d) => Ok(ValueView::Double(d.absolute())),
        Err(e) => Err(e),
    }
}

/// `INT`: the number rounded down.
pub open spec fn int_of(o: Oracle, v: ValueView) -> Result<ValueView, ErrorView> {
    match v.as_double(o) {
        Ok(d) => integer_value(d.floored()),
        Err(e) => Err(e),
    }
}

/// `FIX`: the number rounded toward zero.
pub open spec fn fix_of(o: Oracle, v: ValueView) -> Result<ValueView, ErrorView> {
    match v.as_double(o) {
        Ok(d) => integer_value(d.truncated()),
        Err(e) => Err(e),
    }
}

/// `CINT`: the number rounded to the nearest integer, halves away from zero.
pub open spec fn cint_of(o: Oracle, v: ValueView) -> Result<ValueView, ErrorView> {
    match v.as_double(o) {
        Ok(d) => integer_value(d.rounded()),
        Err(e) => Err(e),
    }
}

/// `CSNG`: the single nearest to the number.
pub open spec fn csng_of(o: Oracle, v: ValueView) -> Result<ValueView, ErrorView> {
    match v.as_double(o) {
        Ok(d) => Ok(ValueView::Single(narrow_answer(o, d))),
        Err(e) => Err(e),
    }
}

/// `CDBL`: the number as a double.
pub open spec fn cdbl_of(o: Oracle, v: ValueView) -> Result<ValueView, ErrorView> {
    match v.as_double(o) {
        Ok(d) => Ok(ValueView::Double(d)),
        Err(e) => Err(e),
    }
}

/// `SQR`: the square root; a negative number is refused.
pub open spec fn sqr_of(o: Oracle, v: ValueView) -> Result<ValueView, ErrorView> {
    match v.as_double(o) {
        Ok(d) => if d.lt_spec(Double { bits: 0 }) {
            runtime_failure("Square root of negative number"@)
        } else {
            Ok(ValueView::Double(unary_answer(o, FloatFunction::Sqrt, d)))
        },
        Err(e) => Err(e),
    }
}

/// `LOG`: the natural logarithm; a number that is not positive is refused.
pub open spec fn log_of(o: Oracle, v: ValueView) -> Result<ValueView, ErrorView> {
    match v.as_double(o) {
        Ok(d) => if d.le_spec(Double { bits: 0 }) {
            runtime_failure("Logarithm of non-positive number"@)
        } else {
            Ok(ValueView::Double(unary_answer(o, FloatFunction::Ln, d)))
        },
        Err(e) => Err(e),
    }
}

/// `SIN`, `COS`, `TAN`, `ATN`, `EXP`: the function `f` at the number.
pub open spec fn function_of(o: Oracle, f: FloatFunction, v: ValueView) -> Result<
    ValueView,
    ErrorView,
> {
    match v.as_double(o) {
        Ok(d) => Ok(ValueView::Double(unary_answer(o, f, d))),
        Err(e) => Err(e),
    }
}

/// `SGN`: 1 for a positive number, -1 for a negative one, else 0.
pub open spec fn sgn_of(o: Oracle, v: ValueView) -> Result<ValueView, ErrorView> {
    match v.as_double(o) {
        Ok(d) => if (Double { bits: 0 }).lt_spec(d) {
            integer_value(1)
        } else if d.lt_spec(Double { bits: 0 }) {
            integer_value(-1)
        } else {
            integer_value(0)
        },
        Err(e) => Err(e),
    }
}

/// `ABS`: the number without its sign.
pub fn abs_fn<F: Fn(FloatRequest) -> FloatReply>(val: Value, unit: &FloatUnit<F>) -> (r: Result<
    Value,
    Error,
>)
    ensures
        value_result_view(r) == abs_of(unit.oracle(), val@),
{
    match val.as_double(unit) {
        Ok(d) => Ok(Value::Double(d.abs())),
        Err(e) => Err(e),
    }
}

/// `INT`: the number rounded down.
pub fn int_fn<F: Fn(FloatRequest) -> FloatReply>(val: Value, unit: &FloatUnit<F>) -> (r: Result<
    Value,
    Error,
>)
    ensures
        value_result_view(r) == int_of(unit.oracle(), val@),
{
    match val.as_double(unit) {
        Ok(d) => Ok(Value::Integer(d.floor_to_i32())),
        Err(e) => Err(e),
    }
}

/// `FIX`: the number rounded toward zero.
pub fn fix_fn<F: Fn(FloatRequest) -> FloatReply>(val: Value, unit: &FloatUnit<F>) -> (r: Result<
    Value,
    Error,
>)
    ensures
        value_result_view(r) == fix_of(unit.oracle(), val@),
{
    match val.as_double(unit) {
        Ok(d) => Ok(Value::Integer(d.to_i32())),
        Err(e) => Err(e),
    }
}

/// `CINT`: the number rounded to the nearest integer.
pub fn cint_fn<F: Fn(FloatRequest) -> FloatReply>(val: Value, unit: &FloatUnit<F>) -> (r: Result<
    Value,
    Error,
>)
    ensures
        value_result_view(r) == cint_of(unit.oracle(), val@),
{
    match val.as_double(unit) {
        Ok(d) => Ok(Value::Integer(d.round_to_i32())),
        Err(e) => Err(e),
    }
}

/// `CSNG`: the number as a single.
pub fn csng_fn<F: Fn(FloatRequest) -> FloatReply>(val: Value, unit: &FloatUnit<F>) -> (r: Result<
    Value,
    Error,
>)
    ensures
        value_result_view(r) == csng_of(unit.oracle(), val@),
{
    match val.as_double(unit) {
        Ok(d) => Ok(Value::Single(unit.narrow(d))),
        Err(e) => Err(e),
    }
}

/// `CDBL`: the number as a double.
pub fn cdbl_fn<F: Fn(FloatRequest) -> FloatReply>(val: Value, unit: &FloatUnit<F>) -> (r: Result<
    Value,
    Error,
>)
    ensures
        value_result_view(r) == cdbl_of(unit.oracle(), val@),
{
    match val.as_double(unit) {
        Ok(d) => Ok(Value::Double(d)),
        Err(e) => Err(e),
    }
}

/// `SQR`: the square root.
pub fn sqr_fn<F: Fn(FloatRequest) -> FloatReply>(val: Value, unit: &FloatUnit<F>) -> (r: Result<
    Value,
    Error,
>)
    ensures
        value_result_view(r) == sqr_of(unit.oracle(), val@),
{
    match val.as_double(unit) {
        Ok(d) => {
            if d.lt(Double::zero()) {
                return failure("Square root of negative number");
            }
            Ok(Value::Double(unit.unary(FloatFunction::Sqrt, d)))
        },
        Err(e) => Err(e),
    }
}

/// `LOG`: the natural logarithm.
pub fn log_fn<F: Fn(FloatRequest) -> FloatReply>(val: Value, unit: &FloatUnit<F>) -> (r: Result<
    Value,
    Error,
>)
    ensures
        value_result_view(r) == log_of(unit.oracle(), val@),
{
    match val.as_double(unit) {
        Ok(d) => {
            if d.le(Double::zero()) {
                return failure("Logarithm of non-positive number");
            }
            Ok(Value::Double(unit.unary(FloatFunction::Ln, d)))
        },
        Err(e) => Err(e),
    }
}

fn float_function<F: Fn(FloatRequest) -> FloatReply>(
    f: FloatFunction,
    val: Value,
    unit: &FloatUnit<F>,
) -> (r: Result<Value, Error>)
    ensures
        value_result_view(r) == function_of(unit.oracle(), f, val@),
{
    match val.as_double(unit) {
        Ok(d) => Ok(Value::Double(unit.unary(f, d))),
        Err(e) => Err(e),
    }
}

/// `SIN`: the sine.
pub fn sin_fn<F: Fn(FloatRequest) -> FloatReply>(val: Value, unit: &FloatUnit<F>) -> (r: Result<
    Value,
    Error,
>)
    ensures
        value_result_view(r) == function_of(unit.oracle(), FloatFunction::Sin, val@),
{
    float_function(FloatFunction::Sin, val, unit)
}

/// `COS`: the cosine.
pub fn cos_fn<F: Fn(FloatRequest) -> FloatReply>(val: Value, unit: &FloatUnit<F>) -> (r: Result<
    Value,
    Error,
>)
    ensures
        value_result_view(r) == function_of(unit.oracle(), FloatFunction::Cos, val@),
{
    float_function(FloatFunction::Cos, val, unit)
}

/// `TAN`: the tangent.
pub fn tan_fn<F: Fn(FloatRequest) -> FloatReply>(val: Value, unit: &FloatUnit<F>) -> (r: Result<
    Value,
    Error,
>)
    ensures
        value_result_view(r) == function_of(unit.oracle(), FloatFunction::Tan, val@),
{
    float_function(FloatFunction::Tan, val, unit)
}

/// `ATN`: the arc tangent.
pub fn atn_fn<F: Fn(FloatRequest) -> FloatReply>(val: Value, unit: &FloatUnit<F>) -> (r: Result<
    Value,
    Error,
>)
    ensures
        value_result_view(r) == function_of(unit.oracle(), FloatFunction::Atan, val@),
{
    float_function(FloatFunction::Atan, val, unit)
}

/// `EXP`: e to the power of the number.
pub fn exp_fn<F: Fn(FloatRequest) -> FloatReply>(val: Value, unit: &FloatUnit<F>) -> (r: Result<
    Value,
    Error,
>)
    ensures
        value_result_view(r) == function_of(unit.oracle(), FloatFunction::Exp, val@),
{
    float_function(FloatFunction::Exp, val, unit)
}

/// `SGN`: the sign of the number.
pub fn sgn_fn<F: Fn(FloatRequest) -> FloatReply>(val: Value, unit: &FloatUnit<F>) -> (r: Result<
    Value,
    Error,
>)
    ensures
        value_result_view(r) == sgn_of(unit.oracle(), val@),
{
    match val.as_double(unit) {
        Ok(d) => {
            let sign: i32 = if Double::zero().lt(d) {
                1
            } else if d.lt(Double::zero()) {
                -1
            } else {
                0
            };
            Ok(Value::Integer(sign))
        },
        Err(e) => Err(e),
    }
}

// Strings

/// `LEN`: the length of the text of the value, in bytes of UTF-8.
pub open spec fn len_of(o: Oracle, v: ValueView) -> Result<ValueView, ErrorView> {
    Ok(ValueView::Integer(wrap_i32(encode_utf8(v.as_string(o)).len())))
}

/// `ASC`: the code of the first character; an empty text is refused.
pub open spec fn asc_of(o: Oracle, v: ValueView) -> Result<ValueView, ErrorView> {
    let s = v.as_string(o);
    if s.len() == 0 {
        runtime_failure("ASC on empty string"@)
    } else {
        integer_value(s[0] as u32 as int)
    }
}

/// `CHR$`: the character with a code from 0 to 255.
pub open spec fn chr_of(v: ValueView) -> Result<ValueView, ErrorView> {
    match v.as_integer() {
        Ok(code) => if code < 0 || code > 255 {
            runtime_failure("CHR$ code out of range: "@ + decimal(code as int))
        } else {
            text_value(seq![latin1(code as int)])
        },
        Err(e) => Err(e),
    }
}

/// `STR$`: the text of the value.
pub open spec fn str_of(o: Oracle, v: ValueView) -> Result<ValueView, ErrorView> {
    text_value(v.as_string(o))
}

/// `VAL`: the number that the text denotes, white space around it aside:
/// an integer where it is written as one, a double where the float unit
/// reads one, and 0 else.
pub open spec fn val_of(o: Oracle, v: ValueView) -> Result<ValueView, ErrorView> {
    let s = trimmed(v.as_string(o));
    match parse_i32(s) {
        Some(i) => Ok(ValueView::Integer(i)),
        None => match parse_answer(o, s) {
            Some(d) => Ok(ValueView::Double(d)),
            None => Ok(ValueView::Integer(0)),
        },
    }
}

/// `LEFT$`: the first `n` characters.
pub open spec fn left_of(o: Oracle, s: ValueView, n: ValueView) -> Result<ValueView, ErrorView> {
    let text = s.as_string(o);
    match n.as_integer() {
        Ok(count) => text_value(text.subrange(0, take_count(count, text.len()) as int)),
        Err(e) => Err(e),
    }
}

/// `RIGHT$`: the last `n` characters.
pub open spec fn right_of(o: Oracle, s: ValueView, n: ValueView) -> Result<ValueView, ErrorView> {
    let text = s.as_string(o);
    match n.as_integer() {
        Ok(count) => text_value(
            text.subrange(text.len() - take_count(count, text.len()), text.len() as int),
        ),
        Err(e) => Err(e),
    }
}

/// `MID$`: the characters from position `start`, counted from one, as many
/// as `len` says or all that are left.
pub open spec fn mid_of(o: Oracle, s: ValueView, start: ValueView, len: Option<ValueView>) -> Result<
    ValueView,
    ErrorView,
> {
    let text = s.as_string(o);
    match start.as_integer() {
        Ok(first) => {
            let from = zero_based(first);
            if from >= text.len() {
                text_value(Seq::empty())
            } else {
                match len {
                    Some(l) => match l.as_integer() {
                        Ok(count) => text_value(
                            text.subrange(
                                from as int,
                                (from + take_count(count, (text.len() - from) as nat)) as int,
                            ),
                        ),
                        Err(e) => Err(e),
                    },
                    None => text_value(text.subrange(from as int, text.len() as int)),
                }
            }
        },
        Err(e) => Err(e),
    }
}

/// `SPACE$`: `n` spaces; a negative count is refused.
pub open spec fn space_of(n: ValueView) -> Result<ValueView, ErrorView> {
    match n.as_integer() {
        Ok(count) => if count < 0 {
            runtime_failure("SPACE$ count cannot be negative"@)
        } else {
            text_value(Seq::new(count as nat, |i: int| ' '))
        },
        Err(e) => Err(e),
    }
}

/// `STRING$`: `n` times one character, given as the first character of a
/// string or as a code from 0 to 255.
pub open spec fn string_of_char(o: Oracle, n: ValueView, ch: ValueView) -> Result<
    ValueView,
    ErrorView,
> {
    match n.as_integer() {
        Ok(count) => if count < 0 {
            runtime_failure("STRING$ count cannot be negative"@)
        } else if ch.is_string() {
            let s = ch.as_string(o);
            if s.len() == 0 {
                runtime_failure("STRING$ character cannot be empty"@)
            } else {
                text_value(Seq::new(count as nat, |i: int| s[0]))
            }
        } else {
            match ch.as_integer() {
                Ok(code) => if code < 0 || code > 255 {
                    runtime_failure("STRING$ code out of range"@)
                } else {
                    text_value(Seq::new(count as nat, |i: int| latin1(code as int)))
                },
                Err(e) => Err(e),
            }
        },
        Err(e) => Err(e),
    }
}

/// `INSTR`: the position, counted from one, of the first place at or behind
/// `start` where `needle` stands in `haystack`; 0 where there is none, or
/// where `start` is behind the end.
pub open spec fn instr_of(
    o: Oracle,
    start: Option<ValueView>,
    haystack: ValueView,
    needle: ValueView,
) -> Result<ValueView, ErrorView> {
    let first = match start {
        Some(s) => s.as_integer(),
        None => Ok(1i32),
    };
    match first {
        Ok(n) => {
            let from = zero_based(n);
            let hay = haystack.as_string(o);
            let need = needle.as_string(o);
            if from >= hay.len() {
                integer_value(0)
            } else {
                match first_occurrence(hay, need, from as int) {
                    Some(at) => Ok(ValueView::Integer(wrap_i32((at + 1) as nat))),
                    None => integer_value(0),
                }
            }
        },
        Err(e) => Err(e),
    }
}

/// `HEX$`: the bits of the integer in base 16.
pub open spec fn hex_of(v: ValueView) -> Result<ValueView, ErrorView> {
    match v.as_integer() {
        Ok(i) => text_value(hex_digits(unsigned_bits(i))),
        Err(e) => Err(e),
    }
}

/// `OCT$`: the bits of the integer in base 8.
pub open spec fn oct_of(v: ValueView) -> Result<ValueView, ErrorView> {
    match v.as_integer() {
        Ok(i) => text_value(octal_digits(unsigned_bits(i))),
        Err(e) => Err(e),
    }
}

/// `LEN`: the length of the text of the value.
pub fn len_fn<F: Fn(FloatRequest) -> FloatReply>(val: Value, unit: &FloatUnit<F>) -> (r: Result<
    Value,
    Error,
>)
    ensures
        value_result_view(r) == len_of(unit.oracle(), val@),
{
    let s = val.as_string(unit);
    let bytes = s.as_str().as_bytes_vec();
    Ok(Value::Integer(wrapped(bytes.len())))
}

/// `ASC`: the code of the first character.
pub fn asc_fn<F: Fn(FloatRequest) -> FloatReply>(val: Value, unit: &FloatUnit<F>) -> (r: Result<
    Value,
    Error,
>)
    ensures
        value_result_view(r) == asc_of(unit.oracle(), val@),
{
    let s = val.as_string(unit);
    let chars = to_chars(s.as_str());
    if chars.len() == 0 {
        return failure("ASC on empty string");
    }
    Ok(Value::Integer(chars[0] as u32 as i32))
}

fn latin1_char(code: i32) -> (c: char)
    requires
        0 <= code <= 255,
    ensures
        c == latin1(code as int),
{
    (code as u8) as char
}

fn one_char_string(c: char) -> (r: String)
    ensures
        r@ == seq![c],
{
    let mut out = String::new();
    out.push(c);
    assert(out@ =~= seq![c]);
    out
}

/// `CHR$`: the character with the given code.
pub fn chr_fn(val: Value) -> (r: Result<Value, Error>)
    ensures
        value_result_view(r) == chr_of(val@),
{
    match val.as_integer() {
        Ok(code) => {
            if code < 0 || code > 255 {
                let mut msg = String::from_str("CHR$ code out of range: ");
                push_decimal(&mut msg, code as i64);
                return Err(Error::RuntimeError(msg));
            }
            Ok(Value::String(one_char_string(latin1_char(code))))
        },
        Err(e) => Err(e),
    }
}

/// `STR$`: the text of the value.
pub fn str_fn<F: Fn(FloatRequest) -> FloatReply>(val: Value, unit: &FloatUnit<F>) -> (r: Result<
    Value,
    Error,
>)
    ensures
        value_result_view(r) == str_of(unit.oracle(), val@),
{
    Ok(Value::String(val.as_string(unit)))
}

/// `VAL`: the number that the text denotes.
pub fn val_fn<F: Fn(FloatRequest) -> FloatReply>(val: Value, unit: &FloatUnit<F>) -> (r: Result<
    Value,
    Error,
>)
    ensures
        value_result_view(r) == val_of(unit.oracle(), val@),
{
    let string = val.as_string(unit);
    let chars = to_chars(string.as_str());
    let (from, to) = trim_bounds(&chars);
    let s = string_of(&chars, from, to);
    let inner = to_chars(s.as_str());
    match parse_i32_chars(&inner) {
        Some(i) => Ok(Value::Integer(i)),
        None => match unit.parse(s.as_str()) {
            Some(d) => Ok(Value::Double(d)),
            None => Ok(Value::Integer(0)),
        },
    }
}

/// `LEFT$`: the first `n` characters.
pub fn left_fn<F: Fn(FloatRequest) -> FloatReply>(s: Value, n: Value, unit: &FloatUnit<F>) -> (r:
    Result<Value, Error>)
    ensures
        value_result_view(r) == left_of(unit.oracle(), s@, n@),
{
    let string = s.as_string(unit);
    match n.as_integer() {
        Ok(count) => {
            let chars = to_chars(string.as_str());
            Ok(Value::String(string_of(&chars, 0, count_of(count, chars.len()))))
        },
        Err(e) => Err(e),
    }
}

/// `RIGHT$`: the last `n` characters.
pub fn right_fn<F: Fn(FloatRequest) -> FloatReply>(s: Value, n: Value, unit: &FloatUnit<F>) -> (r:
    Result<Value, Error>)
    ensures
        value_result_view(r) == right_of(unit.oracle(), s@, n@),
{
    let string = s.as_string(unit);
    match n.as_integer() {
        Ok(count) => {
            let chars = to_chars(string.as_str());
            let start: usize = chars.len() - count_of(count, chars.len());
            Ok(Value::String(string_of(&chars, start, chars.len())))
        },
        Err(e) => Err(e),
    }
}

/// `MID$`: the characters from a position on.
pub fn mid_fn<F: Fn(FloatRequest) -> FloatReply>(
    s: Value,
    start: Value,
    len: Option<Value>,
    unit: &FloatUnit<F>,
) -> (r: Result<Value, Error>)
    ensures
        value_result_view(r) == mid_of(
                unit.oracle(),
                s@,
                start@,
                match len {
                    Some(l) => Some(l@),
                    None => None,
                },
            ),
{
    let string = s.as_string(unit);
    let first = match start.as_integer() {
        Ok(n) => n,
        Err(e) => {
            return Err(e);
        },
    };
    let start_pos: usize = position_of(first);
    let chars = to_chars(string.as_str());
    if start_pos >= chars.len() {
        return Ok(Value::String(String::new()));
    }
    match len {
        Some(length) => match length.as_integer() {
            Ok(count) => {
                let taken: usize = count_of(count, chars.len() - start_pos);
                Ok(Value::String(string_of(&chars, start_pos, start_pos + taken)))
            },
            Err(e) => Err(e),
        },
        None => Ok(Value::String(string_of(&chars, start_pos, chars.len()))),
    }
}

fn repeated(c: char, count: i32) -> (r: String)
    requires
        count >= 0,
    ensures
        r@ == Seq::new(count as nat, |i: int| c),
{
    let mut out = String::new();
    push_repeated(&mut out, c, count as usize);
    assert(out@ =~= Seq::new(count as nat, |i: int| c));
    out
}

/// `SPACE$`: a number of spaces.
pub fn space_fn(n: Value) -> (r: Result<Value, Error>)
    ensures
        value_result_view(r) == space_of(n@),
{
    match n.as_integer() {
        Ok(count) => {
            if count < 0 {
                return failure("SPACE$ count cannot be negative");
            }
            Ok(Value::String(repeated(' ', count)))
        },
        Err(e) => Err(e),
    }
}

/// `STRING$`: a number of times one character.
pub fn string_fn<F: Fn(FloatRequest) -> FloatReply>(n: Value, ch: Value, unit: &FloatUnit<F>) -> (r:
    Result<Value, Error>)
    ensures
        value_result_view(r) == string_of_char(unit.oracle(), n@, ch@),
{
    let count = match n.as_integer() {
        Ok(c) => c,
        Err(e) => {
            return Err(e);
        },
    };
    if count < 0 {
        return failure("STRING$ count cannot be negative");
    }
    if ch.is_string() {
        let s = ch.as_string(unit);
        let chars = to_chars(s.as_str());
        if chars.len() == 0 {
            return failure("STRING$ character cannot be empty");
        }
        Ok(Value::String(repeated(chars[0], count)))
    } else {
        match ch.as_integer() {
            Ok(code) => {
                if code < 0 || code > 255 {
                    return failure("STRING$ code out of range");
                }
                Ok(Value::String(repeated(latin1_char(code), count)))
            },
            Err(e) => Err(e),
        }
    }
}

/// `INSTR`: where a text stands in another.
pub fn instr_fn<F: Fn(FloatRequest) -> FloatReply>(
    start: Option<Value>,
    haystack: Value,
    needle: Value,
    unit: &FloatUnit<F>,
) -> (r: Result<Value, Error>)
    ensures
        value_result_view(r) == instr_of(
                unit.oracle(),
                match start {
                    Some(s) => Some(s@),
                    None => None,
                },
                haystack@,
                needle@,
            ),
{
    let first: i32 = match start {
        Some(s) => match s.as_integer() {
            Ok(n) => n,
            Err(e) => {
                return Err(e);
            },
        },
        None => 1,
    };
    let start_pos: usize = position_of(first);
    let hay = to_chars(haystack.as_string(unit).as_str());
    let need = to_chars(needle.as_string(unit).as_str());
    if start_pos >= hay.len() {
        return Ok(Value::Integer(0));
    }
    match find_from(&hay, &need, start_pos) {
        Some(pos) => Ok(Value::Integer(wrapped(pos + 1))),
        None => Ok(Value::Integer(0)),
    }
}

/// `HEX$`: the integer in base 16.
pub fn hex_fn(val: Value) -> (r: Result<Value, Error>)
    ensures
        value_result_view(r) == hex_of(val@),
{
    match val.as_integer() {
        Ok(i) => {
            let mut out = String::new();
            push_hex_digits(&mut out, unsigned_of(i));
            Ok(Value::String(out))
        },
        Err(e) => Err(e),
    }
}

/// `OCT$`: the integer in base 8.
pub fn oct_fn(val: Value) -> (r: Result<Value, Error>)
    ensures
        value_result_view(r) == oct_of(val@),
{
    match val.as_integer() {
        Ok(i) => {
            let mut out = String::new();
            push_octal_digits(&mut out, unsigned_of(i));
            Ok(Value::String(out))
        },
        Err(e) => Err(e),
    }
}

// Bytes

/// The first `count` bytes of `n`, lowest first.
pub open spec fn le_bytes(n: nat, count: nat) -> Seq<u8>
    decreases count,
{
    if count == 0 {
        Seq::empty()
    } else {
        seq![(n % 256) as u8] + le_bytes(n / 256, (count - 1) as nat)
    }
}

/// The number whose bytes, lowest first, are `bytes`.
pub open spec fn le_value(bytes: Seq<u8>) -> nat
    decreases bytes.len(),
{
    if bytes.len() == 0 {
        0
    } else {
        bytes[0] as nat + 256 * le_value(bytes.drop_first())
    }
}

fn bytes_of(n: u64, count: usize) -> (r: Vec<u8>)
    ensures
        r@ == le_bytes(n as nat, count as nat),
{
    let mut out: Vec<u8> = Vec::new();
    let mut rest: u64 = n;
    let mut i: usize = 0;
    while i < count
        invariant
            i <= count,
            le_bytes(n as nat, count as nat) == out@ + le_bytes(rest as nat, (count - i) as nat),
        decreases count - i,
    {
        let ghost before = out@;
        out.push((rest % 256) as u8);
        proof {
            assert(out@ + le_bytes((rest / 256) as nat, (count - i - 1) as nat) =~= before + le_bytes(
                rest as nat,
                (count - i) as nat,
            ));
        }
        rest = rest / 256;
        i = i + 1;
    }
    assert(out@ + le_bytes(rest as nat, 0) =~= out@);
    out
}

proof fn lemma_le_value_bound(bytes: Seq<u8>)
    requires
        bytes.len() <= 8,
    ensures
        bytes.len() == 0 ==> le_value(bytes) == 0,
        bytes.len() == 1 ==> le_value(bytes) < 0x100,
        bytes.len() == 2 ==> le_value(bytes) < 0x1_0000,
        bytes.len() == 3 ==> le_value(bytes) < 0x100_0000,
        bytes.len() == 4 ==> le_value(bytes) < 0x1_0000_0000,
        bytes.len() == 5 ==> le_value(bytes) < 0x100_0000_0000,
        bytes.len() == 6 ==> le_value(bytes) < 0x1_0000_0000_0000,
        bytes.len() == 7 ==> le_value(bytes) < 0x100_0000_0000_0000,
        bytes.len() == 8 ==> le_value(bytes) < 0x1_0000_0000_0000_0000,
    decreases bytes.len(),
{
    if bytes.len() > 0 {
        lemma_le_value_bound(bytes.drop_first());
    }
}

fn value_of(bytes: &Vec<u8>, count: usize) -> (r: u64)
    requires
        count <= 8,
        count <= bytes.len(),
    ensures
        r == le_value(bytes@.subrange(0, count as int)),
{
    let mut acc: u64 = 0;
    let mut i: usize = count;
    assert(bytes@.subrange(count as int, count as int) =~= Seq::<u8>::empty());
    while i > 0
        invariant
            i <= count <= 8,
            count <= bytes.len(),
            acc == le_value(bytes@.subrange(i as int, count as int)),
        decreases i,
    {
        proof {
            let tail = bytes@.subrange(i as int, count as int);
            let longer = bytes@.subrange(i - 1, count as int);
            assert(longer.drop_first() =~= tail);
            lemma_le_value_bound(tail);
        }
        i = i - 1;
        acc = bytes[i] as u64 + 256 * acc;
    }
    acc
}

/// What `bytes` read as UTF-8 gives, each sequence of bytes that is not
/// UTF-8 replaced by the replacement character.
pub uninterp spec fn utf8_lossy(bytes: Seq<u8>) -> Seq<char>;

/// The lower-case form of a text, as Unicode maps it.
pub uninterp spec fn lowercased(s: Seq<char>) -> Seq<char>;

/// The upper-case form of a text, as Unicode maps it.
pub uninterp spec fn uppercased(s: Seq<char>) -> Seq<char>;

/// `String::from_utf8_lossy` reads the bytes as UTF-8 and replaces what is
/// not; the result depends on the bytes alone.
#[verifier::external_body]
fn lossy_string(bytes: &Vec<u8>) -> (r: String)
    ensures
        r@ == utf8_lossy(bytes@),
{
    String::from_utf8_lossy(bytes).into_owned()
}

/// `str::to_lowercase` maps each character to lower case; the result
/// depends on the text alone.
#[verifier::external_body]
fn lowercase_string(s: &str) -> (r: String)
    ensures
        r@ == lowercased(s@),
{
    s.to_lowercase()
}

/// `str::to_uppercase` maps each character to upper case; the result
/// depends on the text alone.
#[verifier::external_body]
pub(crate) fn uppercase_string(s: &str) -> (r: String)
    ensures
        r@ == uppercased(s@),
{
    s.to_uppercase()
}

/// `LCASE$`: the text in lower case.
pub open spec fn lcase_of(o: Oracle, v: ValueView) -> Result<ValueView, ErrorView> {
    text_value(lowercased(v.as_string(o)))
}

/// `UCASE$`: the text in upper case.
pub open spec fn ucase_of(o: Oracle, v: ValueView) -> Result<ValueView, ErrorView> {
    text_value(uppercased(v.as_string(o)))
}

/// `LCASE$`: the text in lower case.
pub fn lcase_fn<F: Fn(FloatRequest) -> FloatReply>(val: Value, unit: &FloatUnit<F>) -> (r: Result<
    Value,
    Error,
>)
    ensures
        value_result_view(r) == lcase_of(unit.oracle(), val@),
{
    let s = val.as_string(unit);
    Ok(Value::String(lowercase_string(s.as_str())))
}

/// `UCASE$`: the text in upper case.
pub fn ucase_fn<F: Fn(FloatRequest) -> FloatReply>(val: Value, unit: &FloatUnit<F>) -> (r: Result<
    Value,
    Error,
>)
    ensures
        value_result_view(r) == ucase_of(unit.oracle(), val@),
{
    let s = val.as_string(unit);
    Ok(Value::String(uppercase_string(s.as_str())))
}

/// The number that the first `count` bytes of the text of `v` hold, lowest
/// byte first; a shorter text is refused with `message`.
pub open spec fn stored_bits(o: Oracle, v: ValueView, count: nat, message: Seq<char>) -> Result<
    nat,
    ErrorView,
> {
    let bytes = encode_utf8(v.as_string(o));
    if bytes.len() < count {
        Err(ErrorView::RuntimeError(message))
    } else {
        Ok(le_value(bytes.subrange(0, count as int)))
    }
}

/// `CVI`: the 16-bit integer that the first two bytes hold.
pub open spec fn cvi_of(o: Oracle, v: ValueView) -> Result<ValueView, ErrorView> {
    match stored_bits(o, v, 2, "CVI requires 2-byte string"@) {
        Ok(n) => if n >= 0x8000 {
            integer_value(n - 0x1_0000)
        } else {
            integer_value(n as int)
        },
        Err(e) => Err(e),
    }
}

/// `CVS`: the single that the first four bytes hold.
pub open spec fn cvs_of(o: Oracle, v: ValueView) -> Result<ValueView, ErrorView> {
    match stored_bits(o, v, 4, "CVS requires 4-byte string"@) {
        Ok(n) => Ok(ValueView::Single(Single { bits: n as u32 })),
        Err(e) => Err(e),
    }
}

/// `CVD`: the double that the first eight bytes hold.
pub open spec fn cvd_of(o: Oracle, v: ValueView) -> Result<ValueView, ErrorView> {
    match stored_bits(o, v, 8, "CVD requires 8-byte string"@) {
        Ok(n) => Ok(ValueView::Double(Double { bits: n as u64 })),
        Err(e) => Err(e),
    }
}

/// `MKI$`: the two bytes of the low 16 bits of the integer, read as text.
pub open spec fn mki_of(v: ValueView) -> Result<ValueView, ErrorView> {
    match v.as_integer() {
        Ok(i) => text_value(utf8_lossy(le_bytes(unsigned_bits(i) % 0x1_0000, 2))),
        Err(e) => Err(e),
    }
}

/// `MKS$`: the four bytes of the single nearest to the number, read as text.
pub open spec fn mks_of(o: Oracle, v: ValueView) -> Result<ValueView, ErrorView> {
    match v.as_double(o) {
        Ok(d) => text_value(utf8_lossy(le_bytes(narrow_answer(o, d).bits as nat, 4))),
        Err(e) => Err(e),
    }
}

/// `MKD$`: the eight bytes of the number as a double, read as text.
pub open spec fn mkd_of(o: Oracle, v: ValueView) -> Result<ValueView, ErrorView> {
    match v.as_double(o) {
        Ok(d) => text_value(utf8_lossy(le_bytes(d.bits as nat, 8))),
        Err(e) => Err(e),
    }
}

fn stored<F: Fn(FloatRequest) -> FloatReply>(
    val: &Value,
    count: usize,
    message: &str,
    unit: &FloatUnit<F>,
) -> (r: Result<u64, Error>)
    requires
        count <= 8,
    ensures
        (match r {
                Ok(n) => Ok(n as nat),
                Err(e) => Err(e@),
            }) == stored_bits(unit.oracle(), val@, count as nat, message@),
        r is Ok && count == 2 ==> r->Ok_0 < 0x1_0000,
        r is Ok && count == 4 ==> r->Ok_0 < 0x1_0000_0000,
{
    let s = val.as_string(unit);
    let bytes = s.as_str().as_bytes_vec();
    if bytes.len() < count {
        return Err(Error::RuntimeError(String::from_str(message)));
    }
    proof {
        lemma_le_value_bound(bytes@.subrange(0, count as int));
    }
    Ok(value_of(&bytes, count))
}

/// `CVI`: the integer stored in a text.
pub fn cvi_fn<F: Fn(FloatRequest) -> FloatReply>(val: Value, unit: &FloatUnit<F>) -> (r: Result<
    Value,
    Error,
>)
    ensures
        value_result_view(r) == cvi_of(unit.oracle(), val@),
{
    match stored(&val, 2, "CVI requires 2-byte string", unit) {
        Ok(n) => {
            if n >= 0x8000 {
                Ok(Value::Integer((n as i64 - 0x1_0000) as i32))
            } else {
                Ok(Value::Integer(n as i32))
            }
        },
        Err(e) => Err(e),
    }
}

/// `CVS`: the single stored in a text.
pub fn cvs_fn<F: Fn(FloatRequest) -> FloatReply>(val: Value, unit: &FloatUnit<F>) -> (r: Result<
    Value,
    Error,
>)
    ensures
        value_result_view(r) == cvs_of(unit.oracle(), val@),
{
    match stored(&val, 4, "CVS requires 4-byte string", unit) {
        Ok(n) => Ok(Value::Single(Single::from_bits(n as u32))),
        Err(e) => Err(e),
    }
}

/// `CVD`: the double stored in a text.
pub fn cvd_fn<F: Fn(FloatRequest) -> FloatReply>(val: Value, unit: &FloatUnit<F>) -> (r: Result<
    Value,
    Error,
>)
    ensures
        value_result_view(r) == cvd_of(unit.oracle(), val@),
{
    match stored(&val, 8, "CVD requires 8-byte string", unit) {
        Ok(n) => Ok(Value::Double(Double::from_bits(n))),
        Err(e) => Err(e),
    }
}

/// `MKI$`: the text that stores an integer.
pub fn mki_fn(val: Value) -> (r: Result<Value, Error>)
    ensures
        value_result_view(r) == mki_of(val@),
{
    match val.as_integer() {
        Ok(i) => {
            let bytes = bytes_of(unsigned_of(i) % 0x1_0000, 2);
            Ok(Value::String(lossy_string(&bytes)))
        },
        Err(e) => Err(e),
    }
}

/// `MKS$`: the text that stores a single.
pub fn mks_fn<F: Fn(FloatRequest) -> FloatReply>(val: Value, unit: &FloatUnit<F>) -> (r: Result<
    Value,
    Error,
>)
    ensures
        value_result_view(r) == mks_of(unit.oracle(), val@),
{
    match val.as_double(unit) {
        Ok(d) => {
            let bytes = bytes_of(unit.narrow(d).to_bits() as u64, 4);
            Ok(Value::String(lossy_string(&bytes)))
        },
        Err(e) => Err(e),
    }
}

/// `MKD$`: the text that stores a double.
pub fn mkd_fn<F: Fn(FloatRequest) -> FloatReply>(val: Value, unit: &FloatUnit<F>) -> (r: Result<
    Value,
    Error,
>)
    ensures
        value_result_view(r) == mkd_of(unit.oracle(), val@),
{
    match val.as_double(unit) {
        Ok(d) => {
            let bytes = bytes_of(d.to_bits(), 8);
            Ok(Value::String(lossy_string(&bytes)))
        },
        Err(e) => Err(e),
    }
}

// Random numbers and the clock

/// The state of the generator after one draw.
pub open spec fn next_random(state: u64) -> u64 {
    ((state * 1103515245 + 12345) % 0x8000_0000) as u64
}

/// The single `n / scale`.
pub open spec fn ratio(o: Oracle, n: nat, scale: nat) -> Single {
    single_quotient_answer(o, Single::of_small(n), Single::of_small(scale))
}

/// One draw from the generator: the value below 1, and the state behind it.
pub open spec fn draw(o: Oracle, state: u64) -> (Result<ValueView, ErrorView>, u64) {
    let s = next_random(state);
    (Ok(ValueView::Single(ratio(o, (s % 1000000) as nat, 1000000))), s)
}

/// The state that a negative seed sets: the seed without its sign, times a
/// million, rounded toward zero.
pub open spec fn reseeded(o: Oracle, seed: Double) -> u64 {
    binary_answer(o, FloatOp::Multiply, seed.absolute(), Double::of_int(1000000)).truncated_u64() as u64
}

/// `RND`: a number from 0 up to 1, and the state of the generator behind
/// the call. Without an argument, or with a positive one, the next number is
/// drawn. A negative argument sets the state first. With zero the state
/// stays, and the number is made from it.
pub open spec fn rnd_of(o: Oracle, seed: Option<ValueView>, state: u64) -> (
    Result<ValueView, ErrorView>,
    u64,
) {
    match seed {
        Some(v) => match v.as_double(o) {
            Ok(sv) => if sv.lt_spec(Double { bits: 0 }) {
                draw(o, reseeded(o, sv))
            } else if sv.same_number(Double { bits: 0 }) {
                (Ok(ValueView::Single(ratio(o, (state % 1000) as nat, 1000))), state)
            } else {
                draw(o, state)
            },
            Err(e) => (Err(e), state),
        },
        None => draw(o, state),
    }
}

/// `TIMER`: the seconds since midnight.
pub open spec fn timer_of(now: u64) -> Result<ValueView, ErrorView> {
    Ok(ValueView::Single(Single::of_small((now % 86400) as nat)))
}

/// `DATE$`: month, day and year in a calendar of years of 365 days and
/// months of 30 days.
pub open spec fn date_of(now: u64) -> Result<ValueView, ErrorView> {
    let days = (now / 86400) as nat;
    text_value(
        padded((days % 365) / 30 + 1, 2) + "-"@ + padded((days % 365) % 30 + 1, 2) + "-"@ + padded(
            1970 + days / 365,
            4,
        ),
    )
}

/// `TIME$`: hours, minutes and seconds since midnight.
pub open spec fn time_of(now: u64) -> Result<ValueView, ErrorView> {
    let seconds = (now % 86400) as nat;
    text_value(
        padded(seconds / 3600, 2) + ":"@ + padded((seconds % 3600) / 60, 2) + ":"@ + padded(
            seconds % 60,
            2,
        ),
    )
}

fn advance_random(state: u64) -> (r: u64)
    ensures
        r == next_random(state),
{
    let wide: u128 = state as u128 * 1103515245 + 12345;
    (wide % 0x8000_0000) as u64
}

fn single_ratio<F: Fn(FloatRequest) -> FloatReply>(n: u32, scale: u32, unit: &FloatUnit<F>) -> (r:
    Single)
    requires
        n < 0x100_0000,
        scale < 0x100_0000,
    ensures
        r == ratio(unit.oracle(), n as nat, scale as nat),
{
    unit.divide_single(Single::from_small(n), Single::from_small(scale))
}

/// `RND`: a number from 0 up to 1, drawn from the generator whose state
/// is `state`.
pub fn rnd_fn<F: Fn(FloatRequest) -> FloatReply>(
    seed: Option<Value>,
    state: &mut u64,
    unit: &FloatUnit<F>,
) -> (r: Result<Value, Error>)
    ensures
        (value_result_view(r), *final(state)) == rnd_of(
                unit.oracle(),
                match seed {
                    Some(v) => Some(v@),
                    None => None,
                },
                *old(state),
            ),
{
    match seed {
        Some(seed_val) => {
            match seed_val.as_double(unit) {
                Ok(sv) => {
                    if sv.lt(Double::zero()) {
                        let scaled = unit.binary(FloatOp::Multiply, sv.abs(), Double::from_i32(1000000));
                        *state = scaled.to_u64();
                    } else if sv.equals(Double::zero()) {
                        let n: u32 = (*state % 1000) as u32;
                        return Ok(Value::Single(single_ratio(n, 1000, unit)));
                    }
                },
                Err(e) => {
                    return Err(e);
                },
            }
        },
        None => {},
    }
    *state = advance_random(*state);
    let n: u32 = (*state % 1000000) as u32;
    Ok(Value::Single(single_ratio(n, 1000000, unit)))
}

/// `TIMER`: the seconds since midnight, at the time `now`.
pub fn timer_fn(now: u64) -> (r: Result<Value, Error>)
    ensures
        value_result_view(r) == timer_of(now),
{
    Ok(Value::Single(Single::from_small((now % 86400) as u32)))
}

/// `DATE$`: the date at the time `now`.
pub fn date_fn(now: u64) -> (r: Result<Value, Error>)
    ensures
        value_result_view(r) == date_of(now),
{
    let days: u64 = now / 86400;
    let mut out = String::new();
    push_padded(&mut out, (days % 365) / 30 + 1, 2);
    out.append("-");
    push_padded(&mut out, (days % 365) % 30 + 1, 2);
    out.append("-");
    push_padded(&mut out, 1970 + days / 365, 4);
    Ok(Value::String(out))
}

/// `TIME$`: the time of day at the time `now`.
pub fn time_fn(now: u64) -> (r: Result<Value, Error>)
    ensures
        value_result_view(r) == time_of(now),
{
    let seconds: u64 = now % 86400;
    let mut out = String::new();
    push_padded(&mut out, seconds / 3600, 2);
    out.append(":");
    push_padded(&mut out, (seconds % 3600) / 60, 2);
    out.append(":");
    push_padded(&mut out, seconds % 60, 2);
    Ok(Value::String(out))
}

// The environment and the terminal

/// `ENVIRON$`: the value of the variable of the environment that a text
/// names, which the host has looked up; the empty text where there is none,
/// and for an argument that is no text.
pub open spec fn environ_of(v: ValueView, found: Option<Seq<char>>) -> Result<ValueView, ErrorView> {
    match (v, found) {
        (ValueView::String(_), Some(value)) => text_value(value),
        _ => text_value(Seq::empty()),
    }
}

/// `INPUT$`: from a file, as many blanks as asked for; from the terminal,
/// the bytes that the host has read there, read as text.
pub open spec fn input_of(n: ValueView, from_file: bool, typed: Seq<u8>) -> Result<
    ValueView,
    ErrorView,
> {
    match n.as_integer() {
        Ok(count) => if from_file {
            text_value(Seq::new(count as nat, |i: int| ' '))
        } else {
            text_value(utf8_lossy(typed))
        },
        Err(e) => Err(e),
    }
}

/// `ENVIRON$`: the value `found` that the host has looked up in the
/// environment under the name that `val` holds.
pub fn environ_fn(val: Value, found: Option<String>) -> (r: Result<Value, Error>)
    ensures
        value_result_view(r) == environ_of(
            val@,
            match found {
                Some(s) => Some(s@),
                None => None,
            },
        ),
{
    if val.is_string() {
        match found {
            Some(value) => Ok(Value::String(value)),
            None => Ok(Value::String(String::new())),
        }
    } else {
        Ok(Value::String(String::new()))
    }
}

/// `INPUT$`: `n` characters from a file or from the terminal. For the
/// terminal the host reads `n` bytes and hands them over as `typed`. A count
/// below zero is not asked for.
pub fn input_fn(n: Value, file_num: Option<Value>, typed: &Vec<u8>) -> (r: Result<Value, Error>)
    requires
        n@.as_integer() is Ok ==> n@.as_integer()->Ok_0 >= 0,
    ensures
        value_result_view(r) == input_of(n@, file_num is Some, typed@),
{
    match n.as_integer() {
        Ok(count) => {
            if file_num.is_some() {
                Ok(Value::String(repeated(' ', count)))
            } else {
                Ok(Value::String(lossy_string(typed)))
            }
        },
        Err(e) => Err(e),
    }
}

// Devices that are not there

/// The integer `n`, if `v` can be read as an integer.
pub open spec fn integer_after(v: ValueView, n: int) -> Result<ValueView, ErrorView> {
    match v.as_integer() {
        Ok(_) => integer_value(n),
        Err(e) => Err(e),
    }
}

/// The empty text, if `v` can be read as an integer.
pub open spec fn empty_after(v: ValueView) -> Result<ValueView, ErrorView> {
    match v.as_integer() {
        Ok(_) => text_value(Seq::empty()),
        Err(e) => Err(e),
    }
}

/// The integer `n`, if `a` and then `b` can be read as integers.
pub open spec fn integer_after_two(a: ValueView, b: ValueView, n: int) -> Result<ValueView, ErrorView> {
    match a.as_integer() {
        Ok(_) => integer_after(b, n),
        Err(e) => Err(e),
    }
}

/// `USR`: 0, if the argument can be read as a double.
pub open spec fn usr_of(o: Oracle, arg: ValueView) -> Result<ValueView, ErrorView> {
    match arg.as_double(o) {
        Ok(_) => integer_value(0),
        Err(e) => Err(e),
    }
}

fn constant_after(v: &Value, n: i32) -> (r: Result<Value, Error>)
    ensures
        value_result_view(r) == integer_after(v@, n as int),
{
    match v.as_integer() {
        Ok(_) => Ok(Value::Integer(n)),
        Err(e) => Err(e),
    }
}

fn nothing_after(v: &Value) -> (r: Result<Value, Error>)
    ensures
        value_result_view(r) == empty_after(v@),
{
    match v.as_integer() {
        Ok(_) => Ok(Value::String(String::new())),
        Err(e) => Err(e),
    }
}

/// `PEEK`: always 0.
pub fn peek_fn(_addr: Value) -> (r: Result<Value, Error>)
    ensures
        value_result_view(r) == integer_value(0),
{
    Ok(Value::Integer(0))
}

/// `INP`: always 0.
pub fn inp_fn(_port: Value) -> (r: Result<Value, Error>)
    ensures
        value_result_view(r) == integer_value(0),
{
    Ok(Value::Integer(0))
}

/// `FRE`: always 65000.
pub fn fre_fn(_val: Value) -> (r: Result<Value, Error>)
    ensures
        value_result_view(r) == integer_value(65000),
{
    Ok(Value::Integer(65000))
}

/// `VARPTR`: always 0.
pub fn varptr_fn(_var_name: Value) -> (r: Result<Value, Error>)
    ensures
        value_result_view(r) == integer_value(0),
{
    Ok(Value::Integer(0))
}

/// `INKEY$`: always the empty text.
pub fn inkey_fn() -> (r: Result<Value, Error>)
    ensures
        value_result_view(r) == text_value(Seq::empty()),
{
    Ok(Value::String(String::new()))
}

/// `POS`: always 1.
pub fn pos_fn(_dummy: Value) -> (r: Result<Value, Error>)
    ensures
        value_result_view(r) == integer_value(1),
{
    Ok(Value::Integer(1))
}

/// `CSRLIN`: always 1.
pub fn csrlin_fn() -> (r: Result<Value, Error>)
    ensures
        value_result_view(r) == integer_value(1),
{
    Ok(Value::Integer(1))
}

/// `EOF`: always 0, for a file number that is an integer.
pub fn eof_fn(file_num: Value) -> (r: Result<Value, Error>)
    ensures
        value_result_view(r) == integer_after(file_num@, 0),
{
    constant_after(&file_num, 0)
}

/// `LOC`: always 0, for a file number that is an integer.
pub fn loc_fn(file_num: Value) -> (r: Result<Value, Error>)
    ensures
        value_result_view(r) == integer_after(file_num@, 0),
{
    constant_after(&file_num, 0)
}

/// `LOF`: always 0, for a file number that is an integer.
pub fn lof_fn(file_num: Value) -> (r: Result<Value, Error>)
    ensures
        value_result_view(r) == integer_after(file_num@, 0),
{
    constant_after(&file_num, 0)
}

/// `POINT`: always 0, for coordinates that are integers.
pub fn point_fn(x: Value, y: Value) -> (r: Result<Value, Error>)
    ensures
        value_result_view(r) == integer_after_two(x@, y@, 0),
{
    match x.as_integer() {
        Ok(_) => constant_after(&y, 0),
        Err(e) => Err(e),
    }
}

/// `SCREEN`: the colour 0 where a third argument is given, else the
/// character code 32, for a row and a column that are integers.
pub fn screen_fn(row: Value, col: Value, color_num: Option<Value>) -> (r: Result<Value, Error>)
    ensures
        value_result_view(r) == integer_after_two(
            row@,
            col@,
            if color_num is Some {
                0
            } else {
                32
            },
        ),
{
    match row.as_integer() {
        Ok(_) => constant_after(
            &col,
            if color_num.is_some() {
                0
            } else {
                32
            },
        ),
        Err(e) => Err(e),
    }
}

/// `ERL`: always 0.
pub fn erl_fn() -> (r: Result<Value, Error>)
    ensures
        value_result_view(r) == integer_value(0),
{
    Ok(Value::Integer(0))
}

/// `ERR`: always 0.
pub fn err_fn() -> (r: Result<Value, Error>)
    ensures
        value_result_view(r) == integer_value(0),
{
    Ok(Value::Integer(0))
}

/// `ERDEV`: always 0.
pub fn erdev_fn() -> (r: Result<Value, Error>)
    ensures
        value_result_view(r) == integer_value(0),
{
    Ok(Value::Integer(0))
}

/// `ERDEV$`: always the empty text.
pub fn erdev_string_fn() -> (r: Result<Value, Error>)
    ensures
        value_result_view(r) == text_value(Seq::empty()),
{
    Ok(Value::String(String::new()))
}

/// `IOCTL$`: always the empty text, for a file number that is an integer.
pub fn ioctl_fn(file_num: Value) -> (r: Result<Value, Error>)
    ensures
        value_result_view(r) == empty_after(file_num@),
{
    nothing_after(&file_num)
}

/// `STICK`: always 0, for an argument that is an integer.
pub fn stick_fn(val: Value) -> (r: Result<Value, Error>)
    ensures
        value_result_view(r) == integer_after(val@, 0),
{
    constant_after(&val, 0)
}

/// `STRIG`: always 0, for an argument that is an integer.
pub fn strig_fn(val: Value) -> (r: Result<Value, Error>)
    ensures
        value_result_view(r) == integer_after(val@, 0),
{
    constant_after(&val, 0)
}

/// `FILEATTR`: always 0, for arguments that are integers.
pub fn fileattr_fn(filenum: Value, attribute: Value) -> (r: Result<Value, Error>)
    ensures
        value_result_view(r) == integer_after_two(filenum@, attribute@, 0),
{
    match filenum.as_integer() {
        Ok(_) => constant_after(&attribute, 0),
        Err(e) => Err(e),
    }
}

/// `IOCTL$` of a file: always the empty text, for a file number that is an
/// integer.
pub fn ioctl_string_fn(filenum: Value) -> (r: Result<Value, Error>)
    ensures
        value_result_view(r) == empty_after(filenum@),
{
    nothing_after(&filenum)
}

/// `USR`: always 0, for an argument that is a number.
pub fn usr_fn<F: Fn(FloatRequest) -> FloatReply>(
    _index: Option<Value>,
    arg: Value,
    unit: &FloatUnit<F>,
) -> (r: Result<Value, Error>)
    ensures
        value_result_view(r) == usr_of(unit.oracle(), arg@),
{
    match arg.as_double(unit) {
        Ok(_) => Ok(Value::Integer(0)),
        Err(e) => Err(e),
    }
}

} // verus!
