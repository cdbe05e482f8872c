use rust_gwbasic::numeric::{Double, Single};
use rust_gwbasic::unit::{FloatFunction, FloatOp, FloatReply, FloatRequest, FloatUnit};
use rust_gwbasic::{Error, Value};

fn native(req: FloatRequest) -> FloatReply {
    fn double(v: f64) -> FloatReply {
        FloatReply { ok: true, bits: v.to_bits(), text: String::new() }
    }
    fn single(v: f32) -> FloatReply {
        FloatReply { ok: true, bits: v.to_bits() as u64, text: String::new() }
    }
    fn text(s: String) -> FloatReply {
        FloatReply { ok: true, bits: 0, text: s }
    }
    match req {
        FloatRequest::Binary(op, a, b) => {
            let (a, b) = (f64::from_bits(a.bits), f64::from_bits(b.bits));
            double(match op {
                FloatOp::Add => a + b,
                FloatOp::Subtract => a - b,
                FloatOp::Multiply => a * b,
                FloatOp::Divide => a / b,
                FloatOp::Power => a.powf(b),
            })
        }
        FloatRequest::Unary(f, a) => {
            let a = f64::from_bits(a.bits);
            double(match f {
                FloatFunction::Sqrt => a.sqrt(),
                FloatFunction::Sin => a.sin(),
                FloatFunction::Cos => a.cos(),
                FloatFunction::Tan => a.tan(),
                FloatFunction::Atan => a.atan(),
                FloatFunction::Exp => a.exp(),
                FloatFunction::Ln => a.ln(),
            })
        }
        FloatRequest::Narrow(a) => single(f64::from_bits(a.bits) as f32),
        FloatRequest::DivideSingle(a, b) => single(f32::from_bits(a.bits) / f32::from_bits(b.bits)),
        FloatRequest::Parse(s) => match s.parse::<f64>() {
            Ok(v) => double(v),
            Err(_) => FloatReply { ok: false, bits: 0, text: String::new() },
        },
        FloatRequest::Format(a) => text(f64::from_bits(a.bits).to_string()),
        FloatRequest::FormatSingle(a) => text(f32::from_bits(a.bits).to_string()),
    }
}

fn double(v: f64) -> Value {
    Value::Double(Double::from_bits(v.to_bits()))
}

fn single(v: f32) -> Value {
    Value::Single(Single::from_bits(v.to_bits()))
}

fn text(s: &str) -> Value {
    Value::String(s.to_string())
}

fn number(d: Double) -> f64 {
    f64::from_bits(d.to_bits())
}

#[test]
fn test_integer_value() {
    let unit = FloatUnit::new(native);
    let val = Value::Integer(42);
    assert_eq!(val.as_integer().unwrap(), 42);
    assert_eq!(number(val.as_double(&unit).unwrap()), 42.0);
    assert_eq!(val.as_string(&unit), "42");
    assert!(val.is_numeric());
    assert!(!val.is_string());
}

#[test]
fn test_string_value() {
    let unit = FloatUnit::new(native);
    let val = Value::String("Hello".to_string());
    assert_eq!(val.as_string(&unit), "Hello");
    assert!(!val.is_numeric());
    assert!(val.is_string());
}

#[test]
fn test_value_display() {
    let unit = FloatUnit::new(native);
    let val = Value::Integer(123);
    assert_eq!(val.to_string(&unit), "123");
}

#[test]
fn test_nil_value() {
    let unit = FloatUnit::new(native);
    let val = Value::Nil;
    assert_eq!(val.as_integer().unwrap(), 0);
    assert_eq!(number(val.as_double(&unit).unwrap()), 0.0);
    assert_eq!(val.as_string(&unit), "");
}

#[test]
fn floats_truncate_toward_zero() {
    assert_eq!(double(3.99).as_integer().unwrap(), 3);
    assert_eq!(double(-3.99).as_integer().unwrap(), -3);
    assert_eq!(double(0.5).as_integer().unwrap(), 0);
    assert_eq!(double(1e300).as_integer().unwrap(), i32::MAX);
    assert_eq!(double(-1e300).as_integer().unwrap(), i32::MIN);
    assert_eq!(double(f64::NAN).as_integer().unwrap(), 0);
    assert_eq!(single(2.75).as_integer().unwrap(), 2);
    assert_eq!(single(-2.75).as_integer().unwrap(), -2);
}

#[test]
fn strings_parse_as_integers_or_fail() {
    assert_eq!(text("42").as_integer().unwrap(), 42);
    assert_eq!(text("-42").as_integer().unwrap(), -42);
    assert_eq!(text("+7").as_integer().unwrap(), 7);
    assert_eq!(text("007").as_integer().unwrap(), 7);
    assert_eq!(text("2147483647").as_integer().unwrap(), i32::MAX);
    assert_eq!(text("-2147483648").as_integer().unwrap(), i32::MIN);
    for bad in ["", "-", "+", " 1", "1 ", "1.5", "abc", "2147483648", "-2147483649", "1e3", "--1", "99999999999999999999"] {
        assert_eq!(
            text(bad).as_integer().unwrap_err(),
            Error::TypeError(format!("Cannot convert '{}' to integer", bad)),
            "{bad:?}"
        );
    }
}

#[test]
fn integer_parsing_agrees_with_std() {
    let samples = [
        "0", "-0", "+0", "1", "12", "123456789", "2147483646", "2147483647", "2147483648",
        "-2147483647", "-2147483648", "-2147483649", "000000000000000000001", "4294967296",
        "a", "1a", "a1", "", "+", "-", "+-1", "١٢٣", "1_000", "0x10",
    ];
    for s in samples {
        assert_eq!(text(s).as_integer().ok(), s.parse::<i32>().ok(), "{s:?}");
    }
}

#[test]
fn values_widen_to_doubles() {
    let unit = FloatUnit::new(native);
    assert_eq!(number(Value::Integer(-7).as_double(&unit).unwrap()), -7.0);
    assert_eq!(number(single(1.5).as_double(&unit).unwrap()), 1.5);
    assert_eq!(number(double(2.25).as_double(&unit).unwrap()), 2.25);
    assert_eq!(number(text("3.5").as_double(&unit).unwrap()), 3.5);
    assert_eq!(number(text("1e3").as_double(&unit).unwrap()), 1000.0);
    assert_eq!(
        text("abc").as_double(&unit).unwrap_err(),
        Error::TypeError("Cannot convert 'abc' to double".to_string())
    );
}

#[test]
fn text_of_each_variant() {
    let unit = FloatUnit::new(native);
    assert_eq!(Value::Integer(-12).as_string(&unit), "-12");
    assert_eq!(Value::Integer(i32::MIN).as_string(&unit), "-2147483648");
    assert_eq!(Value::Integer(0).as_string(&unit), "0");
    assert_eq!(double(5.0).as_string(&unit), "5");
    assert_eq!(double(2.5).as_string(&unit), "2.5");
    assert_eq!(single(0.1).as_string(&unit), "0.1");
    assert_eq!(text("x y").as_string(&unit), "x y");
    assert_eq!(Value::Nil.as_string(&unit), "");
}

#[test]
fn kinds_partition_the_values() {
    for v in [Value::Integer(1), single(1.0), double(1.0)] {
        assert!(v.is_numeric() && !v.is_string());
    }
    assert!(text("").is_string() && !text("").is_numeric());
    assert!(Value::Nil.is_numeric() && !Value::Nil.is_string());
}

#[test]
fn truth_of_values() {
    assert!(Value::Integer(-1).is_true());
    assert!(!Value::Integer(0).is_true());
    assert!(double(0.1).is_true());
    assert!(!double(0.0).is_true());
    assert!(!double(-0.0).is_true());
    assert!(double(f64::NAN).is_true());
    assert!(single(1.0).is_true());
    assert!(!single(-0.0).is_true());
    assert!(text("a").is_true());
    assert!(!text("").is_true());
    assert!(!Value::Nil.is_true());
}

#[test]
fn only_strings_give_their_string() {
    assert_eq!(text("abc").as_string_result().unwrap(), "abc");
    assert_eq!(
        Value::Integer(1).as_string_result().unwrap_err(),
        Error::TypeError("Expected string value".to_string())
    );
    assert!(Value::Nil.as_string_result().is_err());
}

#[test]
fn equality_of_values() {
    assert_eq!(Value::Integer(1), Value::Integer(1));
    assert_ne!(Value::Integer(1), Value::Integer(2));
    assert_ne!(Value::Integer(1), double(1.0));
    assert_eq!(double(0.0), double(-0.0));
    assert_ne!(double(f64::NAN), double(f64::NAN));
    assert_eq!(text("a"), text("a"));
    assert_ne!(text("a"), text("b"));
    assert_eq!(Value::Nil, Value::Nil);
    assert_eq!(text("a").clone(), text("a"));
}
