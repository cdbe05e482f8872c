use rust_gwbasic::functions::{
    abs_fn, asc_fn, atn_fn, cdbl_fn, chr_fn, cint_fn, cos_fn, csng_fn, csrlin_fn, cvd_fn, cvi_fn,
    environ_fn, input_fn,
    cvs_fn, date_fn, eof_fn, erdev_fn, erdev_string_fn, erl_fn, err_fn, exp_fn, fileattr_fn, fix_fn,
    fre_fn, hex_fn, inkey_fn, inp_fn, instr_fn, int_fn, ioctl_fn, ioctl_string_fn, lcase_fn, left_fn,
    len_fn, loc_fn, lof_fn, log_fn, mid_fn, mkd_fn, mki_fn, mks_fn, oct_fn, peek_fn, point_fn, pos_fn,
    right_fn, rnd_fn, screen_fn, sgn_fn, sin_fn, space_fn, sqr_fn, stick_fn, str_fn, strig_fn,
    string_fn, tan_fn, time_fn, timer_fn, ucase_fn, usr_fn, val_fn, varptr_fn,
};
use rust_gwbasic::numeric::{Double, Single};
use rust_gwbasic::unit::{FloatFunction, FloatOp, FloatReply, FloatRequest, FloatUnit};
use rust_gwbasic::{Error, Value};

fn native(req: FloatRequest) -> FloatReply {
    fn double(v: f64) -> FloatReply {
        FloatReply { ok: true, bits: v.to_bits(), text: String::new() }
    }
    fn single(v: f32) -> FloatReply {
        FloatReply { ok: true, bits: v.to_bits() as u64, text: String::new() }
    }
    fn text(s: String) -> FloatReply {
        FloatReply { ok: true, bits: 0, text: s }
    }
    match req {
        FloatRequest::Binary(op, a, b) => {
            let (a, b) = (f64::from_bits(a.bits), f64::from_bits(b.bits));
            double(match op {
                FloatOp::Add => a + b,
                FloatOp::Subtract => a - b,
                FloatOp::Multiply => a * b,
                FloatOp::Divide => a / b,
                FloatOp::Power => a.powf(b),
            })
        }
        FloatRequest::Unary(f, a) => {
            let a = f64::from_bits(a.bits);
            double(match f {
                FloatFunction::Sqrt => a.sqrt(),
                FloatFunction::Sin => a.sin(),
                FloatFunction::Cos => a.cos(),
                FloatFunction::Tan => a.tan(),
                FloatFunction::Atan => a.atan(),
                FloatFunction::Exp => a.exp(),
                FloatFunction::Ln => a.ln(),
            })
        }
        FloatRequest::Narrow(a) => single(f64::from_bits(a.bits) as f32),
        FloatRequest::DivideSingle(a, b) => single(f32::from_bits(a.bits) / f32::from_bits(b.bits)),
        FloatRequest::Parse(s) => match s.parse::<f64>() {
            Ok(v) => double(v),
            Err(_) => FloatReply { ok: false, bits: 0, text: String::new() },
        },
        FloatRequest::Format(a) => text(f64::from_bits(a.bits).to_string()),
        FloatRequest::FormatSingle(a) => text(f32::from_bits(a.bits).to_string()),
    }
}

fn double(v: f64) -> Value {
    Value::Double(Double::from_bits(v.to_bits()))
}

fn text(s: &str) -> Value {
    Value::String(s.to_string())
}

fn number(v: &Value) -> f64 {
    match v {
        Value::Double(d) => f64::from_bits(d.to_bits()),
        Value::Single(s) => f32::from_bits(s.to_bits()) as f64,
        Value::Integer(i) => *i as f64,
        other => panic!("not a number: {:?}", other),
    }
}

fn runtime(msg: &str) -> Error {
    Error::RuntimeError(msg.to_string())
}

#[test]
fn test_math_functions() {
    let unit = FloatUnit::new(native);
    assert_eq!(abs_fn(Value::Integer(-5), &unit).unwrap().as_integer().unwrap(), 5);
    assert_eq!(int_fn(double(3.7), &unit).unwrap().as_integer().unwrap(), 3);
    let root = sqr_fn(Value::Integer(16), &unit).unwrap().as_double(&unit).unwrap();
    assert!((f64::from_bits(root.to_bits()) - 4.0).abs() < 0.001);
}

#[test]
fn test_string_functions() {
    let unit = FloatUnit::new(native);
    assert_eq!(len_fn(Value::String("Hello".to_string()), &unit).unwrap().as_integer().unwrap(), 5);
    assert_eq!(asc_fn(Value::String("A".to_string()), &unit).unwrap().as_integer().unwrap(), 65);
    assert_eq!(chr_fn(Value::Integer(65)).unwrap().as_string(&unit), "A");
}

#[test]
fn test_left_right_mid() {
    let unit = FloatUnit::new(native);
    let s = Value::String("HELLO".to_string());
    assert_eq!(left_fn(s.clone(), Value::Integer(2), &unit).unwrap().as_string(&unit), "HE");
    assert_eq!(right_fn(s.clone(), Value::Integer(2), &unit).unwrap().as_string(&unit), "LO");
    assert_eq!(
        mid_fn(s, Value::Integer(2), Some(Value::Integer(3)), &unit).unwrap().as_string(&unit),
        "ELL"
    );
}

#[test]
fn test_case_functions() {
    let unit = FloatUnit::new(native);
    assert_eq!(lcase_fn(Value::String("HELLO".to_string()), &unit).unwrap().as_string(&unit), "hello");
    assert_eq!(ucase_fn(Value::String("hello".to_string()), &unit).unwrap().as_string(&unit), "HELLO");
}

#[test]
fn test_usr_function() {
    let unit = FloatUnit::new(native);
    // Test USR without index
    assert_eq!(usr_fn(None, Value::Integer(100), &unit).unwrap().as_integer().unwrap(), 0);
    // Test USR with index
    assert_eq!(
        usr_fn(Some(Value::Integer(5)), double(3.14), &unit).unwrap().as_integer().unwrap(),
        0
    );
    assert!(usr_fn(None, text("x"), &unit).is_err());
}

#[test]
fn rounding_functions() {
    let unit = FloatUnit::new(native);
    for (v, floor, fix, cint) in [
        (3.7, 3, 3, 4),
        (-3.7, -4, -3, -4),
        (2.5, 2, 2, 3),
        (-2.5, -3, -2, -3),
        (0.49, 0, 0, 0),
        (-0.5, -1, 0, -1),
        (7.0, 7, 7, 7),
    ] {
        assert_eq!(int_fn(double(v), &unit).unwrap(), Value::Integer(floor), "INT {v}");
        assert_eq!(fix_fn(double(v), &unit).unwrap(), Value::Integer(fix), "FIX {v}");
        assert_eq!(cint_fn(double(v), &unit).unwrap(), Value::Integer(cint), "CINT {v}");
    }
    assert_eq!(int_fn(text("2.9"), &unit).unwrap(), Value::Integer(2));
    assert!(int_fn(text("x"), &unit).is_err());
}

#[test]
fn conversions_between_precisions() {
    let unit = FloatUnit::new(native);
    match csng_fn(double(0.1), &unit).unwrap() {
        Value::Single(s) => assert_eq!(s.to_bits(), 0.1f32.to_bits()),
        other => panic!("{:?}", other),
    }
    assert_eq!(cdbl_fn(Value::Integer(3), &unit).unwrap(), double(3.0));
    assert_eq!(abs_fn(double(-0.0), &unit).unwrap(), double(0.0));
    assert_eq!(number(&abs_fn(double(-2.5), &unit).unwrap()), 2.5);
}

#[test]
fn functions_of_the_float_unit() {
    let unit = FloatUnit::new(native);
    assert_eq!(number(&sin_fn(double(0.5), &unit).unwrap()), 0.5f64.sin());
    assert_eq!(number(&cos_fn(double(0.5), &unit).unwrap()), 0.5f64.cos());
    assert_eq!(number(&tan_fn(double(0.5), &unit).unwrap()), 0.5f64.tan());
    assert_eq!(number(&atn_fn(double(0.5), &unit).unwrap()), 0.5f64.atan());
    assert_eq!(number(&exp_fn(double(0.5), &unit).unwrap()), 0.5f64.exp());
    assert_eq!(number(&log_fn(double(0.5), &unit).unwrap()), 0.5f64.ln());
    assert_eq!(number(&sqr_fn(double(2.0), &unit).unwrap()), 2f64.sqrt());
    assert_eq!(number(&sqr_fn(double(-0.0), &unit).unwrap()), 0.0);
}

#[test]
fn domains_are_checked() {
    let unit = FloatUnit::new(native);
    assert_eq!(
        sqr_fn(double(-1.0), &unit).unwrap_err(),
        runtime("Square root of negative number")
    );
    assert_eq!(
        log_fn(double(0.0), &unit).unwrap_err(),
        runtime("Logarithm of non-positive number")
    );
    assert_eq!(
        log_fn(double(-2.0), &unit).unwrap_err(),
        runtime("Logarithm of non-positive number")
    );
}

#[test]
fn sign_function() {
    let unit = FloatUnit::new(native);
    assert_eq!(sgn_fn(double(2.5), &unit).unwrap(), Value::Integer(1));
    assert_eq!(sgn_fn(double(-2.5), &unit).unwrap(), Value::Integer(-1));
    assert_eq!(sgn_fn(double(0.0), &unit).unwrap(), Value::Integer(0));
    assert_eq!(sgn_fn(double(-0.0), &unit).unwrap(), Value::Integer(0));
    assert_eq!(sgn_fn(double(f64::NAN), &unit).unwrap(), Value::Integer(0));
    assert_eq!(sgn_fn(Value::Integer(-9), &unit).unwrap(), Value::Integer(-1));
}

#[test]
fn length_counts_bytes() {
    let unit = FloatUnit::new(native);
    assert_eq!(len_fn(text(""), &unit).unwrap(), Value::Integer(0));
    assert_eq!(len_fn(text("é"), &unit).unwrap(), Value::Integer(2));
    assert_eq!(len_fn(Value::Integer(-12), &unit).unwrap(), Value::Integer(3));
    assert_eq!(len_fn(double(2.5), &unit).unwrap(), Value::Integer(3));
}

#[test]
fn asc_and_chr() {
    let unit = FloatUnit::new(native);
    assert_eq!(asc_fn(text("é!"), &unit).unwrap(), Value::Integer(233));
    assert_eq!(asc_fn(text(""), &unit).unwrap_err(), runtime("ASC on empty string"));
    assert_eq!(chr_fn(Value::Integer(0)).unwrap(), text("\0"));
    assert_eq!(chr_fn(Value::Integer(233)).unwrap(), text("é"));
    assert_eq!(chr_fn(Value::Integer(255)).unwrap(), text("ÿ"));
    assert_eq!(chr_fn(Value::Integer(256)).unwrap_err(), runtime("CHR$ code out of range: 256"));
    assert_eq!(chr_fn(Value::Integer(-1)).unwrap_err(), runtime("CHR$ code out of range: -1"));
}

#[test]
fn str_and_val() {
    let unit = FloatUnit::new(native);
    assert_eq!(str_fn(Value::Integer(42), &unit).unwrap(), text("42"));
    assert_eq!(str_fn(double(1.5), &unit).unwrap(), text("1.5"));
    assert_eq!(val_fn(text("  42  "), &unit).unwrap(), Value::Integer(42));
    assert_eq!(val_fn(text("\t-7\n"), &unit).unwrap(), Value::Integer(-7));
    assert_eq!(val_fn(text(" 2.5 "), &unit).unwrap(), double(2.5));
    assert_eq!(val_fn(text("abc"), &unit).unwrap(), Value::Integer(0));
    assert_eq!(val_fn(text(""), &unit).unwrap(), Value::Integer(0));
    assert_eq!(val_fn(text("\u{a0}5\u{3000}"), &unit).unwrap(), Value::Integer(5));
    assert_eq!(val_fn(text("4 2"), &unit).unwrap(), Value::Integer(0));
}

#[test]
fn left_right_mid_at_the_edges() {
    let unit = FloatUnit::new(native);
    let s = text("HELLO");
    assert_eq!(left_fn(s.clone(), Value::Integer(0), &unit).unwrap(), text(""));
    assert_eq!(left_fn(s.clone(), Value::Integer(9), &unit).unwrap(), text("HELLO"));
    assert_eq!(left_fn(s.clone(), Value::Integer(-1), &unit).unwrap(), text("HELLO"));
    assert_eq!(right_fn(s.clone(), Value::Integer(0), &unit).unwrap(), text(""));
    assert_eq!(right_fn(s.clone(), Value::Integer(9), &unit).unwrap(), text("HELLO"));
    assert_eq!(right_fn(s.clone(), Value::Integer(-1), &unit).unwrap(), text("HELLO"));
    assert_eq!(mid_fn(s.clone(), Value::Integer(2), None, &unit).unwrap(), text("ELLO"));
    assert_eq!(mid_fn(s.clone(), Value::Integer(0), None, &unit).unwrap(), text("HELLO"));
    assert_eq!(mid_fn(s.clone(), Value::Integer(i32::MIN), None, &unit).unwrap(), text("HELLO"));
    assert_eq!(mid_fn(s.clone(), Value::Integer(6), None, &unit).unwrap(), text(""));
    assert_eq!(
        mid_fn(s.clone(), Value::Integer(6), Some(text("x")), &unit).unwrap(),
        text("")
    );
    assert_eq!(
        mid_fn(s.clone(), Value::Integer(4), Some(Value::Integer(9)), &unit).unwrap(),
        text("LO")
    );
    assert_eq!(
        mid_fn(s.clone(), Value::Integer(4), Some(Value::Integer(-1)), &unit).unwrap(),
        text("LO")
    );
    assert!(mid_fn(s.clone(), Value::Integer(1), Some(text("x")), &unit).is_err());
    assert!(left_fn(s.clone(), text("x"), &unit).is_err());
    assert_eq!(left_fn(text("héllo"), Value::Integer(2), &unit).unwrap(), text("hé"));
}

#[test]
fn space_and_string() {
    let unit = FloatUnit::new(native);
    assert_eq!(space_fn(Value::Integer(3)).unwrap(), text("   "));
    assert_eq!(space_fn(Value::Integer(0)).unwrap(), text(""));
    assert_eq!(
        space_fn(Value::Integer(-1)).unwrap_err(),
        runtime("SPACE$ count cannot be negative")
    );
    assert_eq!(string_fn(Value::Integer(3), text("ab"), &unit).unwrap(), text("aaa"));
    assert_eq!(string_fn(Value::Integer(2), Value::Integer(65), &unit).unwrap(), text("AA"));
    assert_eq!(
        string_fn(Value::Integer(-1), text("a"), &unit).unwrap_err(),
        runtime("STRING$ count cannot be negative")
    );
    assert_eq!(
        string_fn(Value::Integer(1), text(""), &unit).unwrap_err(),
        runtime("STRING$ character cannot be empty")
    );
    assert_eq!(
        string_fn(Value::Integer(1), Value::Integer(256), &unit).unwrap_err(),
        runtime("STRING$ code out of range")
    );
}

#[test]
fn instr_finds_the_first_place() {
    let unit = FloatUnit::new(native);
    let find = |start: Option<i32>, hay: &str, need: &str| {
        instr_fn(start.map(Value::Integer), text(hay), text(need), &unit).unwrap()
    };
    assert_eq!(find(None, "HELLO WORLD", "O"), Value::Integer(5));
    assert_eq!(find(Some(6), "HELLO WORLD", "O"), Value::Integer(8));
    assert_eq!(find(Some(5), "HELLO WORLD", "O"), Value::Integer(5));
    assert_eq!(find(None, "HELLO", "LO"), Value::Integer(4));
    assert_eq!(find(None, "HELLO", "X"), Value::Integer(0));
    assert_eq!(find(None, "HELLO", "HELLO!"), Value::Integer(0));
    assert_eq!(find(Some(9), "HELLO", "O"), Value::Integer(0));
    assert_eq!(find(Some(0), "HELLO", "H"), Value::Integer(1));
    assert_eq!(find(Some(-3), "HELLO", "H"), Value::Integer(1));
    assert_eq!(find(Some(2), "HELLO", ""), Value::Integer(2));
    assert_eq!(find(None, "", ""), Value::Integer(0));
}

#[test]
fn hex_and_oct() {
    assert_eq!(hex_fn(Value::Integer(255)).unwrap(), text("FF"));
    assert_eq!(hex_fn(Value::Integer(0)).unwrap(), text("0"));
    assert_eq!(hex_fn(Value::Integer(-1)).unwrap(), text("FFFFFFFF"));
    assert_eq!(hex_fn(Value::Integer(i32::MIN)).unwrap(), text("80000000"));
    assert_eq!(hex_fn(Value::Integer(0x1A2B)).unwrap(), text("1A2B"));
    assert_eq!(oct_fn(Value::Integer(8)).unwrap(), text("10"));
    assert_eq!(oct_fn(Value::Integer(-1)).unwrap(), text("37777777777"));
    for i in [1, 7, 100, 65535, -2, 123456789, i32::MAX] {
        assert_eq!(hex_fn(Value::Integer(i)).unwrap(), text(&format!("{:X}", i)));
        assert_eq!(oct_fn(Value::Integer(i)).unwrap(), text(&format!("{:o}", i)));
    }
}

#[test]
fn random_numbers_follow_the_generator() {
    let unit = FloatUnit::new(native);
    let mut state: u64 = 12345;
    let mut model: u64 = 12345;
    for _ in 0..20 {
        model = (model.wrapping_mul(1103515245).wrapping_add(12345)) & 0x7fffffff;
        let want = (model % 1000000) as f32 / 1000000.0;
        match rnd_fn(None, &mut state, &unit).unwrap() {
            Value::Single(s) => assert_eq!(s.to_bits(), want.to_bits()),
            other => panic!("{:?}", other),
        }
        assert_eq!(state, model);
    }
    // Zero repeats from the state without drawing.
    let before = state;
    match rnd_fn(Some(Value::Integer(0)), &mut state, &unit).unwrap() {
        Value::Single(s) => assert_eq!(s.to_bits(), ((before % 1000) as f32 / 1000.0).to_bits()),
        other => panic!("{:?}", other),
    }
    assert_eq!(state, before);
    // A negative number sets the state, then draws.
    rnd_fn(Some(double(-2.5)), &mut state, &unit).unwrap();
    assert_eq!(state, (2500000u64 * 1103515245 + 12345) & 0x7fffffff);
    // A positive number draws.
    let before = state;
    rnd_fn(Some(Value::Integer(1)), &mut state, &unit).unwrap();
    assert_eq!(state, (before.wrapping_mul(1103515245).wrapping_add(12345)) & 0x7fffffff);
    // A state that makes the product wrap.
    let mut big: u64 = u64::MAX;
    rnd_fn(None, &mut big, &unit).unwrap();
    assert_eq!(big, (u64::MAX.wrapping_mul(1103515245).wrapping_add(12345)) & 0x7fffffff);
    // A failure leaves the state.
    let before = state;
    assert!(rnd_fn(Some(text("x")), &mut state, &unit).is_err());
    assert_eq!(state, before);
}

#[test]
fn clock_functions() {
    let now: u64 = 1_700_000_000;
    match timer_fn(now).unwrap() {
        Value::Single(s) => assert_eq!(s.to_bits(), ((now % 86400) as f32).to_bits()),
        other => panic!("{:?}", other),
    }
    let days = now / 86400;
    assert_eq!(
        date_fn(now).unwrap(),
        text(&format!(
            "{:02}-{:02}-{:04}",
            (days % 365) / 30 + 1,
            (days % 365) % 30 + 1,
            1970 + days / 365
        ))
    );
    let seconds = now % 86400;
    assert_eq!(
        time_fn(now).unwrap(),
        text(&format!("{:02}:{:02}:{:02}", seconds / 3600, (seconds % 3600) / 60, seconds % 60))
    );
    assert_eq!(date_fn(0).unwrap(), text("01-01-1970"));
    assert_eq!(time_fn(3661).unwrap(), text("01:01:01"));
    assert_eq!(date_fn(u64::MAX).unwrap(), text(&format!(
        "{:02}-{:02}-{:04}",
        ((u64::MAX / 86400) % 365) / 30 + 1,
        ((u64::MAX / 86400) % 365) % 30 + 1,
        1970 + (u64::MAX / 86400) / 365
    )));
}

#[test]
fn numbers_stored_in_strings() {
    let unit = FloatUnit::new(native);
    assert_eq!(cvi_fn(text("\u{1}\u{2}"), &unit).unwrap(), Value::Integer(0x0201));
    assert_eq!(cvi_fn(text("A"), &unit).unwrap_err(), runtime("CVI requires 2-byte string"));
    assert_eq!(cvi_fn(text("é"), &unit).unwrap(), Value::Integer(i16::from_le_bytes([0xc3, 0xa9]) as i32));
    assert_eq!(cvs_fn(text("abc"), &unit).unwrap_err(), runtime("CVS requires 4-byte string"));
    match cvs_fn(text("abcd"), &unit).unwrap() {
        Value::Single(s) => assert_eq!(s.to_bits(), u32::from_le_bytes(*b"abcd")),
        other => panic!("{:?}", other),
    }
    assert_eq!(cvd_fn(text("abcdefg"), &unit).unwrap_err(), runtime("CVD requires 8-byte string"));
    match cvd_fn(text("abcdefgh"), &unit).unwrap() {
        Value::Double(d) => assert_eq!(d.to_bits(), u64::from_le_bytes(*b"abcdefgh")),
        other => panic!("{:?}", other),
    }
    assert_eq!(mki_fn(Value::Integer(0x4142)).unwrap(), text("BA"));
    assert_eq!(
        mki_fn(Value::Integer(-1)).unwrap(),
        text(&String::from_utf8_lossy(&(-1i16).to_le_bytes()))
    );
    assert_eq!(
        mks_fn(double(1.5), &unit).unwrap(),
        text(&String::from_utf8_lossy(&1.5f32.to_le_bytes()))
    );
    assert_eq!(
        mkd_fn(double(1.5), &unit).unwrap(),
        text(&String::from_utf8_lossy(&1.5f64.to_le_bytes()))
    );
    assert_eq!(cvi_fn(mki_fn(Value::Integer(0x1234)).unwrap(), &unit).unwrap(), Value::Integer(0x1234));
}

#[test]
fn devices_that_are_not_there() {
    assert_eq!(peek_fn(Value::Integer(1)).unwrap(), Value::Integer(0));
    assert_eq!(inp_fn(text("x")).unwrap(), Value::Integer(0));
    assert_eq!(fre_fn(Value::Nil).unwrap(), Value::Integer(65000));
    assert_eq!(varptr_fn(Value::Nil).unwrap(), Value::Integer(0));
    assert_eq!(inkey_fn().unwrap(), text(""));
    assert_eq!(pos_fn(Value::Nil).unwrap(), Value::Integer(1));
    assert_eq!(csrlin_fn().unwrap(), Value::Integer(1));
    assert_eq!(eof_fn(Value::Integer(1)).unwrap(), Value::Integer(0));
    assert_eq!(loc_fn(Value::Integer(1)).unwrap(), Value::Integer(0));
    assert_eq!(lof_fn(Value::Integer(1)).unwrap(), Value::Integer(0));
    assert!(eof_fn(text("x")).is_err());
    assert_eq!(point_fn(Value::Integer(1), Value::Integer(2)).unwrap(), Value::Integer(0));
    assert!(point_fn(Value::Integer(1), text("y")).is_err());
    assert_eq!(screen_fn(Value::Integer(1), Value::Integer(2), None).unwrap(), Value::Integer(32));
    assert_eq!(
        screen_fn(Value::Integer(1), Value::Integer(2), Some(Value::Integer(1))).unwrap(),
        Value::Integer(0)
    );
    assert_eq!(erl_fn().unwrap(), Value::Integer(0));
    assert_eq!(err_fn().unwrap(), Value::Integer(0));
    assert_eq!(erdev_fn().unwrap(), Value::Integer(0));
    assert_eq!(erdev_string_fn().unwrap(), text(""));
    assert_eq!(ioctl_fn(Value::Integer(1)).unwrap(), text(""));
    assert_eq!(ioctl_string_fn(Value::Integer(1)).unwrap(), text(""));
    assert_eq!(stick_fn(Value::Integer(0)).unwrap(), Value::Integer(0));
    assert_eq!(strig_fn(Value::Integer(0)).unwrap(), Value::Integer(0));
    assert_eq!(fileattr_fn(Value::Integer(1), Value::Integer(1)).unwrap(), Value::Integer(0));
    assert!(fileattr_fn(text("a"), Value::Integer(1)).is_err());
}

#[test]
fn case_functions_follow_unicode() {
    let unit = FloatUnit::new(native);
    assert_eq!(ucase_fn(text("straße"), &unit).unwrap(), text("STRASSE"));
    assert_eq!(lcase_fn(text("ÀB1"), &unit).unwrap(), text("àb1"));
    assert_eq!(ucase_fn(Value::Integer(12), &unit).unwrap(), text("12"));
}

#[test]
fn environment_values_come_from_the_host() {
    assert_eq!(environ_fn(text("HOME"), Some("/root".to_string())).unwrap(), text("/root"));
    assert_eq!(environ_fn(text("NOPE"), None).unwrap(), text(""));
    assert_eq!(environ_fn(Value::Integer(1), Some("x".to_string())).unwrap(), text(""));
    assert_eq!(environ_fn(Value::Nil, None).unwrap(), text(""));
}

#[test]
fn input_characters_come_from_the_host() {
    let typed = b"ab\xffc".to_vec();
    assert_eq!(input_fn(Value::Integer(4), None, &typed).unwrap(), text("ab\u{fffd}c"));
    assert_eq!(input_fn(Value::Integer(3), Some(Value::Integer(1)), &typed).unwrap(), text("   "));
    assert_eq!(input_fn(Value::Integer(0), Some(Value::Integer(1)), &typed).unwrap(), text(""));
    assert!(input_fn(text("x"), None, &typed).is_err());
}
