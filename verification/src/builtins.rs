//! The registry of built-in functions: their names, how many arguments each
//! takes, and the call by name.

use vstd::prelude::*;
use vstd::string::*;
use crate::error::{Error, ErrorView};
use crate::functions::{
    abs_fn,
    abs_of,
    asc_fn,
    asc_of,
    atn_fn,
    cdbl_fn,
    cdbl_of,
    chr_fn,
    chr_of,
    cint_fn,
    cint_of,
    cos_fn,
    csng_fn,
    csng_of,
    exp_fn,
    fix_fn,
    fix_of,
    function_of,
    hex_fn,
    hex_of,
    inp_fn,
    instr_fn,
    instr_of,
    int_fn,
    int_of,
    integer_value,
    left_fn,
    left_of,
    len_fn,
    len_of,
    log_fn,
    log_of,
    mid_fn,
    mid_of,
    oct_fn,
    oct_of,
    peek_fn,
    right_fn,
    right_of,
    rnd_fn,
    rnd_of,
    sgn_fn,
    sgn_of,
    sin_fn,
    space_fn,
    space_of,
    sqr_fn,
    sqr_of,
    str_fn,
    str_of,
    string_fn,
    string_of_char,
    tan_fn,
    timer_fn,
    timer_of,
    uppercase_string,
    uppercased,
    val_fn,
    val_of,
};
use crate::lexer::is_word;
use crate::text::{concat3, decimal_digits, push_decimal_digits};
use crate::unit::{FloatFunction, FloatReply, FloatRequest, FloatUnit, Oracle};
use crate::value::{value_result_view, Value, ValueView};

verus! {

/// A built-in function.
#[derive(Clone, Copy, Debug, PartialEq, Eq, Structural)]
pub enum Builtin {
    Abs,
    Int,
    Fix,
    Cint,
    Csng,
    Cdbl,
    Sqr,
    Sin,
    Cos,
    Tan,
    Atn,
    Exp,
    Log,
    Sgn,
    Len,
    Asc,
    Chr,
    Str,
    Val,
    Left,
    Right,
    Mid,
    Space,
    Repeat,
    Instr,
    Hex,
    Oct,
    Rnd,
    Timer,
    Peek,
    Inp,
}

/// The function that an upper-case name stands for. The names that end in
/// `$` stand for their function without it, too.
pub open spec fn builtin_named(word: Seq<char>) -> Option<Builtin> {
    if word == "ABS"@ {
        Some(Builtin::Abs)
    } else if word == "INT"@ {
        Some(Builtin::Int)
    } else if word == "FIX"@ {
        Some(Builtin::Fix)
    } else if word == "CINT"@ {
        Some(Builtin::Cint)
    } else if word == "CSNG"@ {
        Some(Builtin::Csng)
    } else if word == "CDBL"@ {
        Some(Builtin::Cdbl)
    } else if word == "SQR"@ {
        Some(Builtin::Sqr)
    } else if word == "SIN"@ {
        Some(Builtin::Sin)
    } else if word == "COS"@ {
        Some(Builtin::Cos)
    } else if word == "TAN"@ {
        Some(Builtin::Tan)
    } else if word == "ATN"@ {
        Some(Builtin::Atn)
    } else if word == "EXP"@ {
        Some(Builtin::Exp)
    } else if word == "LOG"@ {
        Some(Builtin::Log)
    } else if word == "SGN"@ {
        Some(Builtin::Sgn)
    } else if word == "LEN"@ {
        Some(Builtin::Len)
    } else if word == "ASC"@ {
        Some(Builtin::Asc)
    } else if word == "CHR$"@ || word == "CHR"@ {
        Some(Builtin::Chr)
    } else if word == "STR$"@ || word == "STR"@ {
        Some(Builtin::Str)
    } else if word == "VAL"@ {
        Some(Builtin::Val)
    } else if word == "LEFT$"@ || word == "LEFT"@ {
        Some(Builtin::Left)
    } else if word == "RIGHT$"@ || word == "RIGHT"@ {
        Some(Builtin::Right)
    } else if word == "MID$"@ || word == "MID"@ {
        Some(Builtin::Mid)
    } else if word == "SPACE$"@ || word == "SPACE"@ {
        Some(Builtin::Space)
    } else if word == "STRING$"@ || word == "STRING"@ {
        Some(Builtin::Repeat)
    } else if word == "INSTR"@ {
        Some(Builtin::Instr)
    } else if word == "HEX$"@ || word == "HEX"@ {
        Some(Builtin::Hex)
    } else if word == "OCT$"@ || word == "OCT"@ {
        Some(Builtin::Oct)
    } else if word == "RND"@ {
        Some(Builtin::Rnd)
    } else if word == "TIMER"@ {
        Some(Builtin::Timer)
    } else if word == "PEEK"@ {
        Some(Builtin::Peek)
    } else if word == "INP"@ {
        Some(Builtin::Inp)
    } else {
        None
    }
}

impl Builtin {
    /// The name of the function, as messages write it.
    pub open spec fn name(self) -> Seq<char> {
        match self {
            Builtin::Abs => "ABS"@,
            Builtin::Int => "INT"@,
            Builtin::Fix => "FIX"@,
            Builtin::Cint => "CINT"@,
            Builtin::Csng => "CSNG"@,
            Builtin::Cdbl => "CDBL"@,
            Builtin::Sqr => "SQR"@,
            Builtin::Sin => "SIN"@,
            Builtin::Cos => "COS"@,
            Builtin::Tan => "TAN"@,
            Builtin::Atn => "ATN"@,
            Builtin::Exp => "EXP"@,
            Builtin::Log => "LOG"@,
            Builtin::Sgn => "SGN"@,
            Builtin::Len => "LEN"@,
            Builtin::Asc => "ASC"@,
            Builtin::Chr => "CHR$"@,
            Builtin::Str => "STR$"@,
            Builtin::Val => "VAL"@,
            Builtin::Left => "LEFT$"@,
            Builtin::Right => "RIGHT$"@,
            Builtin::Mid => "MID$"@,
            Builtin::Space => "SPACE$"@,
            Builtin::Repeat => "STRING$"@,
            Builtin::Instr => "INSTR"@,
            Builtin::Hex => "HEX$"@,
            Builtin::Oct => "OCT$"@,
            Builtin::Rnd => "RND"@,
            Builtin::Timer => "TIMER"@,
            Builtin::Peek => "PEEK"@,
            Builtin::Inp => "INP"@,
        }
    }

    /// The smallest number of arguments that the function takes.
    pub open spec fn min_arity(self) -> nat {
        match self {
            Builtin::Left => 2,
            Builtin::Right => 2,
            Builtin::Mid => 2,
            Builtin::Repeat => 2,
            Builtin::Instr => 2,
            Builtin::Rnd => 0,
            Builtin::Timer => 0,
            _ => 1,
        }
    }

    /// The largest number of arguments that the function takes.
    pub open spec fn max_arity(self) -> nat {
        match self {
            Builtin::Left => 2,
            Builtin::Right => 2,
            Builtin::Mid => 3,
            Builtin::Repeat => 2,
            Builtin::Instr => 3,
            Builtin::Timer => 0,
            _ => 1,
        }
    }

    /// Whether the function takes `count` arguments.
    pub open spec fn accepts(self, count: nat) -> bool {
        self.min_arity() <= count <= self.max_arity()
    }

    /// The message for a call with a number of arguments that the function
    /// does not take: it names the function and the numbers it takes.
    pub open spec fn arity_message(self) -> Seq<char> {
        if self.min_arity() == self.max_arity() {
            self.name() + " requires "@ + decimal_digits(self.min_arity()) + (if self.min_arity() == 1 {
                " argument"@
            } else {
                " arguments"@
            })
        } else {
            self.name() + " requires "@ + decimal_digits(self.min_arity()) + " or "@ + decimal_digits(
                self.max_arity(),
            ) + " arguments"@
        }
    }

    /// What the function gives for arguments of a number that it takes, and
    /// the state of the random generator behind the call.
    pub open spec fn apply(self, o: Oracle, args: Seq<ValueView>, rng: u64, clock: u64) -> (
        Result<ValueView, ErrorView>,
        u64,
    ) {
        match self {
            Builtin::Rnd => rnd_of(
                o,
                if args.len() == 0 {
                    None
                } else {
                    Some(args[0])
                },
                rng,
            ),
            _ => (self.apply_pure(o, args, clock), rng),
        }
    }

    /// What a function other than `RND` gives.
    pub open spec fn apply_pure(self, o: Oracle, args: Seq<ValueView>, clock: u64) -> Result<
        ValueView,
        ErrorView,
    > {
        match self {
            Builtin::Abs => abs_of(o, args[0]),
            Builtin::Int => int_of(o, args[0]),
            Builtin::Fix => fix_of(o, args[0]),
            Builtin::Cint => cint_of(o, args[0]),
            Builtin::Csng => csng_of(o, args[0]),
            Builtin::Cdbl => cdbl_of(o, args[0]),
            Builtin::Sqr => sqr_of(o, args[0]),
            Builtin::Sin => function_of(o, FloatFunction::Sin, args[0]),
            Builtin::Cos => function_of(o, FloatFunction::Cos, args[0]),
            Builtin::Tan => function_of(o, FloatFunction::Tan, args[0]),
            Builtin::Atn => function_of(o, FloatFunction::Atan, args[0]),
            Builtin::Exp => function_of(o, FloatFunction::Exp, args[0]),
            Builtin::Log => log_of(o, args[0]),
            Builtin::Sgn => sgn_of(o, args[0]),
            Builtin::Len => len_of(o, args[0]),
            Builtin::Asc => asc_of(o, args[0]),
            Builtin::Chr => chr_of(args[0]),
            Builtin::Str => str_of(o, args[0]),
            Builtin::Val => val_of(o, args[0]),
            Builtin::Left => left_of(o, args[0], args[1]),
            Builtin::Right => right_of(o, args[0], args[1]),
            Builtin::Mid => mid_of(
                o,
                args[0],
                args[1],
                if args.len() == 3 {
                    Some(args[2])
                } else {
                    None
                },
            ),
            Builtin::Space => space_of(args[0]),
            Builtin::Repeat => string_of_char(o, args[0], args[1]),
            Builtin::Instr => if args.len() == 3 {
                instr_of(o, Some(args[0]), args[1], args[2])
            } else {
                instr_of(o, None, args[0], args[1])
            },
            Builtin::Hex => hex_of(args[0]),
            Builtin::Oct => oct_of(args[0]),
            Builtin::Rnd => integer_value(0),
            Builtin::Timer => timer_of(clock),
            Builtin::Peek => integer_value(0),
            Builtin::Inp => integer_value(0),
        }
    }

    fn arity(self) -> (r: (usize, usize))
        ensures
            r.0 == self.min_arity(),
            r.1 == self.max_arity(),
    {
        match self {
            Builtin::Left => (2, 2),
            Builtin::Right => (2, 2),
            Builtin::Mid => (2, 3),
            Builtin::Repeat => (2, 2),
            Builtin::Instr => (2, 3),
            Builtin::Rnd => (0, 1),
            Builtin::Timer => (0, 0),
            _ => (1, 1),
        }
    }

    fn name_string(self) -> (r: String)
        ensures
            r@ == self.name(),
    {
        match self {
            Builtin::Abs => String::from_str("ABS"),
            Builtin::Int => String::from_str("INT"),
            Builtin::Fix => String::from_str("FIX"),
            Builtin::Cint => String::from_str("CINT"),
            Builtin::Csng => String::from_str("CSNG"),
            Builtin::Cdbl => String::from_str("CDBL"),
            Builtin::Sqr => String::from_str("SQR"),
            Builtin::Sin => String::from_str("SIN"),
            Builtin::Cos => String::from_str("COS"),
            Builtin::Tan => String::from_str("TAN"),
            Builtin::Atn => String::from_str("ATN"),
            Builtin::Exp => String::from_str("EXP"),
            Builtin::Log => String::from_str("LOG"),
            Builtin::Sgn => String::from_str("SGN"),
            Builtin::Len => String::from_str("LEN"),
            Builtin::Asc => String::from_str("ASC"),
            Builtin::Chr => String::from_str("CHR$"),
            Builtin::Str => String::from_str("STR$"),
            Builtin::Val => String::from_str("VAL"),
            Builtin::Left => String::from_str("LEFT$"),
            Builtin::Right => String::from_str("RIGHT$"),
            Builtin::Mid => String::from_str("MID$"),
            Builtin::Space => String::from_str("SPACE$"),
            Builtin::Repeat => String::from_str("STRING$"),
            Builtin::Instr => String::from_str("INSTR"),
            Builtin::Hex => String::from_str("HEX$"),
            Builtin::Oct => String::from_str("OCT$"),
            Builtin::Rnd => String::from_str("RND"),
            Builtin::Timer => String::from_str("TIMER"),
            Builtin::Peek => String::from_str("PEEK"),
            Builtin::Inp => String::from_str("INP"),
        }
    }

    fn arity_error(self) -> (e: Error)
        ensures
            e@ == ErrorView::RuntimeError(self.arity_message()),
    {
        let (low, high) = self.arity();
        let mut msg = self.name_string();
        msg.append(" requires ");
        push_decimal_digits(&mut msg, low as u64);
        if low == high {
            if low == 1 {
                msg.append(" argument");
            } else {
                msg.append(" arguments");
            }
        } else {
            msg.append(" or ");
            push_decimal_digits(&mut msg, high as u64);
            msg.append(" arguments");
        }
        Error::RuntimeError(msg)
    }
}

/// The views of a list of values.
pub open spec fn value_views(values: Seq<Value>) -> Seq<ValueView> {
    Seq::new(values.len(), |i: int| values[i]@)
}

/// The message of a call of a function that is not there.
pub open spec fn no_function(name: Seq<char>) -> Seq<char> {
    "Function "@ + name + " not defined"@
}

/// A call by name: the name is looked up in upper case, so whatever the
/// case of its letters; the number of arguments is held against what the
/// function takes; and the function is applied.
pub open spec fn call(o: Oracle, name: Seq<char>, args: Seq<ValueView>, rng: u64, clock: u64) -> (
    Result<ValueView, ErrorView>,
    u64,
) {
    match builtin_named(uppercased(name)) {
        None => (Err(ErrorView::UndefinedError(no_function(name))), rng),
        Some(b) => if b.accepts(args.len()) {
            b.apply(o, args, rng, clock)
        } else {
            (Err(ErrorView::RuntimeError(b.arity_message())), rng)
        },
    }
}

/// Looks a function up by its name, whatever the case of its letters.
pub fn lookup(name: &str) -> (r: Option<Builtin>)
    ensures
        r == builtin_named(uppercased(name@)),
{
    let word = uppercase_string(name);
    if is_word(&word, "ABS") {
        Some(Builtin::Abs)
    } else if is_word(&word, "INT") {
        Some(Builtin::Int)
    } else if is_word(&word, "FIX") {
        Some(Builtin::Fix)
    } else if is_word(&word, "CINT") {
        Some(Builtin::Cint)
    } else if is_word(&word, "CSNG") {
        Some(Builtin::Csng)
    } else if is_word(&word, "CDBL") {
        Some(Builtin::Cdbl)
    } else if is_word(&word, "SQR") {
        Some(Builtin::Sqr)
    } else if is_word(&word, "SIN") {
        Some(Builtin::Sin)
    } else if is_word(&word, "COS") {
        Some(Builtin::Cos)
    } else if is_word(&word, "TAN") {
        Some(Builtin::Tan)
    } else if is_word(&word, "ATN") {
        Some(Builtin::Atn)
    } else if is_word(&word, "EXP") {
        Some(Builtin::Exp)
    } else if is_word(&word, "LOG") {
        Some(Builtin::Log)
    } else if is_word(&word, "SGN") {
        Some(Builtin::Sgn)
    } else if is_word(&word, "LEN") {
        Some(Builtin::Len)
    } else if is_word(&word, "ASC") {
        Some(Builtin::Asc)
    } else if is_word(&word, "CHR$") || is_word(&word, "CHR") {
        Some(Builtin::Chr)
    } else if is_word(&word, "STR$") || is_word(&word, "STR") {
        Some(Builtin::Str)
    } else if is_word(&word, "VAL") {
        Some(Builtin::Val)
    } else if is_word(&word, "LEFT$") || is_word(&word, "LEFT") {
        Some(Builtin::Left)
    } else if is_word(&word, "RIGHT$") || is_word(&word, "RIGHT") {
        Some(Builtin::Right)
    } else if is_word(&word, "MID$") || is_word(&word, "MID") {
        Some(Builtin::Mid)
    } else if is_word(&word, "SPACE$") || is_word(&word, "SPACE") {
        Some(Builtin::Space)
    } else if is_word(&word, "STRING$") || is_word(&word, "STRING") {
        Some(Builtin::Repeat)
    } else if is_word(&word, "INSTR") {
        Some(Builtin::Instr)
    } else if is_word(&word, "HEX$") || is_word(&word, "HEX") {
        Some(Builtin::Hex)
    } else if is_word(&word, "OCT$") || is_word(&word, "OCT") {
        Some(Builtin::Oct)
    } else if is_word(&word, "RND") {
        Some(Builtin::Rnd)
    } else if is_word(&word, "TIMER") {
        Some(Builtin::Timer)
    } else if is_word(&word, "PEEK") {
        Some(Builtin::Peek)
    } else if is_word(&word, "INP") {
        Some(Builtin::Inp)
    } else {
        None
    }
}

fn third(args: &Vec<Value>) -> (r: Option<Value>)
    ensures
        args.len() >= 3 ==> r == Some(args@[2]),
        args.len() < 3 ==> r is None,
{
    if args.len() >= 3 {
        Some(args[2].clone())
    } else {
        None
    }
}

/// Applies a function to arguments of a number that it takes.
pub fn apply<F: Fn(FloatRequest) -> FloatReply>(
    b: Builtin,
    args: &Vec<Value>,
    rng: &mut u64,
    clock: u64,
    unit: &FloatUnit<F>,
) -> (r: Result<Value, Error>)
    requires
        b.accepts(args@.len()),
    ensures
        (value_result_view(r), *final(rng)) == b.apply(
                unit.oracle(),
                value_views(args@),
                *old(rng),
                clock,
            ),
{
    match b {
        Builtin::Rnd => {
            if args.len() == 0 {
                rnd_fn(None, rng, unit)
            } else {
                rnd_fn(Some(args[0].clone()), rng, unit)
            }
        },
        Builtin::Abs => abs_fn(args[0].clone(), unit),
        Builtin::Int => int_fn(args[0].clone(), unit),
        Builtin::Fix => fix_fn(args[0].clone(), unit),
        Builtin::Cint => cint_fn(args[0].clone(), unit),
        Builtin::Csng => csng_fn(args[0].clone(), unit),
        Builtin::Cdbl => cdbl_fn(args[0].clone(), unit),
        Builtin::Sqr => sqr_fn(args[0].clone(), unit),
        Builtin::Sin => sin_fn(args[0].clone(), unit),
        Builtin::Cos => cos_fn(args[0].clone(), unit),
        Builtin::Tan => tan_fn(args[0].clone(), unit),
        Builtin::Atn => atn_fn(args[0].clone(), unit),
        Builtin::Exp => exp_fn(args[0].clone(), unit),
        Builtin::Log => log_fn(args[0].clone(), unit),
        Builtin::Sgn => sgn_fn(args[0].clone(), unit),
        Builtin::Len => len_fn(args[0].clone(), unit),
        Builtin::Asc => asc_fn(args[0].clone(), unit),
        Builtin::Chr => chr_fn(args[0].clone()),
        Builtin::Str => str_fn(args[0].clone(), unit),
        Builtin::Val => val_fn(args[0].clone(), unit),
        Builtin::Left => left_fn(args[0].clone(), args[1].clone(), unit),
        Builtin::Right => right_fn(args[0].clone(), args[1].clone(), unit),
        Builtin::Mid => mid_fn(args[0].clone(), args[1].clone(), third(args), unit),
        Builtin::Space => space_fn(args[0].clone()),
        Builtin::Repeat => string_fn(args[0].clone(), args[1].clone(), unit),
        Builtin::Instr => {
            if args.len() == 3 {
                instr_fn(Some(args[0].clone()), args[1].clone(), args[2].clone(), unit)
            } else {
                instr_fn(None, args[0].clone(), args[1].clone(), unit)
            }
        },
        Builtin::Hex => hex_fn(args[0].clone()),
        Builtin::Oct => oct_fn(args[0].clone()),
        Builtin::Timer => timer_fn(clock),
        Builtin::Peek => peek_fn(Value::Nil),
        Builtin::Inp => inp_fn(Value::Nil),
    }
}

/// Calls a function by name.
pub fn call_function<F: Fn(FloatRequest) -> FloatReply>(
    name: &str,
    args: &Vec<Value>,
    rng: &mut u64,
    clock: u64,
    unit: &FloatUnit<F>,
) -> (r: Result<Value, Error>)
    ensures
        (value_result_view(r), *final(rng)) == call(
                unit.oracle(),
                name@,
                value_views(args@),
                *old(rng),
                clock,
            ),
{
    match lookup(name) {
        None => Err(Error::UndefinedError(concat3("Function ", name, " not defined"))),
        Some(b) => {
            let (low, high) = b.arity();
            if args.len() < low || args.len() > high {
                return Err(b.arity_error());
            }
            apply(b, args, rng, clock, unit)
        },
    }
}

} // verus!
