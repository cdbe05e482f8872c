//! What expressions evaluate to.
//!
//! The functions here are the meaning of the expressions of the language.
//! The float unit comes in as an `Oracle`; the random generator as a state
//! that an evaluation takes and gives back.

use vstd::prelude::*;
use crate::ast::{AstView, BinaryOperator, UnaryOperator};
use crate::builtins::call;
use crate::error::ErrorView;
use crate::numeric::Double;
use crate::unit::{binary_answer, FloatOp, Oracle};
use crate::value::ValueView;

verus! {

/// What an evaluation gives: a value or a failure, and the state of the
/// random generator behind it.
pub type Evaluated = (Result<ValueView, ErrorView>, u64);

/// The integer that stands for a truth value: -1 for true, 0 for false.
pub open spec fn truth(b: bool) -> ValueView {
    ValueView::Integer(
        if b {
            -1i32
        } else {
            0i32
        },
    )
}

/// The absolute value of `v`.
pub open spec fn magnitude_of(v: int) -> int {
    if v < 0 {
        -v
    } else {
        v
    }
}

/// The quotient of `a` by `b`, rounded toward zero.
pub open spec fn quotient(a: int, b: int) -> int {
    if (a >= 0) == (b > 0) {
        magnitude_of(a) / magnitude_of(b)
    } else {
        -(magnitude_of(a) / magnitude_of(b))
    }
}

/// What is left of `a` when `b` is taken from it `quotient(a, b)` times.
pub open spec fn remainder(a: int, b: int) -> int {
    a - b * quotient(a, b)
}

/// The message of an undefined variable.
pub open spec fn no_variable(name: Seq<char>) -> Seq<char> {
    "Variable "@ + name + " not defined"@
}

/// The value of a variable; one without a value is refused.
pub open spec fn variable_value(vars: Map<Seq<char>, ValueView>, name: Seq<char>) -> Result<
    ValueView,
    ErrorView,
> {
    if vars.contains_key(name) {
        Ok(vars[name])
    } else {
        Err(ErrorView::UndefinedError(no_variable(name)))
    }
}

/// `a op b` on doubles: both operands are widened, the left one first.
pub open spec fn arithmetic(o: Oracle, op: FloatOp, a: ValueView, b: ValueView) -> Result<
    ValueView,
    ErrorView,
> {
    match a.as_double(o) {
        Ok(x) => match b.as_double(o) {
            Ok(y) => Ok(ValueView::Double(binary_answer(o, op, x, y))),
            Err(e) => Err(e),
        },
        Err(e) => Err(e),
    }
}

/// `a / b`: the right operand is widened first, and a zero there is
/// refused; else the quotient is the float unit's.
pub open spec fn division(o: Oracle, a: ValueView, b: ValueView) -> Result<ValueView, ErrorView> {
    match b.as_double(o) {
        Ok(y) => if y.is_zero() {
            Err(ErrorView::DivisionByZero)
        } else {
            match a.as_double(o) {
                Ok(x) => Ok(ValueView::Double(binary_answer(o, FloatOp::Divide, x, y))),
                Err(e) => Err(e),
            }
        },
        Err(e) => Err(e),
    }
}

/// `a \ b` and `a MOD b`: both operands are made integers, the right one
/// first, and a zero there is refused. The quotient is rounded toward zero,
/// and one that does not fit 32 bits is refused.
pub open spec fn integer_division(a: ValueView, b: ValueView, modulo: bool) -> Result<
    ValueView,
    ErrorView,
> {
    match b.as_integer() {
        Ok(r) => if r == 0 {
            Err(ErrorView::DivisionByZero)
        } else {
            match a.as_integer() {
                Ok(l) => if modulo {
                    Ok(ValueView::Integer(remainder(l as int, r as int) as i32))
                } else if l == i32::MIN && r == -1 {
                    Err(ErrorView::RuntimeError("Overflow"@))
                } else {
                    Ok(ValueView::Integer(quotient(l as int, r as int) as i32))
                },
                Err(e) => Err(e),
            }
        },
        Err(e) => Err(e),
    }
}

/// Whether the relation `op` holds between two doubles. A NaN is unequal to
/// everything and in no order with anything.
pub open spec fn relation_holds(op: BinaryOperator, x: Double, y: Double) -> bool {
    match op {
        BinaryOperator::Equal => x.same_number(y),
        BinaryOperator::NotEqual => !x.same_number(y),
        BinaryOperator::LessThan => x.lt_spec(y),
        BinaryOperator::GreaterThan => y.lt_spec(x),
        BinaryOperator::LessEqual => x.le_spec(y),
        _ => y.le_spec(x),
    }
}

/// A comparison: both operands are widened, the left one first.
pub open spec fn comparison(o: Oracle, op: BinaryOperator, a: ValueView, b: ValueView) -> Result<
    ValueView,
    ErrorView,
> {
    match a.as_double(o) {
        Ok(x) => match b.as_double(o) {
            Ok(y) => Ok(truth(relation_holds(op, x, y))),
            Err(e) => Err(e),
        },
        Err(e) => Err(e),
    }
}

/// The bits of `l op r` for the logical operators.
pub open spec fn bits_of(op: BinaryOperator, l: i32, r: i32) -> i32 {
    match op {
        BinaryOperator::And => l & r,
        BinaryOperator::Or => l | r,
        BinaryOperator::Xor => l ^ r,
        BinaryOperator::Eqv => !(l ^ r),
        _ => !l | r,
    }
}

/// A logical operator: both operands are made integers, the left one first,
/// and the operator works on their bits.
pub open spec fn logic(op: BinaryOperator, a: ValueView, b: ValueView) -> Result<ValueView, ErrorView> {
    match a.as_integer() {
        Ok(l) => match b.as_integer() {
            Ok(r) => Ok(ValueView::Integer(bits_of(op, l, r))),
            Err(e) => Err(e),
        },
        Err(e) => Err(e),
    }
}

/// What `a op b` gives.
pub open spec fn binary_result(o: Oracle, op: BinaryOperator, a: ValueView, b: ValueView) -> Result<
    ValueView,
    ErrorView,
> {
    match op {
        BinaryOperator::Add => if a.is_string() || b.is_string() {
            Ok(ValueView::String(a.as_string(o) + b.as_string(o)))
        } else {
            arithmetic(o, FloatOp::Add, a, b)
        },
        BinaryOperator::Subtract => arithmetic(o, FloatOp::Subtract, a, b),
        BinaryOperator::Multiply => arithmetic(o, FloatOp::Multiply, a, b),
        BinaryOperator::Divide => division(o, a, b),
        BinaryOperator::IntDivide => integer_division(a, b, false),
        BinaryOperator::Mod => integer_division(a, b, true),
        BinaryOperator::Power => arithmetic(o, FloatOp::Power, a, b),
        BinaryOperator::Equal | BinaryOperator::NotEqual | BinaryOperator::LessThan
        | BinaryOperator::GreaterThan | BinaryOperator::LessEqual | BinaryOperator::GreaterEqual => comparison(
            o,
            op,
            a,
            b,
        ),
        BinaryOperator::And | BinaryOperator::Or | BinaryOperator::Xor | BinaryOperator::Eqv
        | BinaryOperator::Imp => logic(op, a, b),
    }
}

/// What `op a` gives.
pub open spec fn unary_result(o: Oracle, op: UnaryOperator, a: ValueView) -> Result<
    ValueView,
    ErrorView,
> {
    match op {
        UnaryOperator::Negate => match a.as_double(o) {
            Ok(x) => Ok(ValueView::Double(x.negated())),
            Err(e) => Err(e),
        },
        UnaryOperator::Not => match a.as_integer() {
            Ok(i) => Ok(ValueView::Integer(!i)),
            Err(e) => Err(e),
        },
    }
}

/// The value of an expression. Operands and arguments are evaluated from the
/// left, and the first failure ends the evaluation.
pub open spec fn evaluate(
    o: Oracle,
    vars: Map<Seq<char>, ValueView>,
    rng: u64,
    clock: u64,
    e: AstView,
) -> Evaluated
    decreases e,
{
    match e {
        AstView::Literal(v) => (Ok(v), rng),
        AstView::Variable(name) => (variable_value(vars, name), rng),
        AstView::BinaryOp(op, left, right) => {
            let (l, rng1) = evaluate(o, vars, rng, clock, *left);
            match l {
                Ok(a) => {
                    let (r, rng2) = evaluate(o, vars, rng1, clock, *right);
                    match r {
                        Ok(b) => (binary_result(o, op, a, b), rng2),
                        Err(e) => (Err(e), rng2),
                    }
                },
                Err(e) => (Err(e), rng1),
            }
        },
        AstView::UnaryOp(op, operand) => {
            let (v, rng1) = evaluate(o, vars, rng, clock, *operand);
            match v {
                Ok(a) => (unary_result(o, op, a), rng1),
                Err(e) => (Err(e), rng1),
            }
        },
        AstView::FunctionCall(name, args) => {
            let (values, rng1) = evaluate_all(o, vars, rng, clock, args, args.len() as int);
            match values {
                Ok(vs) => call(o, name, vs, rng1, clock),
                Err(e) => (Err(e), rng1),
            }
        },
        _ => (Err(ErrorView::RuntimeError("Cannot evaluate node"@)), rng),
    }
}

/// The values of the first `count` of the expressions `es`.
pub open spec fn evaluate_all(
    o: Oracle,
    vars: Map<Seq<char>, ValueView>,
    rng: u64,
    clock: u64,
    es: Seq<AstView>,
    count: int,
) -> (Result<Seq<ValueView>, ErrorView>, u64)
    decreases es, count,
{
    if count <= 0 || count > es.len() {
        (Ok(Seq::empty()), rng)
    } else {
        let (front, rng1) = evaluate_all(o, vars, rng, clock, es, count - 1);
        match front {
            Ok(vs) => {
                let (v, rng2) = evaluate(o, vars, rng1, clock, es[count - 1]);
                match v {
                    Ok(a) => (Ok(vs.push(a)), rng2),
                    Err(e) => (Err(e), rng2),
                }
            },
            Err(e) => (Err(e), rng1),
        }
    }
}

} // verus!
