//! The evaluation of expressions.

use vstd::prelude::*;
use vstd::string::*;
use crate::ast::{node_views, AstNode, AstView, BinaryOperator, UnaryOperator};
use crate::builtins::{call_function, value_views};
use crate::environment::Environment;
use crate::error::{Error, ErrorView};
use crate::numeric::Double;
use crate::semantics::{
    arithmetic,
    binary_result,
    comparison,
    division,
    evaluate,
    evaluate_all,
    integer_division,
    logic,
    magnitude_of,
    quotient,
    truth,
    unary_result,
};
use crate::text::concat3;
use crate::unit::{FloatOp, FloatReply, FloatRequest, FloatUnit, Oracle};
use crate::value::{value_result_view, Value, ValueView};

verus! {

fn truth_value(b: bool) -> (v: Value)
    ensures
        v@ == truth(b),
{
    Value::Integer(
        if b {
            -1
        } else {
            0
        },
    )
}

fn arithmetic_op<F: Fn(FloatRequest) -> FloatReply>(
    op: FloatOp,
    left: &Value,
    right: &Value,
    unit: &FloatUnit<F>,
) -> (r: Result<Value, Error>)
    ensures
        value_result_view(r) == arithmetic(unit.oracle(), op, left@, right@),
        !left@.is_string() && !right@.is_string() ==> r is Ok,
{
    let x = match left.as_double(unit) {
        Ok(x) => x,
        Err(e) => {
            return Err(e);
        },
    };
    match right.as_double(unit) {
        Ok(y) => Ok(Value::Double(unit.binary(op, x, y))),
        Err(e) => Err(e),
    }
}

fn divide_op<F: Fn(FloatRequest) -> FloatReply>(left: &Value, right: &Value, unit: &FloatUnit<F>) -> (r:
    Result<Value, Error>)
    ensures
        value_result_view(r) == division(unit.oracle(), left@, right@),
{
    let y = match right.as_double(unit) {
        Ok(y) => y,
        Err(e) => {
            return Err(e);
        },
    };
    if y.zero_valued() {
        return Err(Error::DivisionByZero);
    }
    match left.as_double(unit) {
        Ok(x) => Ok(Value::Double(unit.binary(FloatOp::Divide, x, y))),
        Err(e) => Err(e),
    }
}

fn magnitude(v: i32) -> (r: u64)
    ensures
        r == magnitude_of(v as int),
        r <= 0x8000_0000,
{
    if v < 0 {
        (-(v as i64)) as u64
    } else {
        v as u64
    }
}

fn integer_divide_op(left: &Value, right: &Value, modulo: bool) -> (r: Result<Value, Error>)
    ensures
        value_result_view(r) == integer_division(left@, right@, modulo),
{
    let d = match right.as_integer() {
        Ok(d) => d,
        Err(e) => {
            return Err(e);
        },
    };
    if d == 0 {
        return Err(Error::DivisionByZero);
    }
    let n = match left.as_integer() {
        Ok(n) => n,
        Err(e) => {
            return Err(e);
        },
    };
    let whole: i64 = (magnitude(n) / magnitude(d)) as i64;
    let q: i64 = if (n >= 0) == (d > 0) {
        whole
    } else {
        -whole
    };
    assert(q == quotient(n as int, d as int));
    if modulo {
        proof {
            let a = magnitude_of(n as int);
            let b = magnitude_of(d as int);
            assert(0 <= a - b * (a / b) < b) by (nonlinear_arith)
                requires
                    a >= 0,
                    b > 0,
            ;
            assert((d as int) * q == if (n >= 0) {
                b * (a / b)
            } else {
                -(b * (a / b))
            }) by (nonlinear_arith)
                requires
                    q == (if (n >= 0) == (d > 0) {
                        a / b
                    } else {
                        -(a / b)
                    }),
                    b == (if d < 0 {
                        -d
                    } else {
                        d as int
                    }),
                    d != 0,
            ;
        }
        let product: i64 = (d as i64) * q;
        Ok(Value::Integer((n as i64 - product) as i32))
    } else if n == i32::MIN && d == -1 {
        Err(Error::RuntimeError(String::from_str("Overflow")))
    } else {
        proof {
            let a = magnitude_of(n as int);
            let b = magnitude_of(d as int);
            assert(a / b <= a) by (nonlinear_arith)
                requires
                    a >= 0,
                    b > 0,
            ;
            if a == 0x8000_0000 && b > 1 {
                assert(a / b < a) by (nonlinear_arith)
                    requires
                        a > 0,
                        b > 1,
                ;
            }
        }
        Ok(Value::Integer(q as i32))
    }
}

fn compare_op<F: Fn(FloatRequest) -> FloatReply>(
    op: BinaryOperator,
    left: &Value,
    right: &Value,
    unit: &FloatUnit<F>,
) -> (r: Result<Value, Error>)
    ensures
        value_result_view(r) == comparison(unit.oracle(), op, left@, right@),
{
    let x = match left.as_double(unit) {
        Ok(x) => x,
        Err(e) => {
            return Err(e);
        },
    };
    let y = match right.as_double(unit) {
        Ok(y) => y,
        Err(e) => {
            return Err(e);
        },
    };
    let holds: bool = match op {
        BinaryOperator::Equal => x.equals(y),
        BinaryOperator::NotEqual => !x.equals(y),
        BinaryOperator::LessThan => x.lt(y),
        BinaryOperator::GreaterThan => y.lt(x),
        BinaryOperator::LessEqual => x.le(y),
        _ => y.le(x),
    };
    Ok(truth_value(holds))
}

fn logic_op(op: BinaryOperator, left: &Value, right: &Value) -> (r: Result<Value, Error>)
    ensures
        value_result_view(r) == logic(op, left@, right@),
{
    let l = match left.as_integer() {
        Ok(l) => l,
        Err(e) => {
            return Err(e);
        },
    };
    let r = match right.as_integer() {
        Ok(r) => r,
        Err(e) => {
            return Err(e);
        },
    };
    let bits: i32 = match op {
        BinaryOperator::And => l & r,
        BinaryOperator::Or => l | r,
        BinaryOperator::Xor => l ^ r,
        BinaryOperator::Eqv => !(l ^ r),
        _ => !l | r,
    };
    Ok(Value::Integer(bits))
}

/// Applies a binary operator to two values.
pub fn evaluate_binary_op<F: Fn(FloatRequest) -> FloatReply>(
    op: BinaryOperator,
    left: Value,
    right: Value,
    unit: &FloatUnit<F>,
) -> (r: Result<Value, Error>)
    ensures
        value_result_view(r) == binary_result(unit.oracle(), op, left@, right@),
        op == BinaryOperator::IntDivide ==> value_result_view(r) == integer_division(
            left@,
            right@,
            false,
        ),
        op == BinaryOperator::Mod ==> value_result_view(r) == integer_division(left@, right@, true),
        op == BinaryOperator::And || op == BinaryOperator::Or || op == BinaryOperator::Xor || op
            == BinaryOperator::Eqv || op == BinaryOperator::Imp ==> value_result_view(r) == logic(
            op,
            left@,
            right@,
        ),
{
    match op {
        BinaryOperator::Add => {
            if left.is_string() || right.is_string() {
                let mut text = left.as_string(unit);
                let tail = right.as_string(unit);
                text.append(tail.as_str());
                Ok(Value::String(text))
            } else {
                arithmetic_op(FloatOp::Add, &left, &right, unit)
            }
        },
        BinaryOperator::Subtract => arithmetic_op(FloatOp::Subtract, &left, &right, unit),
        BinaryOperator::Multiply => arithmetic_op(FloatOp::Multiply, &left, &right, unit),
        BinaryOperator::Divide => divide_op(&left, &right, unit),
        BinaryOperator::IntDivide => integer_divide_op(&left, &right, false),
        BinaryOperator::Mod => integer_divide_op(&left, &right, true),
        BinaryOperator::Power => arithmetic_op(FloatOp::Power, &left, &right, unit),
        BinaryOperator::Equal | BinaryOperator::NotEqual | BinaryOperator::LessThan
        | BinaryOperator::GreaterThan | BinaryOperator::LessEqual | BinaryOperator::GreaterEqual => compare_op(
            op,
            &left,
            &right,
            unit,
        ),
        BinaryOperator::And | BinaryOperator::Or | BinaryOperator::Xor | BinaryOperator::Eqv
        | BinaryOperator::Imp => logic_op(op, &left, &right),
    }
}

/// Applies a unary operator to a value.
pub fn evaluate_unary_op<F: Fn(FloatRequest) -> FloatReply>(
    op: UnaryOperator,
    val: Value,
    unit: &FloatUnit<F>,
) -> (r: Result<Value, Error>)
    ensures
        value_result_view(r) == unary_result(unit.oracle(), op, val@),
        !(val@ is String) ==> forall|o: Oracle| value_result_view(r) == unary_result(o, op, val@),
{
    match op {
        UnaryOperator::Negate => match val.as_double(unit) {
            Ok(x) => Ok(Value::Double(x.neg())),
            Err(e) => Err(e),
        },
        UnaryOperator::Not => match val.as_integer() {
            Ok(i) => Ok(Value::Integer(!i)),
            Err(e) => Err(e),
        },
    }
}

/// Evaluates an expression in the given variables. Only a call of `RND`
/// changes the state of the random generator.
pub fn evaluate_expression<F: Fn(FloatRequest) -> FloatReply>(
    node: &AstNode,
    variables: &Environment,
    rng: &mut u64,
    clock: u64,
    unit: &FloatUnit<F>,
) -> (r: Result<Value, Error>)
    requires
        variables.wf(),
    ensures
        (value_result_view(r), *final(rng)) == evaluate(
                unit.oracle(),
                variables@,
                *old(rng),
                clock,
                node@,
            ),
    decreases node, 0nat,
{
    match node {
        AstNode::Literal(val) => Ok(val.clone()),
        AstNode::Variable(name) => match variables.get(name.as_str()) {
            Some(v) => Ok(v.clone()),
            None => Err(Error::UndefinedError(concat3("Variable ", name.as_str(), " not defined"))),
        },
        AstNode::BinaryOp(op, left, right) => {
            let left_val = match evaluate_expression(left, variables, rng, clock, unit) {
                Ok(v) => v,
                Err(e) => {
                    return Err(e);
                },
            };
            let right_val = match evaluate_expression(right, variables, rng, clock, unit) {
                Ok(v) => v,
                Err(e) => {
                    return Err(e);
                },
            };
            evaluate_binary_op(*op, left_val, right_val, unit)
        },
        AstNode::UnaryOp(op, expr) => {
            match evaluate_expression(expr, variables, rng, clock, unit) {
                Ok(v) => evaluate_unary_op(*op, v, unit),
                Err(e) => Err(e),
            }
        },
        AstNode::FunctionCall(name, args) => evaluate_function_call(
            name.as_str(),
            args,
            variables,
            rng,
            clock,
            unit,
        ),
        _ => Err(Error::RuntimeError(String::from_str("Cannot evaluate node"))),
    }
}

/// Evaluates expressions from the left, up to the first failure.
pub fn evaluate_arguments<F: Fn(FloatRequest) -> FloatReply>(
    args: &Vec<AstNode>,
    variables: &Environment,
    rng: &mut u64,
    clock: u64,
    unit: &FloatUnit<F>,
) -> (r: Result<Vec<Value>, Error>)
    requires
        variables.wf(),
    ensures
        (values_result_view(r), *final(rng)) == evaluate_all(
                unit.oracle(),
                variables@,
                *old(rng),
                clock,
                node_views(args@),
                args@.len() as int,
            ),
    decreases args, 0nat,
{
    let mut values: Vec<Value> = Vec::new();
    let mut i: usize = 0;
    assert(value_views(values@) =~= Seq::<ValueView>::empty());
    while i < args.len()
        invariant
            i <= args.len(),
            variables.wf(),
            (Ok::<Seq<ValueView>, ErrorView>(value_views(values@)), *rng)
                    == evaluate_all(unit.oracle(), variables@, *old(rng), clock, node_views(args@), i as int),
        decreases args.len() - i,
    {
        let ghost so_far = value_views(values@);
        match evaluate_expression(&args[i], variables, rng, clock, unit) {
            Ok(v) => {
                values.push(v);
                assert(value_views(values@) =~= so_far.push(v@));
            },
            Err(e) => {
                proof {
                    assert((
                        Err::<Seq<ValueView>, ErrorView>(e@),
                        *rng,
                    ) == evaluate_all(
                        unit.oracle(),
                        variables@,
                        *old(rng),
                        clock,
                        node_views(args@),
                        args@.len() as int,
                    )) by {
                        lemma_first_failure(
                            unit.oracle(),
                            variables@,
                            *old(rng),
                            clock,
                            node_views(args@),
                            i + 1,
                            args@.len() as int,
                        );
                    };
                }
                return Err(e);
            },
        }
        i = i + 1;
    }
    Ok(values)
}

/// Evaluates the arguments of a call from the left, then calls the function
/// of that name.
pub fn evaluate_function_call<F: Fn(FloatRequest) -> FloatReply>(
    name: &str,
    args: &Vec<AstNode>,
    variables: &Environment,
    rng: &mut u64,
    clock: u64,
    unit: &FloatUnit<F>,
) -> (r: Result<Value, Error>)
    requires
        variables.wf(),
    ensures
        (value_result_view(r), *final(rng)) == evaluate(
                unit.oracle(),
                variables@,
                *old(rng),
                clock,
                AstView::FunctionCall(name@, node_views(args@)),
            ),
    decreases args, 1nat,
{
    match evaluate_arguments(args, variables, rng, clock, unit) {
        Ok(values) => call_function(name, &values, rng, clock, unit),
        Err(e) => Err(e),
    }
}

/// The views of the values in a result.
pub open spec fn values_result_view(r: Result<Vec<Value>, Error>) -> Result<Seq<ValueView>, ErrorView> {
    match r {
        Ok(vs) => Ok(value_views(vs@)),
        Err(e) => Err(e@),
    }
}

/// Once the first `count` expressions fail, so do any more of them, in the
/// same way.
pub proof fn lemma_first_failure(
    o: Oracle,
    vars: Map<Seq<char>, ValueView>,
    rng: u64,
    clock: u64,
    es: Seq<AstView>,
    count: int,
    more: int,
)
    requires
        0 < count <= more <= es.len(),
        evaluate_all(o, vars, rng, clock, es, count).0 is Err,
    ensures
        evaluate_all(o, vars, rng, clock, es, more) == evaluate_all(o, vars, rng, clock, es, count),
    decreases more - count,
{
    if count < more {
        lemma_first_failure(o, vars, rng, clock, es, count, more - 1);
    }
}

} // verus!
