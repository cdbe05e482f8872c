//! Laws of the language, proved from the meaning of its expressions and
//! statements.

use vstd::prelude::*;
use crate::ast::{AstView, BinaryOperator};
use crate::error::ErrorView;
use crate::interpreter::{run_steps, RunStatus};
use crate::lexer::{lex_all, lex_one, Cursor, Lexed, TokenType};
use crate::machine::{runtime_error, MachineView, PositionView, Signal};
use crate::numeric::Double;
use crate::program::{
    first_line,
    inserted,
    lemma_first_from,
    line_after,
    statements_of,
    Lines,
};
use crate::text::decimal;
use crate::semantics::{
    binary_result,
    evaluate,
    evaluate_all,
    integer_division,
    no_variable,
    quotient,
    remainder,
};
use crate::unit::{binary_answer, FloatOp, Oracle};
use crate::value::ValueView;

verus! {

/// Division of doubles: a divisor that is zero, of either sign, is refused;
/// for any other divisor the result is the quotient that the float unit
/// gives for the two operands, as it gives it.
pub proof fn law_division(o: Oracle, a: Double, b: Double)
    ensures
        b.is_zero() ==> binary_result(
            o,
            BinaryOperator::Divide,
            ValueView::Double(a),
            ValueView::Double(b),
        ) == Err::<ValueView, ErrorView>(ErrorView::DivisionByZero),
        !b.is_zero() ==> binary_result(
            o,
            BinaryOperator::Divide,
            ValueView::Double(a),
            ValueView::Double(b),
        ) == Ok::<ValueView, ErrorView>(ValueView::Double(binary_answer(o, FloatOp::Divide, a, b))),
{
}

/// Division by a value that is zero as a double fails whatever the left
/// operand is, a text that is no number included.
pub proof fn law_division_by_zero(o: Oracle, a: ValueView, b: ValueView)
    requires
        b.as_double(o) is Ok,
        b.as_double(o)->Ok_0.is_zero(),
    ensures
        binary_result(o, BinaryOperator::Divide, a, b) == Err::<ValueView, ErrorView>(
            ErrorView::DivisionByZero,
        ),
{
}

/// Integer division and `MOD` work on their operands rounded toward zero. A
/// right operand that rounds to zero is refused by both. Else `MOD` gives
/// what is left of the left operand, and the division the quotient rounded
/// toward zero, which is refused where it does not fit 32 bits.
pub proof fn law_integer_division(a: Double, b: Double, modulo: bool)
    ensures
        ({
            let x = a.truncated();
            let y = b.truncated();
            let result = integer_division(ValueView::Double(a), ValueView::Double(b), modulo);
            &&& y == 0 ==> result == Err::<ValueView, ErrorView>(ErrorView::DivisionByZero)
            &&& y != 0 && modulo ==> result == Ok::<ValueView, ErrorView>(
                ValueView::Integer(remainder(x, y) as i32),
            )
            &&& y != 0 && !modulo && !(x == i32::MIN && y == -1) ==> result == Ok::<
                ValueView,
                ErrorView,
            >(ValueView::Integer(quotient(x, y) as i32))
            &&& y != 0 && !modulo && x == i32::MIN && y == -1 ==> result == Err::<
                ValueView,
                ErrorView,
            >(ErrorView::RuntimeError("Overflow"@))
        }),
        forall|o: Oracle|
            integer_division(ValueView::Double(a), ValueView::Double(b), false) == #[trigger] binary_result(
                o,
                BinaryOperator::IntDivide,
                ValueView::Double(a),
                ValueView::Double(b),
            ),
        forall|o: Oracle|
            integer_division(ValueView::Double(a), ValueView::Double(b), true) == #[trigger] binary_result(
                o,
                BinaryOperator::Mod,
                ValueView::Double(a),
                ValueView::Double(b),
            ),
{
}

/// `NEXT` with a name that is not the name of the innermost loop fails, and
/// the message holds both names: first that of the loop, then the one given.
/// The state stays as it is.
pub proof fn law_next_names_both(m: MachineView, o: Oracle, pos: PositionView, name: Seq<char>)
    requires
        m.for_stack.len() > 0,
        name.len() > 0,
        m.for_stack.last().variable != name,
    ensures
        m.next_loop(o, pos, name) == (
            m,
            runtime_error(
                "NEXT variable mismatch: expected "@ + m.for_stack.last().variable + ", got "@ + name,
            ),
        ),
{
    reveal(MachineView::next_loop);
}

/// `NEXT` on the innermost loop, without a name or with the loop's own,
/// where the variable of the loop holds a number: the statement succeeds,
/// and the variable goes on by the step, as a double. For a step above zero
/// the loop goes on while the new value is not above the end; for any other
/// step, a downward one among them, while it is not below the end. Where the
/// loop goes on, the program continues behind its `FOR` and the stack of
/// loops stays; else exactly that loop leaves the stack and the program
/// continues behind the `NEXT`. Nothing else changes.
pub proof fn law_next_advances(m: MachineView, o: Oracle, pos: PositionView, name: Seq<char>)
    requires
        m.for_stack.len() > 0,
        name.len() == 0 || name == m.for_stack.last().variable,
        m.variables.contains_key(m.for_stack.last().variable),
        m.variables[m.for_stack.last().variable].as_double(o) is Ok,
    ensures
        ({
            let top = m.for_stack.last();
            let current = m.variables[top.variable].as_double(o)->Ok_0;
            let new_value = binary_answer(o, FloatOp::Add, current, top.step);
            let goes_on = if (Double { bits: 0 }).lt_spec(top.step) {
                new_value.le_spec(top.end_value)
            } else {
                top.end_value.le_spec(new_value)
            };
            let (after, result) = m.next_loop(o, pos, name);
            &&& result == Ok::<Signal, ErrorView>(Signal::Continue)
            &&& after == (MachineView {
                variables: m.variables.insert(top.variable, ValueView::Double(new_value)),
                for_stack: if goes_on {
                    m.for_stack
                } else {
                    m.for_stack.drop_last()
                },
                position: if goes_on {
                    Some(top.resume)
                } else {
                    Some(pos.next())
                },
                ..m
            })
        }),
{
    reveal(MachineView::next_loop);
}

/// `NEXT` without a loop fails with "NEXT without FOR", whatever name it
/// gives.
pub proof fn law_next_without_for(m: MachineView, o: Oracle, pos: PositionView, name: Seq<char>)
    requires
        m.for_stack.len() == 0,
    ensures
        m.next_loop(o, pos, name) == (m, runtime_error("NEXT without FOR"@)),
{
    reveal(MachineView::next_loop);
}

/// `RETURN` with an empty call stack fails with "RETURN without GOSUB".
pub proof fn law_return_without_gosub(m: MachineView)
    requires
        m.call_stack.len() == 0,
    ensures
        m.come_back() == (m, runtime_error("RETURN without GOSUB"@)),
{
    reveal(MachineView::come_back);
}

/// `NEXT` works on the innermost loop alone: the loops below it on the
/// stack stay as they are, whether the loop goes on or ends.
pub proof fn law_next_keeps_outer_loops(m: MachineView, o: Oracle, pos: PositionView, name: Seq<char>)
    requires
        m.for_stack.len() > 0,
    ensures
        ({
            let after = m.next_loop(o, pos, name).0.for_stack;
            after == m.for_stack || after == m.for_stack.drop_last()
        }),
{
    reveal(MachineView::next_loop);
}

/// A variable without a value cannot be read: the evaluation fails with an
/// undefined-variable error that names it.
pub proof fn law_unassigned_variable(
    o: Oracle,
    vars: Map<Seq<char>, ValueView>,
    rng: u64,
    clock: u64,
    name: Seq<char>,
)
    requires
        !vars.contains_key(name),
    ensures
        evaluate(o, vars, rng, clock, AstView::Variable(name)).0 == Err::<ValueView, ErrorView>(
            ErrorView::UndefinedError(no_variable(name)),
        ),
{
}

/// After `LET name = e` the variable reads as the value that `e` had. So
/// after `LET A = 5` the variable `A` reads as the integer 5.
pub proof fn law_assigned_variable(
    m: MachineView,
    o: Oracle,
    pos: PositionView,
    name: Seq<char>,
    e: AstView,
)
    requires
        m.assign(o, pos, name, e).1 is Ok,
    ensures
        ({
            let after = m.assign(o, pos, name, e).0;
            evaluate(o, after.variables, after.rng, after.clock, AstView::Variable(name)).0 == evaluate(
                o,
                m.variables,
                m.rng,
                m.clock,
                e,
            ).0
        }),
        e == AstView::Literal(ValueView::Integer(5)) ==> ({
            let after = m.assign(o, pos, name, e).0;
            evaluate(o, after.variables, after.rng, after.clock, AstView::Variable(name)).0 == Ok::<
                ValueView,
                ErrorView,
            >(ValueView::Integer(5))
        }),
{
    reveal(MachineView::assign);
}

/// A `PRINT` that fails writes nothing.
pub proof fn law_failed_print_writes_nothing(
    m: MachineView,
    o: Oracle,
    pos: PositionView,
    exprs: Seq<AstView>,
)
    requires
        m.print(o, pos, exprs).1 is Err,
    ensures
        m.print(o, pos, exprs).0.output == m.output,
{
    reveal(MachineView::print);
}

/// `PRINT 1/0`, with the operands as doubles, fails with a division by zero
/// and writes nothing.
pub proof fn law_print_of_division_by_zero(m: MachineView, o: Oracle, pos: PositionView, a: Double, b: Double)
    requires
        b.is_zero(),
    ensures
        ({
            let e = AstView::BinaryOp(
                BinaryOperator::Divide,
                Box::new(AstView::Literal(ValueView::Double(a))),
                Box::new(AstView::Literal(ValueView::Double(b))),
            );
            m.print(o, pos, seq![e]) == (m, Err::<Signal, ErrorView>(ErrorView::DivisionByZero))
        }),
{
    reveal(MachineView::print);
    reveal_with_fuel(evaluate_all, 2);
    let left = AstView::Literal(ValueView::Double(a));
    let right = AstView::Literal(ValueView::Double(b));
    let e = AstView::BinaryOp(BinaryOperator::Divide, Box::new(left), Box::new(right));
    let exprs = seq![e];
    assert(evaluate(o, m.variables, m.rng, m.clock, left) == (
        Ok::<ValueView, ErrorView>(ValueView::Double(a)),
        m.rng,
    ));
    assert(evaluate(o, m.variables, m.rng, m.clock, right) == (
        Ok::<ValueView, ErrorView>(ValueView::Double(b)),
        m.rng,
    ));
    assert(evaluate(o, m.variables, m.rng, m.clock, e) == (
        Err::<ValueView, ErrorView>(ErrorView::DivisionByZero),
        m.rng,
    ));
    assert(exprs[0] == e);
    assert(evaluate_all(o, m.variables, m.rng, m.clock, exprs, 0) == (
        Ok::<Seq<ValueView>, ErrorView>(Seq::empty()),
        m.rng,
    ));
    assert(evaluate_all(o, m.variables, m.rng, m.clock, exprs, 1) == (
        Err::<Seq<ValueView>, ErrorView>(ErrorView::DivisionByZero),
        m.rng,
    ));
    assert(m.with_rng(m.rng) == m);
}

/// `GOTO` and `GOSUB` to a line that the program does not hold fail with a
/// line-number error that names the line. The position stays; `GOSUB` has
/// put its return position on the call stack by then.
pub proof fn law_jump_needs_its_line(m: MachineView, lines: Lines, pos: PositionView, line: u32)
    requires
        statements_of(lines, line) is None,
    ensures
        m.jump(lines, line) == (
            m,
            Err::<Signal, ErrorView>(
                ErrorView::LineNumberError("Line "@ + decimal(line as int) + " not found"@),
            ),
        ),
        m.call(lines, pos, line) == (
            MachineView { call_stack: m.call_stack.push(pos.next()), ..m },
            Err::<Signal, ErrorView>(
                ErrorView::LineNumberError("Line "@ + decimal(line as int) + " not found"@),
            ),
        ),
{
    reveal(MachineView::jump);
    reveal(MachineView::call);
}

/// `GOSUB` and `RETURN` are a call and its return: after a `GOSUB` to a line
/// of the program, `RETURN` goes on behind the `GOSUB`, with the call stack
/// as it was before.
pub proof fn law_return_undoes_gosub(m: MachineView, lines: Lines, pos: PositionView, line: u32)
    requires
        statements_of(lines, line) is Some,
    ensures
        ({
            let called = m.call(lines, pos, line).0;
            &&& called.position == Some(PositionView::start(Some(line)))
            &&& called.come_back() == (
                MachineView { position: Some(pos.next()), ..m },
                Ok::<Signal, ErrorView>(Signal::Continue),
            )
        }),
{
    reveal(MachineView::jump);
    reveal(MachineView::call);
    reveal(MachineView::come_back);
    assert(m.call_stack.push(pos.next()).drop_last() =~= m.call_stack);
}

/// The lines of a program run in the order of their numbers: the line that
/// follows a line is the one with the smallest number above it, and the
/// program starts at the line with the smallest number of all.
pub proof fn law_lines_run_in_ascending_order(lines: Lines, number: u32)
    ensures
        match line_after(lines, number) {
            Some(following) => {
                &&& following > number
                &&& statements_of(lines, following) is Some
                &&& forall|n: u32| lines.contains_key(n) && n > number ==> n >= following
            },
            None => forall|n: u32| lines.contains_key(n) ==> n <= number,
        },
        match first_line(lines) {
            Some(first) => {
                &&& statements_of(lines, first) is Some
                &&& forall|n: u32| lines.contains_key(n) ==> n >= first
            },
            None => forall|n: u32| !lines.contains_key(n),
        },
{
    lemma_first_from(lines, number + 1);
    lemma_first_from(lines, 0);
}

/// A stored line is found under its number, with the statements it was
/// stored with, and takes the place of the line that had the number before;
/// every other number keeps its line. So no number has two lines.
pub proof fn law_stored_lines(lines: Lines, number: u32, statements: Seq<AstView>)
    ensures
        statements_of(inserted(lines, number, statements), number) == Some(statements),
        forall|n: u32|
            n != number ==> statements_of(inserted(lines, number, statements), n) == statements_of(
                lines,
                n,
            ),
{
}

/// `END` and `STOP` end a run as the end of the program does: the run
/// finishes, and no failure reaches the caller.
pub proof fn law_end_is_no_failure(
    o: Oracle,
    lines: Lines,
    direct: Seq<AstView>,
    m: MachineView,
    budget: nat,
)
    requires
        budget > 0,
        m.step(o, lines, direct).1 == Err::<Signal, ErrorView>(ErrorView::ProgramEnd),
    ensures
        run_steps(o, lines, direct, m, budget).1 == Ok::<RunStatus, ErrorView>(RunStatus::Finished),
        run_steps(o, lines, direct, m, budget).0.position is None,
{
}

/// No run ends in the signal `ProgramEnd`.
pub proof fn law_program_end_is_caught(
    o: Oracle,
    lines: Lines,
    direct: Seq<AstView>,
    m: MachineView,
    budget: nat,
)
    ensures
        run_steps(o, lines, direct, m, budget).1 != Err::<RunStatus, ErrorView>(ErrorView::ProgramEnd),
    decreases budget,
{
    if budget > 0 {
        let (after, signal) = m.step(o, lines, direct);
        if signal == Ok::<Signal, ErrorView>(Signal::Continue) {
            law_program_end_is_caught(o, lines, direct, after, (budget - 1) as nat);
        }
    }
}

/// The tokens of a text end with an end-of-input token, and hold no other.
pub proof fn law_tokens_end_with_eof(o: Oracle, chars: Seq<char>, cur: Cursor)
    requires
        lex_all(o, chars, cur) is Ok,
    ensures
        ({
            let tokens = lex_all(o, chars, cur)->Ok_0;
            &&& tokens.len() > 0
            &&& tokens.last().token_type == TokenType::Eof
            &&& forall|i: int| 0 <= i < tokens.len() - 1 ==> tokens[i].token_type != TokenType::Eof
        }),
    decreases chars.len() - cur.pos,
{
    if 0 <= cur.pos < chars.len() {
        match lex_one(o, chars, cur) {
            Lexed::Token(t, next) => {
                law_tokens_end_with_eof(o, chars, next);
                let rest = lex_all(o, chars, next)->Ok_0;
                let tokens = lex_all(o, chars, cur)->Ok_0;
                assert(tokens =~= seq![t] + rest);
                lemma_no_eof_token(o, chars, cur);
                assert forall|i: int| 0 <= i < tokens.len() - 1 implies tokens[i].token_type
                    != TokenType::Eof by {
                    if i > 0 {
                        assert(tokens[i] == rest[i - 1]);
                    }
                }
            },
            Lexed::Skip(next) => {
                law_tokens_end_with_eof(o, chars, next);
            },
            Lexed::Fail(_) => {},
        }
    }
}

/// A step of the lexer inside the text never gives an end-of-input token.
pub proof fn lemma_no_eof_token(o: Oracle, chars: Seq<char>, cur: Cursor)
    requires
        0 <= cur.pos < chars.len(),
    ensures
        match lex_one(o, chars, cur) {
            Lexed::Token(t, _) => t.token_type != TokenType::Eof,
            _ => true,
        },
{
    crate::lexer::lemma_keywords_are_not_eof();
}

} // verus!
