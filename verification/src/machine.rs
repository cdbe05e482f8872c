//! The state of a running program and what each statement does to it.
//!
//! A position names a statement: a line of the program, or the line typed in
//! direct mode; a path into the statements that hold statements themselves;
//! and an index into the list at the end of the path. One step runs the
//! statement at the position, or, at the end of a list, moves on to what
//! follows the list.

use vstd::prelude::*;
use vstd::string::*;
use crate::ast::{name_views, node_views, optional_view, AstNode, AstView};
use crate::builtins::value_views;
use crate::environment::Environment;
use crate::error::{result_view, Error, ErrorView};
use crate::evaluator::{evaluate_arguments, evaluate_expression, values_result_view};
pub use crate::files::FileMode;
use crate::files::{already_open, not_open, FileHandleView, FileManager};
use crate::functions::{unsigned_bits, uppercase_string, uppercased};
use crate::graphics::{
    blank_cells,
    circle_cells,
    line_cells,
    locate_message,
    plot,
    Screen,
    ScreenView,
};
use crate::lexer::is_word;
use crate::numeric::Double;
use crate::program::{line_after, statements_of, Lines, Program};
use crate::semantics::{evaluate, evaluate_all, magnitude_of, no_variable};
use crate::text::{
    concat3,
    decimal,
    parse_i32,
    parse_i32_chars,
    push_decimal,
    string_of,
    to_chars,
    trim_bounds,
    trimmed,
};
use crate::unit::{binary_answer, parse_answer, FloatOp, FloatReply, FloatRequest, FloatUnit, Oracle};
use crate::value::{value_result_view, Value, ValueView};

verus! {

/// The part of a statement that holds a list of statements.
#[derive(Clone, Copy, Debug, PartialEq, Eq, Structural)]
pub enum Branch {
    /// The statements behind `THEN`.
    Then,
    /// The statements behind `ELSE`.
    Else,
    /// The body of a `WHILE`.
    Body,
    /// The statements of a program inside a list of statements.
    Block,
}

/// One step of a path: the statement at `index` of a list, and the part of
/// it that the path goes into.
#[derive(Clone, Copy, Debug, PartialEq, Eq, Structural)]
pub struct Hop {
    pub index: usize,
    pub branch: Branch,
}

/// A `Position` in mathematical types.
pub struct PositionView {
    pub line: Option<u32>,
    pub path: Seq<Hop>,
    pub index: usize,
}

/// The index behind `i`; the largest index stays.
pub open spec fn bump(i: usize) -> usize {
    if i < usize::MAX {
        (i + 1) as usize
    } else {
        i
    }
}

impl PositionView {
    /// The first statement of a line.
    pub open spec fn start(line: Option<u32>) -> PositionView {
        PositionView { line, path: Seq::empty(), index: 0 }
    }

    /// The position behind this one in the same list.
    pub open spec fn next(self) -> PositionView {
        PositionView { index: bump(self.index), ..self }
    }

    /// The first statement of a part of the statement at this position.
    pub open spec fn enter(self, branch: Branch) -> PositionView {
        PositionView {
            line: self.line,
            path: self.path.push(Hop { index: self.index, branch }),
            index: 0,
        }
    }

    /// Where a list that has been run through is left: at the `WHILE` whose
    /// body it is, or behind the statement that holds it.
    pub open spec fn leave(self) -> PositionView {
        let hop = self.path.last();
        PositionView {
            line: self.line,
            path: self.path.drop_last(),
            index: if hop.branch == Branch::Body {
                hop.index
            } else {
                bump(hop.index)
            },
        }
    }
}

/// A `FOR` loop that is running: its variable, where it ends, its step, and
/// the statement behind the `FOR`, where `NEXT` goes back to.
pub struct LoopView {
    pub variable: Seq<char>,
    pub end_value: Double,
    pub step: Double,
    pub resume: PositionView,
}

/// What a program asks of the files, for the host to carry out.
pub enum FileRequestView {
    Open(i32, Seq<char>, FileMode),
    Close(i32),
    CloseAll,
}

/// How a step ends where it does not fail.
#[derive(Clone, Copy, Debug, PartialEq, Eq, Structural)]
pub enum Signal {
    /// There is more to run.
    Continue,
    /// The program has run to its end.
    Finished,
    /// The statement at the position needs more lines of input.
    AwaitingInput,
    /// The host has requests to carry out before the program goes on.
    AwaitingHost,
}

/// The state of a session.
pub struct MachineView {
    pub variables: Map<Seq<char>, ValueView>,
    pub position: Option<PositionView>,
    pub call_stack: Seq<PositionView>,
    pub for_stack: Seq<LoopView>,
    pub data: Seq<ValueView>,
    pub data_pointer: nat,
    pub output: Seq<char>,
    pub screen: ScreenView,
    pub files: Map<i32, FileHandleView>,
    pub requests: Seq<FileRequestView>,
    pub rng: u64,
    pub clock: u64,
    pub input: Seq<Seq<char>>,
}

/// The state behind a step, and how the step ended.
pub type Outcome = (MachineView, Result<Signal, ErrorView>);

/// The kinds of nodes, by what runs them.
#[derive(Clone, Copy, Debug, PartialEq, Eq, Structural)]
pub enum StatementKind {
    /// Statements that steer the program, `LET` among them.
    Flow,
    /// Statements that read or write data.
    Data,
    /// Statements for the screen, the bell and the files.
    Device,
    /// Nodes that are no statements.
    Other,
}

/// The kind of a node.
pub open spec fn statement_kind(stmt: AstView) -> StatementKind {
    match stmt {
        AstView::Let(_, _) | AstView::If(_, _, _) | AstView::For(_, _, _, _) | AstView::Next(_)
        | AstView::While(_, _) | AstView::Goto(_) | AstView::Gosub(_) | AstView::Return
        | AstView::End | AstView::Stop | AstView::Program(_) => StatementKind::Flow,
        AstView::Print(_) | AstView::Input(_) | AstView::Dim(_, _) | AstView::Rem(_)
        | AstView::Read(_) | AstView::Data(_) | AstView::Restore(_) | AstView::Randomize(_)
        | AstView::Swap(_, _) => StatementKind::Data,
        AstView::Cls | AstView::Locate(_, _) | AstView::Color(_, _) | AstView::Screen(_)
        | AstView::Pset(_, _, _) | AstView::DrawLine(_, _, _, _, _) | AstView::Circle(_, _, _, _)
        | AstView::Beep | AstView::Sound(_, _) | AstView::Open(_, _, _) | AstView::Close(_) => StatementKind::Device,
        _ => StatementKind::Other,
    }
}

/// The list of statements that a part of a statement holds.
pub open spec fn child_list(stmt: AstView, branch: Branch) -> Option<Seq<AstView>> {
    match stmt {
        AstView::If(_, then_part, else_part) => if branch == Branch::Then {
            Some(then_part)
        } else if branch == Branch::Else {
            else_part
        } else {
            None
        },
        AstView::While(_, body) => if branch == Branch::Body {
            Some(body)
        } else {
            None
        },
        AstView::Program(list) => if branch == Branch::Block {
            Some(list)
        } else {
            None
        },
        _ => None,
    }
}

/// The list that a path leads to from the list `top`.
pub open spec fn block_at(top: Seq<AstView>, path: Seq<Hop>) -> Option<Seq<AstView>>
    decreases path.len(),
{
    if path.len() == 0 {
        Some(top)
    } else if path[0].index < top.len() {
        match child_list(top[path[0].index as int], path[0].branch) {
            Some(list) => block_at(list, path.drop_first()),
            None => None,
        }
    } else {
        None
    }
}

/// The statements of a line of the program, or of the direct line.
pub open spec fn top_list(lines: Lines, direct: Seq<AstView>, line: Option<u32>) -> Option<
    Seq<AstView>,
> {
    match line {
        Some(n) => statements_of(lines, n),
        None => Some(direct),
    }
}

/// The list that holds the statement at a position.
pub open spec fn list_at(lines: Lines, direct: Seq<AstView>, pos: PositionView) -> Option<
    Seq<AstView>,
> {
    match top_list(lines, direct, pos.line) {
        Some(top) => block_at(top, pos.path),
        None => None,
    }
}

/// The texts of values with one space between each two.
pub open spec fn joined(o: Oracle, values: Seq<ValueView>) -> Seq<char>
    decreases values.len(),
{
    if values.len() == 0 {
        Seq::empty()
    } else if values.len() == 1 {
        values[0].as_string(o)
    } else {
        joined(o, values.drop_last()) + seq![' '] + values.last().as_string(o)
    }
}

/// The value of an expression as a double.
pub open spec fn evaluate_double(o: Oracle, m: MachineView, rng: u64, e: AstView) -> (
    Result<Double, ErrorView>,
    u64,
) {
    let (v, rng1) = evaluate(o, m.variables, rng, m.clock, e);
    match v {
        Ok(a) => (a.as_double(o), rng1),
        Err(err) => (Err(err), rng1),
    }
}

/// The value of an expression as an integer.
pub open spec fn evaluate_integer(o: Oracle, m: MachineView, rng: u64, e: AstView) -> (
    Result<i32, ErrorView>,
    u64,
) {
    let (v, rng1) = evaluate(o, m.variables, rng, m.clock, e);
    match v {
        Ok(a) => (a.as_integer(), rng1),
        Err(err) => (Err(err), rng1),
    }
}

/// The low eight bits of an integer.
pub open spec fn low_byte(i: i32) -> u8 {
    (unsigned_bits(i) % 256) as u8
}

/// The value of an optional expression as a colour: the low eight bits of
/// its value as an integer.
pub open spec fn evaluate_colour(o: Oracle, m: MachineView, rng: u64, e: Option<Box<AstView>>) -> (
    Result<Option<u8>, ErrorView>,
    u64,
) {
    match e {
        Some(expr) => {
            let (v, rng1) = evaluate_integer(o, m, rng, *expr);
            match v {
                Ok(i) => (Ok(Some(low_byte(i))), rng1),
                Err(err) => (Err(err), rng1),
            }
        },
        None => (Ok(None), rng),
    }
}

/// The row or column, counted from zero, that a number counted from one
/// names on the screen. A number below zero names one far outside.
pub open spec fn screen_coordinate(i: i32) -> nat {
    if i >= 1 {
        (i - 1) as nat
    } else if i == 0 {
        0
    } else {
        (usize::MAX - magnitude_of(i as int)) as nat
    }
}

/// The file mode that a word names in upper case, so whatever the case of
/// its letters; a word that names none stands for `Output`.
pub open spec fn mode_named(word: Seq<char>) -> FileMode {
    let w = uppercased(word);
    if w == "INPUT"@ || w == "I"@ {
        FileMode::Input
    } else if w == "APPEND"@ || w == "A"@ {
        FileMode::Append
    } else {
        FileMode::Output
    }
}

/// The value that a line of input stands for, white space around it aside:
/// an integer where it is written as one, a double where the float unit
/// reads one, and else the text itself.
pub open spec fn input_value(o: Oracle, line: Seq<char>) -> ValueView {
    let s = trimmed(line);
    match parse_i32(s) {
        Some(i) => ValueView::Integer(i),
        None => match parse_answer(o, s) {
            Some(d) => ValueView::Double(d),
            None => ValueView::String(s),
        },
    }
}

/// The text that clears a terminal.
pub open spec fn clear_code() -> Seq<char> {
    "\x1B[2J\x1B[1;1H\n"@
}

/// The text that rings the bell of a terminal.
pub open spec fn bell_code() -> Seq<char> {
    "\x07\n"@
}

/// The failure of a statement at run time, with its message.
pub open spec fn runtime_error(msg: Seq<char>) -> Result<Signal, ErrorView> {
    Err(ErrorView::RuntimeError(msg))
}

impl MachineView {
    /// The state of a new session: nothing is bound, nothing is written,
    /// nothing waits, the screen is blank, and there is no position.
    pub open spec fn fresh() -> MachineView {
        MachineView {
            variables: Map::empty(),
            position: None,
            call_stack: Seq::empty(),
            for_stack: Seq::empty(),
            data: Seq::empty(),
            data_pointer: 0,
            output: Seq::empty(),
            screen: ScreenView {
                width: 80,
                height: 25,
                cells: blank_cells(80, 25),
                cursor_row: 0,
                cursor_col: 0,
                fg: 7,
                bg: 0,
            },
            files: Map::empty(),
            requests: Seq::empty(),
            rng: FIRST_SEED,
            clock: 0,
            input: Seq::empty(),
        }
    }

    /// The state with the position behind `pos`.
    pub open spec fn moved_on(self, pos: PositionView) -> MachineView {
        MachineView { position: Some(pos.next()), ..self }
    }

    /// The state of a statement done: at the position behind `pos`, with
    /// more to run.
    pub open spec fn done(self, pos: PositionView) -> Outcome {
        (self.moved_on(pos), Ok(Signal::Continue))
    }

    /// The state of a statement that failed.
    pub open spec fn failed(self, e: ErrorView) -> Outcome {
        (self, Err(e))
    }

    /// The state with the random generator in the state `rng`.
    pub open spec fn with_rng(self, rng: u64) -> MachineView {
        MachineView { rng, ..self }
    }

    /// `PRINT`: the values of the expressions, written with one space
    /// between each two and a line feed at the end. Where an expression
    /// fails nothing is written.
    #[verifier::opaque]
    pub open spec fn print(self, o: Oracle, pos: PositionView, exprs: Seq<AstView>) -> Outcome {
        let (values, rng) = evaluate_all(o, self.variables, self.rng, self.clock, exprs, exprs.len() as int);
        match values {
            Ok(vs) => MachineView {
                output: self.output + joined(o, vs) + seq!['\n'],
                rng,
                ..self
            }.done(pos),
            Err(e) => self.with_rng(rng).failed(e),
        }
    }

    /// `LET`: the variable gets the value of the expression.
    #[verifier::opaque]
    pub open spec fn assign(self, o: Oracle, pos: PositionView, name: Seq<char>, e: AstView) -> Outcome {
        let (v, rng) = evaluate(o, self.variables, self.rng, self.clock, e);
        match v {
            Ok(a) => MachineView { variables: self.variables.insert(name, a), rng, ..self }.done(pos),
            Err(err) => self.with_rng(rng).failed(err),
        }
    }

    /// `IF`: where the condition is true, the statements behind `THEN` come
    /// next; else those behind `ELSE`, if there are any.
    #[verifier::opaque]
    pub open spec fn branch(
        self,
        o: Oracle,
        pos: PositionView,
        cond: AstView,
        has_else: bool,
    ) -> Outcome {
        let (v, rng) = evaluate(o, self.variables, self.rng, self.clock, cond);
        match v {
            Ok(a) => if a.is_true() {
                (
                    MachineView { position: Some(pos.enter(Branch::Then)), rng, ..self },
                    Ok(Signal::Continue),
                )
            } else if has_else {
                (
                    MachineView { position: Some(pos.enter(Branch::Else)), rng, ..self },
                    Ok(Signal::Continue),
                )
            } else {
                self.with_rng(rng).done(pos)
            },
            Err(err) => self.with_rng(rng).failed(err),
        }
    }

    /// `WHILE`: where the condition is true, the body comes next, and the
    /// `WHILE` again behind it.
    #[verifier::opaque]
    pub open spec fn repeat(self, o: Oracle, pos: PositionView, cond: AstView) -> Outcome {
        let (v, rng) = evaluate(o, self.variables, self.rng, self.clock, cond);
        match v {
            Ok(a) => if a.is_true() {
                (
                    MachineView { position: Some(pos.enter(Branch::Body)), rng, ..self },
                    Ok(Signal::Continue),
                )
            } else {
                self.with_rng(rng).done(pos)
            },
            Err(err) => self.with_rng(rng).failed(err),
        }
    }

    /// `FOR`: start, end and step are evaluated as doubles, the step being 1
    /// where none is given; the variable gets the start, and the loop is
    /// put on the stack of loops.
    #[verifier::opaque]
    pub open spec fn begin_loop(
        self,
        o: Oracle,
        pos: PositionView,
        var: Seq<char>,
        start: AstView,
        end: AstView,
        step: Option<Box<AstView>>,
    ) -> Outcome {
        let (first, rng1) = evaluate_double(o, self, self.rng, start);
        match first {
            Ok(start_value) => {
                let (last, rng2) = evaluate_double(o, self, rng1, end);
                match last {
                    Ok(end_value) => {
                        let (by, rng3) = match step {
                            Some(s) => evaluate_double(o, self, rng2, *s),
                            None => (Ok(Double::of_int(1)), rng2),
                        };
                        match by {
                            Ok(step_value) => MachineView {
                                variables: self.variables.insert(var, ValueView::Double(start_value)),
                                for_stack: self.for_stack.push(
                                    LoopView {
                                        variable: var,
                                        end_value,
                                        step: step_value,
                                        resume: pos.next(),
                                    },
                                ),
                                rng: rng3,
                                ..self
                            }.done(pos),
                            Err(e) => self.with_rng(rng3).failed(e),
                        }
                    },
                    Err(e) => self.with_rng(rng2).failed(e),
                }
            },
            Err(e) => self.with_rng(rng1).failed(e),
        }
    }

    /// `NEXT`: the variable of the innermost loop goes on by the step. The
    /// loop goes on, from the statement behind its `FOR`, while the variable
    /// has not passed the end: upward for a positive step, downward else.
    /// Then the loop leaves the stack. A name that is not that of the
    /// innermost loop is refused, as is `NEXT` without a loop.
    #[verifier::opaque]
    pub open spec fn next_loop(self, o: Oracle, pos: PositionView, var: Seq<char>) -> Outcome {
        if self.for_stack.len() == 0 {
            (self, runtime_error("NEXT without FOR"@))
        } else {
            let top = self.for_stack.last();
            if var.len() != 0 && top.variable != var {
                (
                    self,
                    runtime_error(
                        "NEXT variable mismatch: expected "@ + top.variable + ", got "@ + var,
                    ),
                )
            } else if !self.variables.contains_key(top.variable) {
                self.failed(ErrorView::UndefinedError(no_variable(top.variable)))
            } else {
                match self.variables[top.variable].as_double(o) {
                    Ok(current) => {
                        let new_value = binary_answer(o, FloatOp::Add, current, top.step);
                        let stepped = MachineView {
                            variables: self.variables.insert(
                                top.variable,
                                ValueView::Double(new_value),
                            ),
                            ..self
                        };
                        let goes_on = if (Double { bits: 0 }).lt_spec(top.step) {
                            new_value.le_spec(top.end_value)
                        } else {
                            top.end_value.le_spec(new_value)
                        };
                        if goes_on {
                            (
                                MachineView { position: Some(top.resume), ..stepped },
                                Ok(Signal::Continue),
                            )
                        } else {
                            MachineView { for_stack: self.for_stack.drop_last(), ..stepped }.done(pos)
                        }
                    },
                    Err(e) => self.failed(e),
                }
            }
        }
    }

    /// `GOTO`: the first statement of the line comes next; a line that the
    /// program does not hold is refused.
    #[verifier::opaque]
    pub open spec fn jump(self, lines: Lines, line: u32) -> Outcome {
        if statements_of(lines, line) is Some {
            (
                MachineView { position: Some(PositionView::start(Some(line))), ..self },
                Ok(Signal::Continue),
            )
        } else {
            self.failed(ErrorView::LineNumberError("Line "@ + decimal(line as int) + " not found"@))
        }
    }

    /// `GOSUB`: the position behind the statement goes on the call stack,
    /// then the program jumps as with `GOTO`.
    #[verifier::opaque]
    pub open spec fn call(self, lines: Lines, pos: PositionView, line: u32) -> Outcome {
        MachineView { call_stack: self.call_stack.push(pos.next()), ..self }.jump(lines, line)
    }

    /// `RETURN`: the program goes on at the position on top of the call
    /// stack, which leaves the stack; without one it is refused.
    #[verifier::opaque]
    pub open spec fn come_back(self) -> Outcome {
        if self.call_stack.len() == 0 {
            (self, runtime_error("RETURN without GOSUB"@))
        } else {
            (
                MachineView {
                    position: Some(self.call_stack.last()),
                    call_stack: self.call_stack.drop_last(),
                    ..self
                },
                Ok(Signal::Continue),
            )
        }
    }

    /// The state after reading the first `count` of the names: each gets
    /// the next item of the data. Reading stops where the data runs out.
    pub open spec fn read_into(self, names: Seq<Seq<char>>, count: int) -> (MachineView, bool)
        decreases count,
    {
        if count <= 0 || count > names.len() {
            (self, true)
        } else {
            let (m, ok) = self.read_into(names, count - 1);
            if !ok || m.data_pointer >= m.data.len() {
                (m, false)
            } else {
                (
                    MachineView {
                        variables: m.variables.insert(names[count - 1], m.data[m.data_pointer as int]),
                        data_pointer: m.data_pointer + 1,
                        ..m
                    },
                    true,
                )
            }
        }
    }

    /// `READ`: each name gets the next item of the data; where the data
    /// runs out the statement fails, and the names before keep what they
    /// got.
    #[verifier::opaque]
    pub open spec fn read(self, pos: PositionView, names: Seq<Seq<char>>) -> Outcome {
        let (m, ok) = self.read_into(names, names.len() as int);
        if ok {
            m.done(pos)
        } else {
            (m, runtime_error("Out of DATA"@))
        }
    }

    /// The state after putting the values of the first `count` expressions
    /// behind the data, and the first failure among them.
    pub open spec fn store_data(self, o: Oracle, exprs: Seq<AstView>, count: int) -> (
        MachineView,
        Option<ErrorView>,
    )
        decreases count,
    {
        if count <= 0 || count > exprs.len() {
            (self, None)
        } else {
            let (m, failure) = self.store_data(o, exprs, count - 1);
            if failure is Some {
                (m, failure)
            } else {
                let (v, rng) = evaluate(o, m.variables, m.rng, m.clock, exprs[count - 1]);
                match v {
                    Ok(a) => (MachineView { data: m.data.push(a), rng, ..m }, None),
                    Err(e) => (m.with_rng(rng), Some(e)),
                }
            }
        }
    }

    /// `SWAP`: the two variables exchange their values; one without a value
    /// is refused.
    #[verifier::opaque]
    pub open spec fn swap(self, pos: PositionView, a: Seq<char>, b: Seq<char>) -> Outcome {
        if !self.variables.contains_key(a) {
            self.failed(ErrorView::UndefinedError(no_variable(a)))
        } else if !self.variables.contains_key(b) {
            self.failed(ErrorView::UndefinedError(no_variable(b)))
        } else {
            MachineView {
                variables: self.variables.insert(a, self.variables[b]).insert(b, self.variables[a]),
                ..self
            }.done(pos)
        }
    }

    /// `CLS`: the screen is blanked, its cursor goes to the top left, and
    /// the text that clears a terminal is written.
    pub open spec fn clear(self, pos: PositionView) -> Outcome {
        MachineView {
            screen: ScreenView {
                cells: blank_cells(self.screen.width, self.screen.height),
                cursor_row: 0,
                cursor_col: 0,
                ..self.screen
            },
            output: self.output + clear_code(),
            ..self
        }.done(pos)
    }

    /// `LOCATE`: the cursor goes to the row and the column, counted from
    /// one; a place outside the screen is refused.
    #[verifier::opaque]
    pub open spec fn locate(self, o: Oracle, pos: PositionView, row: AstView, col: AstView) -> Outcome {
        let (r, rng1) = evaluate_integer(o, self, self.rng, row);
        match r {
            Ok(row_number) => {
                let (c, rng2) = evaluate_integer(o, self, rng1, col);
                match c {
                    Ok(col_number) => {
                        let y = screen_coordinate(row_number);
                        let x = screen_coordinate(col_number);
                        if y < self.screen.height && x < self.screen.width {
                            MachineView {
                                screen: ScreenView { cursor_row: y, cursor_col: x, ..self.screen },
                                rng: rng2,
                                ..self
                            }.done(pos)
                        } else {
                            (self.with_rng(rng2), runtime_error(locate_message(y, x)))
                        }
                    },
                    Err(e) => self.with_rng(rng2).failed(e),
                }
            },
            Err(e) => self.with_rng(rng1).failed(e),
        }
    }

    /// `COLOR`: the colours that are given are set.
    #[verifier::opaque]
    pub open spec fn colour(
        self,
        o: Oracle,
        pos: PositionView,
        fg: Option<Box<AstView>>,
        bg: Option<Box<AstView>>,
    ) -> Outcome {
        let (f, rng1) = evaluate_colour(o, self, self.rng, fg);
        match f {
            Ok(fore) => {
                let (b, rng2) = evaluate_colour(o, self, rng1, bg);
                match b {
                    Ok(back) => MachineView {
                        screen: ScreenView {
                            fg: if fore is Some {
                                fore->Some_0
                            } else {
                                self.screen.fg
                            },
                            bg: if back is Some {
                                back->Some_0
                            } else {
                                self.screen.bg
                            },
                            ..self.screen
                        },
                        rng: rng2,
                        ..self
                    }.done(pos),
                    Err(e) => self.with_rng(rng2).failed(e),
                }
            },
            Err(e) => self.with_rng(rng1).failed(e),
        }
    }

    /// The values of the first `count` expressions as integers.
    pub open spec fn integers(self, o: Oracle, rng: u64, exprs: Seq<AstView>, count: int) -> (
        Result<Seq<i32>, ErrorView>,
        u64,
    )
        decreases count,
    {
        if count <= 0 || count > exprs.len() {
            (Ok(Seq::empty()), rng)
        } else {
            let (front, rng1) = self.integers(o, rng, exprs, count - 1);
            match front {
                Ok(vs) => {
                    let (v, rng2) = evaluate_integer(o, self, rng1, exprs[count - 1]);
                    match v {
                        Ok(i) => (Ok(vs.push(i)), rng2),
                        Err(e) => (Err(e), rng2),
                    }
                },
                Err(e) => (Err(e), rng1),
            }
        }
    }

    /// `PSET`, `LINE` and `CIRCLE`: the coordinates are evaluated as
    /// integers, then the colour; then the cells are marked on the screen.
    #[verifier::opaque]
    pub open spec fn draw(
        self,
        o: Oracle,
        pos: PositionView,
        coordinates: Seq<AstView>,
        colour: Option<Box<AstView>>,
    ) -> Outcome {
        let (numbers, rng1) = self.integers(o, self.rng, coordinates, coordinates.len() as int);
        match numbers {
            Ok(ns) => {
                let (c, rng2) = evaluate_colour(o, self, rng1, colour);
                match c {
                    Ok(_) => MachineView {
                        screen: ScreenView {
                            cells: if ns.len() == 2 {
                                plot(self.screen.cells, ns[0] as int, ns[1] as int)
                            } else if ns.len() == 3 {
                                circle_cells(self.screen.cells, ns[0] as int, ns[1] as int, ns[2] as int)
                            } else {
                                line_cells(
                                    self.screen.cells,
                                    ns[0] as int,
                                    ns[1] as int,
                                    ns[2] as int,
                                    ns[3] as int,
                                )
                            },
                            ..self.screen
                        },
                        rng: rng2,
                        ..self
                    }.done(pos),
                    Err(e) => self.with_rng(rng2).failed(e),
                }
            },
            Err(e) => self.with_rng(rng1).failed(e),
        }
    }

    /// Statements that evaluate their expressions and then write `text`:
    /// `SCREEN` and `RANDOMIZE` write nothing, `SOUND` rings the bell.
    #[verifier::opaque]
    pub open spec fn evaluate_then_write(
        self,
        o: Oracle,
        pos: PositionView,
        exprs: Seq<AstView>,
        text: Seq<char>,
    ) -> Outcome {
        let (values, rng) = evaluate_all(o, self.variables, self.rng, self.clock, exprs, exprs.len() as int);
        match values {
            Ok(_) => MachineView { output: self.output + text, rng, ..self }.done(pos),
            Err(e) => self.with_rng(rng).failed(e),
        }
    }

    /// `OPEN`: the file number is evaluated; a number that is open already
    /// is refused; else the number is open from now on, and the host is
    /// asked to open the file.
    #[verifier::opaque]
    pub open spec fn open_file(
        self,
        o: Oracle,
        pos: PositionView,
        name: Seq<char>,
        number: AstView,
        mode: Seq<char>,
    ) -> Outcome {
        let (n, rng) = evaluate_integer(o, self, self.rng, number);
        match n {
            Ok(i) => if self.files.contains_key(i) {
                (self.with_rng(rng), runtime_error(already_open(i)))
            } else {
                (
                    MachineView {
                        files: self.files.insert(
                            i,
                            FileHandleView { mode: mode_named(mode), path: name },
                        ),
                        requests: self.requests.push(FileRequestView::Open(i, name, mode_named(mode))),
                        rng,
                        ..self
                    }.moved_on(pos),
                    Ok(Signal::AwaitingHost),
                )
            },
            Err(e) => self.with_rng(rng).failed(e),
        }
    }

    /// The state after closing the first `count` of the numbers, one after
    /// the other, and the first number among them that was not open. Each
    /// number that was open is closed, and the host is asked to close its
    /// file.
    pub open spec fn closing(self, numbers: Seq<i32>, count: int) -> (MachineView, Option<i32>)
        decreases count,
    {
        if count <= 0 || count > numbers.len() {
            (self, None)
        } else {
            let (m, failed) = self.closing(numbers, count - 1);
            let n = numbers[count - 1];
            if failed is Some {
                (m, failed)
            } else if m.files.contains_key(n) {
                (
                    MachineView {
                        files: m.files.remove(n),
                        requests: m.requests.push(FileRequestView::Close(n)),
                        ..m
                    },
                    None,
                )
            } else {
                (m, Some(n))
            }
        }
    }

    /// `CLOSE`: the files of the given numbers are closed, up to the first
    /// number that is not open, which is refused; without numbers every
    /// file is closed. The host is asked to do the same.
    #[verifier::opaque]
    pub open spec fn close_files(self, pos: PositionView, numbers: Seq<i32>) -> Outcome {
        if numbers.len() == 0 {
            (
                MachineView {
                    files: Map::empty(),
                    requests: self.requests.push(FileRequestView::CloseAll),
                    ..self
                }.moved_on(pos),
                Ok(Signal::AwaitingHost),
            )
        } else {
            let (m, failed) = self.closing(numbers, numbers.len() as int);
            match failed {
                Some(n) => (m, runtime_error(not_open(n))),
                None => (m.moved_on(pos), Ok(Signal::AwaitingHost)),
            }
        }
    }

    /// The variables after the first `count` of the names got the lines of
    /// input, in order.
    pub open spec fn bound_input(self, o: Oracle, names: Seq<Seq<char>>, count: int) -> Map<
        Seq<char>,
        ValueView,
    >
        decreases count,
    {
        if count <= 0 || count > names.len() || count > self.input.len() {
            self.variables
        } else {
            self.bound_input(o, names, count - 1).insert(
                names[count - 1],
                input_value(o, self.input[count - 1]),
            )
        }
    }

    /// `INPUT`: each name gets the value of one line of input. Where fewer
    /// lines are there than names, nothing changes and the statement waits.
    #[verifier::opaque]
    pub open spec fn take_input(self, o: Oracle, pos: PositionView, names: Seq<Seq<char>>) -> Outcome {
        if self.input.len() < names.len() {
            (self, Ok(Signal::AwaitingInput))
        } else {
            MachineView {
                variables: self.bound_input(o, names, names.len() as int),
                input: self.input.skip(names.len() as int),
                ..self
            }.done(pos)
        }
    }

    /// What a statement that steers the program does.
    pub open spec fn execute_flow(
        self,
        o: Oracle,
        lines: Lines,
        pos: PositionView,
        stmt: AstView,
    ) -> Outcome {
        match stmt {
            AstView::Let(name, e) => self.assign(o, pos, name, *e),
            AstView::If(cond, _, else_part) => self.branch(o, pos, *cond, else_part is Some),
            AstView::For(var, start, end, step) => self.begin_loop(o, pos, var, *start, *end, step),
            AstView::Next(var) => self.next_loop(o, pos, var),
            AstView::While(cond, _) => self.repeat(o, pos, *cond),
            AstView::Goto(line) => self.jump(lines, line),
            AstView::Gosub(line) => self.call(lines, pos, line),
            AstView::Return => self.come_back(),
            AstView::Program(_) => (
                MachineView { position: Some(pos.enter(Branch::Block)), ..self },
                Ok(Signal::Continue),
            ),
            _ => self.failed(ErrorView::ProgramEnd),
        }
    }

    /// What a statement that reads or writes data does.
    pub open spec fn execute_data(self, o: Oracle, pos: PositionView, stmt: AstView) -> Outcome {
        match stmt {
            AstView::Print(exprs) => self.print(o, pos, exprs),
            AstView::Input(names) => self.take_input(o, pos, names),
            AstView::Read(names) => self.read(pos, names),
            AstView::Data(exprs) => if pos.line is None {
                let (m, failure) = self.store_data(o, exprs, exprs.len() as int);
                match failure {
                    Some(e) => m.failed(e),
                    None => m.done(pos),
                }
            } else {
                self.done(pos)
            },
            AstView::Restore(_) => MachineView { data_pointer: 0, ..self }.done(pos),
            AstView::Randomize(seed) => match seed {
                Some(e) => self.evaluate_then_write(o, pos, seq![*e], Seq::empty()),
                None => self.done(pos),
            },
            AstView::Swap(a, b) => self.swap(pos, a, b),
            _ => self.done(pos),
        }
    }

    /// What a statement for the screen, the bell or the files does.
    pub open spec fn execute_device(self, o: Oracle, pos: PositionView, stmt: AstView) -> Outcome {
        match stmt {
            AstView::Cls => self.clear(pos),
            AstView::Locate(row, col) => self.locate(o, pos, *row, *col),
            AstView::Color(fg, bg) => self.colour(o, pos, fg, bg),
            AstView::Screen(mode) => self.evaluate_then_write(o, pos, seq![*mode], Seq::empty()),
            AstView::Pset(x, y, c) => self.draw(o, pos, seq![*x, *y], c),
            AstView::DrawLine(x1, y1, x2, y2, c) => self.draw(o, pos, seq![*x1, *y1, *x2, *y2], c),
            AstView::Circle(x, y, r, c) => self.draw(o, pos, seq![*x, *y, *r], c),
            AstView::Sound(freq, duration) => self.evaluate_then_write(
                o,
                pos,
                seq![*freq, *duration],
                bell_code(),
            ),
            AstView::Open(name, number, mode) => self.open_file(o, pos, name, *number, mode),
            AstView::Close(numbers) => self.close_files(pos, numbers),
            _ => MachineView { output: self.output + bell_code(), ..self }.done(pos),
        }
    }

    /// What the statement at `pos` does. `END` and `STOP` end the program
    /// with the signal `ProgramEnd`; `DIM` and `REM` do nothing; a node that
    /// is no statement is refused.
    pub open spec fn execute(self, o: Oracle, lines: Lines, pos: PositionView, stmt: AstView) -> Outcome {
        match statement_kind(stmt) {
            StatementKind::Flow => self.execute_flow(o, lines, pos, stmt),
            StatementKind::Data => self.execute_data(o, pos, stmt),
            StatementKind::Device => self.execute_device(o, pos, stmt),
            StatementKind::Other => (self, runtime_error("Cannot execute node"@)),
        }
    }

    /// The state of a program at its end: without a position.
    pub open spec fn halted(self) -> Outcome {
        (MachineView { position: None, ..self }, Ok(Signal::Finished))
    }

    /// One step: the statement at the position runs; at the end of a list
    /// the position moves to what follows the list; at the end of the last
    /// line, or at a position that names no list, the program ends.
    pub open spec fn step(self, o: Oracle, lines: Lines, direct: Seq<AstView>) -> Outcome {
        match self.position {
            None => self.halted(),
            Some(pos) => match list_at(lines, direct, pos) {
                None => self.halted(),
                Some(list) => if pos.index < list.len() {
                    self.execute(o, lines, pos, list[pos.index as int])
                } else if pos.path.len() > 0 {
                    (MachineView { position: Some(pos.leave()), ..self }, Ok(Signal::Continue))
                } else {
                    match pos.line {
                        Some(n) => match line_after(lines, n) {
                            Some(following) => (
                                MachineView {
                                    position: Some(PositionView::start(Some(following))),
                                    ..self
                                },
                                Ok(Signal::Continue),
                            ),
                            None => self.halted(),
                        },
                        None => self.halted(),
                    }
                },
            },
        }
    }
}

/// A place in the program.
#[derive(Debug)]
pub struct Position {
    pub line: Option<u32>,
    pub path: Vec<Hop>,
    pub index: usize,
}

impl View for Position {
    type V = PositionView;

    open spec fn view(&self) -> PositionView {
        PositionView { line: self.line, path: self.path@, index: self.index }
    }
}

fn copy_path(path: &Vec<Hop>) -> (r: Vec<Hop>)
    ensures
        r@ == path@,
{
    let mut out: Vec<Hop> = Vec::new();
    let mut i: usize = 0;
    while i < path.len()
        invariant
            i <= path.len(),
            out@ == path@.take(i as int),
        decreases path.len() - i,
    {
        out.push(path[i]);
        i = i + 1;
        assert(out@ =~= path@.take(i as int));
    }
    assert(path@.take(path@.len() as int) =~= path@);
    out
}

fn bumped(i: usize) -> (r: usize)
    ensures
        r == bump(i),
{
    if i < usize::MAX {
        i + 1
    } else {
        i
    }
}

impl Clone for Position {
    fn clone(&self) -> (r: Self)
        ensures
            r@ == self@,
    {
        Position { line: self.line, path: copy_path(&self.path), index: self.index }
    }
}

impl Position {
    /// The first statement of a line.
    pub fn start(line: Option<u32>) -> (r: Position)
        ensures
            r@ == PositionView::start(line),
    {
        Position { line, path: Vec::new(), index: 0 }
    }

    /// The position behind this one in the same list.
    pub fn next(&self) -> (r: Position)
        ensures
            r@ == self@.next(),
    {
        Position { line: self.line, path: copy_path(&self.path), index: bumped(self.index) }
    }

    /// The first statement of a part of the statement at this position.
    pub fn enter(&self, branch: Branch) -> (r: Position)
        ensures
            r@ == self@.enter(branch),
    {
        let mut path = copy_path(&self.path);
        path.push(Hop { index: self.index, branch });
        Position { line: self.line, path, index: 0 }
    }

    /// Where the list of this position is left once it has been run through.
    pub fn leave(&self) -> (r: Position)
        requires
            self.path@.len() > 0,
        ensures
            r@ == self@.leave(),
    {
        let mut path = copy_path(&self.path);
        let hop = path.pop().unwrap();
        let index: usize = if hop.branch == Branch::Body {
            hop.index
        } else {
            bumped(hop.index)
        };
        Position { line: self.line, path, index }
    }
}

/// A `FOR` loop that is running.
#[derive(Debug)]
pub struct ForLoopState {
    pub variable: String,
    pub end_value: Double,
    pub step: Double,
    pub resume: Position,
}

impl View for ForLoopState {
    type V = LoopView;

    open spec fn view(&self) -> LoopView {
        LoopView {
            variable: self.variable@,
            end_value: self.end_value,
            step: self.step,
            resume: self.resume@,
        }
    }
}

/// What a program asks of the files.
#[derive(Debug)]
pub enum FileRequest {
    /// Open the file of the given name under the given number.
    Open(i32, String, FileMode),
    /// Close the file of the given number.
    Close(i32),
    /// Close every file.
    CloseAll,
}

impl View for FileRequest {
    type V = FileRequestView;

    open spec fn view(&self) -> FileRequestView {
        match self {
            FileRequest::Open(n, name, mode) => FileRequestView::Open(*n, name@, *mode),
            FileRequest::Close(n) => FileRequestView::Close(*n),
            FileRequest::CloseAll => FileRequestView::CloseAll,
        }
    }
}

/// The views of a list of positions.
pub open spec fn position_views(positions: Seq<Position>) -> Seq<PositionView> {
    Seq::new(positions.len(), |i: int| positions[i]@)
}

/// The views of a list of loops.
pub open spec fn loop_views(loops: Seq<ForLoopState>) -> Seq<LoopView> {
    Seq::new(loops.len(), |i: int| loops[i]@)
}

/// The views of a list of requests.
pub open spec fn request_views(requests: Seq<FileRequest>) -> Seq<FileRequestView> {
    Seq::new(requests.len(), |i: int| requests[i]@)
}

/// The view of a position that may be absent.
pub open spec fn optional_position(position: Option<Position>) -> Option<PositionView> {
    match position {
        Some(p) => Some(p@),
        None => None,
    }
}

/// The list that a path leads to from the list `top`.
pub fn block<'a>(top: &'a Vec<AstNode>, path: &Vec<Hop>) -> (r: Option<&'a Vec<AstNode>>)
    ensures
        match r {
            Some(list) => block_at(node_views(top@), path@) == Some(node_views(list@)),
            None => block_at(node_views(top@), path@) is None,
        },
{
    let mut current: &Vec<AstNode> = top;
    let mut i: usize = 0;
    assert(path@.skip(0) =~= path@);
    while i < path.len()
        invariant
            i <= path.len(),
            block_at(node_views(top@), path@) == block_at(node_views(current@), path@.skip(i as int)),
        decreases path.len() - i,
    {
        let hop = path[i];
        proof {
            assert(path@.skip(i as int)[0] == hop);
            assert(path@.skip(i as int).drop_first() =~= path@.skip(i + 1));
        }
        if hop.index >= current.len() {
            return None;
        }
        let inner: Option<&Vec<AstNode>> = match &current[hop.index] {
            AstNode::If(_, then_part, else_part) => {
                if hop.branch == Branch::Then {
                    Some(then_part)
                } else if hop.branch == Branch::Else {
                    match else_part {
                        Some(list) => Some(list),
                        None => None,
                    }
                } else {
                    None
                }
            },
            AstNode::While(_, body) => {
                if hop.branch == Branch::Body {
                    Some(body)
                } else {
                    None
                }
            },
            AstNode::Program(list) => {
                if hop.branch == Branch::Block {
                    Some(list)
                } else {
                    None
                }
            },
            _ => None,
        };
        match inner {
            Some(list) => {
                current = list;
            },
            None => {
                return None;
            },
        }
        i = i + 1;
    }
    Some(current)
}

/// The list that holds the statement at a position.
pub fn list<'a>(program: &'a Program, direct: &'a Vec<AstNode>, at: &Position) -> (r: Option<
    &'a Vec<AstNode>,
>)
    ensures
        match r {
            Some(found) => list_at(program@, node_views(direct@), at@) == Some(node_views(found@)),
            None => list_at(program@, node_views(direct@), at@) is None,
        },
{
    let top: &Vec<AstNode> = match at.line {
        Some(n) => match program.statements(n) {
            Some(statements) => statements,
            None => {
                return None;
            },
        },
        None => direct,
    };
    block(top, &at.path)
}

/// The state of a session.
pub struct Machine {
    variables: Environment,
    position: Option<Position>,
    call_stack: Vec<Position>,
    for_stack: Vec<ForLoopState>,
    data_items: Vec<Value>,
    data_pointer: usize,
    output: String,
    screen: Screen,
    files: FileManager,
    requests: Vec<FileRequest>,
    rng: u64,
    clock: u64,
    input: Vec<String>,
}

impl View for Machine {
    type V = MachineView;

    closed spec fn view(&self) -> MachineView {
        MachineView {
            variables: self.variables@,
            position: optional_position(self.position),
            call_stack: position_views(self.call_stack@),
            for_stack: loop_views(self.for_stack@),
            data: value_views(self.data_items@),
            data_pointer: self.data_pointer as nat,
            output: self.output@,
            screen: self.screen@,
            files: self.files@,
            requests: request_views(self.requests@),
            rng: self.rng,
            clock: self.clock,
            input: name_views(self.input@),
        }
    }
}

/// The generator starts from this state.
pub const FIRST_SEED: u64 = 12345;

impl Machine {
    /// The parts of the state that have an invariant hold theirs.
    pub closed spec fn wf(&self) -> bool {
        self.variables.wf() && self.screen.wf()
    }

    /// The state of a new session.
    pub fn new() -> (m: Machine)
        ensures
            m.wf(),
            m@ == MachineView::fresh(),
    {
        let m = Machine {
            variables: Environment::new(),
            position: None,
            call_stack: Vec::new(),
            for_stack: Vec::new(),
            data_items: Vec::new(),
            data_pointer: 0,
            output: String::new(),
            screen: Screen::new(80, 25),
            files: FileManager::new(),
            requests: Vec::new(),
            rng: FIRST_SEED,
            clock: 0,
            input: Vec::new(),
        };
        assert(m@.call_stack =~= Seq::empty());
        assert(m@.for_stack =~= Seq::empty());
        assert(m@.data =~= Seq::empty());
        assert(m@.requests =~= Seq::empty());
        assert(m@.input =~= Seq::empty());
        m
    }

    /// The value of a variable.
    pub fn variable(&self, name: &str) -> (r: Option<&Value>)
        requires
            self.wf(),
        ensures
            match r {
                Some(v) => self@.variables.contains_key(name@) && self@.variables[name@] == v@,
                None => !self@.variables.contains_key(name@),
            },
    {
        self.variables.get(name)
    }

    /// The number of variables that have a value.
    pub fn variable_count(&self) -> (n: usize)
        requires
            self.wf(),
        ensures
            self@.variables.dom().finite(),
            n == self@.variables.dom().len(),
    {
        self.variables.len()
    }

    /// What has been written and not yet taken.
    pub fn output(&self) -> (r: &String)
        ensures
            r@ == self@.output,
    {
        &self.output
    }

    /// Takes what has been written, and leaves nothing.
    pub fn take_output(&mut self) -> (r: String)
        requires
            old(self).wf(),
        ensures
            final(self).wf(),
            r@ == old(self)@.output,
            final(self)@ == (MachineView { output: Seq::empty(), ..old(self)@ }),
    {
        let mut taken = String::new();
        core::mem::swap(&mut self.output, &mut taken);
        taken
    }

    /// The screen.
    pub fn screen(&self) -> (r: &Screen)
        requires
            self.wf(),
        ensures
            r.wf(),
            r@ == self@.screen,
    {
        &self.screen
    }

    /// The table of open files.
    pub fn files(&self) -> (r: &FileManager)
        requires
            self.wf(),
        ensures
            r@ == self@.files,
    {
        &self.files
    }

    /// Settles a request to open the file `number` with what came of it at
    /// the host: `failure` holds the host's message where it could not open
    /// the file. Then the number is taken for closed again, and the failure
    /// is an input or output error with that message.
    pub fn settle_open(&mut self, number: i32, failure: Option<String>) -> (r: Result<(), Error>)
        requires
            old(self).wf(),
        ensures
            final(self).wf(),
            failure is None ==> r is Ok && final(self)@ == old(self)@,
            failure is Some ==> result_view(r) == Err::<(), ErrorView>(
                ErrorView::IoError(failure->Some_0@),
            ) && final(self)@ == (MachineView {
                files: old(self)@.files.remove(number),
                ..old(self)@
            }),
    {
        self.files.settle_open(number, failure)
    }

    /// Sets the time that the clock functions see, in seconds since the
    /// start of 1970.
    pub fn set_clock(&mut self, seconds: u64)
        requires
            old(self).wf(),
        ensures
            final(self).wf(),
            final(self)@ == (MachineView { clock: seconds, ..old(self)@ }),
    {
        self.clock = seconds;
    }

    /// Puts a line of input behind those that wait to be read.
    pub fn provide_input(&mut self, line: String)
        requires
            old(self).wf(),
        ensures
            final(self).wf(),
            final(self)@ == (MachineView { input: old(self)@.input.push(line@), ..old(self)@ }),
    {
        self.input.push(line);
        assert(self@.input =~= old(self)@.input.push(line@));
    }

    /// Takes the requests to the files, and leaves none.
    pub fn take_requests(&mut self) -> (r: Vec<FileRequest>)
        requires
            old(self).wf(),
        ensures
            final(self).wf(),
            request_views(r@) == old(self)@.requests,
            final(self)@ == (MachineView { requests: Seq::empty(), ..old(self)@ }),
    {
        let mut taken: Vec<FileRequest> = Vec::new();
        core::mem::swap(&mut self.requests, &mut taken);
        assert(self@.requests =~= Seq::empty());
        taken
    }

    /// Sets the position.
    pub fn set_position(&mut self, position: Option<Position>)
        requires
            old(self).wf(),
        ensures
            final(self).wf(),
            final(self)@ == (MachineView { position: optional_position(position), ..old(self)@ }),
    {
        self.position = position;
    }
}

/// The view of the signal or the failure in a result.
pub open spec fn signal_view(r: Result<Signal, Error>) -> Result<Signal, ErrorView> {
    result_view(r)
}

fn joined_text<F: Fn(FloatRequest) -> FloatReply>(values: &Vec<Value>, unit: &FloatUnit<F>) -> (r:
    String)
    ensures
        r@ == joined(unit.oracle(), value_views(values@)),
{
    let mut out = String::new();
    let mut i: usize = 0;
    while i < values.len()
        invariant
            i <= values.len(),
            out@ == joined(unit.oracle(), value_views(values@).take(i as int)),
        decreases values.len() - i,
    {
        let text = values[i].as_string(unit);
        let ghost before = out@;
        if i > 0 {
            out.push(' ');
        }
        out.append(text.as_str());
        proof {
            let all = value_views(values@);
            assert(all.take(i + 1).drop_last() =~= all.take(i as int));
            assert(all.take(i + 1).last() == values@[i as int]@);
            assert(out@ == joined(unit.oracle(), all.take(i + 1))) by {
                if i == 0 {
                    assert(all.take(0).len() == 0);
                    assert(out@ =~= text@);
                } else {
                    assert(out@ =~= before + seq![' '] + text@);
                }
            };
        }
        i = i + 1;
    }
    assert(value_views(values@).take(values@.len() as int) =~= value_views(values@));
    out
}

fn input_to_value<F: Fn(FloatRequest) -> FloatReply>(line: &String, unit: &FloatUnit<F>) -> (v: Value)
    ensures
        v@ == input_value(unit.oracle(), line@),
{
    let chars = to_chars(line.as_str());
    let (from, to) = trim_bounds(&chars);
    let s = string_of(&chars, from, to);
    let inner = to_chars(s.as_str());
    match parse_i32_chars(&inner) {
        Some(i) => Value::Integer(i),
        None => match unit.parse(s.as_str()) {
            Some(d) => Value::Double(d),
            None => Value::String(s),
        },
    }
}

fn coordinate(i: i32) -> (r: usize)
    ensures
        r == screen_coordinate(i),
{
    if i >= 1 {
        (i - 1) as usize
    } else if i == 0 {
        0
    } else {
        let m: u64 = (-(i as i64)) as u64;
        usize::MAX - (m as usize)
    }
}

fn byte_of(i: i32) -> (r: u8)
    ensures
        r == low_byte(i),
{
    let bits: u64 = if i >= 0 {
        i as u64
    } else {
        (i as i64 + 0x1_0000_0000) as u64
    };
    (bits % 256) as u8
}

fn kind_of(node: &AstNode) -> (r: StatementKind)
    ensures
        r == statement_kind(node@),
{
    match node {
        AstNode::Let(_, _) | AstNode::If(_, _, _) | AstNode::For(_, _, _, _) | AstNode::Next(_)
        | AstNode::While(_, _) | AstNode::Goto(_) | AstNode::Gosub(_) | AstNode::Return
        | AstNode::End | AstNode::Stop | AstNode::Program(_) => StatementKind::Flow,
        AstNode::Print(_) | AstNode::Input(_) | AstNode::Dim(_, _) | AstNode::Rem(_)
        | AstNode::Read(_) | AstNode::Data(_) | AstNode::Restore(_) | AstNode::Randomize(_)
        | AstNode::Swap(_, _) => StatementKind::Data,
        AstNode::Cls | AstNode::Locate(_, _) | AstNode::Color(_, _) | AstNode::Screen(_)
        | AstNode::Pset(_, _, _) | AstNode::DrawLine(_, _, _, _, _) | AstNode::Circle(_, _, _, _)
        | AstNode::Beep | AstNode::Sound(_, _) | AstNode::Open(_, _, _) | AstNode::Close(_) => StatementKind::Device,
        _ => StatementKind::Other,
    }
}

fn mode_of(word: &String) -> (r: FileMode)
    ensures
        r == mode_named(word@),
{
    let upper = uppercase_string(word.as_str());
    if is_word(&upper, "INPUT") || is_word(&upper, "I") {
        FileMode::Input
    } else if is_word(&upper, "APPEND") || is_word(&upper, "A") {
        FileMode::Append
    } else {
        FileMode::Output
    }
}

impl Machine {
    /// `self` is `before` but for the state of the random generator.
    pub open spec fn same_but_rng(&self, before: &Machine) -> bool {
        self.wf() && self@ == before@.with_rng(self@.rng)
    }

    fn moved(&mut self, at: &Position) -> (r: Result<Signal, Error>)
        requires
            old(self).wf(),
        ensures
            final(self).wf(),
            (final(self)@, signal_view(r)) == old(self)@.done(at@),
    {
        self.position = Some(at.next());
        Ok(Signal::Continue)
    }

    fn go_to(&mut self, to: Position) -> (r: Result<Signal, Error>)
        requires
            old(self).wf(),
        ensures
            final(self).wf(),
            signal_view(r) == Ok::<Signal, ErrorView>(Signal::Continue),
            final(self)@ == (MachineView { position: Some(to@), ..old(self)@ }),
    {
        self.position = Some(to);
        Ok(Signal::Continue)
    }

    fn eval<F: Fn(FloatRequest) -> FloatReply>(&mut self, e: &AstNode, unit: &FloatUnit<F>) -> (r:
        Result<Value, Error>)
        requires
            old(self).wf(),
        ensures
            final(self).same_but_rng(old(self)),
            (value_result_view(r), final(self)@.rng) == evaluate(
                    unit.oracle(),
                    old(self)@.variables,
                    old(self)@.rng,
                    old(self)@.clock,
                    e@,
                ),
    {
        evaluate_expression(e, &self.variables, &mut self.rng, self.clock, unit)
    }

    fn eval_list<F: Fn(FloatRequest) -> FloatReply>(
        &mut self,
        exprs: &Vec<AstNode>,
        unit: &FloatUnit<F>,
    ) -> (r: Result<Vec<Value>, Error>)
        requires
            old(self).wf(),
        ensures
            final(self).same_but_rng(old(self)),
            (values_result_view(r), final(self)@.rng) == evaluate_all(
                    unit.oracle(),
                    old(self)@.variables,
                    old(self)@.rng,
                    old(self)@.clock,
                    node_views(exprs@),
                    exprs@.len() as int,
                ),
    {
        evaluate_arguments(exprs, &self.variables, &mut self.rng, self.clock, unit)
    }

    fn eval_double<F: Fn(FloatRequest) -> FloatReply>(&mut self, e: &AstNode, unit: &FloatUnit<F>) -> (r:
        Result<Double, Error>)
        requires
            old(self).wf(),
        ensures
            final(self).same_but_rng(old(self)),
            (result_view(r), final(self)@.rng) == evaluate_double(
                    unit.oracle(),
                    old(self)@,
                    old(self)@.rng,
                    e@,
                ),
    {
        match self.eval(e, unit) {
            Ok(v) => v.as_double(unit),
            Err(e) => Err(e),
        }
    }

    fn eval_integer<F: Fn(FloatRequest) -> FloatReply>(&mut self, e: &AstNode, unit: &FloatUnit<F>) -> (r:
        Result<i32, Error>)
        requires
            old(self).wf(),
        ensures
            final(self).same_but_rng(old(self)),
            (result_view(r), final(self)@.rng) == evaluate_integer(
                    unit.oracle(),
                    old(self)@,
                    old(self)@.rng,
                    e@,
                ),
    {
        match self.eval(e, unit) {
            Ok(v) => v.as_integer(),
            Err(e) => Err(e),
        }
    }

    fn eval_colour<F: Fn(FloatRequest) -> FloatReply>(
        &mut self,
        e: &Option<Box<AstNode>>,
        unit: &FloatUnit<F>,
    ) -> (r: Result<Option<u8>, Error>)
        requires
            old(self).wf(),
        ensures
            final(self).same_but_rng(old(self)),
            (result_view(r), final(self)@.rng) == evaluate_colour(
                    unit.oracle(),
                    old(self)@,
                    old(self)@.rng,
                    optional_view(*e),
                ),
    {
        match e {
            Some(expr) => match self.eval_integer(expr, unit) {
                Ok(i) => Ok(Some(byte_of(i))),
                Err(err) => Err(err),
            },
            None => Ok(None),
        }
    }

    fn execute_print<F: Fn(FloatRequest) -> FloatReply>(
        &mut self,
        exprs: &Vec<AstNode>,
        at: &Position,
        unit: &FloatUnit<F>,
    ) -> (r: Result<Signal, Error>)
        requires
            old(self).wf(),
        ensures
            final(self).wf(),
            (final(self)@, signal_view(r)) == old(self)@.print(
                    unit.oracle(),
                    at@,
                    node_views(exprs@),
                ),
    {
        reveal(MachineView::print);
        match self.eval_list(exprs, unit) {
            Ok(values) => {
                let line = joined_text(&values, unit);
                let ghost base = self.output@;
                self.output.append(line.as_str());
                self.output.push('\n');
                assert(self.output@ =~= base + line@ + seq!['\n']);
                self.moved(at)
            },
            Err(e) => Err(e),
        }
    }

    fn execute_let<F: Fn(FloatRequest) -> FloatReply>(
        &mut self,
        name: &String,
        expr: &AstNode,
        at: &Position,
        unit: &FloatUnit<F>,
    ) -> (r: Result<Signal, Error>)
        requires
            old(self).wf(),
        ensures
            final(self).wf(),
            (final(self)@, signal_view(r)) == old(self)@.assign(
                    unit.oracle(),
                    at@,
                    name@,
                    expr@,
                ),
    {
        reveal(MachineView::assign);
        match self.eval(expr, unit) {
            Ok(value) => {
                self.variables.set(name.clone(), value);
                self.moved(at)
            },
            Err(e) => Err(e),
        }
    }

    fn execute_if<F: Fn(FloatRequest) -> FloatReply>(
        &mut self,
        condition: &AstNode,
        has_else: bool,
        at: &Position,
        unit: &FloatUnit<F>,
    ) -> (r: Result<Signal, Error>)
        requires
            old(self).wf(),
        ensures
            final(self).wf(),
            (final(self)@, signal_view(r)) == old(self)@.branch(
                    unit.oracle(),
                    at@,
                    condition@,
                    has_else,
                ),
    {
        reveal(MachineView::branch);
        match self.eval(condition, unit) {
            Ok(value) => {
                if value.is_true() {
                    self.go_to(at.enter(Branch::Then))
                } else if has_else {
                    self.go_to(at.enter(Branch::Else))
                } else {
                    self.moved(at)
                }
            },
            Err(e) => Err(e),
        }
    }

    fn execute_while<F: Fn(FloatRequest) -> FloatReply>(
        &mut self,
        condition: &AstNode,
        at: &Position,
        unit: &FloatUnit<F>,
    ) -> (r: Result<Signal, Error>)
        requires
            old(self).wf(),
        ensures
            final(self).wf(),
            (final(self)@, signal_view(r)) == old(self)@.repeat(
                    unit.oracle(),
                    at@,
                    condition@,
                ),
    {
        reveal(MachineView::repeat);
        match self.eval(condition, unit) {
            Ok(value) => {
                if value.is_true() {
                    self.go_to(at.enter(Branch::Body))
                } else {
                    self.moved(at)
                }
            },
            Err(e) => Err(e),
        }
    }

    fn execute_for<F: Fn(FloatRequest) -> FloatReply>(
        &mut self,
        var: &String,
        start: &AstNode,
        end: &AstNode,
        step: &Option<Box<AstNode>>,
        at: &Position,
        unit: &FloatUnit<F>,
    ) -> (r: Result<Signal, Error>)
        requires
            old(self).wf(),
        ensures
            final(self).wf(),
            (final(self)@, signal_view(r)) == old(self)@.begin_loop(
                    unit.oracle(),
                    at@,
                    var@,
                    start@,
                    end@,
                    optional_view(*step),
                ),
    {
        reveal(MachineView::begin_loop);
        let start_val = match self.eval_double(start, unit) {
            Ok(d) => d,
            Err(e) => {
                return Err(e);
            },
        };
        let end_val = match self.eval_double(end, unit) {
            Ok(d) => d,
            Err(e) => {
                return Err(e);
            },
        };
        let step_val = match step {
            Some(s) => match self.eval_double(s, unit) {
                Ok(d) => d,
                Err(e) => {
                    return Err(e);
                },
            },
            None => Double::from_i32(1),
        };
        self.variables.set(var.clone(), Value::Double(start_val));
        let ghost before = self.for_stack@;
        let state = ForLoopState {
            variable: var.clone(),
            end_value: end_val,
            step: step_val,
            resume: at.next(),
        };
        self.for_stack.push(state);
        assert(loop_views(self.for_stack@) =~= loop_views(before).push(state@));
        self.moved(at)
    }

    fn execute_next<F: Fn(FloatRequest) -> FloatReply>(
        &mut self,
        var: &String,
        at: &Position,
        unit: &FloatUnit<F>,
    ) -> (r: Result<Signal, Error>)
        requires
            old(self).wf(),
        ensures
            final(self).wf(),
            (final(self)@, signal_view(r)) == old(self)@.next_loop(unit.oracle(), at@, var@),
    {
        reveal(MachineView::next_loop);
        let depth: usize = self.for_stack.len();
        if depth == 0 {
            return Err(Error::RuntimeError(String::from_str("NEXT without FOR")));
        }
        let name = self.for_stack[depth - 1].variable.clone();
        let step = self.for_stack[depth - 1].step;
        let end_value = self.for_stack[depth - 1].end_value;
        if var.as_str().unicode_len() != 0 && name != *var {
            let mut msg = String::from_str("NEXT variable mismatch: expected ");
            msg.append(name.as_str());
            msg.append(", got ");
            msg.append(var.as_str());
            return Err(Error::RuntimeError(msg));
        }
        let current = match self.variables.get(name.as_str()) {
            Some(v) => match v.as_double(unit) {
                Ok(d) => d,
                Err(e) => {
                    return Err(e);
                },
            },
            None => {
                return Err(
                    Error::UndefinedError(concat3("Variable ", name.as_str(), " not defined")),
                );
            },
        };
        let new_value = unit.binary(FloatOp::Add, current, step);
        self.variables.set(name, Value::Double(new_value));
        let should_continue: bool = if Double::zero().lt(step) {
            new_value.le(end_value)
        } else {
            end_value.le(new_value)
        };
        if should_continue {
            let resume = self.for_stack[depth - 1].resume.clone();
            self.go_to(resume)
        } else {
            let ghost before = self.for_stack@;
            self.for_stack.pop();
            assert(loop_views(self.for_stack@) =~= loop_views(before).drop_last());
            self.moved(at)
        }
    }

    fn execute_goto(&mut self, line: u32, program: &Program) -> (r: Result<Signal, Error>)
        requires
            old(self).wf(),
        ensures
            final(self).wf(),
            (final(self)@, signal_view(r)) == old(self)@.jump(program@, line),
    {
        reveal(MachineView::jump);
        if program.contains(line) {
            self.go_to(Position::start(Some(line)))
        } else {
            let mut msg = String::from_str("Line ");
            push_decimal(&mut msg, line as i64);
            msg.append(" not found");
            Err(Error::LineNumberError(msg))
        }
    }

    fn execute_gosub(&mut self, line: u32, at: &Position, program: &Program) -> (r: Result<
        Signal,
        Error,
    >)
        requires
            old(self).wf(),
        ensures
            final(self).wf(),
            (final(self)@, signal_view(r)) == old(self)@.call(program@, at@, line),
    {
        reveal(MachineView::jump);
        reveal(MachineView::call);
        let ghost before = self.call_stack@;
        let back = at.next();
        self.call_stack.push(back);
        assert(position_views(self.call_stack@) =~= position_views(before).push(at@.next()));
        self.execute_goto(line, program)
    }

    fn execute_return(&mut self) -> (r: Result<Signal, Error>)
        requires
            old(self).wf(),
        ensures
            final(self).wf(),
            (final(self)@, signal_view(r)) == old(self)@.come_back(),
    {
        reveal(MachineView::come_back);
        let ghost before = self.call_stack@;
        match self.call_stack.pop() {
            Some(back) => {
                assert(position_views(self.call_stack@) =~= position_views(before).drop_last());
                self.go_to(back)
            },
            None => Err(Error::RuntimeError(String::from_str("RETURN without GOSUB"))),
        }
    }

    fn execute_read(&mut self, names: &Vec<String>, at: &Position) -> (r: Result<Signal, Error>)
        requires
            old(self).wf(),
        ensures
            final(self).wf(),
            (final(self)@, signal_view(r)) == old(self)@.read(at@, name_views(names@)),
    {
        reveal(MachineView::read);
        let mut i: usize = 0;
        while i < names.len()
            invariant
                i <= names.len(),
                self.wf(),
                (self@, true) == old(self)@.read_into(name_views(names@), i as int),
            decreases names.len() - i,
        {
            if self.data_pointer >= self.data_items.len() {
                proof {
                    reveal(MachineView::read);
                    lemma_read_stops(old(self)@, name_views(names@), i + 1, names@.len() as int);
                }
                return Err(Error::RuntimeError(String::from_str("Out of DATA")));
            }
            let value = self.data_items[self.data_pointer].clone();
            self.variables.set(names[i].clone(), value);
            self.data_pointer = self.data_pointer + 1;
            i = i + 1;
        }
        self.moved(at)
    }

    /// Puts the values of the expressions behind the data, up to the first
    /// that fails.
    pub fn store_data<F: Fn(FloatRequest) -> FloatReply>(
        &mut self,
        exprs: &Vec<AstNode>,
        unit: &FloatUnit<F>,
    ) -> (r: Result<(), Error>)
        requires
            old(self).wf(),
        ensures
            final(self).wf(),
            (
                    final(self)@,
                    match r {
                        Ok(_) => None,
                        Err(e) => Some(e@),
                    },
                ) == old(self)@.store_data(unit.oracle(), node_views(exprs@), exprs@.len() as int),
    {
        let mut i: usize = 0;
        while i < exprs.len()
            invariant
                i <= exprs.len(),
                self.wf(),
                (self@, None::<ErrorView>) == old(self)@.store_data(
                        unit.oracle(),
                        node_views(exprs@),
                        i as int,
                    ),
            decreases exprs.len() - i,
        {
            match self.eval(&exprs[i], unit) {
                Ok(value) => {
                    let ghost before = self.data_items@;
                    self.data_items.push(value);
                    assert(value_views(self.data_items@) =~= value_views(before).push(value@));
                },
                Err(e) => {
                    proof {
                        assert((self@, Some(e@))
                            == old(self)@.store_data(unit.oracle(), node_views(exprs@), exprs@.len() as int)) by {
                            lemma_store_stops(
                                old(self)@,
                                unit.oracle(),
                                node_views(exprs@),
                                i + 1,
                                exprs@.len() as int,
                            );
                        };
                    }
                    return Err(e);
                },
            }
            i = i + 1;
        }
        Ok(())
    }

    fn execute_swap(&mut self, var1: &String, var2: &String, at: &Position) -> (r: Result<Signal, Error>)
        requires
            old(self).wf(),
        ensures
            final(self).wf(),
            (final(self)@, signal_view(r)) == old(self)@.swap(at@, var1@, var2@),
    {
        reveal(MachineView::swap);
        let val1 = match self.variables.get(var1.as_str()) {
            Some(v) => v.clone(),
            None => {
                return Err(
                    Error::UndefinedError(concat3("Variable ", var1.as_str(), " not defined")),
                );
            },
        };
        let val2 = match self.variables.get(var2.as_str()) {
            Some(v) => v.clone(),
            None => {
                return Err(
                    Error::UndefinedError(concat3("Variable ", var2.as_str(), " not defined")),
                );
            },
        };
        self.variables.set(var1.clone(), val2);
        self.variables.set(var2.clone(), val1);
        self.moved(at)
    }
}

impl Machine {
    fn write(&mut self, text: &str)
        requires
            old(self).wf(),
        ensures
            final(self).wf(),
            final(self)@ == (MachineView { output: old(self)@.output + text@, ..old(self)@ }),
    {
        self.output.append(text);
    }

    fn execute_cls(&mut self, at: &Position) -> (r: Result<Signal, Error>)
        requires
            old(self).wf(),
        ensures
            final(self).wf(),
            (final(self)@, signal_view(r)) == old(self)@.clear(at@),
    {
        self.screen.cls();
        self.write("\x1B[2J\x1B[1;1H\n");
        self.moved(at)
    }

    fn execute_locate<F: Fn(FloatRequest) -> FloatReply>(
        &mut self,
        row: &AstNode,
        col: &AstNode,
        at: &Position,
        unit: &FloatUnit<F>,
    ) -> (r: Result<Signal, Error>)
        requires
            old(self).wf(),
        ensures
            final(self).wf(),
            (final(self)@, signal_view(r)) == old(self)@.locate(
                    unit.oracle(),
                    at@,
                    row@,
                    col@,
                ),
    {
        reveal(MachineView::locate);
        let r = match self.eval_integer(row, unit) {
            Ok(i) => i,
            Err(e) => {
                return Err(e);
            },
        };
        let c = match self.eval_integer(col, unit) {
            Ok(i) => i,
            Err(e) => {
                return Err(e);
            },
        };
        match self.screen.locate(coordinate(r), coordinate(c)) {
            Ok(_) => self.moved(at),
            Err(e) => Err(e),
        }
    }

    fn execute_color<F: Fn(FloatRequest) -> FloatReply>(
        &mut self,
        fg: &Option<Box<AstNode>>,
        bg: &Option<Box<AstNode>>,
        at: &Position,
        unit: &FloatUnit<F>,
    ) -> (r: Result<Signal, Error>)
        requires
            old(self).wf(),
        ensures
            final(self).wf(),
            (final(self)@, signal_view(r)) == old(self)@.colour(
                    unit.oracle(),
                    at@,
                    optional_view(*fg),
                    optional_view(*bg),
                ),
    {
        reveal(MachineView::colour);
        let fore = match self.eval_colour(fg, unit) {
            Ok(c) => c,
            Err(e) => {
                return Err(e);
            },
        };
        let back = match self.eval_colour(bg, unit) {
            Ok(c) => c,
            Err(e) => {
                return Err(e);
            },
        };
        self.screen.color(fore, back);
        self.moved(at)
    }

    fn execute_pset<F: Fn(FloatRequest) -> FloatReply>(
        &mut self,
        x: &AstNode,
        y: &AstNode,
        color: &Option<Box<AstNode>>,
        at: &Position,
        unit: &FloatUnit<F>,
    ) -> (r: Result<Signal, Error>)
        requires
            old(self).wf(),
        ensures
            final(self).wf(),
            (final(self)@, signal_view(r)) == old(self)@.draw(
                    unit.oracle(),
                    at@,
                    seq![x@, y@],
                    optional_view(*color),
                ),
    {
        reveal(MachineView::draw);
        reveal_with_fuel(MachineView::integers, 3);
        let x_val = match self.eval_integer(x, unit) {
            Ok(i) => i,
            Err(e) => {
                return Err(e);
            },
        };
        let y_val = match self.eval_integer(y, unit) {
            Ok(i) => i,
            Err(e) => {
                return Err(e);
            },
        };
        let c_val = match self.eval_colour(color, unit) {
            Ok(c) => c,
            Err(e) => {
                return Err(e);
            },
        };
        match self.screen.pset(x_val, y_val, c_val) {
            Ok(_) => self.moved(at),
            Err(e) => Err(e),
        }
    }

    fn execute_circle<F: Fn(FloatRequest) -> FloatReply>(
        &mut self,
        x: &AstNode,
        y: &AstNode,
        radius: &AstNode,
        color: &Option<Box<AstNode>>,
        at: &Position,
        unit: &FloatUnit<F>,
    ) -> (r: Result<Signal, Error>)
        requires
            old(self).wf(),
        ensures
            final(self).wf(),
            (final(self)@, signal_view(r)) == old(self)@.draw(
                    unit.oracle(),
                    at@,
                    seq![x@, y@, radius@],
                    optional_view(*color),
                ),
    {
        reveal(MachineView::draw);
        reveal_with_fuel(MachineView::integers, 4);
        let x_val = match self.eval_integer(x, unit) {
            Ok(i) => i,
            Err(e) => {
                return Err(e);
            },
        };
        let y_val = match self.eval_integer(y, unit) {
            Ok(i) => i,
            Err(e) => {
                return Err(e);
            },
        };
        let r_val = match self.eval_integer(radius, unit) {
            Ok(i) => i,
            Err(e) => {
                return Err(e);
            },
        };
        let c_val = match self.eval_colour(color, unit) {
            Ok(c) => c,
            Err(e) => {
                return Err(e);
            },
        };
        match self.screen.circle(x_val, y_val, r_val, c_val) {
            Ok(_) => self.moved(at),
            Err(e) => Err(e),
        }
    }

    fn execute_line<F: Fn(FloatRequest) -> FloatReply>(
        &mut self,
        x1: &AstNode,
        y1: &AstNode,
        x2: &AstNode,
        y2: &AstNode,
        color: &Option<Box<AstNode>>,
        at: &Position,
        unit: &FloatUnit<F>,
    ) -> (r: Result<Signal, Error>)
        requires
            old(self).wf(),
        ensures
            final(self).wf(),
            (final(self)@, signal_view(r)) == old(self)@.draw(
                    unit.oracle(),
                    at@,
                    seq![x1@, y1@, x2@, y2@],
                    optional_view(*color),
                ),
    {
        reveal(MachineView::draw);
        reveal_with_fuel(MachineView::integers, 5);
        let x1_val = match self.eval_integer(x1, unit) {
            Ok(i) => i,
            Err(e) => {
                return Err(e);
            },
        };
        let y1_val = match self.eval_integer(y1, unit) {
            Ok(i) => i,
            Err(e) => {
                return Err(e);
            },
        };
        let x2_val = match self.eval_integer(x2, unit) {
            Ok(i) => i,
            Err(e) => {
                return Err(e);
            },
        };
        let y2_val = match self.eval_integer(y2, unit) {
            Ok(i) => i,
            Err(e) => {
                return Err(e);
            },
        };
        let c_val = match self.eval_colour(color, unit) {
            Ok(c) => c,
            Err(e) => {
                return Err(e);
            },
        };
        match self.screen.line(x1_val, y1_val, x2_val, y2_val, c_val) {
            Ok(_) => self.moved(at),
            Err(e) => Err(e),
        }
    }

    /// Evaluates one expression and writes nothing.
    fn execute_quiet<F: Fn(FloatRequest) -> FloatReply>(
        &mut self,
        e: &AstNode,
        at: &Position,
        unit: &FloatUnit<F>,
    ) -> (r: Result<Signal, Error>)
        requires
            old(self).wf(),
        ensures
            final(self).wf(),
            (final(self)@, signal_view(r)) == old(self)@.evaluate_then_write(
                    unit.oracle(),
                    at@,
                    seq![e@],
                    Seq::empty(),
                ),
    {
        proof {
            reveal_strlit("");
            assert(""@ =~= Seq::<char>::empty());
        }
        self.execute_one(e, "", at, unit)
    }

    /// Evaluates one expression, then writes `text`.
    fn execute_one<F: Fn(FloatRequest) -> FloatReply>(
        &mut self,
        e: &AstNode,
        text: &str,
        at: &Position,
        unit: &FloatUnit<F>,
    ) -> (r: Result<Signal, Error>)
        requires
            old(self).wf(),
        ensures
            final(self).wf(),
            (final(self)@, signal_view(r)) == old(self)@.evaluate_then_write(
                    unit.oracle(),
                    at@,
                    seq![e@],
                    text@,
                ),
    {
        reveal(MachineView::evaluate_then_write);
        reveal_with_fuel(evaluate_all, 2);
        match self.eval(e, unit) {
            Ok(_) => {
                self.write(text);
                self.moved(at)
            },
            Err(e) => Err(e),
        }
    }

    fn execute_sound<F: Fn(FloatRequest) -> FloatReply>(
        &mut self,
        freq: &AstNode,
        duration: &AstNode,
        at: &Position,
        unit: &FloatUnit<F>,
    ) -> (r: Result<Signal, Error>)
        requires
            old(self).wf(),
        ensures
            final(self).wf(),
            (final(self)@, signal_view(r)) == old(self)@.evaluate_then_write(
                    unit.oracle(),
                    at@,
                    seq![freq@, duration@],
                    bell_code(),
                ),
    {
        reveal(MachineView::evaluate_then_write);
        reveal_with_fuel(evaluate_all, 3);
        match self.eval(freq, unit) {
            Ok(_) => {},
            Err(e) => {
                return Err(e);
            },
        }
        match self.eval(duration, unit) {
            Ok(_) => {
                self.write("\x07\n");
                self.moved(at)
            },
            Err(e) => Err(e),
        }
    }

    fn execute_open<F: Fn(FloatRequest) -> FloatReply>(
        &mut self,
        filename: &String,
        filenum: &AstNode,
        mode: &String,
        at: &Position,
        unit: &FloatUnit<F>,
    ) -> (r: Result<Signal, Error>)
        requires
            old(self).wf(),
        ensures
            final(self).wf(),
            (final(self)@, signal_view(r)) == old(self)@.open_file(
                    unit.oracle(),
                    at@,
                    filename@,
                    filenum@,
                    mode@,
                ),
    {
        reveal(MachineView::open_file);
        match self.eval_integer(filenum, unit) {
            Ok(num) => {
                let file_mode = mode_of(mode);
                match self.files.open(num, filename.as_str(), file_mode) {
                    Ok(_) => {},
                    Err(e) => {
                        return Err(e);
                    },
                }
                let ghost before = self.requests@;
                let request = FileRequest::Open(num, filename.clone(), file_mode);
                self.requests.push(request);
                assert(request_views(self.requests@) =~= request_views(before).push(request@));
                self.position = Some(at.next());
                Ok(Signal::AwaitingHost)
            },
            Err(e) => Err(e),
        }
    }

    fn execute_close(&mut self, nums: &Vec<i32>, at: &Position) -> (r: Result<Signal, Error>)
        requires
            old(self).wf(),
        ensures
            final(self).wf(),
            (final(self)@, signal_view(r)) == old(self)@.close_files(at@, nums@),
    {
        reveal(MachineView::close_files);
        if nums.len() == 0 {
            let ghost before = self.requests@;
            let _ = self.files.close_all();
            self.requests.push(FileRequest::CloseAll);
            assert(request_views(self.requests@) =~= request_views(before).push(
                FileRequestView::CloseAll,
            ));
            self.position = Some(at.next());
            return Ok(Signal::AwaitingHost);
        }
        let mut i: usize = 0;
        while i < nums.len()
            invariant
                i <= nums.len(),
                self.wf(),
                (self@, None::<i32>) == old(self)@.closing(nums@, i as int),
            decreases nums.len() - i,
        {
            let ghost so_far = self.requests@;
            match self.files.close(nums[i]) {
                Ok(_) => {},
                Err(e) => {
                    proof {
                        reveal(MachineView::close_files);
                        lemma_closing_stops(old(self)@, nums@, i + 1, nums@.len() as int);
                    }
                    return Err(e);
                },
            }
            self.requests.push(FileRequest::Close(nums[i]));
            assert(request_views(self.requests@) =~= request_views(so_far).push(
                FileRequestView::Close(nums@[i as int]),
            ));
            i = i + 1;
        }
        self.position = Some(at.next());
        Ok(Signal::AwaitingHost)
    }

    fn execute_input<F: Fn(FloatRequest) -> FloatReply>(
        &mut self,
        vars: &Vec<String>,
        at: &Position,
        unit: &FloatUnit<F>,
    ) -> (r: Result<Signal, Error>)
        requires
            old(self).wf(),
        ensures
            final(self).wf(),
            (final(self)@, signal_view(r)) == old(self)@.take_input(
                    unit.oracle(),
                    at@,
                    name_views(vars@),
                ),
    {
        reveal(MachineView::take_input);
        if self.input.len() < vars.len() {
            return Ok(Signal::AwaitingInput);
        }
        let mut i: usize = 0;
        assert(self@.input.skip(0) =~= self@.input);
        while i < vars.len()
            invariant
                i <= vars.len(),
                vars.len() <= old(self).input.len(),
                self.wf(),
                self@.input == old(self)@.input.skip(i as int),
                self@ == (MachineView {
                    variables: self@.variables,
                    input: self@.input,
                    ..old(self)@
                }),
                self@.variables == old(self)@.bound_input(
                        unit.oracle(),
                        name_views(vars@),
                        i as int,
                    ),
            decreases vars.len() - i,
        {
            let ghost before = self@.input;
            let ghost lines_before = self.input@;
            assert(before.len() == old(self)@.input.len() - i);
            let line = self.input.remove(0);
            assert(line == lines_before[0]);
            assert(before[0] == lines_before[0]@);
            assert(before[0] == old(self)@.input[i as int]);
            assert(self@.input =~= before.skip(1));
            assert(before.skip(1) =~= old(self)@.input.skip(i + 1));
            assert(line@ == old(self)@.input[i as int]);
            let value = input_to_value(&line, unit);
            self.variables.set(vars[i].clone(), value);
            i = i + 1;
        }
        self.moved(at)
    }

    fn run_flow<F: Fn(FloatRequest) -> FloatReply>(
        &mut self,
        node: &AstNode,
        at: &Position,
        program: &Program,
        unit: &FloatUnit<F>,
    ) -> (r: Result<Signal, Error>)
        requires
            old(self).wf(),
            statement_kind(node@) == StatementKind::Flow,
        ensures
            final(self).wf(),
            (final(self)@, signal_view(r)) == old(self)@.execute_flow(
                    unit.oracle(),
                    program@,
                    at@,
                    node@,
                ),
    {
        match node {
            AstNode::Let(name, expr) => self.execute_let(name, expr, at, unit),
            AstNode::If(condition, _, else_stmts) => self.execute_if(
                condition,
                else_stmts.is_some(),
                at,
                unit,
            ),
            AstNode::For(var, start, end, step) => self.execute_for(var, start, end, step, at, unit),
            AstNode::Next(var) => self.execute_next(var, at, unit),
            AstNode::While(condition, _) => self.execute_while(condition, at, unit),
            AstNode::Goto(line) => self.execute_goto(*line, program),
            AstNode::Gosub(line) => self.execute_gosub(*line, at, program),
            AstNode::Return => self.execute_return(),
            AstNode::Program(_) => self.go_to(at.enter(Branch::Block)),
            _ => Err(Error::ProgramEnd),
        }
    }

    fn run_data<F: Fn(FloatRequest) -> FloatReply>(
        &mut self,
        node: &AstNode,
        at: &Position,
        unit: &FloatUnit<F>,
    ) -> (r: Result<Signal, Error>)
        requires
            old(self).wf(),
            statement_kind(node@) == StatementKind::Data,
        ensures
            final(self).wf(),
            (final(self)@, signal_view(r)) == old(self)@.execute_data(
                    unit.oracle(),
                    at@,
                    node@,
                ),
    {
        match node {
            AstNode::Print(exprs) => self.execute_print(exprs, at, unit),
            AstNode::Input(vars) => self.execute_input(vars, at, unit),
            AstNode::Read(vars) => self.execute_read(vars, at),
            AstNode::Data(values) => self.execute_data(values, at, unit),
            AstNode::Restore(_) => self.execute_restore(at),
            AstNode::Randomize(seed) => self.execute_randomize(seed, at, unit),
            AstNode::Swap(var1, var2) => self.execute_swap(var1, var2, at),
            AstNode::Dim(_, _) => self.execute_dim(at),
            _ => self.moved(at),
        }
    }

    fn execute_data<F: Fn(FloatRequest) -> FloatReply>(
        &mut self,
        values: &Vec<AstNode>,
        at: &Position,
        unit: &FloatUnit<F>,
    ) -> (r: Result<Signal, Error>)
        requires
            old(self).wf(),
        ensures
            final(self).wf(),
            (final(self)@, signal_view(r)) == old(self)@.execute_data(
                    unit.oracle(),
                    at@,
                    AstView::Data(node_views(values@)),
                ),
    {
        if at.line.is_none() {
            match self.store_data(values, unit) {
                Ok(_) => self.moved(at),
                Err(e) => Err(e),
            }
        } else {
            self.moved(at)
        }
    }

    fn execute_restore(&mut self, at: &Position) -> (r: Result<Signal, Error>)
        requires
            old(self).wf(),
        ensures
            final(self).wf(),
            (final(self)@, signal_view(r)) == (MachineView { data_pointer: 0, ..old(self)@ }).done(at@),
    {
        self.data_pointer = 0;
        self.moved(at)
    }

    fn execute_randomize<F: Fn(FloatRequest) -> FloatReply>(
        &mut self,
        seed: &Option<Box<AstNode>>,
        at: &Position,
        unit: &FloatUnit<F>,
    ) -> (r: Result<Signal, Error>)
        requires
            old(self).wf(),
        ensures
            final(self).wf(),
            (final(self)@, signal_view(r)) == old(self)@.execute_data(
                    unit.oracle(),
                    at@,
                    AstView::Randomize(optional_view(*seed)),
                ),
    {
        match seed {
            Some(s) => self.execute_quiet(s, at, unit),
            None => self.moved(at),
        }
    }

    /// `DIM` is taken note of; no storage is set aside.
    fn execute_dim(&mut self, at: &Position) -> (r: Result<Signal, Error>)
        requires
            old(self).wf(),
        ensures
            final(self).wf(),
            (final(self)@, signal_view(r)) == old(self)@.done(at@),
    {
        self.moved(at)
    }

    fn run_device<F: Fn(FloatRequest) -> FloatReply>(
        &mut self,
        node: &AstNode,
        at: &Position,
        unit: &FloatUnit<F>,
    ) -> (r: Result<Signal, Error>)
        requires
            old(self).wf(),
            statement_kind(node@) == StatementKind::Device,
        ensures
            final(self).wf(),
            (final(self)@, signal_view(r)) == old(self)@.execute_device(
                    unit.oracle(),
                    at@,
                    node@,
                ),
    {
        match node {
            AstNode::Cls => self.execute_cls(at),
            AstNode::Locate(row, col) => self.execute_locate(row, col, at, unit),
            AstNode::Color(fg, bg) => self.execute_color(fg, bg, at, unit),
            AstNode::Screen(mode) => self.execute_quiet(mode, at, unit),
            AstNode::Pset(x, y, color) => self.execute_pset(x, y, color, at, unit),
            AstNode::DrawLine(x1, y1, x2, y2, color) => self.execute_line(
                x1,
                y1,
                x2,
                y2,
                color,
                at,
                unit,
            ),
            AstNode::Circle(x, y, radius, color) => self.execute_circle(x, y, radius, color, at, unit),
            AstNode::Sound(freq, duration) => self.execute_sound(freq, duration, at, unit),
            AstNode::Open(filename, filenum, mode) => self.execute_open(
                filename,
                filenum,
                mode,
                at,
                unit,
            ),
            AstNode::Close(nums) => self.execute_close(nums, at),
            _ => {
                self.write("\x07\n");
                self.moved(at)
            },
        }
    }

    /// Runs the statement `node`, which stands at `at`.
    pub fn execute_node<F: Fn(FloatRequest) -> FloatReply>(
        &mut self,
        node: &AstNode,
        at: &Position,
        program: &Program,
        unit: &FloatUnit<F>,
    ) -> (r: Result<Signal, Error>)
        requires
            old(self).wf(),
        ensures
            final(self).wf(),
            (final(self)@, signal_view(r)) == old(self)@.execute(
                    unit.oracle(),
                    program@,
                    at@,
                    node@,
                ),
    {
        match kind_of(node) {
            StatementKind::Flow => self.run_flow(node, at, program, unit),
            StatementKind::Data => self.run_data(node, at, unit),
            StatementKind::Device => self.run_device(node, at, unit),
            StatementKind::Other => Err(Error::RuntimeError(String::from_str("Cannot execute node"))),
        }
    }

    /// Runs one step of the program `program`, or of the direct line
    /// `direct`.
    pub fn step<F: Fn(FloatRequest) -> FloatReply>(
        &mut self,
        program: &Program,
        direct: &Vec<AstNode>,
        unit: &FloatUnit<F>,
    ) -> (r: Result<Signal, Error>)
        requires
            old(self).wf(),
        ensures
            final(self).wf(),
            (final(self)@, signal_view(r)) == old(self)@.step(
                    unit.oracle(),
                    program@,
                    node_views(direct@),
                ),
    {
        let at: Position = match &self.position {
            Some(p) => p.clone(),
            None => {
                return Ok(Signal::Finished);
            },
        };
        let found = match list(program, direct, &at) {
            Some(found) => found,
            None => {
                self.position = None;
                return Ok(Signal::Finished);
            },
        };
        if at.index < found.len() {
            self.execute_node(&found[at.index], &at, program, unit)
        } else if at.path.len() > 0 {
            self.go_to(at.leave())
        } else {
            match at.line {
                Some(n) => match program.after(n) {
                    Some(following) => self.go_to(Position::start(Some(following))),
                    None => {
                        self.position = None;
                        Ok(Signal::Finished)
                    },
                },
                None => {
                    self.position = None;
                    Ok(Signal::Finished)
                },
            }
        }
    }
}

/// Once the data has run out for the first `count` names, it has for any
/// more of them, with the same state.
pub proof fn lemma_read_stops(m: MachineView, names: Seq<Seq<char>>, count: int, more: int)
    requires
        0 < count <= more <= names.len(),
        !m.read_into(names, count).1,
    ensures
        m.read_into(names, more) == m.read_into(names, count),
    decreases more - count,
{
    if count < more {
        lemma_read_stops(m, names, count, more - 1);
    }
}

/// Once one of the first `count` numbers was not open, any more of them
/// leave the state and that number as they are.
pub proof fn lemma_closing_stops(m: MachineView, numbers: Seq<i32>, count: int, more: int)
    requires
        0 < count <= more <= numbers.len(),
        m.closing(numbers, count).1 is Some,
    ensures
        m.closing(numbers, more) == m.closing(numbers, count),
    decreases more - count,
{
    if count < more {
        lemma_closing_stops(m, numbers, count, more - 1);
    }
}

/// Once one of the first `count` expressions has failed, any more of them
/// leave the state and the failure as they are.
pub proof fn lemma_store_stops(m: MachineView, o: Oracle, exprs: Seq<AstView>, count: int, more: int)
    requires
        0 < count <= more <= exprs.len(),
        m.store_data(o, exprs, count).1 is Some,
    ensures
        m.store_data(o, exprs, more) == m.store_data(o, exprs, count),
    decreases more - count,
{
    if count < more {
        lemma_store_stops(m, o, exprs, count, more - 1);
    }
}

} // verus!
