//! The interpreter: a session that stores a program and runs it.

use vstd::prelude::*;
use crate::ast::{node_views, AstNode, AstView};
use crate::error::{result_view, Error, ErrorView};
use crate::files::FileManager;
use crate::graphics::Screen;
use crate::machine::{
    FileRequest,
    Machine,
    MachineView,
    Position,
    PositionView,
    Signal,
    request_views,
};
use crate::program::{first_line, inserted, Lines, Program};
use crate::unit::{FloatReply, FloatRequest, FloatUnit, Oracle};
use crate::value::Value;

verus! {

/// How a run ends where it does not fail.
#[derive(Clone, Copy, Debug, PartialEq, Eq, Structural)]
pub enum RunStatus {
    /// The program has run to its end, or was ended by `END` or `STOP`.
    Finished,
    /// The program waits for lines of input; `resume` goes on once they are
    /// provided.
    AwaitingInput,
    /// The program waits for the host to carry out the requests to the
    /// files; `resume` goes on.
    AwaitingHost,
    /// The limit of steps was reached; `resume` goes on.
    Interrupted,
}

/// A session in mathematical types.
pub struct SessionView {
    pub lines: Lines,
    pub direct: Seq<AstView>,
    pub machine: MachineView,
    pub step_limit: u64,
}

/// The state behind a run, and how the run ended.
pub type RunOutcome = (MachineView, Result<RunStatus, ErrorView>);

/// Up to `budget` steps, one after the other, until one of them does not
/// end in `Continue`. `END` and `STOP` end the run as a program that has run
/// to its end does.
pub open spec fn run_steps(
    o: Oracle,
    lines: Lines,
    direct: Seq<AstView>,
    m: MachineView,
    budget: nat,
) -> RunOutcome
    decreases budget,
{
    if budget == 0 {
        (m, Ok(RunStatus::Interrupted))
    } else {
        let (after, signal) = m.step(o, lines, direct);
        match signal {
            Ok(Signal::Continue) => run_steps(o, lines, direct, after, (budget - 1) as nat),
            Ok(Signal::Finished) => (after, Ok(RunStatus::Finished)),
            Ok(Signal::AwaitingInput) => (after, Ok(RunStatus::AwaitingInput)),
            Ok(Signal::AwaitingHost) => (after, Ok(RunStatus::AwaitingHost)),
            Err(ErrorView::ProgramEnd) => (MachineView { position: None, ..after }, Ok(RunStatus::Finished)),
            Err(e) => (after, Err(e)),
        }
    }
}

/// The state after the `DATA` statements among the first `count` statements
/// of a line have put their values behind the data, and the first failure.
pub open spec fn load_data(o: Oracle, m: MachineView, stmts: Seq<AstView>, count: int) -> (
    MachineView,
    Option<ErrorView>,
)
    decreases count,
{
    if count <= 0 || count > stmts.len() {
        (m, None)
    } else {
        let (before, failure) = load_data(o, m, stmts, count - 1);
        if failure is Some {
            (before, failure)
        } else {
            match stmts[count - 1] {
                AstView::Data(exprs) => before.store_data(o, exprs, exprs.len() as int),
                _ => (before, None),
            }
        }
    }
}

/// The statements that a node without a line number stands for.
pub open spec fn direct_statements(node: AstView) -> Seq<AstView> {
    match node {
        AstView::Program(list) => list,
        _ => seq![node],
    }
}

/// The nodes that an executed tree holds at its top.
pub open spec fn top_nodes(ast: AstView) -> Seq<AstView> {
    direct_statements(ast)
}

impl SessionView {
    /// The session before anything was taken in.
    pub open spec fn fresh() -> SessionView {
        SessionView {
            lines: Map::empty(),
            direct: Seq::empty(),
            machine: MachineView::fresh(),
            step_limit: u64::MAX,
        }
    }

    /// What one node at the top of a tree does. A line is stored, once the
    /// values of its `DATA` statements are behind the data. Anything else
    /// runs at once, as the direct line.
    pub open spec fn load(self, o: Oracle, node: AstView) -> (SessionView, Result<RunStatus, ErrorView>) {
        match node {
            AstView::Line(number, statements) => {
                let (m, failure) = load_data(o, self.machine, statements, statements.len() as int);
                match failure {
                    Some(e) => (SessionView { machine: m, ..self }, Err(e)),
                    None => (
                        SessionView {
                            lines: inserted(self.lines, number, statements),
                            machine: m,
                            ..self
                        },
                        Ok(RunStatus::Finished),
                    ),
                }
            },
            _ => {
                let direct = direct_statements(node);
                let (m, r) = run_steps(
                    o,
                    self.lines,
                    direct,
                    MachineView { position: Some(PositionView::start(None)), ..self.machine },
                    self.step_limit as nat,
                );
                (SessionView { direct, machine: m, ..self }, r)
            },
        }
    }

    /// What the nodes at the top of a tree do, one after the other, up to
    /// the first that does not end in `Finished`.
    pub open spec fn load_all(self, o: Oracle, nodes: Seq<AstView>) -> (
        SessionView,
        Result<RunStatus, ErrorView>,
    )
        decreases nodes.len(),
    {
        if nodes.len() == 0 {
            (self, Ok(RunStatus::Finished))
        } else {
            let (after, r) = self.load(o, nodes[0]);
            if r == Ok::<RunStatus, ErrorView>(RunStatus::Finished) {
                after.load_all(o, nodes.drop_first())
            } else {
                (after, r)
            }
        }
    }

    /// What `RUN` does: the program runs from its first line.
    pub open spec fn run(self, o: Oracle) -> (SessionView, Result<RunStatus, ErrorView>) {
        let start = match first_line(self.lines) {
            Some(n) => Some(PositionView::start(Some(n))),
            None => None,
        };
        let (m, r) = run_steps(
            o,
            self.lines,
            Seq::empty(),
            MachineView { position: start, ..self.machine },
            self.step_limit as nat,
        );
        (SessionView { direct: Seq::empty(), machine: m, ..self }, r)
    }

    /// What going on after a pause does.
    pub open spec fn resume(self, o: Oracle) -> (SessionView, Result<RunStatus, ErrorView>) {
        let (m, r) = run_steps(o, self.lines, self.direct, self.machine, self.step_limit as nat);
        (SessionView { machine: m, ..self }, r)
    }
}

/// The view of a status or a failure in a result.
pub open spec fn status_view(r: Result<RunStatus, Error>) -> Result<RunStatus, ErrorView> {
    match r {
        Ok(s) => Ok(s),
        Err(e) => Err(e@),
    }
}

/// The interpreter.
pub struct Interpreter {
    program: Program,
    direct: Vec<AstNode>,
    machine: Machine,
    step_limit: u64,
}

impl View for Interpreter {
    type V = SessionView;

    closed spec fn view(&self) -> SessionView {
        SessionView {
            lines: self.program@,
            direct: node_views(self.direct@),
            machine: self.machine@,
            step_limit: self.step_limit,
        }
    }
}

impl Interpreter {
    /// The parts of the session hold their invariants.
    pub closed spec fn wf(&self) -> bool {
        self.machine.wf()
    }

    /// A new session: no program, a machine in its first state, and no
    /// limit of steps to speak of.
    pub fn new() -> (interpreter: Interpreter)
        ensures
            interpreter.wf(),
            interpreter@ == SessionView::fresh(),
    {
        let interpreter = Interpreter {
            program: Program::new(),
            direct: Vec::new(),
            machine: Machine::new(),
            step_limit: u64::MAX,
        };
        assert(interpreter@.direct =~= Seq::<AstView>::empty());
        interpreter
    }

    /// Sets the number of steps after which a run is interrupted.
    pub fn set_step_limit(&mut self, limit: u64)
        requires
            old(self).wf(),
        ensures
            final(self).wf(),
            final(self)@ == (SessionView { step_limit: limit, ..old(self)@ }),
    {
        self.step_limit = limit;
    }

    /// The value of a variable.
    pub fn variable(&self, name: &str) -> (r: Option<&Value>)
        requires
            self.wf(),
        ensures
            match r {
                Some(v) => self@.machine.variables.contains_key(name@) && self@.machine.variables[name@]
                    == v@,
                None => !self@.machine.variables.contains_key(name@),
            },
    {
        self.machine.variable(name)
    }

    /// The number of variables that have a value.
    pub fn variable_count(&self) -> (n: usize)
        requires
            self.wf(),
        ensures
            self@.machine.variables.dom().finite(),
            n == self@.machine.variables.dom().len(),
    {
        self.machine.variable_count()
    }

    /// The number of lines that the program holds.
    pub fn line_count(&self) -> (n: usize)
        ensures
            self@.lines.dom().finite(),
            n == self@.lines.dom().len(),
    {
        self.program.len()
    }

    /// What has been written and not yet taken.
    pub fn output(&self) -> (r: &String)
        ensures
            r@ == self@.machine.output,
    {
        self.machine.output()
    }

    /// Takes what has been written, and leaves nothing.
    pub fn take_output(&mut self) -> (r: String)
        requires
            old(self).wf(),
        ensures
            final(self).wf(),
            r@ == old(self)@.machine.output,
            final(self)@ == (SessionView {
                machine: MachineView { output: Seq::empty(), ..old(self)@.machine },
                ..old(self)@
            }),
    {
        self.machine.take_output()
    }

    /// Takes the requests to the files, and leaves none.
    pub fn take_requests(&mut self) -> (r: Vec<FileRequest>)
        requires
            old(self).wf(),
        ensures
            final(self).wf(),
            request_views(r@) == old(self)@.machine.requests,
            final(self)@ == (SessionView {
                machine: MachineView { requests: Seq::empty(), ..old(self)@.machine },
                ..old(self)@
            }),
    {
        self.machine.take_requests()
    }

    /// Settles a request to open the file `number` with what came of it at
    /// the host: `failure` holds the host's message where it could not open
    /// the file. Then the number is taken for closed again, and the failure
    /// is an input or output error with that message.
    pub fn settle_open(&mut self, number: i32, failure: Option<String>) -> (r: Result<(), Error>)
        requires
            old(self).wf(),
        ensures
            final(self).wf(),
            failure is None ==> r is Ok && final(self)@ == old(self)@,
            failure is Some ==> result_view(r) == Err::<(), ErrorView>(
                ErrorView::IoError(failure->Some_0@),
            ) && final(self)@ == (SessionView {
                machine: MachineView {
                    files: old(self)@.machine.files.remove(number),
                    ..old(self)@.machine
                },
                ..old(self)@
            }),
    {
        self.machine.settle_open(number, failure)
    }

    /// The table of open files.
    pub fn files(&self) -> (r: &FileManager)
        requires
            self.wf(),
        ensures
            r@ == self@.machine.files,
    {
        self.machine.files()
    }

    /// Puts a line of input behind those that wait to be read.
    pub fn provide_input(&mut self, line: String)
        requires
            old(self).wf(),
        ensures
            final(self).wf(),
            final(self)@ == (SessionView {
                machine: MachineView {
                    input: old(self)@.machine.input.push(line@),
                    ..old(self)@.machine
                },
                ..old(self)@
            }),
    {
        self.machine.provide_input(line);
    }

    /// Sets the time that the clock functions see, in seconds since the
    /// start of 1970.
    pub fn set_clock(&mut self, seconds: u64)
        requires
            old(self).wf(),
        ensures
            final(self).wf(),
            final(self)@ == (SessionView {
                machine: MachineView { clock: seconds, ..old(self)@.machine },
                ..old(self)@
            }),
    {
        self.machine.set_clock(seconds);
    }

    /// The screen.
    pub fn screen(&self) -> (r: &Screen)
        requires
            self.wf(),
        ensures
            r.wf(),
            r@ == self@.machine.screen,
    {
        self.machine.screen()
    }

    /// Runs steps until one does not end in `Continue`, or the limit of
    /// steps is reached.
    fn run_machine<F: Fn(FloatRequest) -> FloatReply>(&mut self, unit: &FloatUnit<F>) -> (r: Result<
        RunStatus,
        Error,
    >)
        requires
            old(self).wf(),
        ensures
            final(self).wf(),
            (final(self)@, status_view(r)) == old(self)@.resume(unit.oracle()),
    {
        let mut budget: u64 = self.step_limit;
        while budget > 0
            invariant
                self.wf(),
                self@ == (SessionView { machine: self@.machine, ..old(self)@ }),
                run_steps(
                        unit.oracle(),
                        self@.lines,
                        self@.direct,
                        old(self)@.machine,
                        old(self)@.step_limit as nat,
                    ) == run_steps(unit.oracle(), self@.lines, self@.direct, self@.machine, budget as nat),
            decreases budget,
        {
            match self.machine.step(&self.program, &self.direct, unit) {
                Ok(Signal::Continue) => {
                    budget = budget - 1;
                },
                Ok(Signal::Finished) => {
                    return Ok(RunStatus::Finished);
                },
                Ok(Signal::AwaitingInput) => {
                    return Ok(RunStatus::AwaitingInput);
                },
                Ok(Signal::AwaitingHost) => {
                    return Ok(RunStatus::AwaitingHost);
                },
                Err(Error::ProgramEnd) => {
                    self.machine.set_position(None);
                    return Ok(RunStatus::Finished);
                },
                Err(e) => {
                    return Err(e);
                },
            }
        }
        Ok(RunStatus::Interrupted)
    }

    /// Goes on with a run that paused: for input, for the host, or at the
    /// limit of steps.
    pub fn resume<F: Fn(FloatRequest) -> FloatReply>(&mut self, unit: &FloatUnit<F>) -> (r: Result<
        RunStatus,
        Error,
    >)
        requires
            old(self).wf(),
        ensures
            final(self).wf(),
            (final(self)@, status_view(r)) == old(self)@.resume(unit.oracle()),
    {
        self.run_machine(unit)
    }

    /// Runs the stored program from its first line. `END` and `STOP` end
    /// the run as the end of the program does; every other failure comes
    /// back to the caller.
    pub fn run<F: Fn(FloatRequest) -> FloatReply>(&mut self, unit: &FloatUnit<F>) -> (r: Result<
        RunStatus,
        Error,
    >)
        requires
            old(self).wf(),
        ensures
            final(self).wf(),
            (final(self)@, status_view(r)) == old(self)@.run(unit.oracle()),
    {
        self.direct = Vec::new();
        assert(node_views(self.direct@) =~= Seq::<AstView>::empty());
        let start = match self.program.first() {
            Some(n) => Some(Position::start(Some(n))),
            None => None,
        };
        self.machine.set_position(start);
        self.run_machine(unit)
    }

    fn load_line_data<F: Fn(FloatRequest) -> FloatReply>(
        &mut self,
        statements: &Vec<AstNode>,
        unit: &FloatUnit<F>,
    ) -> (r: Result<(), Error>)
        requires
            old(self).wf(),
        ensures
            final(self).wf(),
            final(self)@ == (SessionView { machine: final(self)@.machine, ..old(self)@ }),
            (
                    final(self)@.machine,
                    match r {
                        Ok(_) => None,
                        Err(e) => Some(e@),
                    },
                ) == load_data(
                    unit.oracle(),
                    old(self)@.machine,
                    node_views(statements@),
                    statements@.len() as int,
                ),
    {
        let mut i: usize = 0;
        while i < statements.len()
            invariant
                i <= statements.len(),
                self.wf(),
                self@ == (SessionView { machine: self@.machine, ..old(self)@ }),
                (self@.machine, None::<ErrorView>) == load_data(
                        unit.oracle(),
                        old(self)@.machine,
                        node_views(statements@),
                        i as int,
                    ),
            decreases statements.len() - i,
        {
            match &statements[i] {
                AstNode::Data(exprs) => {
                    match self.machine.store_data(exprs, unit) {
                        Ok(_) => {},
                        Err(e) => {
                            proof {
                                assert((
                                    self@.machine,
                                    Some(e@),
                                ) == load_data(
                                    unit.oracle(),
                                    old(self)@.machine,
                                    node_views(statements@),
                                    statements@.len() as int,
                                )) by {
                                    lemma_load_stops(
                                        unit.oracle(),
                                        old(self)@.machine,
                                        node_views(statements@),
                                        i + 1,
                                        statements@.len() as int,
                                    );
                                };
                            }
                            return Err(e);
                        },
                    }
                },
                _ => {},
            }
            i = i + 1;
        }
        Ok(())
    }

    fn load_node<F: Fn(FloatRequest) -> FloatReply>(&mut self, node: AstNode, unit: &FloatUnit<F>) -> (r:
        Result<RunStatus, Error>)
        requires
            old(self).wf(),
        ensures
            final(self).wf(),
            (final(self)@, status_view(r)) == old(self)@.load(unit.oracle(), node@),
    {
        match node {
            AstNode::Line(num, statements) => {
                match self.load_line_data(&statements, unit) {
                    Ok(_) => {
                        self.program.insert(num, statements);
                        Ok(RunStatus::Finished)
                    },
                    Err(e) => Err(e),
                }
            },
            AstNode::Program(list) => {
                self.direct = list;
                self.machine.set_position(Some(Position::start(None)));
                self.run_machine(unit)
            },
            other => {
                let ghost view = other@;
                let mut list: Vec<AstNode> = Vec::new();
                list.push(other);
                assert(node_views(list@) =~= seq![view]);
                self.direct = list;
                self.machine.set_position(Some(Position::start(None)));
                self.run_machine(unit)
            },
        }
    }

    /// Takes in a tree that the parser made. Its lines are stored under
    /// their numbers; what has no number runs at once, in the order in which
    /// it stands. The first node that fails or pauses ends the call.
    pub fn execute<F: Fn(FloatRequest) -> FloatReply>(&mut self, ast: AstNode, unit: &FloatUnit<F>) -> (r:
        Result<RunStatus, Error>)
        requires
            old(self).wf(),
        ensures
            final(self).wf(),
            (final(self)@, status_view(r)) == old(self)@.load_all(
                    unit.oracle(),
                    top_nodes(ast@),
                ),
    {
        let ghost all = top_nodes(ast@);
        let mut nodes: Vec<AstNode> = match ast {
            AstNode::Program(nodes) => nodes,
            other => {
                let ghost view = other@;
                let mut list: Vec<AstNode> = Vec::new();
                list.push(other);
                assert(node_views(list@) =~= seq![view]);
                list
            },
        };
        while nodes.len() > 0
            invariant
                self.wf(),
                all == top_nodes(ast@),
                old(self)@.load_all(unit.oracle(), all) == self@.load_all(unit.oracle(), node_views(nodes@)),
            decreases nodes.len(),
        {
            let ghost before = node_views(nodes@);
            let node = nodes.remove(0);
            assert(node_views(nodes@) =~= before.drop_first());
            assert(node@ == before[0]);
            match self.load_node(node, unit) {
                Ok(RunStatus::Finished) => {},
                Ok(status) => {
                    return Ok(status);
                },
                Err(e) => {
                    return Err(e);
                },
            }
        }
        Ok(RunStatus::Finished)
    }
}

impl Default for Interpreter {
    /// A new session.
    fn default() -> (interpreter: Interpreter)
        ensures
            interpreter.wf(),
            interpreter@ == SessionView::fresh(),
    {
        Interpreter::new()
    }
}

/// Once one of the first `count` statements of a line has failed to put its
/// data in place, any more of them leave the state and the failure as they
/// are.
pub proof fn lemma_load_stops(o: Oracle, m: MachineView, stmts: Seq<AstView>, count: int, more: int)
    requires
        0 < count <= more <= stmts.len(),
        load_data(o, m, stmts, count).1 is Some,
    ensures
        load_data(o, m, stmts, more) == load_data(o, m, stmts, count),
    decreases more - count,
{
    if count < more {
        lemma_load_stops(o, m, stmts, count, more - 1);
    }
}

} // verus!
