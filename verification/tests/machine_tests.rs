use rust_gwbasic::machine::{Branch, Machine, Position, Signal};
use rust_gwbasic::program::Program;
use rust_gwbasic::unit::{FloatFunction, FloatOp, FloatReply, FloatRequest, FloatUnit};
use rust_gwbasic::{AstNode, Error, Value};

fn native(req: FloatRequest) -> FloatReply {
    fn double(v: f64) -> FloatReply {
        FloatReply { ok: true, bits: v.to_bits(), text: String::new() }
    }
    fn single(v: f32) -> FloatReply {
        FloatReply { ok: true, bits: v.to_bits() as u64, text: String::new() }
    }
    fn text(s: String) -> FloatReply {
        FloatReply { ok: true, bits: 0, text: s }
    }
    match req {
        FloatRequest::Binary(op, a, b) => {
            let (a, b) = (f64::from_bits(a.bits), f64::from_bits(b.bits));
            double(match op {
                FloatOp::Add => a + b,
                FloatOp::Subtract => a - b,
                FloatOp::Multiply => a * b,
                FloatOp::Divide => a / b,
                FloatOp::Power => a.powf(b),
            })
        }
        FloatRequest::Unary(f, a) => {
            let a = f64::from_bits(a.bits);
            double(match f {
                FloatFunction::Sqrt => a.sqrt(),
                FloatFunction::Sin => a.sin(),
                FloatFunction::Cos => a.cos(),
                FloatFunction::Tan => a.tan(),
                FloatFunction::Atan => a.atan(),
                FloatFunction::Exp => a.exp(),
                FloatFunction::Ln => a.ln(),
            })
        }
        FloatRequest::Narrow(a) => single(f64::from_bits(a.bits) as f32),
        FloatRequest::DivideSingle(a, b) => single(f32::from_bits(a.bits) / f32::from_bits(b.bits)),
        FloatRequest::Parse(s) => match s.parse::<f64>() {
            Ok(v) => double(v),
            Err(_) => FloatReply { ok: false, bits: 0, text: String::new() },
        },
        FloatRequest::Format(a) => text(f64::from_bits(a.bits).to_string()),
        FloatRequest::FormatSingle(a) => text(f32::from_bits(a.bits).to_string()),
    }
}

fn lit(v: i32) -> Box<AstNode> {
    Box::new(AstNode::Literal(Value::Integer(v)))
}

fn print(v: i32) -> AstNode {
    AstNode::Print(vec![*lit(v)])
}

#[test]
fn end_and_stop_signal_the_end_of_the_program() {
    let unit = FloatUnit::new(native);
    let program = Program::new();
    let mut machine = Machine::new();
    let at = Position::start(None);
    assert_eq!(machine.execute_node(&AstNode::End, &at, &program, &unit), Err(Error::ProgramEnd));
    assert_eq!(machine.execute_node(&AstNode::Stop, &at, &program, &unit), Err(Error::ProgramEnd));
}

#[test]
fn a_machine_without_a_position_has_finished() {
    let unit = FloatUnit::new(native);
    let program = Program::new();
    let mut machine = Machine::new();
    assert_eq!(machine.step(&program, &vec![print(1)], &unit), Ok(Signal::Finished));
    assert_eq!(machine.output(), "");
}

#[test]
fn steps_walk_through_nested_lists() {
    let unit = FloatUnit::new(native);
    let program = Program::new();
    let direct = vec![
        AstNode::If(lit(1), vec![print(1), print(2)], Some(vec![print(9)])),
        AstNode::If(lit(0), vec![print(9)], Some(vec![print(3)])),
        AstNode::If(lit(0), vec![print(9)], None),
        print(4),
    ];
    let mut machine = Machine::new();
    machine.set_position(Some(Position::start(None)));
    let mut steps = 0;
    loop {
        match machine.step(&program, &direct, &unit).unwrap() {
            Signal::Continue => steps += 1,
            Signal::Finished => break,
            other => panic!("{:?}", other),
        }
    }
    assert_eq!(machine.take_output(), "1\n2\n3\n4\n");
    // IF, two statements, leaving; IF, one statement, leaving; IF; PRINT.
    assert_eq!(steps, 9);
}

#[test]
fn positions_move_as_their_names_say() {
    let at = Position { line: Some(10), path: vec![], index: 2 };
    let next = at.next();
    assert_eq!((next.line, next.path.len(), next.index), (Some(10), 0, 3));
    let inner = at.enter(Branch::Then);
    assert_eq!((inner.line, inner.index), (Some(10), 0));
    assert_eq!(inner.path.len(), 1);
    assert_eq!((inner.path[0].index, inner.path[0].branch), (2, Branch::Then));
    let out = inner.leave();
    assert_eq!((out.line, out.path.len(), out.index), (Some(10), 0, 3));
    let body = at.enter(Branch::Body);
    let again = body.leave();
    assert_eq!((again.path.len(), again.index), (0, 2));
    let last = Position { line: None, path: vec![], index: usize::MAX };
    assert_eq!(last.next().index, usize::MAX);
}

#[test]
fn a_position_that_names_no_list_ends_the_run() {
    let unit = FloatUnit::new(native);
    let mut program = Program::new();
    program.insert(10, vec![print(1)]);
    let mut machine = Machine::new();
    machine.set_position(Some(Position::start(Some(20))));
    assert_eq!(machine.step(&program, &vec![], &unit), Ok(Signal::Finished));
    machine.set_position(Some(Position { line: Some(10), path: vec![], index: 0 }.enter(Branch::Then)));
    assert_eq!(machine.step(&program, &vec![], &unit), Ok(Signal::Finished));
    assert_eq!(machine.output(), "");
}

#[test]
fn the_program_store_keeps_its_lines_in_order() {
    let mut program = Program::new();
    assert_eq!(program.first(), None);
    program.insert(30, vec![print(3)]);
    program.insert(10, vec![print(1)]);
    program.insert(20, vec![print(2)]);
    program.insert(20, vec![print(4), print(5)]);
    assert_eq!(program.len(), 3);
    assert_eq!(program.first(), Some(10));
    assert_eq!(program.after(10), Some(20));
    assert_eq!(program.after(15), Some(20));
    assert_eq!(program.after(20), Some(30));
    assert_eq!(program.after(30), None);
    assert_eq!(program.after(u32::MAX), None);
    assert_eq!(program.after(0), Some(10));
    assert!(program.contains(20));
    assert!(!program.contains(25));
    assert_eq!(program.statements(20).unwrap().len(), 2);
    assert_eq!(program.statements(10).unwrap(), &vec![print(1)]);
    assert!(program.statements(11).is_none());
}
