use rust_gwbasic::interpreter::RunStatus;
use rust_gwbasic::machine::{FileMode, FileRequest};
use rust_gwbasic::numeric::Double;
use rust_gwbasic::unit::{FloatFunction, FloatOp, FloatReply, FloatRequest, FloatUnit};
use rust_gwbasic::{AstNode, BinaryOperator, Error, Interpreter, Lexer, Parser, Value};

fn native(req: FloatRequest) -> FloatReply {
    fn double(v: f64) -> FloatReply {
        FloatReply { ok: true, bits: v.to_bits(), text: String::new() }
    }
    fn single(v: f32) -> FloatReply {
        FloatReply { ok: true, bits: v.to_bits() as u64, text: String::new() }
    }
    fn text(s: String) -> FloatReply {
        FloatReply { ok: true, bits: 0, text: s }
    }
    match req {
        FloatRequest::Binary(op, a, b) => {
            let (a, b) = (f64::from_bits(a.bits), f64::from_bits(b.bits));
            double(match op {
                FloatOp::Add => a + b,
                FloatOp::Subtract => a - b,
                FloatOp::Multiply => a * b,
                FloatOp::Divide => a / b,
                FloatOp::Power => a.powf(b),
            })
        }
        FloatRequest::Unary(f, a) => {
            let a = f64::from_bits(a.bits);
            double(match f {
                FloatFunction::Sqrt => a.sqrt(),
                FloatFunction::Sin => a.sin(),
                FloatFunction::Cos => a.cos(),
                FloatFunction::Tan => a.tan(),
                FloatFunction::Atan => a.atan(),
                FloatFunction::Exp => a.exp(),
                FloatFunction::Ln => a.ln(),
            })
        }
        FloatRequest::Narrow(a) => single(f64::from_bits(a.bits) as f32),
        FloatRequest::DivideSingle(a, b) => single(f32::from_bits(a.bits) / f32::from_bits(b.bits)),
        FloatRequest::Parse(s) => match s.parse::<f64>() {
            Ok(v) => double(v),
            Err(_) => FloatReply { ok: false, bits: 0, text: String::new() },
        },
        FloatRequest::Format(a) => text(f64::from_bits(a.bits).to_string()),
        FloatRequest::FormatSingle(a) => text(f32::from_bits(a.bits).to_string()),
    }
}

fn parse(text: &str) -> AstNode {
    let unit = FloatUnit::new(native);
    let tokens = Lexer::new(text).tokenize(&unit).unwrap();
    Parser::new(tokens).parse().unwrap()
}

/// Executes `text`, then runs the stored program if it stored one.
fn run(interp: &mut Interpreter, text: &str) -> Result<RunStatus, Error> {
    let unit = FloatUnit::new(native);
    let status = interp.execute(parse(text), &unit)?;
    if status != RunStatus::Finished || interp.line_count() == 0 {
        return Ok(status);
    }
    interp.run(&unit)
}

fn output_of(text: &str) -> String {
    let mut interp = Interpreter::new();
    assert_eq!(run(&mut interp, text), Ok(RunStatus::Finished));
    interp.take_output()
}

fn failure_of(text: &str) -> Error {
    let mut interp = Interpreter::new();
    run(&mut interp, text).unwrap_err()
}

fn double(v: f64) -> Value {
    Value::Double(Double::from_bits(v.to_bits()))
}

fn runtime(msg: &str) -> Error {
    Error::RuntimeError(msg.to_string())
}

#[test]
fn test_interpreter_creation() {
    let interp = Interpreter::new();
    assert_eq!(interp.variable_count(), 0);
}

#[test]
fn test_execute_print() {
    let unit = FloatUnit::new(native);
    let mut interp = Interpreter::new();
    let mut lexer = Lexer::new("PRINT 42");
    let tokens = lexer.tokenize(&unit).unwrap();
    let mut parser = Parser::new(tokens);
    let ast = parser.parse().unwrap();

    // Should not error
    assert!(interp.execute(ast, &unit).is_ok());
    assert_eq!(interp.output(), "42\n");
}

#[test]
fn test_execute_let() {
    let unit = FloatUnit::new(native);
    let mut interp = Interpreter::new();
    let mut lexer = Lexer::new("LET A = 42");
    let tokens = lexer.tokenize(&unit).unwrap();
    let mut parser = Parser::new(tokens);
    let ast = parser.parse().unwrap();

    interp.execute(ast, &unit).unwrap();
    assert_eq!(interp.variable("A").unwrap().as_integer().unwrap(), 42);
}

#[test]
fn test_evaluate_expression() {
    let unit = FloatUnit::new(native);
    let mut interp = Interpreter::new();
    let mut lexer = Lexer::new("LET A = 2 + 3 * 4");
    let tokens = lexer.tokenize(&unit).unwrap();
    let mut parser = Parser::new(tokens);
    let ast = parser.parse().unwrap();

    interp.execute(ast, &unit).unwrap();
    // 2 + 3 * 4 = 2 + 12 = 14
    assert_eq!(interp.variable("A").unwrap().as_integer().unwrap(), 14);
}

#[test]
fn interpreter_test_division_by_zero() {
    let unit = FloatUnit::new(native);
    let mut interp = Interpreter::new();
    let mut lexer = Lexer::new("PRINT 1 / 0");
    let tokens = lexer.tokenize(&unit).unwrap();
    let mut parser = Parser::new(tokens);
    let ast = parser.parse().unwrap();

    let result = interp.execute(ast, &unit);
    assert!(result.is_err());
    assert_eq!(result.unwrap_err(), Error::DivisionByZero);
}

#[test]
fn test_variable_undefined() {
    let unit = FloatUnit::new(native);
    let mut interp = Interpreter::new();
    let mut lexer = Lexer::new("PRINT X");
    let tokens = lexer.tokenize(&unit).unwrap();
    let mut parser = Parser::new(tokens);
    let ast = parser.parse().unwrap();

    let result = interp.execute(ast, &unit);
    assert!(result.is_err());
}

#[test]
fn division_is_the_quotient_of_doubles() {
    let mut interp = Interpreter::new();
    run(&mut interp, "A = 7 / 2 : B = -1 / 3 : C = 1e308 / 1e-308 : D = 0 / 5").unwrap();
    assert_eq!(interp.variable("A"), Some(&double(7.0 / 2.0)));
    assert_eq!(interp.variable("B"), Some(&double(-1.0 / 3.0)));
    assert_eq!(interp.variable("C"), Some(&double(f64::INFINITY)));
    assert_eq!(interp.variable("D"), Some(&double(0.0)));
    assert_eq!(failure_of("A = 1 / 0"), Error::DivisionByZero);
    assert_eq!(failure_of("A = 1 / (0 - 0)"), Error::DivisionByZero);
    assert_eq!(failure_of("A = \"x\" / 0"), Error::DivisionByZero);
    assert_eq!(failure_of("Z = 0 : A = 1 / -Z"), Error::DivisionByZero);
}

#[test]
fn integer_division_and_mod_truncate_their_operands() {
    let mut interp = Interpreter::new();
    run(
        &mut interp,
        "A = 7.9 \\ 2.9 : B = -7.9 \\ 2 : C = 7.9 MOD 3.9 : D = -7 MOD 3 : E = 7 MOD -3 : F = 7 \\ -2",
    )
    .unwrap();
    assert_eq!(interp.variable("A"), Some(&Value::Integer(3)));
    assert_eq!(interp.variable("B"), Some(&Value::Integer(-3)));
    assert_eq!(interp.variable("C"), Some(&Value::Integer(1)));
    assert_eq!(interp.variable("D"), Some(&Value::Integer(-1)));
    assert_eq!(interp.variable("E"), Some(&Value::Integer(1)));
    assert_eq!(interp.variable("F"), Some(&Value::Integer(-3)));
    assert_eq!(failure_of("A = 5 \\ 0"), Error::DivisionByZero);
    assert_eq!(failure_of("A = 5 MOD 0"), Error::DivisionByZero);
    assert_eq!(failure_of("A = 5 \\ 0.9"), Error::DivisionByZero);
    assert_eq!(failure_of("A = 5 MOD 0.9"), Error::DivisionByZero);
    assert_eq!(failure_of("A = (0 - 2147483647 - 1) \\ -1"), runtime("Overflow"));
    let mut interp = Interpreter::new();
    run(&mut interp, "A = (0 - 2147483647 - 1) MOD -1").unwrap();
    assert_eq!(interp.variable("A"), Some(&Value::Integer(0)));
}

#[test]
fn for_loop_runs_five_times_and_leaves_six() {
    let mut interp = Interpreter::new();
    run(&mut interp, "10 N = 0\n20 FOR i=1 TO 5\n30 N = N + 1 : PRINT i\n40 NEXT\n50 PRINT \"done\"").unwrap();
    assert_eq!(interp.variable("N"), Some(&double(5.0)));
    assert_eq!(interp.variable("i"), Some(&double(6.0)));
    assert_eq!(interp.take_output(), "1\n2\n3\n4\n5\ndone\n");
}

#[test]
fn for_loop_on_one_line() {
    assert_eq!(output_of("10 FOR I = 1 TO 3 : PRINT I : NEXT I : PRINT \"end\""), "1\n2\n3\nend\n");
    assert_eq!(output_of("FOR I = 1 TO 3 : PRINT I : NEXT"), "1\n2\n3\n");
}

#[test]
fn for_loop_descends_with_a_negative_step() {
    let mut interp = Interpreter::new();
    run(&mut interp, "10 FOR i=5 TO 1 STEP -1\n20 PRINT i\n30 NEXT i").unwrap();
    assert_eq!(interp.take_output(), "5\n4\n3\n2\n1\n");
    assert_eq!(interp.variable("i"), Some(&double(0.0)));
}

#[test]
fn for_loop_with_a_fractional_step() {
    assert_eq!(output_of("FOR X = 0 TO 1 STEP 0.5 : PRINT X : NEXT"), "0\n0.5\n1\n");
}

#[test]
fn nested_for_loops() {
    assert_eq!(
        output_of("10 FOR I = 1 TO 2\n20 FOR J = 1 TO 2\n30 PRINT I; J\n40 NEXT J\n50 NEXT I"),
        "1 1\n1 2\n2 1\n2 2\n"
    );
}

#[test]
fn for_loop_inside_if() {
    assert_eq!(output_of("10 IF 1 THEN FOR I = 1 TO 2 : PRINT I : NEXT\n20 PRINT \"x\""), "1\n2\nx\n");
}

#[test]
fn next_with_the_wrong_name_names_both() {
    assert_eq!(
        failure_of("10 FOR i = 1 TO 3\n20 NEXT j"),
        runtime("NEXT variable mismatch: expected i, got j")
    );
}

#[test]
fn next_without_for_and_return_without_gosub() {
    assert_eq!(failure_of("NEXT"), runtime("NEXT without FOR"));
    assert_eq!(failure_of("10 NEXT I"), runtime("NEXT without FOR"));
    assert_eq!(failure_of("RETURN"), runtime("RETURN without GOSUB"));
    assert_eq!(failure_of("10 RETURN"), runtime("RETURN without GOSUB"));
}

#[test]
fn unassigned_variables_are_undefined() {
    assert_eq!(
        failure_of("PRINT A"),
        Error::UndefinedError("Variable A not defined".to_string())
    );
    let mut interp = Interpreter::new();
    run(&mut interp, "LET A = 5").unwrap();
    assert_eq!(interp.variable("A"), Some(&Value::Integer(5)));
    assert_eq!(interp.variable("a"), None);
    run(&mut interp, "PRINT A").unwrap();
    assert_eq!(interp.take_output(), "5\n");
}

#[test]
fn plus_joins_strings() {
    let mut interp = Interpreter::new();
    run(&mut interp, "A$ = \"foo\" + \"bar\" : B$ = \"foo\" + 3 : C$ = 1.5 + \"x\"").unwrap();
    assert_eq!(interp.variable("A$"), Some(&Value::String("foobar".to_string())));
    assert_eq!(interp.variable("B$"), Some(&Value::String("foo3".to_string())));
    assert_eq!(interp.variable("C$"), Some(&Value::String("1.5x".to_string())));
}

#[test]
fn string_functions_by_name() {
    assert_eq!(
        output_of("PRINT LEFT$(\"HELLO\",2); RIGHT$(\"HELLO\",2); MID$(\"HELLO\",2,3)"),
        "HE LO ELL\n"
    );
    assert_eq!(output_of("PRINT left(\"HELLO\",2), Mid$(\"HELLO\", 4)"), "HE LO\n");
    assert_eq!(output_of("PRINT LEN(\"abc\") + ASC(\"A\")"), "68\n");
    assert_eq!(output_of("PRINT CHR$(72) + chr(105)"), "Hi\n");
    assert_eq!(output_of("PRINT HEX$(255); OCT(8); INSTR(\"abc\", \"c\"); INSTR(2, \"aXa\", \"a\")"), "FF 10 3 3\n");
    assert_eq!(output_of("PRINT ABS(-2.5); INT(2.5); SGN(-3); SQR(16); VAL(\"12\") + 1"), "2.5 2 -1 4 13\n");
    assert_eq!(output_of("PRINT STRING$(3, \"*\") + SPACE$(2) + STR$(7)"), "***  7\n");
    assert_eq!(output_of("PRINT PEEK(1); INP(2)"), "0 0\n");
}

#[test]
fn calls_check_names_and_arity() {
    assert_eq!(
        failure_of("PRINT NOPE(1)"),
        Error::UndefinedError("Function NOPE not defined".to_string())
    );
    assert_eq!(failure_of("PRINT ABS()"), runtime("ABS requires 1 argument"));
    assert_eq!(failure_of("PRINT abs(1, 2)"), runtime("ABS requires 1 argument"));
    assert_eq!(failure_of("PRINT LEFT$(\"a\")"), runtime("LEFT$ requires 2 arguments"));
    assert_eq!(failure_of("PRINT left(\"a\")"), runtime("LEFT$ requires 2 arguments"));
    assert_eq!(failure_of("PRINT MID$(\"a\")"), runtime("MID$ requires 2 or 3 arguments"));
    assert_eq!(failure_of("PRINT MID$(\"a\", 1, 2, 3)"), runtime("MID$ requires 2 or 3 arguments"));
    assert_eq!(failure_of("PRINT INSTR(\"a\")"), runtime("INSTR requires 2 or 3 arguments"));
    assert_eq!(failure_of("PRINT RND(1, 2)"), runtime("RND requires 0 or 1 arguments"));
    assert_eq!(failure_of("PRINT TIMER(1)"), runtime("TIMER requires 0 arguments"));
    assert_eq!(failure_of("PRINT STRING$(1)"), runtime("STRING$ requires 2 arguments"));
    assert_eq!(failure_of("PRINT CHR$()"), runtime("CHR$ requires 1 argument"));
    // The arguments are evaluated before the name is looked up.
    assert_eq!(failure_of("PRINT NOPE(1 / 0)"), Error::DivisionByZero);
}

#[test]
fn timer_reads_the_clock_of_the_session() {
    let unit = FloatUnit::new(native);
    let mut interp = Interpreter::new();
    interp.set_clock(86400 * 3 + 61);
    interp.execute(parse("PRINT TIMER()"), &unit).unwrap();
    assert_eq!(interp.take_output(), "61\n");
}

#[test]
fn rnd_draws_from_the_generator_of_the_session() {
    let mut interp = Interpreter::new();
    run(&mut interp, "A = RND() : B = RND() : C = RND(0)").unwrap();
    let mut s: u64 = 12345;
    s = (s * 1103515245 + 12345) & 0x7fffffff;
    let a = (s % 1000000) as f32 / 1000000.0;
    s = (s * 1103515245 + 12345) & 0x7fffffff;
    let b = (s % 1000000) as f32 / 1000000.0;
    let c = (s % 1000) as f32 / 1000.0;
    let bits = |name: &str| match interp.variable(name) {
        Some(Value::Single(s)) => s.to_bits(),
        other => panic!("{:?}", other),
    };
    assert_eq!(bits("A"), a.to_bits());
    assert_eq!(bits("B"), b.to_bits());
    assert_eq!(bits("C"), c.to_bits());
}

#[test]
fn program_prints_the_sum() {
    assert_eq!(output_of("10 LET A=2\n20 LET B=3\n30 PRINT A+B"), "5\n");
}

#[test]
fn lines_run_in_the_order_of_their_numbers() {
    assert_eq!(output_of("30 PRINT 3\n10 PRINT 1\n20 PRINT 2"), "1\n2\n3\n");
    let unit = FloatUnit::new(native);
    let mut interp = Interpreter::new();
    interp.execute(parse("20 PRINT \"old\""), &unit).unwrap();
    interp.execute(parse("10 PRINT \"first\""), &unit).unwrap();
    interp.execute(parse("20 PRINT \"new\""), &unit).unwrap();
    assert_eq!(interp.line_count(), 2);
    assert_eq!(interp.run(&unit), Ok(RunStatus::Finished));
    assert_eq!(interp.take_output(), "first\nnew\n");
    // A second run starts from the first line again.
    assert_eq!(interp.run(&unit), Ok(RunStatus::Finished));
    assert_eq!(interp.take_output(), "first\nnew\n");
}

#[test]
fn a_failing_print_writes_nothing() {
    let unit = FloatUnit::new(native);
    let mut interp = Interpreter::new();
    assert_eq!(interp.execute(parse("PRINT 1/0"), &unit), Err(Error::DivisionByZero));
    assert_eq!(interp.output(), "");
    assert_eq!(interp.execute(parse("PRINT 1, 2, 1/0"), &unit), Err(Error::DivisionByZero));
    assert_eq!(interp.output(), "");
    assert_eq!(
        interp.execute(parse("10 PRINT \"a\"\n20 PRINT 1/0\n30 PRINT \"b\""), &unit),
        Ok(RunStatus::Finished)
    );
    assert_eq!(interp.run(&unit), Err(Error::DivisionByZero));
    assert_eq!(interp.take_output(), "a\n");
}

#[test]
fn print_separates_with_one_space() {
    assert_eq!(output_of("PRINT 1, 2; 3 \"x\""), "1 2 3 x\n");
    assert_eq!(output_of("PRINT"), "\n");
    assert_eq!(output_of("PRINT \"a\" : PRINT \"b\""), "a\nb\n");
}

#[test]
fn data_is_read_in_order_and_restored() {
    let unit = FloatUnit::new(native);
    let mut interp = Interpreter::new();
    interp.execute(parse("DATA 1,2,3"), &unit).unwrap();
    interp.execute(parse("READ A,B,C"), &unit).unwrap();
    assert_eq!(interp.variable("A"), Some(&Value::Integer(1)));
    assert_eq!(interp.variable("B"), Some(&Value::Integer(2)));
    assert_eq!(interp.variable("C"), Some(&Value::Integer(3)));
    assert_eq!(interp.execute(parse("READ D"), &unit), Err(runtime("Out of DATA")));
    assert_eq!(interp.variable("D"), None);
    interp.execute(parse("RESTORE"), &unit).unwrap();
    interp.execute(parse("READ D"), &unit).unwrap();
    assert_eq!(interp.variable("D"), Some(&Value::Integer(1)));
}

#[test]
fn read_keeps_what_it_got_before_the_data_ran_out() {
    let unit = FloatUnit::new(native);
    let mut interp = Interpreter::new();
    interp.execute(parse("DATA 7"), &unit).unwrap();
    assert_eq!(interp.execute(parse("READ A, B"), &unit), Err(runtime("Out of DATA")));
    assert_eq!(interp.variable("A"), Some(&Value::Integer(7)));
    assert_eq!(interp.variable("B"), None);
}

#[test]
fn data_of_stored_lines_is_loaded_with_the_program() {
    // READ stands before DATA in the program and still finds the data.
    assert_eq!(
        output_of("10 READ A, B$\n20 PRINT A; B$\n30 DATA 5, \"five\"\n40 DATA 6"),
        "5 five\n"
    );
    // Running the program does not load the data a second time.
    let unit = FloatUnit::new(native);
    let mut interp = Interpreter::new();
    interp.execute(parse("10 DATA 1\n20 READ A\n30 READ B"), &unit).unwrap();
    assert_eq!(interp.run(&unit), Err(runtime("Out of DATA")));
}

#[test]
fn goto_jumps_forward_and_backward() {
    assert_eq!(output_of("10 GOTO 30\n20 PRINT \"skipped\"\n30 PRINT \"here\""), "here\n");
    assert_eq!(
        output_of("10 I = 0\n20 I = I + 1\n30 PRINT I\n40 IF I < 3 THEN GOTO 20\n50 PRINT \"end\""),
        "1\n2\n3\nend\n"
    );
    assert_eq!(
        failure_of("10 GOTO 99"),
        Error::LineNumberError("Line 99 not found".to_string())
    );
    assert_eq!(
        failure_of("GOSUB 7"),
        Error::LineNumberError("Line 7 not found".to_string())
    );
    assert_eq!(output_of("10 PRINT 1 : GOTO 30 : PRINT 2\n20 PRINT 3\n30 PRINT 4"), "1\n4\n");
}

#[test]
fn gosub_returns_behind_the_call() {
    assert_eq!(
        output_of("10 GOSUB 100 : PRINT \"back\"\n20 PRINT \"next\"\n30 END\n100 PRINT \"sub\"\n110 RETURN"),
        "sub\nback\nnext\n"
    );
    assert_eq!(
        output_of("10 GOSUB 100\n20 GOSUB 100\n30 END\n100 GOSUB 200\n110 PRINT \"a\"\n120 RETURN\n200 PRINT \"b\"\n210 RETURN"),
        "b\na\nb\na\n"
    );
}

#[test]
fn end_and_stop_end_the_run_without_failure() {
    assert_eq!(output_of("10 PRINT 1\n20 END\n30 PRINT 2"), "1\n");
    assert_eq!(output_of("10 PRINT 1\n20 STOP\n30 PRINT 2"), "1\n");
    assert_eq!(output_of("PRINT 1 : END : PRINT 2"), "1\n");
    let unit = FloatUnit::new(native);
    let mut interp = Interpreter::new();
    assert_eq!(interp.execute(parse("END"), &unit), Ok(RunStatus::Finished));
}

#[test]
fn if_runs_one_branch() {
    assert_eq!(output_of("10 IF 1 THEN PRINT \"yes\" : PRINT \"also\"\n20 PRINT \"after\""), "yes\nalso\nafter\n");
    assert_eq!(output_of("10 IF 0 THEN PRINT \"yes\" : PRINT \"also\"\n20 PRINT \"after\""), "after\n");
    assert_eq!(output_of("IF 0 THEN PRINT \"yes\"\nELSE PRINT \"no\""), "no\n");
    assert_eq!(output_of("IF 2 > 1 THEN PRINT \"yes\"\nELSE PRINT \"no\""), "yes\n");
    assert_eq!(output_of("IF \"x\" THEN PRINT \"text\""), "text\n");
    assert_eq!(output_of("IF \"\" THEN PRINT \"text\""), "");
    assert_eq!(output_of("IF 0.0 THEN PRINT \"zero\""), "");
}

#[test]
fn while_repeats_its_line() {
    assert_eq!(output_of("10 I = 0\n20 WHILE I < 3 I = I + 1 : PRINT I\n30 PRINT \"end\""), "1\n2\n3\nend\n");
    assert_eq!(output_of("I = 5 : WHILE I < 3 PRINT I"), "");
}

#[test]
fn the_step_limit_interrupts_and_resume_goes_on() {
    let unit = FloatUnit::new(native);
    let mut interp = Interpreter::new();
    interp.execute(parse("10 I = I + 1\n20 GOTO 10"), &unit).unwrap();
    interp.execute(parse("I = 0"), &unit).unwrap();
    // Each round takes three steps: the assignment, the end of its line,
    // and the jump.
    interp.set_step_limit(10);
    assert_eq!(interp.run(&unit), Ok(RunStatus::Interrupted));
    assert_eq!(interp.variable("I"), Some(&double(4.0)));
    assert_eq!(interp.resume(&unit), Ok(RunStatus::Interrupted));
    assert_eq!(interp.variable("I"), Some(&double(7.0)));
    interp.set_step_limit(0);
    assert_eq!(interp.resume(&unit), Ok(RunStatus::Interrupted));
    assert_eq!(interp.variable("I"), Some(&double(7.0)));
}

#[test]
fn comparisons_give_minus_one_or_zero() {
    let mut interp = Interpreter::new();
    run(&mut interp, "A = 1 < 2 : B = 2 < 1 : C = 2 = 2 : D = 2 <> 2 : E = 2 >= 2 : F = 1 > 2 : G = 1 <= 0").unwrap();
    for (name, want) in [("A", -1), ("B", 0), ("C", -1), ("D", 0), ("E", -1), ("F", 0), ("G", 0)] {
        assert_eq!(interp.variable(name), Some(&Value::Integer(want)), "{name}");
    }
    assert_eq!(
        failure_of("A = \"a\" < \"b\""),
        Error::TypeError("Cannot convert 'a' to double".to_string())
    );
    let mut interp = Interpreter::new();
    run(&mut interp, "A = \"10\" > \"9\"").unwrap();
    assert_eq!(interp.variable("A"), Some(&Value::Integer(-1)));
}

#[test]
fn logical_operators_work_on_bits() {
    let mut interp = Interpreter::new();
    run(&mut interp, "A = 6 AND 3 : B = 6 OR 3 : C = NOT 0 : D = NOT -1 : E = 1 < 2 AND 2 < 3 : F = NOT 5.9").unwrap();
    for (name, want) in [("A", 2), ("B", 7), ("C", -1), ("D", 0), ("E", -1), ("F", -6)] {
        assert_eq!(interp.variable(name), Some(&Value::Integer(want)), "{name}");
    }
}

#[test]
fn operators_the_parser_does_not_write() {
    let unit = FloatUnit::new(native);
    let mut interp = Interpreter::new();
    let lit = |v: i32| Box::new(AstNode::Literal(Value::Integer(v)));
    for (op, want) in [
        (BinaryOperator::Xor, 6 ^ 3),
        (BinaryOperator::Eqv, !(6 ^ 3)),
        (BinaryOperator::Imp, !6 | 3),
    ] {
        let ast = AstNode::Let("A".to_string(), Box::new(AstNode::BinaryOp(op, lit(6), lit(3))));
        interp.execute(ast, &unit).unwrap();
        assert_eq!(interp.variable("A"), Some(&Value::Integer(want)));
    }
}

#[test]
fn arithmetic_widens_to_doubles() {
    let mut interp = Interpreter::new();
    run(&mut interp, "A = 1 + 2 : B = 5 - 7 : C = 3 * 1.5 : D = 2 ^ 10 : E = -3 : F = \"2\" * \"4\"").unwrap();
    assert_eq!(interp.variable("A"), Some(&double(3.0)));
    assert_eq!(interp.variable("B"), Some(&double(-2.0)));
    assert_eq!(interp.variable("C"), Some(&double(4.5)));
    assert_eq!(interp.variable("D"), Some(&double(1024.0)));
    assert_eq!(interp.variable("E"), Some(&double(-3.0)));
    assert_eq!(interp.variable("F"), Some(&double(8.0)));
    assert_eq!(
        failure_of("A = 1 - \"x\""),
        Error::TypeError("Cannot convert 'x' to double".to_string())
    );
}

#[test]
fn swap_exchanges_two_variables() {
    let mut interp = Interpreter::new();
    run(&mut interp, "A = 1 : B$ = \"two\" : SWAP A, B$").unwrap();
    assert_eq!(interp.variable("A"), Some(&Value::String("two".to_string())));
    assert_eq!(interp.variable("B$"), Some(&Value::Integer(1)));
    assert_eq!(
        failure_of("A = 1 : SWAP A, B"),
        Error::UndefinedError("Variable B not defined".to_string())
    );
    assert_eq!(
        failure_of("B = 1 : SWAP A, B"),
        Error::UndefinedError("Variable A not defined".to_string())
    );
    let mut interp = Interpreter::new();
    run(&mut interp, "A = 1 : SWAP A, A").unwrap();
    assert_eq!(interp.variable("A"), Some(&Value::Integer(1)));
}

#[test]
fn dim_and_rem_do_nothing() {
    assert_eq!(output_of("10 DIM A(10)\n20 REM nothing to see\n30 PRINT \"ok\" ' really"), "ok\n");
}

#[test]
fn screen_statements_reach_the_screen() {
    let mut interp = Interpreter::new();
    run(&mut interp, "LOCATE 3, 5 : COLOR 2, 1 : PSET (1, 2) : CIRCLE (10, 10), 1").unwrap();
    assert_eq!(interp.screen().get_cursor(), (2, 4));
    assert_eq!(interp.screen().cell(2, 1), Some('#'));
    assert_eq!(interp.screen().cell(10, 11), Some('#'));
    assert_eq!(interp.screen().cell(9, 10), Some('#'));
    assert_eq!(interp.take_output(), "");
    run(&mut interp, "CLS").unwrap();
    assert_eq!(interp.screen().cell(2, 1), Some(' '));
    assert_eq!(interp.screen().get_cursor(), (0, 0));
    assert_eq!(interp.take_output(), "\x1B[2J\x1B[1;1H\n");
    assert_eq!(
        failure_of("LOCATE 26, 1"),
        runtime("LOCATE position out of range: (25, 0)")
    );
    assert_eq!(
        failure_of("LOCATE 1, 81"),
        runtime("LOCATE position out of range: (0, 80)")
    );
    assert_eq!(
        failure_of("LOCATE 0 - 1, 1"),
        runtime(&format!("LOCATE position out of range: ({}, 0)", usize::MAX - 1))
    );
    let mut interp = Interpreter::new();
    run(&mut interp, "LOCATE 0, 0").unwrap();
    assert_eq!(interp.screen().get_cursor(), (0, 0));
}

#[test]
fn drawing_statements_that_the_parser_does_not_write() {
    let unit = FloatUnit::new(native);
    let mut interp = Interpreter::new();
    let lit = |v: i32| Box::new(AstNode::Literal(Value::Integer(v)));
    interp
        .execute(AstNode::DrawLine(lit(0), lit(0), lit(2), lit(2), None), &unit)
        .unwrap();
    for i in 0..3 {
        assert_eq!(interp.screen().cell(i, i), Some('#'));
    }
    interp.execute(AstNode::Screen(lit(1)), &unit).unwrap();
    assert_eq!(
        interp.execute(AstNode::Screen(Box::new(AstNode::Variable("Q".to_string()))), &unit),
        Err(Error::UndefinedError("Variable Q not defined".to_string()))
    );
}

#[test]
fn bell_statements_write_the_bell() {
    assert_eq!(output_of("BEEP"), "\x07\n");
    assert_eq!(output_of("SOUND 440, 10"), "\x07\n");
    assert_eq!(failure_of("SOUND 440, 1/0"), Error::DivisionByZero);
}

#[test]
fn randomize_evaluates_its_seed() {
    assert_eq!(output_of("RANDOMIZE 5 : RANDOMIZE : PRINT 1"), "1\n");
    assert_eq!(failure_of("RANDOMIZE 1/0"), Error::DivisionByZero);
}

#[test]
fn input_waits_for_lines_and_reads_their_values() {
    let unit = FloatUnit::new(native);
    let mut interp = Interpreter::new();
    assert_eq!(
        interp.execute(parse("10 INPUT A, B, C$\n20 PRINT A; B; C$"), &unit),
        Ok(RunStatus::Finished)
    );
    assert_eq!(interp.run(&unit), Ok(RunStatus::AwaitingInput));
    interp.provide_input(" 42 \n".to_string());
    assert_eq!(interp.resume(&unit), Ok(RunStatus::AwaitingInput));
    assert_eq!(interp.variable("A"), None);
    interp.provide_input("2.5".to_string());
    interp.provide_input("  hello world ".to_string());
    interp.provide_input("kept for later".to_string());
    assert_eq!(interp.resume(&unit), Ok(RunStatus::Finished));
    assert_eq!(interp.variable("A"), Some(&Value::Integer(42)));
    assert_eq!(interp.variable("B"), Some(&double(2.5)));
    assert_eq!(interp.variable("C$"), Some(&Value::String("hello world".to_string())));
    assert_eq!(interp.take_output(), "42 2.5 hello world\n");
    assert_eq!(interp.execute(parse("INPUT D$"), &unit), Ok(RunStatus::Finished));
    assert_eq!(interp.variable("D$"), Some(&Value::String("kept for later".to_string())));
}

#[test]
fn file_statements_ask_the_host() {
    let unit = FloatUnit::new(native);
    let mut interp = Interpreter::new();
    let lit = |v: i32| Box::new(AstNode::Literal(Value::Integer(v)));
    let open = |name: &str, n: i32, mode: &str| AstNode::Open(name.to_string(), lit(n), mode.to_string());
    let program = AstNode::Program(vec![AstNode::Line(
        10,
        vec![
            open("a.txt", 1, "input"),
            open("b.txt", 2, "O"),
            open("c.txt", 3, "Append"),
            open("d.txt", 4, "whatever"),
            AstNode::Close(vec![1, 2]),
            AstNode::Print(vec![*lit(7)]),
            AstNode::Close(vec![]),
        ],
    )]);
    interp.execute(program, &unit).unwrap();
    let mut seen = Vec::new();
    let mut open_after = Vec::new();
    let mut status = interp.run(&unit).unwrap();
    while status == RunStatus::AwaitingHost {
        for request in interp.take_requests() {
            seen.push(match request {
                FileRequest::Open(n, name, mode) => format!("open {} {} {:?}", n, name, mode),
                FileRequest::Close(n) => format!("close {}", n),
                FileRequest::CloseAll => "close all".to_string(),
            });
        }
        open_after.push(interp.files().len());
        status = interp.resume(&unit).unwrap();
    }
    assert_eq!(status, RunStatus::Finished);
    assert_eq!(
        seen,
        vec![
            format!("open 1 a.txt {:?}", FileMode::Input),
            format!("open 2 b.txt {:?}", FileMode::Output),
            format!("open 3 c.txt {:?}", FileMode::Append),
            format!("open 4 d.txt {:?}", FileMode::Output),
            "close 1".to_string(),
            "close 2".to_string(),
            "close all".to_string(),
        ]
    );
    assert_eq!(open_after, vec![1, 2, 3, 4, 2, 0]);
    assert_eq!(interp.take_output(), "7\n");
}

#[test]
fn file_numbers_are_open_once_and_closed_once() {
    let unit = FloatUnit::new(native);
    let mut interp = Interpreter::new();
    let lit = |v: i32| Box::new(AstNode::Literal(Value::Integer(v)));
    let open = |n: i32| AstNode::Open("f.txt".to_string(), lit(n), "O".to_string());
    assert_eq!(interp.execute(open(1), &unit), Ok(RunStatus::AwaitingHost));
    assert_eq!(interp.resume(&unit), Ok(RunStatus::Finished));
    assert_eq!(interp.execute(open(1), &unit), Err(runtime("File #1 is already open")));
    assert_eq!(interp.execute(open(2), &unit), Ok(RunStatus::AwaitingHost));
    assert_eq!(
        interp.execute(AstNode::Close(vec![2, 3, 1]), &unit),
        Err(runtime("File #3 is not open"))
    );
    // The file in front of the one that failed is closed, the one behind is not.
    assert_eq!(interp.files().mode(2), None);
    assert_eq!(interp.files().mode(1), Some(FileMode::Output));
    let requests: Vec<String> = interp.take_requests().iter().map(|r| format!("{:?}", r)).collect();
    assert_eq!(
        requests,
        vec![
            format!("{:?}", FileRequest::Open(1, "f.txt".to_string(), FileMode::Output)),
            format!("{:?}", FileRequest::Open(2, "f.txt".to_string(), FileMode::Output)),
            format!("{:?}", FileRequest::Close(2)),
        ]
    );
    // What the host opened stays open.
    assert_eq!(interp.settle_open(1, None), Ok(()));
    assert_eq!(interp.files().mode(1), Some(FileMode::Output));
    // What the host could not open is closed again, with the host's message.
    assert_eq!(
        interp.settle_open(1, Some("Cannot create file: denied".to_string())),
        Err(Error::IoError("Cannot create file: denied".to_string()))
    );
    assert_eq!(interp.files().len(), 0);
    assert_eq!(
        interp.settle_open(1, Some("again".to_string())),
        Err(Error::IoError("again".to_string()))
    );
    assert_eq!(interp.files().len(), 0);
    assert_eq!(interp.execute(open(1), &unit), Ok(RunStatus::AwaitingHost));
}

#[test]
fn names_are_looked_up_in_upper_case_as_unicode_has_it() {
    let unit = FloatUnit::new(native);
    let mut interp = Interpreter::new();
    let lit = |v: i32| AstNode::Literal(Value::Integer(v));
    // The long s has the upper case S.
    let call = AstNode::FunctionCall("\u{17f}gn".to_string(), vec![lit(-3)]);
    interp.execute(AstNode::Let("A".to_string(), Box::new(call)), &unit).unwrap();
    assert_eq!(interp.variable("A"), Some(&Value::Integer(-1)));
    // The dotless i has the upper case I, which names the mode for input.
    let open = AstNode::Open("f.txt".to_string(), Box::new(lit(1)), "\u{131}".to_string());
    assert_eq!(interp.execute(open, &unit), Ok(RunStatus::AwaitingHost));
    assert_eq!(interp.files().mode(1), Some(FileMode::Input));
    let call = AstNode::FunctionCall("\u{e4}bs".to_string(), vec![lit(-3)]);
    assert_eq!(
        interp.execute(AstNode::Let("A".to_string(), Box::new(call)), &unit),
        Err(Error::UndefinedError("Function \u{e4}bs not defined".to_string()))
    );
}

#[test]
fn nodes_that_are_no_statements_are_refused() {
    let unit = FloatUnit::new(native);
    let mut interp = Interpreter::new();
    assert_eq!(
        interp.execute(AstNode::Literal(Value::Integer(1)), &unit),
        Err(runtime("Cannot execute node"))
    );
    assert_eq!(
        interp.execute(
            AstNode::Let("A".to_string(), Box::new(AstNode::Print(vec![]))),
            &unit
        ),
        Err(runtime("Cannot evaluate node"))
    );
    // A program inside a list of statements runs its statements.
    let inner = AstNode::Program(vec![AstNode::Print(vec![]), AstNode::Print(vec![])]);
    let ast = AstNode::Program(vec![AstNode::Program(vec![inner, AstNode::Beep])]);
    assert_eq!(interp.execute(ast, &unit), Ok(RunStatus::Finished));
    assert_eq!(interp.take_output(), "\n\n\x07\n");
}

#[test]
fn a_failure_ends_the_rest_of_what_was_typed() {
    let unit = FloatUnit::new(native);
    let mut interp = Interpreter::new();
    assert_eq!(
        interp.execute(parse("PRINT 1\nPRINT X\nPRINT 2\n10 PRINT 3"), &unit),
        Err(Error::UndefinedError("Variable X not defined".to_string()))
    );
    assert_eq!(interp.take_output(), "1\n");
    assert_eq!(interp.line_count(), 0);
}

#[test]
fn default_is_a_new_session() {
    let interp = Interpreter::default();
    assert_eq!(interp.variable_count(), 0);
    assert_eq!(interp.line_count(), 0);
    assert_eq!(interp.output(), "");
}
