use rust_gwbasic::numeric::Double;
use rust_gwbasic::unit::{FloatFunction, FloatOp, FloatReply, FloatRequest, FloatUnit};
use rust_gwbasic::{AstNode, BinaryOperator, Error, Lexer, Parser, Token, TokenType, UnaryOperator, Value};

fn native(req: FloatRequest) -> FloatReply {
    fn double(v: f64) -> FloatReply {
        FloatReply { ok: true, bits: v.to_bits(), text: String::new() }
    }
    fn single(v: f32) -> FloatReply {
        FloatReply { ok: true, bits: v.to_bits() as u64, text: String::new() }
    }
    fn text(s: String) -> FloatReply {
        FloatReply { ok: true, bits: 0, text: s }
    }
    match req {
        FloatRequest::Binary(op, a, b) => {
            let (a, b) = (f64::from_bits(a.bits), f64::from_bits(b.bits));
            double(match op {
                FloatOp::Add => a + b,
                FloatOp::Subtract => a - b,
                FloatOp::Multiply => a * b,
                FloatOp::Divide => a / b,
                FloatOp::Power => a.powf(b),
            })
        }
        FloatRequest::Unary(f, a) => {
            let a = f64::from_bits(a.bits);
            double(match f {
                FloatFunction::Sqrt => a.sqrt(),
                FloatFunction::Sin => a.sin(),
                FloatFunction::Cos => a.cos(),
                FloatFunction::Tan => a.tan(),
                FloatFunction::Atan => a.atan(),
                FloatFunction::Exp => a.exp(),
                FloatFunction::Ln => a.ln(),
            })
        }
        FloatRequest::Narrow(a) => single(f64::from_bits(a.bits) as f32),
        FloatRequest::DivideSingle(a, b) => single(f32::from_bits(a.bits) / f32::from_bits(b.bits)),
        FloatRequest::Parse(s) => match s.parse::<f64>() {
            Ok(v) => double(v),
            Err(_) => FloatReply { ok: false, bits: 0, text: String::new() },
        },
        FloatRequest::Format(a) => text(f64::from_bits(a.bits).to_string()),
        FloatRequest::FormatSingle(a) => text(f32::from_bits(a.bits).to_string()),
    }
}

fn parse(text: &str) -> Result<AstNode, Error> {
    let unit = FloatUnit::new(native);
    let tokens = Lexer::new(text).tokenize(&unit)?;
    Parser::new(tokens).parse()
}

fn one(text: &str) -> AstNode {
    match parse(text).unwrap() {
        AstNode::Program(mut lines) => {
            assert_eq!(lines.len(), 1);
            lines.pop().unwrap()
        }
        other => panic!("Expected Program node, got {:?}", other),
    }
}

fn syntax_error(text: &str) -> String {
    match parse(text).unwrap_err() {
        Error::SyntaxError(m) => m,
        other => panic!("Expected a syntax error, got {:?}", other),
    }
}

fn lit(v: i32) -> Box<AstNode> {
    Box::new(AstNode::Literal(Value::Integer(v)))
}

fn var(name: &str) -> Box<AstNode> {
    Box::new(AstNode::Variable(name.to_string()))
}

fn bin(op: BinaryOperator, a: Box<AstNode>, b: Box<AstNode>) -> Box<AstNode> {
    Box::new(AstNode::BinaryOp(op, a, b))
}

#[test]
fn test_parser_initialization() {
    let tokens = vec![Token::new(TokenType::Eof, 1, 1)];
    let _parser = Parser::new(tokens);
    assert!(true);
}

#[test]
fn test_parse_print_statement() {
    let unit = FloatUnit::new(native);
    let mut lexer = Lexer::new("PRINT 42");
    let tokens = lexer.tokenize(&unit).unwrap();
    let mut parser = Parser::new(tokens);
    let ast = parser.parse().unwrap();

    match ast {
        AstNode::Program(lines) => {
            assert_eq!(lines.len(), 1);
            match &lines[0] {
                AstNode::Print(exprs) => {
                    assert_eq!(exprs.len(), 1);
                }
                _ => panic!("Expected Print node"),
            }
        }
        _ => panic!("Expected Program node"),
    }
}

#[test]
fn test_parse_let_statement() {
    let unit = FloatUnit::new(native);
    let mut lexer = Lexer::new("LET A = 10");
    let tokens = lexer.tokenize(&unit).unwrap();
    let mut parser = Parser::new(tokens);
    let ast = parser.parse().unwrap();

    match ast {
        AstNode::Program(lines) => {
            assert_eq!(lines.len(), 1);
            match &lines[0] {
                AstNode::Let(name, _) => {
                    assert_eq!(name, "A");
                }
                _ => panic!("Expected Let node"),
            }
        }
        _ => panic!("Expected Program node"),
    }
}

#[test]
fn test_parse_expression() {
    let unit = FloatUnit::new(native);
    let mut lexer = Lexer::new("PRINT 1 + 2 * 3");
    let tokens = lexer.tokenize(&unit).unwrap();
    let mut parser = Parser::new(tokens);
    let ast = parser.parse().unwrap();

    match ast {
        AstNode::Program(lines) => {
            assert_eq!(lines.len(), 1);
            match &lines[0] {
                AstNode::Print(exprs) => {
                    assert_eq!(exprs.len(), 1);
                    // Should be a binary operation
                    match &exprs[0] {
                        AstNode::BinaryOp(BinaryOperator::Add, _, _) => {}
                        _ => panic!("Expected binary operation"),
                    }
                }
                _ => panic!("Expected Print node"),
            }
        }
        _ => panic!("Expected Program node"),
    }
}

#[test]
fn test_parse_line_with_number() {
    let unit = FloatUnit::new(native);
    let mut lexer = Lexer::new("10 PRINT 42");
    let tokens = lexer.tokenize(&unit).unwrap();
    let mut parser = Parser::new(tokens);
    let ast = parser.parse().unwrap();

    match ast {
        AstNode::Program(lines) => {
            assert_eq!(lines.len(), 1);
            match &lines[0] {
                AstNode::Line(num, _) => {
                    assert_eq!(*num, 10);
                }
                _ => panic!("Expected Line node"),
            }
        }
        _ => panic!("Expected Program node"),
    }
}

#[test]
fn tokens_without_an_end_are_closed() {
    let tokens = vec![Token::new(TokenType::Cls, 1, 1)];
    assert_eq!(Parser::new(tokens).parse().unwrap(), AstNode::Program(vec![AstNode::Cls]));
    assert_eq!(Parser::new(Vec::new()).parse().unwrap(), AstNode::Program(vec![]));
    let tokens = vec![Token::new(TokenType::Minus, 1, 1)];
    assert!(Parser::new(tokens).parse().is_err());
}

#[test]
fn precedence_from_or_down_to_power() {
    // A OR B AND C = D + E * F ^ G
    let got = one("X = A OR B AND C = D + E * F ^ G");
    let want = AstNode::Let(
        "X".to_string(),
        bin(
            BinaryOperator::Or,
            var("A"),
            bin(
                BinaryOperator::And,
                var("B"),
                bin(
                    BinaryOperator::Equal,
                    var("C"),
                    bin(
                        BinaryOperator::Add,
                        var("D"),
                        bin(
                            BinaryOperator::Multiply,
                            var("E"),
                            bin(BinaryOperator::Power, var("F"), var("G")),
                        ),
                    ),
                ),
            ),
        ),
    );
    assert_eq!(got, want);
}

#[test]
fn operators_of_one_level_group_from_the_left() {
    let got = one("X = 10 - 4 - 3 + 2");
    let want = AstNode::Let(
        "X".to_string(),
        bin(
            BinaryOperator::Add,
            bin(
                BinaryOperator::Subtract,
                bin(BinaryOperator::Subtract, lit(10), lit(4)),
                lit(3),
            ),
            lit(2),
        ),
    );
    assert_eq!(got, want);
    let got = one("X = 2 ^ 3 ^ 2");
    let want = AstNode::Let(
        "X".to_string(),
        bin(BinaryOperator::Power, bin(BinaryOperator::Power, lit(2), lit(3)), lit(2)),
    );
    assert_eq!(got, want);
    let got = one("X = 7 \\ 2 MOD 3 / 4");
    let want = AstNode::Let(
        "X".to_string(),
        bin(
            BinaryOperator::Divide,
            bin(BinaryOperator::Mod, bin(BinaryOperator::IntDivide, lit(7), lit(2)), lit(3)),
            lit(4),
        ),
    );
    assert_eq!(got, want);
}

#[test]
fn unary_operators_and_parentheses() {
    let got = one("X = -(1 + 2) * NOT -Y");
    let want = AstNode::Let(
        "X".to_string(),
        bin(
            BinaryOperator::Multiply,
            Box::new(AstNode::UnaryOp(
                UnaryOperator::Negate,
                bin(BinaryOperator::Add, lit(1), lit(2)),
            )),
            Box::new(AstNode::UnaryOp(
                UnaryOperator::Not,
                Box::new(AstNode::UnaryOp(UnaryOperator::Negate, var("Y"))),
            )),
        ),
    );
    assert_eq!(got, want);
}

#[test]
fn comparison_operators() {
    for (text, op) in [
        ("=", BinaryOperator::Equal),
        ("<>", BinaryOperator::NotEqual),
        ("<", BinaryOperator::LessThan),
        (">", BinaryOperator::GreaterThan),
        ("<=", BinaryOperator::LessEqual),
        (">=", BinaryOperator::GreaterEqual),
    ] {
        let got = one(&format!("X = A {} 1", text));
        assert_eq!(got, AstNode::Let("X".to_string(), bin(op, var("A"), lit(1))));
    }
}

#[test]
fn calls_and_variables_share_their_syntax() {
    let got = one("X = F() + MID$(A$, 2, 3) + B(1)");
    let want = AstNode::Let(
        "X".to_string(),
        bin(
            BinaryOperator::Add,
            bin(
                BinaryOperator::Add,
                Box::new(AstNode::FunctionCall("F".to_string(), vec![])),
                Box::new(AstNode::FunctionCall(
                    "MID$".to_string(),
                    vec![*var("A$"), *lit(2), *lit(3)],
                )),
            ),
            Box::new(AstNode::FunctionCall("B".to_string(), vec![*lit(1)])),
        ),
    );
    assert_eq!(got, want);
}

#[test]
fn literals() {
    let got = one("PRINT 1, 2.5; \"three\"");
    let want = AstNode::Print(vec![
        *lit(1),
        AstNode::Literal(Value::Double(Double::from_bits(2.5f64.to_bits()))),
        AstNode::Literal(Value::String("three".to_string())),
    ]);
    assert_eq!(got, want);
}

#[test]
fn a_line_holds_statements_separated_by_colons() {
    let got = one("10 A = 1 : B = 2 :: PRINT A");
    let want = AstNode::Line(
        10,
        vec![
            AstNode::Let("A".to_string(), lit(1)),
            AstNode::Let("B".to_string(), lit(2)),
            AstNode::Print(vec![*var("A")]),
        ],
    );
    assert_eq!(got, want);
}

#[test]
fn direct_lines_of_several_statements_are_programs() {
    let got = one("A = 1 : PRINT A");
    let want = AstNode::Program(vec![
        AstNode::Let("A".to_string(), lit(1)),
        AstNode::Print(vec![*var("A")]),
    ]);
    assert_eq!(got, want);
}

#[test]
fn a_program_of_lines() {
    let got = parse("10 LET A=2\n\n20 LET B=3\n30 PRINT A+B\n").unwrap();
    let want = AstNode::Program(vec![
        AstNode::Line(10, vec![AstNode::Let("A".to_string(), lit(2))]),
        AstNode::Line(20, vec![AstNode::Let("B".to_string(), lit(3))]),
        AstNode::Line(30, vec![AstNode::Print(vec![*bin(BinaryOperator::Add, var("A"), var("B"))])]),
    ]);
    assert_eq!(got, want);
}

#[test]
fn a_line_number_ends_the_statements_before_it() {
    let got = parse("10 IF A THEN B = 1\n20 WHILE A C = 2\n30 END").unwrap();
    let want = AstNode::Program(vec![
        AstNode::Line(10, vec![AstNode::If(var("A"), vec![AstNode::Let("B".to_string(), lit(1))], None)]),
        AstNode::Line(20, vec![AstNode::While(var("A"), vec![AstNode::Let("C".to_string(), lit(2))])]),
        AstNode::Line(30, vec![AstNode::End]),
    ]);
    assert_eq!(got, want);
}

#[test]
fn a_number_alone_is_an_empty_line() {
    assert_eq!(one("10"), AstNode::Line(10, vec![]));
}

#[test]
fn if_needs_then() {
    assert_eq!(syntax_error("IF A = 1 PRINT 2"), "Expected THEN after IF condition");
}

#[test]
fn if_holds_the_rest_of_its_line() {
    let got = one("IF A THEN B = 1 : C = 2");
    let want = AstNode::If(
        var("A"),
        vec![AstNode::Let("B".to_string(), lit(1)), AstNode::Let("C".to_string(), lit(2))],
        None,
    );
    assert_eq!(got, want);
}

#[test]
fn else_opens_the_line_after_the_then_part() {
    let got = one("IF A THEN B = 1\nELSE B = 2");
    let want = AstNode::If(
        var("A"),
        vec![AstNode::Let("B".to_string(), lit(1))],
        Some(vec![AstNode::Let("B".to_string(), lit(2))]),
    );
    assert_eq!(got, want);
    assert_eq!(syntax_error("IF A THEN B = 1 ELSE B = 2"), "Unexpected token: ELSE");
}

#[test]
fn for_with_and_without_step() {
    assert_eq!(
        one("FOR I = 1 TO 5"),
        AstNode::For("I".to_string(), lit(1), lit(5), None)
    );
    assert_eq!(
        one("FOR I = 5 TO 1 STEP -1"),
        AstNode::For(
            "I".to_string(),
            lit(5),
            lit(1),
            Some(Box::new(AstNode::UnaryOp(UnaryOperator::Negate, lit(1))))
        )
    );
    assert_eq!(syntax_error("FOR 1 = 1 TO 5"), "Expected variable after FOR");
    assert_eq!(syntax_error("FOR I 1 TO 5"), "Expected '=' in FOR statement");
    assert_eq!(syntax_error("FOR I = 1, 5"), "Expected TO in FOR statement");
}

#[test]
fn next_with_and_without_a_name() {
    assert_eq!(one("NEXT I"), AstNode::Next("I".to_string()));
    assert_eq!(one("NEXT"), AstNode::Next(String::new()));
}

#[test]
fn while_holds_the_rest_of_its_line() {
    let got = one("WHILE A < 3 A = A + 1");
    let want = AstNode::While(
        bin(BinaryOperator::LessThan, var("A"), lit(3)),
        vec![AstNode::Let("A".to_string(), bin(BinaryOperator::Add, var("A"), lit(1)))],
    );
    assert_eq!(got, want);
}

#[test]
fn jumps() {
    assert_eq!(one("GOTO 100"), AstNode::Goto(100));
    assert_eq!(one("GOSUB 200"), AstNode::Gosub(200));
    assert_eq!(one("RETURN"), AstNode::Return);
    assert_eq!(one("END"), AstNode::End);
    assert_eq!(one("STOP"), AstNode::Stop);
    assert_eq!(syntax_error("GOTO X"), "Expected line number after GOTO");
    assert_eq!(syntax_error("GOSUB"), "Expected line number after GOSUB");
}

#[test]
fn data_statements() {
    assert_eq!(one("DATA 1, 2, 3"), AstNode::Data(vec![*lit(1), *lit(2), *lit(3)]));
    assert_eq!(one("DATA"), AstNode::Data(vec![]));
    assert_eq!(
        one("READ A, B$, C"),
        AstNode::Read(vec!["A".to_string(), "B$".to_string(), "C".to_string()])
    );
    assert_eq!(one("INPUT A, B"), AstNode::Input(vec!["A".to_string(), "B".to_string()]));
    assert_eq!(one("RESTORE"), AstNode::Restore(None));
    assert_eq!(one("RESTORE 100"), AstNode::Restore(Some(100)));
    assert_eq!(one("REM"), AstNode::Rem(String::new()));
    assert_eq!(one("SWAP A, B"), AstNode::Swap("A".to_string(), "B".to_string()));
    assert_eq!(one("SWAP A B"), AstNode::Swap("A".to_string(), "B".to_string()));
    assert_eq!(syntax_error("SWAP 1, B"), "Expected variable name after SWAP");
    assert_eq!(syntax_error("SWAP A, 1"), "Expected second variable name in SWAP");
}

#[test]
fn dim_needs_a_parenthesized_list() {
    assert_eq!(one("DIM A(10, 20)"), AstNode::Dim("A".to_string(), vec![*lit(10), *lit(20)]));
    assert_eq!(syntax_error("DIM 1"), "Expected array name");
    assert_eq!(syntax_error("DIM A"), "Expected '(' after array name");
    assert_eq!(syntax_error("DIM A(1 2)"), "Expected ',' or ')' in DIM statement");
}

#[test]
fn screen_and_sound_statements() {
    assert_eq!(one("CLS"), AstNode::Cls);
    assert_eq!(one("BEEP"), AstNode::Beep);
    assert_eq!(one("LOCATE 1, 2"), AstNode::Locate(lit(1), lit(2)));
    assert_eq!(one("SOUND 440, 10"), AstNode::Sound(lit(440), lit(10)));
    assert_eq!(one("COLOR 1, 2"), AstNode::Color(Some(lit(1)), Some(lit(2))));
    assert_eq!(one("COLOR 1"), AstNode::Color(Some(lit(1)), None));
    assert_eq!(one("COLOR , 2"), AstNode::Color(None, Some(lit(2))));
    assert_eq!(one("COLOR"), AstNode::Color(None, None));
    assert_eq!(one("PSET (1, 2)"), AstNode::Pset(lit(1), lit(2), None));
    assert_eq!(one("PSET (1, 2), 3"), AstNode::Pset(lit(1), lit(2), Some(lit(3))));
    assert_eq!(one("CIRCLE (1, 2), 3"), AstNode::Circle(lit(1), lit(2), lit(3), None));
    assert_eq!(one("CIRCLE (1, 2), 3, 4"), AstNode::Circle(lit(1), lit(2), lit(3), Some(lit(4))));
    assert_eq!(one("RANDOMIZE"), AstNode::Randomize(None));
    assert_eq!(one("RANDOMIZE 7"), AstNode::Randomize(Some(lit(7))));
}

#[test]
fn let_and_assignment_errors() {
    assert_eq!(syntax_error("LET 1 = 2"), "Expected variable name");
    assert_eq!(syntax_error("LET A 2"), "Expected '=' in LET statement");
    assert_eq!(syntax_error("A 2"), "Unexpected token after identifier: 2");
    assert_eq!(syntax_error("A"), "Unexpected token after identifier: end of input");
}

#[test]
fn expression_errors_carry_the_token() {
    assert_eq!(syntax_error("A = (1 + 2"), "Expected ')' after expression");
    assert_eq!(syntax_error("A = F(1 2)"), "Expected ',' or ')' in function call");
    assert_eq!(syntax_error("A = 1 +"), "Unexpected token in expression: end of input");
    assert_eq!(syntax_error("A = * 2"), "Unexpected token in expression: *");
    assert_eq!(syntax_error("A = 1 +\nB = 2"), "Unexpected token in expression: end of line");
    assert_eq!(syntax_error("THEN"), "Unexpected token: THEN");
    assert_eq!(syntax_error(") = 2"), "Unexpected token: )");
}
