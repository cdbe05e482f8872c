use rust_gwbasic::unit::{FloatFunction, FloatOp, FloatReply, FloatRequest, FloatUnit};
use rust_gwbasic::{Error, Lexer, Token, TokenType};

fn native(req: FloatRequest) -> FloatReply {
    fn double(v: f64) -> FloatReply {
        FloatReply { ok: true, bits: v.to_bits(), text: String::new() }
    }
    fn single(v: f32) -> FloatReply {
        FloatReply { ok: true, bits: v.to_bits() as u64, text: String::new() }
    }
    fn text(s: String) -> FloatReply {
        FloatReply { ok: true, bits: 0, text: s }
    }
    match req {
        FloatRequest::Binary(op, a, b) => {
            let (a, b) = (f64::from_bits(a.bits), f64::from_bits(b.bits));
            double(match op {
                FloatOp::Add => a + b,
                FloatOp::Subtract => a - b,
                FloatOp::Multiply => a * b,
                FloatOp::Divide => a / b,
                FloatOp::Power => a.powf(b),
            })
        }
        FloatRequest::Unary(f, a) => {
            let a = f64::from_bits(a.bits);
            double(match f {
                FloatFunction::Sqrt => a.sqrt(),
                FloatFunction::Sin => a.sin(),
                FloatFunction::Cos => a.cos(),
                FloatFunction::Tan => a.tan(),
                FloatFunction::Atan => a.atan(),
                FloatFunction::Exp => a.exp(),
                FloatFunction::Ln => a.ln(),
            })
        }
        FloatRequest::Narrow(a) => single(f64::from_bits(a.bits) as f32),
        FloatRequest::DivideSingle(a, b) => single(f32::from_bits(a.bits) / f32::from_bits(b.bits)),
        FloatRequest::Parse(s) => match s.parse::<f64>() {
            Ok(v) => double(v),
            Err(_) => FloatReply { ok: false, bits: 0, text: String::new() },
        },
        FloatRequest::Format(a) => text(f64::from_bits(a.bits).to_string()),
        FloatRequest::FormatSingle(a) => text(f32::from_bits(a.bits).to_string()),
    }
}

fn lex(text: &str) -> Result<Vec<Token>, Error> {
    let unit = FloatUnit::new(native);
    Lexer::new(text).tokenize(&unit)
}

fn kinds(text: &str) -> Vec<TokenType> {
    lex(text).unwrap().iter().map(|t| t.token_type).collect()
}

fn double(v: f64) -> TokenType {
    TokenType::Float(rust_gwbasic::numeric::Double::from_bits(v.to_bits()))
}

#[test]
fn empty_text_is_the_end_token_alone() {
    let tokens = lex("").unwrap();
    assert_eq!(tokens.len(), 1);
    assert_eq!(tokens[0].token_type, TokenType::Eof);
    assert_eq!((tokens[0].line, tokens[0].column), (1, 1));
}

#[test]
fn a_leading_integer_is_a_line_number() {
    assert_eq!(
        kinds("10 PRINT 42"),
        vec![TokenType::LineNumber(10), TokenType::Print, TokenType::Integer(42), TokenType::Eof]
    );
}

#[test]
fn line_numbers_only_at_the_start_of_a_line() {
    assert_eq!(
        kinds("  20 GOTO 10\n30 END"),
        vec![
            TokenType::LineNumber(20),
            TokenType::Goto,
            TokenType::Integer(10),
            TokenType::Newline,
            TokenType::LineNumber(30),
            TokenType::End,
            TokenType::Eof
        ]
    );
}

#[test]
fn keywords_in_any_case() {
    assert_eq!(
        kinds("print Print pRiNt"),
        vec![TokenType::Print, TokenType::Print, TokenType::Print, TokenType::Eof]
    );
    assert_eq!(
        kinds("x mod y and not z or w"),
        vec![
            TokenType::Identifier,
            TokenType::Mod,
            TokenType::Identifier,
            TokenType::And,
            TokenType::Not,
            TokenType::Identifier,
            TokenType::Or,
            TokenType::Identifier,
            TokenType::Eof
        ]
    );
}

#[test]
fn identifiers_keep_their_case_and_their_dollar() {
    let tokens = lex("LET name$ = Left$(a1, 2)").unwrap();
    let texts: Vec<&str> = tokens.iter().map(|t| t.text.as_str()).collect();
    assert_eq!(texts, vec!["LET", "name$", "=", "Left$", "(", "a1", ",", "2", ")", ""]);
    assert_eq!(tokens[1].token_type, TokenType::Identifier);
    assert_eq!(tokens[3].token_type, TokenType::Identifier);
    assert_eq!(tokens[5].token_type, TokenType::Identifier);
}

#[test]
fn a_keyword_with_a_dollar_is_a_name() {
    assert_eq!(kinds("A = PRINT$"), vec![
        TokenType::Identifier,
        TokenType::Equal,
        TokenType::Identifier,
        TokenType::Eof
    ]);
}

#[test]
fn numbers() {
    assert_eq!(
        kinds("A = 1 + 2.5 - .5 * 1e3 / 2E-2 ^ 7."),
        vec![
            TokenType::Identifier,
            TokenType::Equal,
            TokenType::Integer(1),
            TokenType::Plus,
            double(2.5),
            TokenType::Minus,
            double(0.5),
            TokenType::Multiply,
            double(1000.0),
            TokenType::Divide,
            double(0.02),
            TokenType::Power,
            double(7.0),
            TokenType::Eof
        ]
    );
}

#[test]
fn integers_too_large_become_doubles() {
    assert_eq!(
        kinds("A = 2147483647 + 2147483648"),
        vec![
            TokenType::Identifier,
            TokenType::Equal,
            TokenType::Integer(2147483647),
            TokenType::Plus,
            double(2147483648.0),
            TokenType::Eof
        ]
    );
    assert_eq!(kinds("4294967295"), vec![TokenType::LineNumber(4294967295), TokenType::Eof]);
    assert_eq!(kinds("4294967296"), vec![double(4294967296.0), TokenType::Eof]);
}

#[test]
fn an_exponent_needs_a_digit() {
    assert_eq!(
        kinds("A = 2E"),
        vec![
            TokenType::Identifier,
            TokenType::Equal,
            TokenType::Integer(2),
            TokenType::Identifier,
            TokenType::Eof
        ]
    );
}

#[test]
fn string_literals_hold_what_is_between_the_quotes() {
    let tokens = lex("PRINT \"Hello, World!\"; \"\"").unwrap();
    assert_eq!(tokens[1].token_type, TokenType::String);
    assert_eq!(tokens[1].text, "Hello, World!");
    assert_eq!(tokens[2].token_type, TokenType::Semicolon);
    assert_eq!(tokens[3].token_type, TokenType::String);
    assert_eq!(tokens[3].text, "");
}

#[test]
fn an_unterminated_string_is_refused_with_its_text() {
    assert_eq!(
        lex("PRINT \"abc").unwrap_err(),
        Error::SyntaxError("Unterminated string: \"abc".to_string())
    );
    assert_eq!(
        lex("PRINT \"abc\nPRINT 1").unwrap_err(),
        Error::SyntaxError("Unterminated string: \"abc".to_string())
    );
}

#[test]
fn an_unknown_character_is_refused_with_its_text() {
    assert_eq!(
        lex("PRINT 1 ? 2").unwrap_err(),
        Error::SyntaxError("Unexpected character: ?".to_string())
    );
    assert_eq!(
        lex("A = 1 . 2").unwrap_err(),
        Error::SyntaxError("Unexpected character: .".to_string())
    );
}

#[test]
fn operators_and_punctuation() {
    assert_eq!(
        kinds("+-*/\\^=<><=>=<>(),;:"),
        vec![
            TokenType::Plus,
            TokenType::Minus,
            TokenType::Multiply,
            TokenType::Divide,
            TokenType::IntDivide,
            TokenType::Power,
            TokenType::Equal,
            TokenType::NotEqual,
            TokenType::LessEqual,
            TokenType::GreaterEqual,
            TokenType::NotEqual,
            TokenType::LeftParen,
            TokenType::RightParen,
            TokenType::Comma,
            TokenType::Semicolon,
            TokenType::Colon,
            TokenType::Eof
        ]
    );
}

#[test]
fn comments_run_to_the_end_of_the_line() {
    assert_eq!(
        kinds("10 REM anything \"goes ? here\n20 PRINT 1 ' and here\n"),
        vec![
            TokenType::LineNumber(10),
            TokenType::Rem,
            TokenType::Newline,
            TokenType::LineNumber(20),
            TokenType::Print,
            TokenType::Integer(1),
            TokenType::Newline,
            TokenType::Eof
        ]
    );
}

#[test]
fn positions_count_lines_and_columns_from_one() {
    let tokens = lex("10 PRINT X\r\n  LET Y = 2").unwrap();
    let at: Vec<(usize, usize)> = tokens.iter().map(|t| (t.line, t.column)).collect();
    assert_eq!(
        at,
        vec![(1, 1), (1, 4), (1, 10), (1, 12), (2, 3), (2, 7), (2, 9), (2, 11), (2, 12)]
    );
    assert_eq!(tokens[4].token_type, TokenType::Let);
}

#[test]
fn tokenizing_again_gives_only_the_end() {
    let unit = FloatUnit::new(native);
    let mut lexer = Lexer::new("PRINT 1");
    assert_eq!(lexer.tokenize(&unit).unwrap().len(), 3);
    let again = lexer.tokenize(&unit).unwrap();
    assert_eq!(again.len(), 1);
    assert_eq!(again[0].token_type, TokenType::Eof);
}
