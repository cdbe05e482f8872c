//! The parser: from tokens to a syntax tree, by recursive descent.

use vstd::prelude::*;
use vstd::string::*;
pub use crate::ast::{AstNode, AstView, BinaryOperator, UnaryOperator};
use crate::ast::{name_views, node_views, optional_view};
use crate::error::{Error, ErrorView};
use crate::grammar::{
    as_line_number,
    assignment,
    binary,
    binary_at,
    binary_rest,
    color_statement,
    comment_end,
    data_items,
    describe,
    dim_statement,
    empty_lines_end,
    expression,
    for_statement,
    introduced,
    jump,
    kind,
    line,
    lines,
    list,
    names,
    next,
    next_statement,
    optional_expression,
    pair,
    point,
    primary,
    print_items,
    program,
    simple_statement,
    skip,
    statement,
    statements,
    swap_statement,
    syntax,
    unary,
    well_ended,
    Parsed,
};
use crate::lexer::{token_views, Token, TokenType, TokenView};
use crate::text::concat2;
use crate::value::Value;

verus! {

/// The tokens closed by an end-of-input token, which is added where the last
/// token is not one.
pub open spec fn with_end(toks: Seq<TokenView>) -> Seq<TokenView> {
    if well_ended(toks) {
        toks
    } else {
        toks.push(
            TokenView { token_type: TokenType::Eof, text: Seq::<char>::empty(), line: 0, column: 0 },
        )
    }
}

/// A parsed node and the position behind it, or the failure.
pub open spec fn node_outcome(r: Result<AstNode, Error>, pos: int) -> Parsed<AstView> {
    match r {
        Ok(n) => Ok((n@, pos)),
        Err(e) => Err(e@),
    }
}

/// A parsed list of nodes and the position behind it, or the failure.
pub open spec fn nodes_outcome(r: Result<Vec<AstNode>, Error>, pos: int) -> Parsed<Seq<AstView>> {
    match r {
        Ok(ns) => Ok((node_views(ns@), pos)),
        Err(e) => Err(e@),
    }
}

/// A node that may be absent and the position behind it, or the failure.
pub open spec fn optional_outcome(r: Result<Option<Box<AstNode>>, Error>, pos: int) -> Parsed<
    Option<Box<AstView>>,
> {
    match r {
        Ok(n) => Ok((optional_view(n), pos)),
        Err(e) => Err(e@),
    }
}

/// Two parsed nodes and the position behind them, or the failure.
pub open spec fn pair_outcome(r: Result<(AstNode, AstNode), Error>, pos: int) -> Parsed<
    (AstView, AstView),
> {
    match r {
        Ok((a, b)) => Ok(((a@, b@), pos)),
        Err(e) => Err(e@),
    }
}

/// The view of a program in a result.
pub open spec fn program_outcome(r: Result<AstNode, Error>) -> Result<AstView, ErrorView> {
    match r {
        Ok(n) => Ok(n@),
        Err(e) => Err(e@),
    }
}

fn line_number(n: i32) -> (r: u32)
    ensures
        r == as_line_number(n),
{
    if n >= 0 {
        n as u32
    } else {
        (n as i64 + 0x1_0000_0000) as u32
    }
}

fn binary_operator_at(level: u8, t: TokenType) -> (r: Option<BinaryOperator>)
    ensures
        r == binary_at(level as nat, t),
{
    if level == 6 {
        match t {
            TokenType::Or => Some(BinaryOperator::Or),
            _ => None,
        }
    } else if level == 5 {
        match t {
            TokenType::And => Some(BinaryOperator::And),
            _ => None,
        }
    } else if level == 4 {
        match t {
            TokenType::Equal => Some(BinaryOperator::Equal),
            TokenType::NotEqual => Some(BinaryOperator::NotEqual),
            TokenType::LessThan => Some(BinaryOperator::LessThan),
            TokenType::GreaterThan => Some(BinaryOperator::GreaterThan),
            TokenType::LessEqual => Some(BinaryOperator::LessEqual),
            TokenType::GreaterEqual => Some(BinaryOperator::GreaterEqual),
            _ => None,
        }
    } else if level == 3 {
        match t {
            TokenType::Plus => Some(BinaryOperator::Add),
            TokenType::Minus => Some(BinaryOperator::Subtract),
            _ => None,
        }
    } else if level == 2 {
        match t {
            TokenType::Multiply => Some(BinaryOperator::Multiply),
            TokenType::Divide => Some(BinaryOperator::Divide),
            TokenType::IntDivide => Some(BinaryOperator::IntDivide),
            TokenType::Mod => Some(BinaryOperator::Mod),
            _ => None,
        }
    } else if level == 1 {
        match t {
            TokenType::Power => Some(BinaryOperator::Power),
            _ => None,
        }
    } else {
        None
    }
}

/// Parser that converts tokens into a syntax tree.
pub struct Parser {
    tokens: Vec<Token>,
    position: usize,
}

impl Parser {
    /// The tokens that the parser reads.
    pub closed spec fn tokens(&self) -> Seq<TokenView> {
        token_views(self.tokens@)
    }

    /// The index of the token that the parser stands at.
    pub closed spec fn position(&self) -> int {
        self.position as int
    }

    /// The tokens end with an end-of-input token and the position is at one
    /// of them.
    pub closed spec fn wf(&self) -> bool {
        well_ended(self.tokens()) && self.position < self.tokens@.len()
    }

    /// `self` is well formed and reads the same tokens as `before`, from the
    /// same position or further on.
    pub open spec fn follows(&self, before: &Parser) -> bool {
        &&& self.wf()
        &&& self.tokens() == before.tokens()
        &&& self.position() >= before.position()
    }

    /// A parser at the first of `tokens`. Where they do not end with an
    /// end-of-input token, one is added.
    pub fn new(tokens: Vec<Token>) -> (parser: Parser)
        ensures
            parser.wf(),
            parser.position() == 0,
            parser.tokens() == with_end(token_views(tokens@)),
    {
        let mut tokens = tokens;
        let n: usize = tokens.len();
        let ended: bool = n > 0 && tokens[n - 1].token_type == TokenType::Eof;
        let ghost given = token_views(tokens@);
        if !ended {
            tokens.push(Token::new(TokenType::Eof, 0, 0));
            assert(token_views(tokens@) =~= with_end(given));
        }
        Parser { tokens, position: 0 }
    }

    fn current_token(&self) -> (t: &Token)
        requires
            self.wf(),
        ensures
            t@ == self.tokens()[self.position()],
    {
        &self.tokens[self.position]
    }

    fn kind(&self) -> (t: TokenType)
        requires
            self.wf(),
        ensures
            t == kind(self.tokens(), self.position()),
            t != TokenType::Eof ==> self.position() + 1 < self.tokens().len(),
    {
        self.tokens[self.position].token_type
    }

    fn advance(&mut self)
        requires
            old(self).wf(),
        ensures
            final(self).follows(old(self)),
            final(self).position() == next(old(self).tokens(), old(self).position()),
    {
        if self.position < self.tokens.len() - 1 {
            self.position = self.position + 1;
        }
    }

    fn skip(&mut self, t: TokenType)
        requires
            old(self).wf(),
        ensures
            final(self).follows(old(self)),
            final(self).position() == skip(old(self).tokens(), old(self).position(), t),
    {
        if self.kind() == t {
            self.advance();
        }
    }

    /// Whether the position is behind the last token. It never is for a
    /// parser that is well formed.
    fn is_at_end(&self) -> (r: bool)
        ensures
            r == (self.position() >= self.tokens().len()),
            self.wf() ==> !r,
    {
        self.position >= self.tokens.len()
    }

    fn name(&self) -> (r: String)
        requires
            self.wf(),
        ensures
            r@ == self.tokens()[self.position()].text,
    {
        self.tokens[self.position].text.clone()
    }

    fn unexpected(&self, prefix: &str) -> (e: Error)
        requires
            self.wf(),
        ensures
            e@ == syntax(prefix@ + describe(self.tokens()[self.position()])),
    {
        let t = self.current_token();
        let what: String = if t.token_type == TokenType::Eof {
            String::from_str("end of input")
        } else if t.token_type == TokenType::Newline {
            String::from_str("end of line")
        } else {
            t.text.clone()
        };
        Error::SyntaxError(concat2(prefix, what.as_str()))
    }

    fn parse_primary(&mut self) -> (r: Result<AstNode, Error>)
        requires
            old(self).wf(),
        ensures
            final(self).follows(old(self)),
            node_outcome(r, final(self).position()) == primary(old(self).tokens(), old(self).position()),
            r is Ok ==> final(self).position() > old(self).position(),
        decreases old(self).tokens@.len() - old(self).position, 0nat,
    {
        match self.kind() {
            TokenType::Integer(v) => {
                self.advance();
                Ok(AstNode::Literal(Value::Integer(v)))
            },
            TokenType::Float(d) => {
                self.advance();
                Ok(AstNode::Literal(Value::Double(d)))
            },
            TokenType::String => {
                let text = self.name();
                self.advance();
                Ok(AstNode::Literal(Value::String(text)))
            },
            TokenType::Identifier => {
                let name = self.name();
                self.advance();
                if self.kind() == TokenType::LeftParen {
                    self.advance();
                    if self.kind() == TokenType::RightParen {
                        self.advance();
                        let args: Vec<AstNode> = Vec::new();
                        assert(node_views(args@) =~= Seq::<AstView>::empty());
                        return Ok(AstNode::FunctionCall(name, args));
                    }
                    match self.parse_list(false) {
                        Ok(args) => Ok(AstNode::FunctionCall(name, args)),
                        Err(e) => Err(e),
                    }
                } else {
                    Ok(AstNode::Variable(name))
                }
            },
            TokenType::LeftParen => {
                self.advance();
                match self.parse_binary(6) {
                    Ok(e) => {
                        if self.kind() == TokenType::RightParen {
                            self.advance();
                            Ok(e)
                        } else {
                            Err(
                                Error::SyntaxError(String::from_str("Expected ')' after expression")),
                            )
                        }
                    },
                    Err(e) => Err(e),
                }
            },
            _ => Err(self.unexpected("Unexpected token in expression: ")),
        }
    }

    fn parse_unary(&mut self) -> (r: Result<AstNode, Error>)
        requires
            old(self).wf(),
        ensures
            final(self).follows(old(self)),
            node_outcome(r, final(self).position()) == unary(old(self).tokens(), old(self).position()),
            r is Ok ==> final(self).position() > old(self).position(),
        decreases old(self).tokens@.len() - old(self).position, 1nat,
    {
        let t = self.kind();
        if t == TokenType::Minus || t == TokenType::Not {
            let op = if t == TokenType::Minus {
                UnaryOperator::Negate
            } else {
                UnaryOperator::Not
            };
            self.advance();
            match self.parse_unary() {
                Ok(e) => Ok(AstNode::UnaryOp(op, Box::new(e))),
                Err(e) => Err(e),
            }
        } else {
            self.parse_primary()
        }
    }

    /// Parses an expression of a level of precedence, 0 to 6.
    fn parse_binary(&mut self, level: u8) -> (r: Result<AstNode, Error>)
        requires
            old(self).wf(),
            level <= 6,
        ensures
            final(self).follows(old(self)),
            node_outcome(r, final(self).position()) == binary(
                old(self).tokens(),
                old(self).position(),
                level as nat,
            ),
            r is Ok ==> final(self).position() > old(self).position(),
        decreases old(self).tokens@.len() - old(self).position, 2 * level + 2,
    {
        if level == 0 {
            return self.parse_unary();
        }
        let mut left = match self.parse_binary(level - 1) {
            Ok(e) => e,
            Err(e) => {
                return Err(e);
            },
        };
        loop
            invariant
                self.follows(old(self)),
                self.position() > old(self).position(),
                0 < level <= 6,
                binary(old(self).tokens(), old(self).position(), level as nat) == binary_rest(
                    self.tokens(),
                    self.position(),
                    level as nat,
                    left@,
                ),
            decreases self.tokens@.len() - self.position,
        {
            match binary_operator_at(level, self.kind()) {
                None => {
                    return Ok(left);
                },
                Some(op) => {
                    self.advance();
                    match self.parse_binary(level - 1) {
                        Ok(right) => {
                            left = AstNode::BinaryOp(op, Box::new(left), Box::new(right));
                        },
                        Err(e) => {
                            return Err(e);
                        },
                    }
                },
            }
        }
    }

    fn parse_expression(&mut self) -> (r: Result<AstNode, Error>)
        requires
            old(self).wf(),
        ensures
            final(self).follows(old(self)),
            node_outcome(r, final(self).position()) == expression(
                old(self).tokens(),
                old(self).position(),
            ),
            r is Ok ==> final(self).position() > old(self).position(),
        decreases old(self).tokens@.len() - old(self).position, 15nat,
    {
        self.parse_binary(6)
    }

    /// Parses expressions separated by commas and closed by `)`.
    fn parse_list(&mut self, in_dim: bool) -> (r: Result<Vec<AstNode>, Error>)
        requires
            old(self).wf(),
        ensures
            final(self).follows(old(self)),
            nodes_outcome(r, final(self).position()) == list(
                old(self).tokens(),
                old(self).position(),
                Seq::empty(),
                in_dim,
            ),
            r is Ok ==> final(self).position() > old(self).position(),
        decreases old(self).tokens@.len() - old(self).position, 20nat,
    {
        let mut items: Vec<AstNode> = Vec::new();
        assert(node_views(items@) =~= Seq::<AstView>::empty());
        loop
            invariant
                self.follows(old(self)),
                list(old(self).tokens(), old(self).position(), Seq::empty(), in_dim) == list(
                    self.tokens(),
                    self.position(),
                    node_views(items@),
                    in_dim,
                ),
            decreases self.tokens@.len() - self.position,
        {
            let ghost so_far = node_views(items@);
            match self.parse_binary(6) {
                Ok(e) => {
                    items.push(e);
                    assert(node_views(items@) =~= so_far.push(e@));
                },
                Err(e) => {
                    return Err(e);
                },
            }
            let t = self.kind();
            if t == TokenType::Comma {
                self.advance();
            } else if t == TokenType::RightParen {
                self.advance();
                return Ok(items);
            } else {
                let msg = if in_dim {
                    "Expected ',' or ')' in DIM statement"
                } else {
                    "Expected ',' or ')' in function call"
                };
                return Err(Error::SyntaxError(String::from_str(msg)));
            }
        }
    }

    /// Parses an expression, unless the place for it is empty.
    fn parse_optional(&mut self, absent: bool) -> (r: Result<Option<Box<AstNode>>, Error>)
        requires
            old(self).wf(),
        ensures
            final(self).follows(old(self)),
            optional_outcome(r, final(self).position()) == optional_expression(
                old(self).tokens(),
                old(self).position(),
                absent,
            ),
    {
        if absent {
            Ok(None)
        } else {
            match self.parse_expression() {
                Ok(e) => Ok(Some(Box::new(e))),
                Err(e) => Err(e),
            }
        }
    }

    /// Parses an expression behind a token of kind `t`, if the parser stands
    /// at one.
    fn parse_introduced(&mut self, t: TokenType) -> (r: Result<Option<Box<AstNode>>, Error>)
        requires
            old(self).wf(),
        ensures
            final(self).follows(old(self)),
            optional_outcome(r, final(self).position()) == introduced(
                old(self).tokens(),
                old(self).position(),
                t,
            ),
    {
        if self.kind() == t {
            self.advance();
            self.parse_optional(false)
        } else {
            Ok(None)
        }
    }

    fn parse_pair(&mut self) -> (r: Result<(AstNode, AstNode), Error>)
        requires
            old(self).wf(),
        ensures
            final(self).follows(old(self)),
            pair_outcome(r, final(self).position()) == pair(old(self).tokens(), old(self).position()),
    {
        let a = match self.parse_expression() {
            Ok(e) => e,
            Err(e) => {
                return Err(e);
            },
        };
        self.skip(TokenType::Comma);
        match self.parse_expression() {
            Ok(b) => Ok((a, b)),
            Err(e) => Err(e),
        }
    }

    fn parse_point(&mut self) -> (r: Result<(AstNode, AstNode), Error>)
        requires
            old(self).wf(),
        ensures
            final(self).follows(old(self)),
            pair_outcome(r, final(self).position()) == point(old(self).tokens(), old(self).position()),
    {
        self.skip(TokenType::LeftParen);
        match self.parse_pair() {
            Ok(xy) => {
                self.skip(TokenType::RightParen);
                Ok(xy)
            },
            Err(e) => Err(e),
        }
    }

    /// Parses names separated by commas.
    fn parse_names(&mut self) -> (r: Vec<String>)
        requires
            old(self).wf(),
        ensures
            final(self).follows(old(self)),
            (name_views(r@), final(self).position()) == names(
                old(self).tokens(),
                old(self).position(),
                Seq::empty(),
            ),
    {
        let mut vars: Vec<String> = Vec::new();
        assert(name_views(vars@) =~= Seq::<Seq<char>>::empty());
        loop
            invariant
                self.follows(old(self)),
                names(old(self).tokens(), old(self).position(), Seq::empty()) == names(
                    self.tokens(),
                    self.position(),
                    name_views(vars@),
                ),
            decreases self.tokens@.len() - self.position,
        {
            if self.kind() != TokenType::Identifier {
                return vars;
            }
            let ghost so_far = name_views(vars@);
            let name = self.name();
            vars.push(name);
            assert(name_views(vars@) =~= so_far.push(name@));
            self.advance();
            if self.kind() == TokenType::Comma {
                self.advance();
            } else {
                return vars;
            }
        }
    }

    fn parse_print(&mut self) -> (r: Result<AstNode, Error>)
        requires
            old(self).wf(),
        ensures
            final(self).follows(old(self)),
            nodes_outcome(
                match r {
                    Ok(AstNode::Print(items)) => Ok(items),
                    Ok(_) => Err(Error::ProgramEnd),
                    Err(e) => Err(e),
                },
                final(self).position(),
            ) == print_items(old(self).tokens(), old(self).position(), Seq::empty()),
            r is Ok ==> r->Ok_0 is Print,
    {
        let mut expressions: Vec<AstNode> = Vec::new();
        assert(node_views(expressions@) =~= Seq::<AstView>::empty());
        loop
            invariant
                self.follows(old(self)),
                print_items(old(self).tokens(), old(self).position(), Seq::empty()) == print_items(
                    self.tokens(),
                    self.position(),
                    node_views(expressions@),
                ),
            decreases self.tokens@.len() - self.position,
        {
            match self.kind() {
                TokenType::Eof | TokenType::Newline | TokenType::Colon => {
                    return Ok(AstNode::Print(expressions));
                },
                TokenType::Semicolon | TokenType::Comma => {
                    self.advance();
                },
                _ => {
                    let ghost so_far = node_views(expressions@);
                    match self.parse_expression() {
                        Ok(e) => {
                            expressions.push(e);
                            assert(node_views(expressions@) =~= so_far.push(e@));
                        },
                        Err(e) => {
                            return Err(e);
                        },
                    }
                },
            }
        }
    }

    fn parse_data(&mut self) -> (r: Result<Vec<AstNode>, Error>)
        requires
            old(self).wf(),
        ensures
            final(self).follows(old(self)),
            nodes_outcome(r, final(self).position()) == data_items(
                old(self).tokens(),
                old(self).position(),
                Seq::empty(),
            ),
    {
        let mut values: Vec<AstNode> = Vec::new();
        assert(node_views(values@) =~= Seq::<AstView>::empty());
        loop
            invariant
                self.follows(old(self)),
                data_items(old(self).tokens(), old(self).position(), Seq::empty()) == data_items(
                    self.tokens(),
                    self.position(),
                    node_views(values@),
                ),
            decreases self.tokens@.len() - self.position,
        {
            match self.kind() {
                TokenType::Eof | TokenType::Newline | TokenType::Colon => {
                    return Ok(values);
                },
                _ => {
                    let ghost so_far = node_views(values@);
                    match self.parse_expression() {
                        Ok(e) => {
                            values.push(e);
                            assert(node_views(values@) =~= so_far.push(e@));
                        },
                        Err(e) => {
                            return Err(e);
                        },
                    }
                    if self.kind() == TokenType::Comma {
                        self.advance();
                    } else {
                        return Ok(values);
                    }
                },
            }
        }
    }

    fn parse_rem(&mut self) -> (r: AstNode)
        requires
            old(self).wf(),
        ensures
            final(self).follows(old(self)),
            r@ == AstView::Rem(Seq::empty()),
            final(self).position() == comment_end(old(self).tokens(), old(self).position()),
    {
        loop
            invariant
                self.follows(old(self)),
                comment_end(old(self).tokens(), old(self).position()) == comment_end(
                    self.tokens(),
                    self.position(),
                ),
            decreases self.tokens@.len() - self.position,
        {
            match self.kind() {
                TokenType::Eof | TokenType::Newline => {
                    return AstNode::Rem(String::new());
                },
                _ => {
                    self.advance();
                },
            }
        }
    }

    /// Parses `name = expression`; `with_let` says whether `LET` stood in
    /// front of it.
    fn parse_let(&mut self, with_let: bool) -> (r: Result<AstNode, Error>)
        requires
            old(self).wf(),
        ensures
            final(self).follows(old(self)),
            node_outcome(r, final(self).position()) == assignment(
                old(self).tokens(),
                old(self).position(),
                with_let,
            ),
            r is Ok ==> final(self).position() > old(self).position(),
    {
        if self.kind() != TokenType::Identifier {
            return Err(Error::SyntaxError(String::from_str("Expected variable name")));
        }
        let name = self.name();
        self.advance();
        if self.kind() != TokenType::Equal {
            if with_let {
                return Err(Error::SyntaxError(String::from_str("Expected '=' in LET statement")));
            } else {
                return Err(self.unexpected("Unexpected token after identifier: "));
            }
        }
        self.advance();
        match self.parse_expression() {
            Ok(e) => Ok(AstNode::Let(name, Box::new(e))),
            Err(e) => Err(e),
        }
    }

    fn parse_for(&mut self) -> (r: Result<AstNode, Error>)
        requires
            old(self).wf(),
        ensures
            final(self).follows(old(self)),
            node_outcome(r, final(self).position()) == for_statement(
                old(self).tokens(),
                old(self).position(),
            ),
    {
        if self.kind() != TokenType::Identifier {
            return Err(Error::SyntaxError(String::from_str("Expected variable after FOR")));
        }
        let var = self.name();
        self.advance();
        if self.kind() != TokenType::Equal {
            return Err(Error::SyntaxError(String::from_str("Expected '=' in FOR statement")));
        }
        self.advance();
        let start = match self.parse_expression() {
            Ok(e) => e,
            Err(e) => {
                return Err(e);
            },
        };
        if self.kind() != TokenType::To {
            return Err(Error::SyntaxError(String::from_str("Expected TO in FOR statement")));
        }
        self.advance();
        let end = match self.parse_expression() {
            Ok(e) => e,
            Err(e) => {
                return Err(e);
            },
        };
        match self.parse_introduced(TokenType::Step) {
            Ok(step) => Ok(AstNode::For(var, Box::new(start), Box::new(end), step)),
            Err(e) => Err(e),
        }
    }

    fn parse_next(&mut self) -> (r: AstNode)
        requires
            old(self).wf(),
        ensures
            final(self).follows(old(self)),
            (r@, final(self).position()) == next_statement(old(self).tokens(), old(self).position()),
    {
        if self.kind() == TokenType::Identifier {
            let v = self.name();
            self.advance();
            AstNode::Next(v)
        } else {
            AstNode::Next(String::new())
        }
    }

    /// Parses the line number of `GOTO` or `GOSUB`.
    fn parse_goto(&mut self, gosub: bool) -> (r: Result<AstNode, Error>)
        requires
            old(self).wf(),
        ensures
            final(self).follows(old(self)),
            node_outcome(r, final(self).position()) == jump(
                old(self).tokens(),
                old(self).position(),
                gosub,
            ),
    {
        match self.kind() {
            TokenType::Integer(n) => {
                self.advance();
                if gosub {
                    Ok(AstNode::Gosub(line_number(n)))
                } else {
                    Ok(AstNode::Goto(line_number(n)))
                }
            },
            _ => if gosub {
                Err(Error::SyntaxError(String::from_str("Expected line number after GOSUB")))
            } else {
                Err(Error::SyntaxError(String::from_str("Expected line number after GOTO")))
            },
        }
    }

    fn parse_dim(&mut self) -> (r: Result<AstNode, Error>)
        requires
            old(self).wf(),
        ensures
            final(self).follows(old(self)),
            node_outcome(r, final(self).position()) == dim_statement(
                old(self).tokens(),
                old(self).position(),
            ),
    {
        if self.kind() != TokenType::Identifier {
            return Err(Error::SyntaxError(String::from_str("Expected array name")));
        }
        let name = self.name();
        self.advance();
        if self.kind() != TokenType::LeftParen {
            return Err(Error::SyntaxError(String::from_str("Expected '(' after array name")));
        }
        self.advance();
        match self.parse_list(true) {
            Ok(dimensions) => Ok(AstNode::Dim(name, dimensions)),
            Err(e) => Err(e),
        }
    }

    fn parse_color(&mut self) -> (r: Result<AstNode, Error>)
        requires
            old(self).wf(),
        ensures
            final(self).follows(old(self)),
            node_outcome(r, final(self).position()) == color_statement(
                old(self).tokens(),
                old(self).position(),
            ),
    {
        let t = self.kind();
        let fg = match self.parse_optional(
            t == TokenType::Comma || t == TokenType::Newline || t == TokenType::Eof,
        ) {
            Ok(e) => e,
            Err(e) => {
                return Err(e);
            },
        };
        if self.kind() == TokenType::Comma {
            self.advance();
            let t1 = self.kind();
            match self.parse_optional(t1 == TokenType::Newline || t1 == TokenType::Eof) {
                Ok(bg) => Ok(AstNode::Color(fg, bg)),
                Err(e) => Err(e),
            }
        } else {
            Ok(AstNode::Color(fg, None))
        }
    }

    fn parse_swap(&mut self) -> (r: Result<AstNode, Error>)
        requires
            old(self).wf(),
        ensures
            final(self).follows(old(self)),
            node_outcome(r, final(self).position()) == swap_statement(
                old(self).tokens(),
                old(self).position(),
            ),
    {
        if self.kind() != TokenType::Identifier {
            return Err(Error::SyntaxError(String::from_str("Expected variable name after SWAP")));
        }
        let var1 = self.name();
        self.advance();
        self.skip(TokenType::Comma);
        if self.kind() != TokenType::Identifier {
            return Err(
                Error::SyntaxError(String::from_str("Expected second variable name in SWAP")),
            );
        }
        let var2 = self.name();
        self.advance();
        Ok(AstNode::Swap(var1, var2))
    }

    /// Parses a statement that holds no statements itself.
    #[verifier::rlimit(60)]
    fn parse_simple_statement(&mut self) -> (r: Result<AstNode, Error>)
        requires
            old(self).wf(),
            kind(old(self).tokens(), old(self).position()) != TokenType::Eof,
        ensures
            final(self).follows(old(self)),
            node_outcome(r, final(self).position()) == simple_statement(
                old(self).tokens(),
                old(self).position(),
            ),
            r is Ok ==> final(self).position() > old(self).position(),
    {
        let t = self.kind();
        if t == TokenType::Identifier {
            return self.parse_let(false);
        }
        let ghost toks = self.tokens();
        let ghost pos = self.position();
        self.advance();
        match t {
            TokenType::Print => self.parse_print(),
            TokenType::Input => Ok(AstNode::Input(self.parse_names())),
            TokenType::Let => self.parse_let(true),
            TokenType::For => self.parse_for(),
            TokenType::Next => Ok(self.parse_next()),
            TokenType::Goto => self.parse_goto(false),
            TokenType::Gosub => self.parse_goto(true),
            TokenType::Return => Ok(AstNode::Return),
            TokenType::End => Ok(AstNode::End),
            TokenType::Stop => Ok(AstNode::Stop),
            TokenType::Dim => self.parse_dim(),
            TokenType::Rem => Ok(self.parse_rem()),
            TokenType::Read => Ok(AstNode::Read(self.parse_names())),
            TokenType::Data => match self.parse_data() {
                Ok(values) => Ok(AstNode::Data(values)),
                Err(e) => Err(e),
            },
            TokenType::Restore => match self.kind() {
                TokenType::Integer(n) => {
                    self.advance();
                    Ok(AstNode::Restore(Some(line_number(n))))
                },
                _ => Ok(AstNode::Restore(None)),
            },
            TokenType::Cls => Ok(AstNode::Cls),
            TokenType::Locate => match self.parse_pair() {
                Ok((row, col)) => Ok(AstNode::Locate(Box::new(row), Box::new(col))),
                Err(e) => Err(e),
            },
            TokenType::Color => self.parse_color(),
            TokenType::Pset => match self.parse_point() {
                Ok((x, y)) => match self.parse_introduced(TokenType::Comma) {
                    Ok(color) => Ok(AstNode::Pset(Box::new(x), Box::new(y), color)),
                    Err(e) => Err(e),
                },
                Err(e) => Err(e),
            },
            TokenType::Circle => match self.parse_point() {
                Ok((x, y)) => {
                    self.skip(TokenType::Comma);
                    match self.parse_expression() {
                        Ok(radius) => match self.parse_introduced(TokenType::Comma) {
                            Ok(color) => Ok(
                                AstNode::Circle(Box::new(x), Box::new(y), Box::new(radius), color),
                            ),
                            Err(e) => Err(e),
                        },
                        Err(e) => Err(e),
                    }
                },
                Err(e) => Err(e),
            },
            TokenType::Beep => Ok(AstNode::Beep),
            TokenType::Sound => match self.parse_pair() {
                Ok((freq, duration)) => Ok(AstNode::Sound(Box::new(freq), Box::new(duration))),
                Err(e) => Err(e),
            },
            TokenType::Randomize => {
                let t1 = self.kind();
                match self.parse_optional(
                    t1 == TokenType::Newline || t1 == TokenType::Eof || t1 == TokenType::Colon,
                ) {
                    Ok(seed) => Ok(AstNode::Randomize(seed)),
                    Err(e) => Err(e),
                }
            },
            TokenType::Swap => self.parse_swap(),
            _ => {
                let ghost tok = toks[pos];
                Err(Parser::unexpected_token(&self.tokens, self.position - 1))
            },
        }
    }

    fn unexpected_token(tokens: &Vec<Token>, at: usize) -> (e: Error)
        requires
            at < tokens.len(),
        ensures
            e@ == syntax("Unexpected token: "@ + describe(token_views(tokens@)[at as int])),
    {
        let t = &tokens[at];
        let what: String = if t.token_type == TokenType::Eof {
            String::from_str("end of input")
        } else if t.token_type == TokenType::Newline {
            String::from_str("end of line")
        } else {
            t.text.clone()
        };
        Error::SyntaxError(concat2("Unexpected token: ", what.as_str()))
    }

    fn parse_if(&mut self) -> (r: Result<AstNode, Error>)
        requires
            old(self).wf(),
            kind(old(self).tokens(), old(self).position()) == TokenType::If,
        ensures
            final(self).follows(old(self)),
            node_outcome(r, final(self).position()) == statement(
                old(self).tokens(),
                old(self).position(),
            ),
            r is Ok ==> final(self).position() > old(self).position(),
        decreases old(self).tokens@.len() - old(self).position, 39nat,
    {
        self.advance();
        let condition = match self.parse_expression() {
            Ok(e) => e,
            Err(e) => {
                return Err(e);
            },
        };
        if self.kind() != TokenType::Then {
            return Err(Error::SyntaxError(String::from_str("Expected THEN after IF condition")));
        }
        self.advance();
        let then_statements = match self.parse_statements() {
            Ok(s) => s,
            Err(e) => {
                return Err(e);
            },
        };
        if self.kind() == TokenType::Else {
            self.advance();
            match self.parse_statements() {
                Ok(else_statements) => Ok(
                    AstNode::If(Box::new(condition), then_statements, Some(else_statements)),
                ),
                Err(e) => Err(e),
            }
        } else {
            Ok(AstNode::If(Box::new(condition), then_statements, None))
        }
    }

    fn parse_while(&mut self) -> (r: Result<AstNode, Error>)
        requires
            old(self).wf(),
            kind(old(self).tokens(), old(self).position()) == TokenType::While,
        ensures
            final(self).follows(old(self)),
            node_outcome(r, final(self).position()) == statement(
                old(self).tokens(),
                old(self).position(),
            ),
            r is Ok ==> final(self).position() > old(self).position(),
        decreases old(self).tokens@.len() - old(self).position, 39nat,
    {
        self.advance();
        let condition = match self.parse_expression() {
            Ok(e) => e,
            Err(e) => {
                return Err(e);
            },
        };
        match self.parse_statements() {
            Ok(statements) => Ok(AstNode::While(Box::new(condition), statements)),
            Err(e) => Err(e),
        }
    }

    fn parse_statement(&mut self) -> (r: Result<AstNode, Error>)
        requires
            old(self).wf(),
            kind(old(self).tokens(), old(self).position()) != TokenType::Eof,
        ensures
            final(self).follows(old(self)),
            node_outcome(r, final(self).position()) == statement(
                old(self).tokens(),
                old(self).position(),
            ),
            r is Ok ==> final(self).position() > old(self).position(),
        decreases old(self).tokens@.len() - old(self).position, 40nat,
    {
        match self.kind() {
            TokenType::If => self.parse_if(),
            TokenType::While => self.parse_while(),
            _ => self.parse_simple_statement(),
        }
    }

    fn parse_statements(&mut self) -> (r: Result<Vec<AstNode>, Error>)
        requires
            old(self).wf(),
        ensures
            final(self).follows(old(self)),
            nodes_outcome(r, final(self).position()) == statements(
                old(self).tokens(),
                old(self).position(),
                Seq::empty(),
            ),
            r is Ok && kind(old(self).tokens(), old(self).position()) != TokenType::Eof && !(kind(
                old(self).tokens(),
                old(self).position(),
            ) is LineNumber) ==> final(self).position() > old(self).position(),
        decreases old(self).tokens@.len() - old(self).position, 50nat,
    {
        let mut found: Vec<AstNode> = Vec::new();
        assert(node_views(found@) =~= Seq::<AstView>::empty());
        loop
            invariant
                self.follows(old(self)),
                statements(old(self).tokens(), old(self).position(), Seq::empty()) == statements(
                    self.tokens(),
                    self.position(),
                    node_views(found@),
                ),
                kind(old(self).tokens(), old(self).position()) != TokenType::Eof && !(kind(
                    old(self).tokens(),
                    old(self).position(),
                ) is LineNumber) ==> self.position() > old(self).position() || (kind(
                    self.tokens(),
                    self.position(),
                ) != TokenType::Eof && !(kind(self.tokens(), self.position()) is LineNumber)),
            decreases self.tokens@.len() - self.position,
        {
            match self.kind() {
                TokenType::Eof | TokenType::LineNumber(_) => {
                    return Ok(found);
                },
                TokenType::Newline => {
                    self.advance();
                    if found.len() > 0 {
                        return Ok(found);
                    }
                },
                TokenType::Colon => {
                    self.advance();
                },
                _ => {
                    let ghost so_far = node_views(found@);
                    match self.parse_statement() {
                        Ok(s) => {
                            found.push(s);
                            assert(node_views(found@) =~= so_far.push(s@));
                        },
                        Err(e) => {
                            return Err(e);
                        },
                    }
                },
            }
        }
    }

    fn parse_line(&mut self) -> (r: Result<AstNode, Error>)
        requires
            old(self).wf(),
        ensures
            final(self).follows(old(self)),
            node_outcome(r, final(self).position()) == line(old(self).tokens(), old(self).position()),
            r is Ok && kind(old(self).tokens(), old(self).position()) != TokenType::Eof
                ==> final(self).position() > old(self).position(),
    {
        while self.kind() == TokenType::Newline
            invariant
                self.follows(old(self)),
                empty_lines_end(old(self).tokens(), old(self).position()) == empty_lines_end(
                    self.tokens(),
                    self.position(),
                ),
                kind(old(self).tokens(), old(self).position()) != TokenType::Eof ==> self.position()
                    > old(self).position() || kind(self.tokens(), self.position()) != TokenType::Eof,
            decreases self.tokens@.len() - self.position,
        {
            self.advance();
        }
        match self.kind() {
            TokenType::LineNumber(num) => {
                self.advance();
                match self.parse_statements() {
                    Ok(statements) => Ok(AstNode::Line(num, statements)),
                    Err(e) => Err(e),
                }
            },
            _ => {
                match self.parse_statements() {
                    Ok(statements) => {
                        let mut statements = statements;
                        if statements.len() == 1 {
                            let ghost all = node_views(statements@);
                            let only = statements.pop();
                            assert(only->Some_0@ == all[0]);
                            Ok(only.unwrap())
                        } else {
                            Ok(AstNode::Program(statements))
                        }
                    },
                    Err(e) => Err(e),
                }
            },
        }
    }

    /// Parses the tokens from the position on into a program: one node for
    /// each line. A line with a number is a `Line`; one without is its one
    /// statement, or else a `Program` of its statements.
    pub fn parse(&mut self) -> (r: Result<AstNode, Error>)
        requires
            old(self).wf(),
        ensures
            final(self).follows(old(self)),
            program_outcome(r) == program(old(self).tokens(), old(self).position()),
            r is Ok ==> kind(final(self).tokens(), final(self).position()) == TokenType::Eof,
    {
        let mut found: Vec<AstNode> = Vec::new();
        assert(node_views(found@) =~= Seq::<AstView>::empty());
        while !self.is_at_end() && self.kind() != TokenType::Eof
            invariant
                self.follows(old(self)),
                lines(old(self).tokens(), old(self).position(), Seq::empty()) == lines(
                    self.tokens(),
                    self.position(),
                    node_views(found@),
                ),
            decreases self.tokens@.len() - self.position,
        {
            let ghost so_far = node_views(found@);
            match self.parse_line() {
                Ok(l) => {
                    found.push(l);
                    assert(node_views(found@) =~= so_far.push(l@));
                },
                Err(e) => {
                    return Err(e);
                },
            }
        }
        Ok(AstNode::Program(found))
    }
}

} // verus!
