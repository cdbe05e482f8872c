//! The grammar of the language, as functions from a sequence of tokens and a
//! position to a syntax tree and the position behind it.
//!
//! A position is an index into the tokens. Going past a token moves it by
//! one, except at the last token, where it stays.

use vstd::prelude::*;
use crate::ast::{AstView, BinaryOperator, UnaryOperator};
use crate::error::ErrorView;
use crate::lexer::{TokenType, TokenView};
use crate::value::ValueView;

verus! {

/// What parsing from a position gives: a result and the position behind it,
/// or a failure.
pub type Parsed<T> = Result<(T, int), ErrorView>;

/// The tokens are not empty and the last one marks the end of the input.
pub open spec fn well_ended(toks: Seq<TokenView>) -> bool {
    toks.len() > 0 && toks.last().token_type == TokenType::Eof
}

/// The kind of the token at `pos`.
pub open spec fn kind(toks: Seq<TokenView>, pos: int) -> TokenType {
    toks[pos].token_type
}

/// The position behind the token at `pos`.
pub open spec fn next(toks: Seq<TokenView>, pos: int) -> int {
    if pos + 1 < toks.len() {
        pos + 1
    } else {
        pos
    }
}

/// The position behind the token at `pos` if that token is of kind `t`, else
/// `pos`.
pub open spec fn skip(toks: Seq<TokenView>, pos: int, t: TokenType) -> int {
    if kind(toks, pos) == t {
        next(toks, pos)
    } else {
        pos
    }
}

/// How a token is named in a message.
pub open spec fn describe(tok: TokenView) -> Seq<char> {
    if tok.token_type == TokenType::Eof {
        "end of input"@
    } else if tok.token_type == TokenType::Newline {
        "end of line"@
    } else {
        tok.text
    }
}

/// A syntax error with its message.
pub open spec fn syntax(msg: Seq<char>) -> ErrorView {
    ErrorView::SyntaxError(msg)
}

/// The failure of a rule that cannot go past the last token. It does not
/// occur on tokens that are `well_ended`.
pub open spec fn stuck() -> ErrorView {
    ErrorView::SyntaxError("Unexpected end of input"@)
}

/// `r`, if it ends behind `pos` and at one of the tokens.
pub open spec fn forward<T>(r: Parsed<T>, pos: int, len: nat) -> Parsed<T> {
    match r {
        Ok((v, p)) => if pos < p < len {
            Ok((v, p))
        } else {
            Err(stuck())
        },
        Err(e) => Err(e),
    }
}

/// The line number that an integer literal names: the same bits, unsigned.
pub open spec fn as_line_number(n: i32) -> u32 {
    if n >= 0 {
        n as u32
    } else {
        (n + 0x1_0000_0000) as u32
    }
}

/// The binary operator that a token is at a level of precedence. Level 1
/// binds tightest.
pub open spec fn binary_at(level: nat, t: TokenType) -> Option<BinaryOperator> {
    if level == 6 {
        match t {
            TokenType::Or => Some(BinaryOperator::Or),
            _ => None,
        }
    } else if level == 5 {
        match t {
            TokenType::And => Some(BinaryOperator::And),
            _ => None,
        }
    } else if level == 4 {
        match t {
            TokenType::Equal => Some(BinaryOperator::Equal),
            TokenType::NotEqual => Some(BinaryOperator::NotEqual),
            TokenType::LessThan => Some(BinaryOperator::LessThan),
            TokenType::GreaterThan => Some(BinaryOperator::GreaterThan),
            TokenType::LessEqual => Some(BinaryOperator::LessEqual),
            TokenType::GreaterEqual => Some(BinaryOperator::GreaterEqual),
            _ => None,
        }
    } else if level == 3 {
        match t {
            TokenType::Plus => Some(BinaryOperator::Add),
            TokenType::Minus => Some(BinaryOperator::Subtract),
            _ => None,
        }
    } else if level == 2 {
        match t {
            TokenType::Multiply => Some(BinaryOperator::Multiply),
            TokenType::Divide => Some(BinaryOperator::Divide),
            TokenType::IntDivide => Some(BinaryOperator::IntDivide),
            TokenType::Mod => Some(BinaryOperator::Mod),
            _ => None,
        }
    } else if level == 1 {
        match t {
            TokenType::Power => Some(BinaryOperator::Power),
            _ => None,
        }
    } else {
        None
    }
}

/// The level of the expressions as a whole: `OR`.
pub open spec fn top_level() -> nat {
    6
}

/// A primary expression: a literal, a variable, a call `name(args)`, or an
/// expression in parentheses.
pub open spec fn primary(toks: Seq<TokenView>, pos: int) -> Parsed<AstView>
    decreases toks.len() - pos, 0nat,
{
    if pos < 0 || pos >= toks.len() {
        Err(stuck())
    } else {
        match kind(toks, pos) {
            TokenType::Integer(v) => Ok((AstView::Literal(ValueView::Integer(v)), next(toks, pos))),
            TokenType::Float(d) => Ok((AstView::Literal(ValueView::Double(d)), next(toks, pos))),
            TokenType::String => Ok(
                (AstView::Literal(ValueView::String(toks[pos].text)), next(toks, pos)),
            ),
            TokenType::Identifier => {
                let name = toks[pos].text;
                let pa = next(toks, pos);
                if kind(toks, pa) == TokenType::LeftParen {
                    let pb = next(toks, pa);
                    if kind(toks, pb) == TokenType::RightParen {
                        Ok((AstView::FunctionCall(name, Seq::empty()), next(toks, pb)))
                    } else if pb > pos {
                        match list(toks, pb, Seq::empty(), false) {
                            Ok((args, pc)) => Ok((AstView::FunctionCall(name, args), pc)),
                            Err(e) => Err(e),
                        }
                    } else {
                        Err(stuck())
                    }
                } else {
                    Ok((AstView::Variable(name), pa))
                }
            },
            TokenType::LeftParen => if next(toks, pos) > pos {
                match binary(toks, next(toks, pos), top_level()) {
                    Ok((e, p)) => if kind(toks, p) == TokenType::RightParen {
                        Ok((e, next(toks, p)))
                    } else {
                        Err(syntax("Expected ')' after expression"@))
                    },
                    Err(e) => Err(e),
                }
            } else {
                Err(stuck())
            },
            _ => Err(syntax("Unexpected token in expression: "@ + describe(toks[pos]))),
        }
    }
}

/// A unary expression: any number of `-` and `NOT`, then a primary
/// expression.
pub open spec fn unary(toks: Seq<TokenView>, pos: int) -> Parsed<AstView>
    decreases toks.len() - pos, 1nat,
{
    if pos < 0 || pos >= toks.len() {
        Err(stuck())
    } else if kind(toks, pos) == TokenType::Minus || kind(toks, pos) == TokenType::Not {
        let op = if kind(toks, pos) == TokenType::Minus {
            UnaryOperator::Negate
        } else {
            UnaryOperator::Not
        };
        if next(toks, pos) > pos {
            match unary(toks, next(toks, pos)) {
                Ok((e, p)) => Ok((AstView::UnaryOp(op, Box::new(e)), p)),
                Err(e) => Err(e),
            }
        } else {
            Err(stuck())
        }
    } else {
        primary(toks, pos)
    }
}

/// An expression of a level of precedence: operands of the next tighter
/// level, joined by the operators of this level, grouped from the left.
pub open spec fn binary(toks: Seq<TokenView>, pos: int, level: nat) -> Parsed<AstView>
    decreases toks.len() - pos, 2 * level + 2,
{
    if level == 0 {
        unary(toks, pos)
    } else {
        match forward(binary(toks, pos, (level - 1) as nat), pos, toks.len()) {
            Ok((left, p)) => binary_rest(toks, p, level, left),
            Err(e) => Err(e),
        }
    }
}

/// The rest of an expression of a level whose operands so far make `left`.
pub open spec fn binary_rest(toks: Seq<TokenView>, pos: int, level: nat, left: AstView) -> Parsed<
    AstView,
>
    decreases toks.len() - pos, 2 * level + 1,
{
    if pos < 0 || pos >= toks.len() || level == 0 {
        Err(stuck())
    } else {
        match binary_at(level, kind(toks, pos)) {
            Some(op) => if next(toks, pos) > pos {
                match forward(binary(toks, next(toks, pos), (level - 1) as nat), pos, toks.len()) {
                    Ok((right, p)) => binary_rest(
                        toks,
                        p,
                        level,
                        AstView::BinaryOp(op, Box::new(left), Box::new(right)),
                    ),
                    Err(e) => Err(e),
                }
            } else {
                Err(stuck())
            },
            None => Ok((left, pos)),
        }
    }
}

/// An expression.
pub open spec fn expression(toks: Seq<TokenView>, pos: int) -> Parsed<AstView> {
    binary(toks, pos, top_level())
}

/// The message of a list that is neither continued nor closed.
pub open spec fn list_message(in_dim: bool) -> Seq<char> {
    if in_dim {
        "Expected ',' or ')' in DIM statement"@
    } else {
        "Expected ',' or ')' in function call"@
    }
}

/// Expressions separated by commas and closed by `)`, behind those in `acc`.
pub open spec fn list(toks: Seq<TokenView>, pos: int, acc: Seq<AstView>, in_dim: bool) -> Parsed<
    Seq<AstView>,
>
    decreases toks.len() - pos, 20nat,
{
    match forward(binary(toks, pos, top_level()), pos, toks.len()) {
        Ok((e, p)) => if p >= toks.len() {
            Err(stuck())
        } else if kind(toks, p) == TokenType::Comma {
            if next(toks, p) > p {
                list(toks, next(toks, p), acc.push(e), in_dim)
            } else {
                Err(stuck())
            }
        } else if kind(toks, p) == TokenType::RightParen {
            Ok((acc.push(e), next(toks, p)))
        } else {
            Err(syntax(list_message(in_dim)))
        },
        Err(e) => Err(e),
    }
}

/// An expression, unless the token at `pos` is one of those that end the
/// place for it.
pub open spec fn optional_expression(toks: Seq<TokenView>, pos: int, absent: bool) -> Parsed<
    Option<Box<AstView>>,
> {
    if absent {
        Ok((None, pos))
    } else {
        match expression(toks, pos) {
            Ok((e, p)) => Ok((Some(Box::new(e)), p)),
            Err(e) => Err(e),
        }
    }
}

/// An expression behind a token of kind `t`, if the token at `pos` is of
/// that kind.
pub open spec fn introduced(toks: Seq<TokenView>, pos: int, t: TokenType) -> Parsed<
    Option<Box<AstView>>,
> {
    if kind(toks, pos) == t {
        optional_expression(toks, next(toks, pos), false)
    } else {
        Ok((None, pos))
    }
}

/// The items of `PRINT`: expressions, with any commas and semicolons between
/// them passed over, up to the end of the statement.
pub open spec fn print_items(toks: Seq<TokenView>, pos: int, acc: Seq<AstView>) -> Parsed<
    Seq<AstView>,
>
    decreases toks.len() - pos, 21nat,
{
    if pos < 0 || pos >= toks.len() {
        Err(stuck())
    } else {
        match kind(toks, pos) {
            TokenType::Eof | TokenType::Newline | TokenType::Colon => Ok((acc, pos)),
            TokenType::Semicolon | TokenType::Comma => if next(toks, pos) > pos {
                print_items(toks, next(toks, pos), acc)
            } else {
                Err(stuck())
            },
            _ => match forward(binary(toks, pos, top_level()), pos, toks.len()) {
                Ok((e, p)) => print_items(toks, p, acc.push(e)),
                Err(e) => Err(e),
            },
        }
    }
}

/// The items of `DATA`: expressions separated by commas, up to the end of the
/// statement or the first expression that no comma follows.
pub open spec fn data_items(toks: Seq<TokenView>, pos: int, acc: Seq<AstView>) -> Parsed<Seq<AstView>>
    decreases toks.len() - pos, 21nat,
{
    if pos < 0 || pos >= toks.len() {
        Err(stuck())
    } else {
        match kind(toks, pos) {
            TokenType::Eof | TokenType::Newline | TokenType::Colon => Ok((acc, pos)),
            _ => match forward(binary(toks, pos, top_level()), pos, toks.len()) {
                Ok((e, p)) => if p < toks.len() && kind(toks, p) == TokenType::Comma && next(toks, p)
                    > p {
                    data_items(toks, next(toks, p), acc.push(e))
                } else {
                    Ok((acc.push(e), p))
                },
                Err(e) => Err(e),
            },
        }
    }
}

/// Names separated by commas, behind those in `acc`: the list ends at the
/// first token that is no name, or behind the first name that no comma
/// follows.
pub open spec fn names(toks: Seq<TokenView>, pos: int, acc: Seq<Seq<char>>) -> (Seq<Seq<char>>, int)
    decreases toks.len() - pos,
{
    if 0 <= pos < toks.len() && kind(toks, pos) == TokenType::Identifier {
        let p = next(toks, pos);
        if kind(toks, p) == TokenType::Comma && next(toks, p) > pos {
            names(toks, next(toks, p), acc.push(toks[pos].text))
        } else {
            (acc.push(toks[pos].text), p)
        }
    } else {
        (acc, pos)
    }
}

/// Where a comment that starts at `pos` ends: at the end of the line or of
/// the input.
pub open spec fn comment_end(toks: Seq<TokenView>, pos: int) -> int
    decreases toks.len() - pos,
{
    if 0 <= pos < toks.len() && kind(toks, pos) != TokenType::Eof && kind(toks, pos)
        != TokenType::Newline && next(toks, pos) > pos {
        comment_end(toks, next(toks, pos))
    } else {
        pos
    }
}

/// `LET name = expression`, from the token behind `LET`; also an assignment
/// without `LET`, from its first token.
pub open spec fn assignment(toks: Seq<TokenView>, pos: int, with_let: bool) -> Parsed<AstView> {
    if kind(toks, pos) != TokenType::Identifier {
        Err(syntax("Expected variable name"@))
    } else {
        let p = next(toks, pos);
        if kind(toks, p) != TokenType::Equal {
            if with_let {
                Err(syntax("Expected '=' in LET statement"@))
            } else {
                Err(syntax("Unexpected token after identifier: "@ + describe(toks[p])))
            }
        } else {
            match expression(toks, next(toks, p)) {
                Ok((e, pb)) => Ok((AstView::Let(toks[pos].text, Box::new(e)), pb)),
                Err(e) => Err(e),
            }
        }
    }
}

/// `FOR name = start TO end [STEP step]`, from the token behind `FOR`.
pub open spec fn for_statement(toks: Seq<TokenView>, pos: int) -> Parsed<AstView> {
    if kind(toks, pos) != TokenType::Identifier {
        Err(syntax("Expected variable after FOR"@))
    } else if kind(toks, next(toks, pos)) != TokenType::Equal {
        Err(syntax("Expected '=' in FOR statement"@))
    } else {
        match expression(toks, next(toks, next(toks, pos))) {
            Ok((start, p)) => if kind(toks, p) != TokenType::To {
                Err(syntax("Expected TO in FOR statement"@))
            } else {
                match expression(toks, next(toks, p)) {
                    Ok((end, pb)) => match introduced(toks, pb, TokenType::Step) {
                        Ok((step, pc)) => Ok(
                            (AstView::For(toks[pos].text, Box::new(start), Box::new(end), step), pc),
                        ),
                        Err(e) => Err(e),
                    },
                    Err(e) => Err(e),
                }
            },
            Err(e) => Err(e),
        }
    }
}

/// `NEXT [name]`, from the token behind `NEXT`. Without a name the node
/// holds the empty name.
pub open spec fn next_statement(toks: Seq<TokenView>, pos: int) -> (AstView, int) {
    if kind(toks, pos) == TokenType::Identifier {
        (AstView::Next(toks[pos].text), next(toks, pos))
    } else {
        (AstView::Next(Seq::empty()), pos)
    }
}

/// `GOTO line` or `GOSUB line`, from the token behind the keyword.
pub open spec fn jump(toks: Seq<TokenView>, pos: int, gosub: bool) -> Parsed<AstView> {
    match kind(toks, pos) {
        TokenType::Integer(n) => Ok(
            (
                if gosub {
                    AstView::Gosub(as_line_number(n))
                } else {
                    AstView::Goto(as_line_number(n))
                },
                next(toks, pos),
            ),
        ),
        _ => if gosub {
            Err(syntax("Expected line number after GOSUB"@))
        } else {
            Err(syntax("Expected line number after GOTO"@))
        },
    }
}

/// `DIM name(expression, ...)`, from the token behind `DIM`.
pub open spec fn dim_statement(toks: Seq<TokenView>, pos: int) -> Parsed<AstView> {
    if kind(toks, pos) != TokenType::Identifier {
        Err(syntax("Expected array name"@))
    } else if kind(toks, next(toks, pos)) != TokenType::LeftParen {
        Err(syntax("Expected '(' after array name"@))
    } else {
        match list(toks, next(toks, next(toks, pos)), Seq::empty(), true) {
            Ok((dims, p)) => Ok((AstView::Dim(toks[pos].text, dims), p)),
            Err(e) => Err(e),
        }
    }
}

/// Two expressions with an optional comma between them.
pub open spec fn pair(toks: Seq<TokenView>, pos: int) -> Parsed<(AstView, AstView)> {
    match expression(toks, pos) {
        Ok((a, p)) => match expression(toks, skip(toks, p, TokenType::Comma)) {
            Ok((b, pb)) => Ok(((a, b), pb)),
            Err(e) => Err(e),
        },
        Err(e) => Err(e),
    }
}

/// A point `(x, y)`, each of the parentheses and the comma optional, from the
/// token behind the keyword.
pub open spec fn point(toks: Seq<TokenView>, pos: int) -> Parsed<(AstView, AstView)> {
    match pair(toks, skip(toks, pos, TokenType::LeftParen)) {
        Ok((xy, p)) => Ok((xy, skip(toks, p, TokenType::RightParen))),
        Err(e) => Err(e),
    }
}

/// `COLOR [foreground] [, [background]]`, from the token behind `COLOR`.
pub open spec fn color_statement(toks: Seq<TokenView>, pos: int) -> Parsed<AstView> {
    match optional_expression(
        toks,
        pos,
        kind(toks, pos) == TokenType::Comma || kind(toks, pos) == TokenType::Newline || kind(toks, pos)
            == TokenType::Eof,
    ) {
        Ok((fg, p)) => if kind(toks, p) == TokenType::Comma {
            let pa = next(toks, p);
            match optional_expression(
                toks,
                pa,
                kind(toks, pa) == TokenType::Newline || kind(toks, pa) == TokenType::Eof,
            ) {
                Ok((bg, pb)) => Ok((AstView::Color(fg, bg), pb)),
                Err(e) => Err(e),
            }
        } else {
            Ok((AstView::Color(fg, None), p))
        },
        Err(e) => Err(e),
    }
}

/// `SWAP a, b`, the comma optional, from the token behind `SWAP`.
pub open spec fn swap_statement(toks: Seq<TokenView>, pos: int) -> Parsed<AstView> {
    if kind(toks, pos) != TokenType::Identifier {
        Err(syntax("Expected variable name after SWAP"@))
    } else {
        let p = skip(toks, next(toks, pos), TokenType::Comma);
        if kind(toks, p) != TokenType::Identifier {
            Err(syntax("Expected second variable name in SWAP"@))
        } else {
            Ok((AstView::Swap(toks[pos].text, toks[p].text), next(toks, p)))
        }
    }
}

/// A statement that holds no statements itself, from its first token.
pub open spec fn simple_statement(toks: Seq<TokenView>, pos: int) -> Parsed<AstView> {
    let p = next(toks, pos);
    match kind(toks, pos) {
        TokenType::Print => match print_items(toks, p, Seq::empty()) {
            Ok((items, pb)) => Ok((AstView::Print(items), pb)),
            Err(e) => Err(e),
        },
        TokenType::Input => Ok(
            (AstView::Input(names(toks, p, Seq::empty()).0), names(toks, p, Seq::empty()).1),
        ),
        TokenType::Let => assignment(toks, p, true),
        TokenType::For => for_statement(toks, p),
        TokenType::Next => Ok(next_statement(toks, p)),
        TokenType::Goto => jump(toks, p, false),
        TokenType::Gosub => jump(toks, p, true),
        TokenType::Return => Ok((AstView::Return, p)),
        TokenType::End => Ok((AstView::End, p)),
        TokenType::Stop => Ok((AstView::Stop, p)),
        TokenType::Dim => dim_statement(toks, p),
        TokenType::Rem => Ok((AstView::Rem(Seq::empty()), comment_end(toks, p))),
        TokenType::Read => Ok(
            (AstView::Read(names(toks, p, Seq::empty()).0), names(toks, p, Seq::empty()).1),
        ),
        TokenType::Data => match data_items(toks, p, Seq::empty()) {
            Ok((items, pb)) => Ok((AstView::Data(items), pb)),
            Err(e) => Err(e),
        },
        TokenType::Restore => match kind(toks, p) {
            TokenType::Integer(n) => Ok((AstView::Restore(Some(as_line_number(n))), next(toks, p))),
            _ => Ok((AstView::Restore(None), p)),
        },
        TokenType::Cls => Ok((AstView::Cls, p)),
        TokenType::Locate => match pair(toks, p) {
            Ok(((row, col), pb)) => Ok((AstView::Locate(Box::new(row), Box::new(col)), pb)),
            Err(e) => Err(e),
        },
        TokenType::Color => color_statement(toks, p),
        TokenType::Pset => match point(toks, p) {
            Ok(((x, y), pb)) => match introduced(toks, pb, TokenType::Comma) {
                Ok((color, pc)) => Ok((AstView::Pset(Box::new(x), Box::new(y), color), pc)),
                Err(e) => Err(e),
            },
            Err(e) => Err(e),
        },
        TokenType::Circle => match point(toks, p) {
            Ok(((x, y), pb)) => match expression(toks, skip(toks, pb, TokenType::Comma)) {
                Ok((radius, pc)) => match introduced(toks, pc, TokenType::Comma) {
                    Ok((color, pd)) => Ok(
                        (AstView::Circle(Box::new(x), Box::new(y), Box::new(radius), color), pd),
                    ),
                    Err(e) => Err(e),
                },
                Err(e) => Err(e),
            },
            Err(e) => Err(e),
        },
        TokenType::Beep => Ok((AstView::Beep, p)),
        TokenType::Sound => match pair(toks, p) {
            Ok(((freq, duration), pb)) => Ok(
                (AstView::Sound(Box::new(freq), Box::new(duration)), pb),
            ),
            Err(e) => Err(e),
        },
        TokenType::Randomize => match optional_expression(
            toks,
            p,
            kind(toks, p) == TokenType::Newline || kind(toks, p) == TokenType::Eof || kind(toks, p)
                == TokenType::Colon,
        ) {
            Ok((seed, pb)) => Ok((AstView::Randomize(seed), pb)),
            Err(e) => Err(e),
        },
        TokenType::Swap => swap_statement(toks, p),
        TokenType::Identifier => assignment(toks, pos, false),
        _ => Err(syntax("Unexpected token: "@ + describe(toks[pos]))),
    }
}

/// A statement, from its first token. `IF` and `WHILE` hold the statements
/// that follow them on the line.
pub open spec fn statement(toks: Seq<TokenView>, pos: int) -> Parsed<AstView>
    decreases toks.len() - pos, 40nat,
{
    if pos < 0 || pos >= toks.len() {
        Err(stuck())
    } else if kind(toks, pos) == TokenType::If {
        match forward(expression(toks, next(toks, pos)), pos, toks.len()) {
            Ok((cond, p)) => if p >= toks.len() {
                Err(stuck())
            } else if kind(toks, p) != TokenType::Then {
                Err(syntax("Expected THEN after IF condition"@))
            } else {
                match forward(statements(toks, next(toks, p), Seq::empty()), pos, toks.len()) {
                    Ok((then_part, pb)) => if pb < toks.len() && kind(toks, pb) == TokenType::Else {
                        match forward(statements(toks, next(toks, pb), Seq::empty()), pos, toks.len()) {
                            Ok((else_part, pc)) => Ok(
                                (AstView::If(Box::new(cond), then_part, Some(else_part)), pc),
                            ),
                            Err(e) => Err(e),
                        }
                    } else {
                        Ok((AstView::If(Box::new(cond), then_part, None), pb))
                    },
                    Err(e) => Err(e),
                }
            },
            Err(e) => Err(e),
        }
    } else if kind(toks, pos) == TokenType::While {
        match forward(expression(toks, next(toks, pos)), pos, toks.len()) {
            Ok((cond, p)) => match statements(toks, p, Seq::empty()) {
                Ok((body, pb)) => Ok((AstView::While(Box::new(cond), body), pb)),
                Err(e) => Err(e),
            },
            Err(e) => Err(e),
        }
    } else {
        simple_statement(toks, pos)
    }
}

/// The statements of a line, behind those in `acc`: colons between them are
/// passed over, as are empty lines in front of the first statement. The list
/// ends behind the end of the line that holds a statement, in front of the
/// number of the next line, or at the end of the input.
pub open spec fn statements(toks: Seq<TokenView>, pos: int, acc: Seq<AstView>) -> Parsed<Seq<AstView>>
    decreases toks.len() - pos, 50nat,
{
    if pos < 0 || pos >= toks.len() {
        Err(stuck())
    } else if kind(toks, pos) == TokenType::Eof || kind(toks, pos) is LineNumber {
        Ok((acc, pos))
    } else if kind(toks, pos) == TokenType::Newline && acc.len() > 0 {
        Ok((acc, next(toks, pos)))
    } else if kind(toks, pos) == TokenType::Newline || kind(toks, pos) == TokenType::Colon {
        if next(toks, pos) > pos {
            statements(toks, next(toks, pos), acc)
        } else {
            Err(stuck())
        }
    } else {
        match forward(statement(toks, pos), pos, toks.len()) {
            Ok((s, p)) => statements(toks, p, acc.push(s)),
            Err(e) => Err(e),
        }
    }
}

/// What a line without a number stands for: its one statement, or else the
/// list of its statements as a program.
pub open spec fn direct(stmts: Seq<AstView>) -> AstView {
    if stmts.len() == 1 {
        stmts[0]
    } else {
        AstView::Program(stmts)
    }
}

/// Where the empty lines that start at `pos` end.
pub open spec fn empty_lines_end(toks: Seq<TokenView>, pos: int) -> int
    decreases toks.len() - pos,
{
    if 0 <= pos < toks.len() && kind(toks, pos) == TokenType::Newline && next(toks, pos) > pos {
        empty_lines_end(toks, next(toks, pos))
    } else {
        pos
    }
}

/// A line, behind any empty lines: an optional line number, then statements.
pub open spec fn line(toks: Seq<TokenView>, pos: int) -> Parsed<AstView> {
    let start = empty_lines_end(toks, pos);
    match kind(toks, start) {
        TokenType::LineNumber(n) => match statements(toks, next(toks, start), Seq::empty()) {
            Ok((stmts, p)) => Ok((AstView::Line(n, stmts), p)),
            Err(e) => Err(e),
        },
        _ => match statements(toks, start, Seq::empty()) {
            Ok((stmts, p)) => Ok((direct(stmts), p)),
            Err(e) => Err(e),
        },
    }
}

/// The lines from `pos` up to the end of the input, behind those in `acc`.
pub open spec fn lines(toks: Seq<TokenView>, pos: int, acc: Seq<AstView>) -> Result<
    Seq<AstView>,
    ErrorView,
>
    decreases toks.len() - pos,
{
    if pos < 0 || pos >= toks.len() || kind(toks, pos) == TokenType::Eof {
        Ok(acc)
    } else {
        match forward(line(toks, pos), pos, toks.len()) {
            Ok((l, p)) => lines(toks, p, acc.push(l)),
            Err(e) => Err(e),
        }
    }
}

/// The program that the tokens from `pos` on make.
pub open spec fn program(toks: Seq<TokenView>, pos: int) -> Result<AstView, ErrorView> {
    match lines(toks, pos, Seq::empty()) {
        Ok(ls) => Ok(AstView::Program(ls)),
        Err(e) => Err(e),
    }
}

} // verus!
