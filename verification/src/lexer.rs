//! The lexer: from program text to tokens.
//!
//! A number at the start of a line is a line number. Words are keywords,
//! whatever the case of their letters, or else identifiers, which keep
//! their case and may end in `$`. Numbers are integers where they are
//! written without point and exponent and fit 32 bits, else doubles, which
//! the float unit reads. Strings stand between double quotes on one line.
//! Blanks separate tokens; a line feed is a token of its own. What follows
//! `REM` or an apostrophe on a line is passed over. The tokens end with an
//! end-of-input token.

use vstd::prelude::*;
use vstd::string::*;
use crate::error::{Error, ErrorView};
use crate::numeric::Double;
use crate::text::{
    all_digits,
    char_digit_value,
    char_is_digit,
    concat2,
    digits_value,
    is_digit,
    lemma_digits_value_grows,
    string_of,
    to_chars,
};
use crate::unit::{parse_answer, FloatReply, FloatRequest, FloatUnit, Oracle};

verus! {

/// The kind of a token. The name of an identifier and the contents of a
/// string literal are in the token's text.
#[derive(Clone, Copy, Debug, PartialEq, Eq, Structural)]
pub enum TokenType {
    /// The number that opens a program line.
    LineNumber(u32),
    /// An integer literal.
    Integer(i32),
    /// A floating-point literal.
    Float(Double),
    /// A string literal.
    String,
    /// A name of a variable or function.
    Identifier,
    Print,
    Input,
    Let,
    If,
    Then,
    Else,
    For,
    To,
    Step,
    Next,
    While,
    Goto,
    Gosub,
    Return,
    End,
    Stop,
    Dim,
    Rem,
    Read,
    Data,
    Restore,
    Cls,
    Locate,
    Color,
    Pset,
    Circle,
    Beep,
    Sound,
    Randomize,
    Swap,
    Plus,
    Minus,
    Multiply,
    Divide,
    IntDivide,
    Mod,
    Power,
    Equal,
    NotEqual,
    LessThan,
    GreaterThan,
    LessEqual,
    GreaterEqual,
    And,
    Or,
    Not,
    Comma,
    Semicolon,
    Colon,
    LeftParen,
    RightParen,
    Newline,
    Eof,
}

/// A token: its kind, its text and where it starts, lines and columns
/// counted from 1.
#[derive(Debug)]
pub struct Token {
    pub token_type: TokenType,
    pub text: String,
    pub line: usize,
    pub column: usize,
}

/// A `Token` with its text as a sequence of characters.
pub struct TokenView {
    pub token_type: TokenType,
    pub text: Seq<char>,
    pub line: nat,
    pub column: nat,
}

impl View for Token {
    type V = TokenView;

    open spec fn view(&self) -> TokenView {
        TokenView {
            token_type: self.token_type,
            text: self.text@,
            line: self.line as nat,
            column: self.column as nat,
        }
    }
}

/// The views of a sequence of tokens.
pub open spec fn token_views(tokens: Seq<Token>) -> Seq<TokenView> {
    Seq::new(tokens.len(), |i: int| tokens[i]@)
}

impl Token {
    /// A token without text.
    pub fn new(token_type: TokenType, line: usize, column: usize) -> (t: Token)
        ensures
            t@ == (TokenView {
                token_type,
                text: Seq::<char>::empty(),
                line: line as nat,
                column: column as nat,
            }),
    {
        Token { token_type, text: String::new(), line, column }
    }

    /// A token with its text.
    pub fn with_text(token_type: TokenType, text: String, line: usize, column: usize) -> (t: Token)
        ensures
            t@ == (TokenView { token_type, text: text@, line: line as nat, column: column as nat }),
    {
        Token { token_type, text, line, column }
    }
}

impl Clone for Token {
    fn clone(&self) -> (r: Self)
        ensures
            r == *self,
    {
        Token {
            token_type: self.token_type,
            text: self.text.clone(),
            line: self.line,
            column: self.column,
        }
    }
}

/// The kinds of runs of characters that the lexer skips over.
#[derive(Clone, Copy, Debug, PartialEq, Eq, Structural)]
pub enum Run {
    /// Spaces, tabs and carriage returns.
    Blank,
    /// Decimal digits.
    Digits,
    /// Letters, digits and underscores.
    Name,
    /// Anything but a line feed.
    Line,
    /// Anything but a double quote or a line feed.
    Quoted,
}

/// Whether `c` is a blank: a space, a tab or a carriage return.
pub open spec fn is_blank(c: char) -> bool {
    c == ' ' || c == '\t' || c == '\r'
}

/// Whether `c` is a letter `a` to `z`, in either case.
pub open spec fn is_letter(c: char) -> bool {
    ('a' <= c <= 'z') || ('A' <= c <= 'Z')
}

/// Whether `c` can stand in a name: a letter, a digit or an underscore.
pub open spec fn is_name_char(c: char) -> bool {
    is_letter(c) || is_digit(c) || c == '_'
}

/// Whether `c` belongs to a run of the given kind.
pub open spec fn in_run(kind: Run, c: char) -> bool {
    match kind {
        Run::Blank => is_blank(c),
        Run::Digits => is_digit(c),
        Run::Name => is_name_char(c),
        Run::Line => c != '\n',
        Run::Quoted => c != '"' && c != '\n',
    }
}

/// Where the longest run of the given kind that starts at `pos` ends.
pub open spec fn run_end(chars: Seq<char>, pos: int, kind: Run) -> int
    decreases chars.len() - pos,
{
    if 0 <= pos < chars.len() && in_run(kind, chars[pos]) {
        run_end(chars, pos + 1, kind)
    } else {
        pos
    }
}

/// A run ends inside the text, holds only characters of its kind, and is
/// followed by none.
pub proof fn lemma_run_end_bounds(chars: Seq<char>, pos: int, kind: Run)
    requires
        0 <= pos <= chars.len(),
    ensures
        pos <= run_end(chars, pos, kind) <= chars.len(),
        run_end(chars, pos, kind) < chars.len() ==> !in_run(kind, chars[run_end(chars, pos, kind)]),
        forall|i: int| pos <= i < run_end(chars, pos, kind) ==> in_run(kind, #[trigger] chars[i]),
    decreases chars.len() - pos,
{
    if pos < chars.len() && in_run(kind, chars[pos]) {
        lemma_run_end_bounds(chars, pos + 1, kind);
    }
}

/// The upper-case form of a letter `a` to `z`; any other character as it is.
pub open spec fn upper(c: char) -> char {
    if 'a' <= c <= 'z' {
        ((c as u8) - 32) as char
    } else {
        c
    }
}

/// The text with its letters `a` to `z` in upper case.
pub open spec fn upper_text(s: Seq<char>) -> Seq<char> {
    Seq::new(s.len(), |i: int| upper(s[i]))
}

/// The keyword that an upper-case word is, if it is one.
pub open spec fn keyword(word: Seq<char>) -> Option<TokenType> {
    if word == "PRINT"@ {
        Some(TokenType::Print)
    } else if word == "INPUT"@ {
        Some(TokenType::Input)
    } else if word == "LET"@ {
        Some(TokenType::Let)
    } else if word == "IF"@ {
        Some(TokenType::If)
    } else if word == "THEN"@ {
        Some(TokenType::Then)
    } else if word == "ELSE"@ {
        Some(TokenType::Else)
    } else if word == "FOR"@ {
        Some(TokenType::For)
    } else if word == "TO"@ {
        Some(TokenType::To)
    } else if word == "STEP"@ {
        Some(TokenType::Step)
    } else if word == "NEXT"@ {
        Some(TokenType::Next)
    } else if word == "WHILE"@ {
        Some(TokenType::While)
    } else if word == "GOTO"@ {
        Some(TokenType::Goto)
    } else if word == "GOSUB"@ {
        Some(TokenType::Gosub)
    } else if word == "RETURN"@ {
        Some(TokenType::Return)
    } else if word == "END"@ {
        Some(TokenType::End)
    } else if word == "STOP"@ {
        Some(TokenType::Stop)
    } else if word == "DIM"@ {
        Some(TokenType::Dim)
    } else if word == "REM"@ {
        Some(TokenType::Rem)
    } else if word == "READ"@ {
        Some(TokenType::Read)
    } else if word == "DATA"@ {
        Some(TokenType::Data)
    } else if word == "RESTORE"@ {
        Some(TokenType::Restore)
    } else if word == "CLS"@ {
        Some(TokenType::Cls)
    } else if word == "LOCATE"@ {
        Some(TokenType::Locate)
    } else if word == "COLOR"@ {
        Some(TokenType::Color)
    } else if word == "PSET"@ {
        Some(TokenType::Pset)
    } else if word == "CIRCLE"@ {
        Some(TokenType::Circle)
    } else if word == "BEEP"@ {
        Some(TokenType::Beep)
    } else if word == "SOUND"@ {
        Some(TokenType::Sound)
    } else if word == "RANDOMIZE"@ {
        Some(TokenType::Randomize)
    } else if word == "SWAP"@ {
        Some(TokenType::Swap)
    } else if word == "MOD"@ {
        Some(TokenType::Mod)
    } else if word == "AND"@ {
        Some(TokenType::And)
    } else if word == "OR"@ {
        Some(TokenType::Or)
    } else if word == "NOT"@ {
        Some(TokenType::Not)
    } else {
        None
    }
}

/// No word is the keyword for the end of the input, and none is a number or
/// a string.
pub proof fn lemma_keywords_are_not_eof()
    ensures
        forall|word: Seq<char>| #[trigger]
            keyword(word) is Some ==> keyword(word)->Some_0 != TokenType::Eof,
        forall|c: char| #[trigger] symbol(c) is Some ==> symbol(c)->Some_0 != TokenType::Eof,
        forall|a: char, b: char| #[trigger]
            symbol_pair(a, b) is Some ==> symbol_pair(a, b)->Some_0 != TokenType::Eof,
{
}

/// The token kind of an operator or punctuation mark that is one character
/// long.
pub open spec fn symbol(c: char) -> Option<TokenType> {
    if c == '+' {
        Some(TokenType::Plus)
    } else if c == '-' {
        Some(TokenType::Minus)
    } else if c == '*' {
        Some(TokenType::Multiply)
    } else if c == '/' {
        Some(TokenType::Divide)
    } else if c == '\\' {
        Some(TokenType::IntDivide)
    } else if c == '^' {
        Some(TokenType::Power)
    } else if c == '=' {
        Some(TokenType::Equal)
    } else if c == '<' {
        Some(TokenType::LessThan)
    } else if c == '>' {
        Some(TokenType::GreaterThan)
    } else if c == ',' {
        Some(TokenType::Comma)
    } else if c == ';' {
        Some(TokenType::Semicolon)
    } else if c == ':' {
        Some(TokenType::Colon)
    } else if c == '(' {
        Some(TokenType::LeftParen)
    } else if c == ')' {
        Some(TokenType::RightParen)
    } else {
        None
    }
}

/// The token kind of an operator that is two characters long.
pub open spec fn symbol_pair(a: char, b: char) -> Option<TokenType> {
    if a == '<' && b == '>' {
        Some(TokenType::NotEqual)
    } else if a == '<' && b == '=' {
        Some(TokenType::LessEqual)
    } else if a == '>' && b == '=' {
        Some(TokenType::GreaterEqual)
    } else {
        None
    }
}

/// Where the lexer stands: the next character, its line and column, and
/// whether the line has had no token yet.
pub struct Cursor {
    pub pos: int,
    pub line: nat,
    pub column: nat,
    pub fresh: bool,
}

impl Cursor {
    /// The cursor after `n` more characters of the same line, the last of
    /// which end a token.
    pub open spec fn after(self, n: int) -> Cursor {
        Cursor { pos: self.pos + n, line: self.line, column: (self.column + n) as nat, fresh: false }
    }

    /// The token of the given kind and text that starts at the cursor.
    pub open spec fn token(self, token_type: TokenType, text: Seq<char>) -> TokenView {
        TokenView { token_type, text, line: self.line, column: self.column }
    }
}

/// What one step of the lexer gives.
pub enum Lexed {
    /// A token, and where the lexer goes on.
    Token(TokenView, Cursor),
    /// Nothing but blanks.
    Skip(Cursor),
    /// The text is refused.
    Fail(ErrorView),
}

/// Where a number that starts at `pos` ends, and whether it is written as an
/// integer: digits, then optionally a point and digits, then optionally an
/// exponent (`E` or `e`, an optional sign, at least one digit).
pub open spec fn number_end(chars: Seq<char>, pos: int) -> (int, bool) {
    let whole_end = run_end(chars, pos, Run::Digits);
    let (mantissa_end, pointed) = if whole_end < chars.len() && chars[whole_end] == '.' {
        (run_end(chars, whole_end + 1, Run::Digits), true)
    } else {
        (whole_end, false)
    };
    let marked = mantissa_end < chars.len() && (chars[mantissa_end] == 'E' || chars[mantissa_end]
        == 'e');
    let signed = marked && mantissa_end + 1 < chars.len() && (chars[mantissa_end + 1] == '+'
        || chars[mantissa_end + 1] == '-');
    let digits_at = if signed {
        mantissa_end + 2
    } else {
        mantissa_end + 1
    };
    if marked && digits_at < chars.len() && is_digit(chars[digits_at]) {
        (run_end(chars, digits_at, Run::Digits), false)
    } else {
        (mantissa_end, !pointed)
    }
}

/// The token of the number that starts at the cursor.
pub open spec fn lex_number(o: Oracle, chars: Seq<char>, cur: Cursor) -> Lexed {
    let (end, integral) = number_end(chars, cur.pos);
    let text = chars.subrange(cur.pos, end);
    let next = cur.after(end - cur.pos);
    if integral && cur.fresh && digits_value(text) <= u32::MAX {
        Lexed::Token(cur.token(TokenType::LineNumber(digits_value(text) as u32), text), next)
    } else if integral && digits_value(text) <= i32::MAX {
        Lexed::Token(cur.token(TokenType::Integer(digits_value(text) as i32), text), next)
    } else {
        match parse_answer(o, text) {
            Some(d) => Lexed::Token(cur.token(TokenType::Float(d), text), next),
            None => Lexed::Fail(ErrorView::SyntaxError("Invalid number: "@ + text)),
        }
    }
}

/// The token of the word that starts at the cursor: a keyword, whatever the
/// case of its letters, or else an identifier, which may end in `$`. After
/// `REM` the rest of the line is passed over.
pub open spec fn lex_word(chars: Seq<char>, cur: Cursor) -> Lexed {
    let name_end = run_end(chars, cur.pos, Run::Name);
    if name_end < chars.len() && chars[name_end] == '$' {
        Lexed::Token(
            cur.token(TokenType::Identifier, chars.subrange(cur.pos, name_end + 1)),
            cur.after(name_end + 1 - cur.pos),
        )
    } else {
        let text = chars.subrange(cur.pos, name_end);
        match keyword(upper_text(text)) {
            Some(TokenType::Rem) => Lexed::Token(
                cur.token(TokenType::Rem, text),
                cur.after(run_end(chars, name_end, Run::Line) - cur.pos),
            ),
            Some(kind) => Lexed::Token(cur.token(kind, text), cur.after(name_end - cur.pos)),
            None => Lexed::Token(cur.token(TokenType::Identifier, text), cur.after(name_end - cur.pos)),
        }
    }
}

/// The token of the string literal whose opening quote is at the cursor. The
/// text of the token is what stands between the quotes.
pub open spec fn lex_string(chars: Seq<char>, cur: Cursor) -> Lexed {
    let close = run_end(chars, cur.pos + 1, Run::Quoted);
    if close < chars.len() && chars[close] == '"' {
        Lexed::Token(
            cur.token(TokenType::String, chars.subrange(cur.pos + 1, close)),
            cur.after(close + 1 - cur.pos),
        )
    } else {
        Lexed::Fail(ErrorView::SyntaxError("Unterminated string: "@ + chars.subrange(cur.pos, close)))
    }
}

/// One step of the lexer at a cursor inside the text: blanks and what
/// follows an apostrophe are passed over; anything else is a token, or a
/// failure that holds the text that is refused.
pub open spec fn lex_one(o: Oracle, chars: Seq<char>, cur: Cursor) -> Lexed {
    let c = chars[cur.pos];
    if is_blank(c) {
        Lexed::Skip(
            Cursor {
                pos: run_end(chars, cur.pos, Run::Blank),
                line: cur.line,
                column: (cur.column + run_end(chars, cur.pos, Run::Blank) - cur.pos) as nat,
                fresh: cur.fresh,
            },
        )
    } else if c == '\n' {
        Lexed::Token(
            cur.token(TokenType::Newline, seq!['\n']),
            Cursor { pos: cur.pos + 1, line: cur.line + 1, column: 1, fresh: true },
        )
    } else if is_digit(c) || (c == '.' && cur.pos + 1 < chars.len() && is_digit(chars[cur.pos + 1])) {
        lex_number(o, chars, cur)
    } else if is_letter(c) {
        lex_word(chars, cur)
    } else if c == '"' {
        lex_string(chars, cur)
    } else if c == '\'' {
        Lexed::Skip(
            Cursor {
                pos: run_end(chars, cur.pos, Run::Line),
                line: cur.line,
                column: (cur.column + run_end(chars, cur.pos, Run::Line) - cur.pos) as nat,
                fresh: cur.fresh,
            },
        )
    } else if cur.pos + 1 < chars.len() && symbol_pair(c, chars[cur.pos + 1]) is Some {
        Lexed::Token(
            cur.token(symbol_pair(c, chars[cur.pos + 1])->Some_0, chars.subrange(cur.pos, cur.pos + 2)),
            cur.after(2),
        )
    } else if symbol(c) is Some {
        Lexed::Token(cur.token(symbol(c)->Some_0, seq![c]), cur.after(1))
    } else {
        Lexed::Fail(ErrorView::SyntaxError("Unexpected character: "@ + seq![c]))
    }
}

/// `tokens` in front of what `rest` holds, or the failure of `rest`.
pub open spec fn tokens_then(tokens: Seq<TokenView>, rest: Result<Seq<TokenView>, ErrorView>) -> Result<
    Seq<TokenView>,
    ErrorView,
> {
    match rest {
        Ok(more) => Ok(tokens + more),
        Err(e) => Err(e),
    }
}

/// The tokens of the text from the cursor on, closed by an end-of-input
/// token; or the first failure.
pub open spec fn lex_all(o: Oracle, chars: Seq<char>, cur: Cursor) -> Result<Seq<TokenView>, ErrorView>
    decreases chars.len() - cur.pos,
{
    if cur.pos < 0 || cur.pos >= chars.len() {
        Ok(seq![cur.token(TokenType::Eof, Seq::<char>::empty())])
    } else {
        match lex_one(o, chars, cur) {
            Lexed::Token(t, next) => if cur.pos < next.pos <= chars.len() {
                tokens_then(seq![t], lex_all(o, chars, next))
            } else {
                Err(ErrorView::SyntaxError(Seq::empty()))
            },
            Lexed::Skip(next) => if cur.pos < next.pos <= chars.len() {
                lex_all(o, chars, next)
            } else {
                Err(ErrorView::SyntaxError(Seq::empty()))
            },
            Lexed::Fail(e) => Err(e),
        }
    }
}

/// The tokens of a whole text.
pub open spec fn lex(o: Oracle, chars: Seq<char>) -> Result<Seq<TokenView>, ErrorView> {
    lex_all(o, chars, Cursor { pos: 0, line: 1, column: 1, fresh: true })
}

/// The views of the tokens in a result.
pub open spec fn tokens_result_view(r: Result<Vec<Token>, Error>) -> Result<Seq<TokenView>, ErrorView> {
    match r {
        Ok(tokens) => Ok(token_views(tokens@)),
        Err(e) => Err(e@),
    }
}

/// Where the lexer stands, in machine integers.
#[derive(Clone, Copy, Debug)]
pub struct Place {
    pub pos: usize,
    pub line: usize,
    pub column: usize,
    pub fresh: bool,
}

impl View for Place {
    type V = Cursor;

    open spec fn view(&self) -> Cursor {
        Cursor {
            pos: self.pos as int,
            line: self.line as nat,
            column: self.column as nat,
            fresh: self.fresh,
        }
    }
}

impl Place {
    /// The line and the column are no more than one ahead of the position,
    /// so that they cannot overflow.
    pub open spec fn within(&self, len: nat) -> bool {
        &&& self.pos <= len
        &&& len < usize::MAX
        &&& self.line <= self.pos + 1
        &&& self.column <= self.pos + 1
    }

    fn after(&self, n: usize) -> (r: Place)
        requires
            self.pos + n < usize::MAX,
            self.column <= self.pos + 1,
        ensures
            r@ == self@.after(n as int),
    {
        Place { pos: self.pos + n, line: self.line, column: self.column + n, fresh: false }
    }

    fn token(&self, token_type: TokenType, text: String) -> (t: Token)
        ensures
            t@ == self@.token(token_type, text@),
    {
        Token { token_type, text, line: self.line, column: self.column }
    }
}

/// What one step of the lexer gives, in machine values.
pub enum Scan {
    Token(Token, Place),
    Skip(Place),
    Fail(Error),
}

impl View for Scan {
    type V = Lexed;

    open spec fn view(&self) -> Lexed {
        match self {
            Scan::Token(t, p) => Lexed::Token(t@, p@),
            Scan::Skip(p) => Lexed::Skip(p@),
            Scan::Fail(e) => Lexed::Fail(e@),
        }
    }
}

impl Scan {
    /// A step that does not fail moves forward and stays inside the text.
    pub open spec fn moves_on(&self, at: Place, len: nat) -> bool {
        match self {
            Scan::Token(_, next) => at.pos < next.pos && next.within(len),
            Scan::Skip(next) => at.pos < next.pos && next.within(len),
            Scan::Fail(_) => true,
        }
    }
}

fn char_in_run(kind: Run, c: char) -> (r: bool)
    ensures
        r == in_run(kind, c),
{
    match kind {
        Run::Blank => c == ' ' || c == '\t' || c == '\r',
        Run::Digits => char_is_digit(c),
        Run::Name => (c >= 'a' && c <= 'z') || (c >= 'A' && c <= 'Z') || char_is_digit(c) || c == '_',
        Run::Line => c != '\n',
        Run::Quoted => c != '"' && c != '\n',
    }
}

fn skip_run(chars: &Vec<char>, pos: usize, kind: Run) -> (end: usize)
    requires
        pos <= chars.len(),
    ensures
        end == run_end(chars@, pos as int, kind),
        pos <= end <= chars.len(),
{
    let mut end: usize = pos;
    while end < chars.len() && char_in_run(kind, chars[end])
        invariant
            pos <= end <= chars.len(),
            run_end(chars@, pos as int, kind) == run_end(chars@, end as int, kind),
        decreases chars.len() - end,
    {
        end = end + 1;
    }
    end
}

fn number_bounds(chars: &Vec<char>, pos: usize) -> (r: (usize, bool))
    requires
        pos < chars.len(),
    ensures
        (r.0 as int, r.1) == number_end(chars@, pos as int),
        pos <= r.0 <= chars.len(),
        r.1 ==> r.0 == run_end(chars@, pos as int, Run::Digits),
        is_digit(chars@[pos as int]) || (chars@[pos as int] == '.' && pos + 1 < chars.len() && is_digit(
            chars@[pos + 1],
        )) ==> pos < r.0,
{
    let n: usize = chars.len();
    proof {
        lemma_run_end_bounds(chars@, pos as int, Run::Digits);
        lemma_run_end_bounds(chars@, pos + 1, Run::Digits);
        if pos + 2 <= chars.len() {
            lemma_run_end_bounds(chars@, pos + 2, Run::Digits);
        }
    }
    let whole_end: usize = skip_run(chars, pos, Run::Digits);
    let pointed: bool = whole_end < n && chars[whole_end] == '.';
    let mantissa_end: usize = if pointed {
        skip_run(chars, whole_end + 1, Run::Digits)
    } else {
        whole_end
    };
    let marked: bool = mantissa_end < n && (chars[mantissa_end] == 'E' || chars[mantissa_end] == 'e');
    if marked {
        let signed: bool = n - mantissa_end > 1 && (chars[mantissa_end + 1] == '+'
            || chars[mantissa_end + 1] == '-');
        let skip: usize = if signed {
            2
        } else {
            1
        };
        if n - mantissa_end > skip && char_is_digit(chars[mantissa_end + skip]) {
            return (skip_run(chars, mantissa_end + skip, Run::Digits), false);
        }
    }
    (mantissa_end, !pointed)
}

/// The value of the digits `chars[from..to]`, unless it is above the largest
/// unsigned 32-bit integer.
fn digits_capped(chars: &Vec<char>, from: usize, to: usize) -> (r: Option<u64>)
    requires
        from <= to <= chars.len(),
        all_digits(chars@.subrange(from as int, to as int)),
    ensures
        r == (if digits_value(chars@.subrange(from as int, to as int)) <= u32::MAX {
            Some(digits_value(chars@.subrange(from as int, to as int)) as u64)
        } else {
            None
        }),
{
    let ghost body = chars@.subrange(from as int, to as int);
    let mut acc: u64 = 0;
    let mut i: usize = from;
    while i < to
        invariant
            from <= i <= to <= chars.len(),
            body == chars@.subrange(from as int, to as int),
            all_digits(body),
            acc == digits_value(body.take(i - from)),
            acc <= u32::MAX,
        decreases to - i,
    {
        let c: char = chars[i];
        let ghost before = body.take(i - from);
        let ghost after = body.take(i - from + 1);
        proof {
            assert(body[i - from] == c);
            assert(after.drop_last() =~= before);
            assert(after.last() == c);
        }
        acc = acc * 10 + char_digit_value(c) as u64;
        if acc > 0xffff_ffff {
            proof {
                lemma_digits_value_grows(body, i - from + 1);
            }
            return None;
        }
        i = i + 1;
    }
    proof {
        assert(body.take(to - from) =~= body);
    }
    Some(acc)
}

fn upper_char(c: char) -> (r: char)
    ensures
        r == upper(c),
{
    if c >= 'a' && c <= 'z' {
        ((c as u8) - 32) as char
    } else {
        c
    }
}

/// The characters `chars[from..to]` in upper case.
fn upper_string(chars: &Vec<char>, from: usize, to: usize) -> (r: String)
    requires
        from <= to <= chars.len(),
    ensures
        r@ == upper_text(chars@.subrange(from as int, to as int)),
{
    let mut out = String::new();
    let mut i: usize = from;
    while i < to
        invariant
            from <= i <= to <= chars.len(),
            out@ == upper_text(chars@.subrange(from as int, i as int)),
        decreases to - i,
    {
        out.push(upper_char(chars[i]));
        i = i + 1;
        assert(out@ =~= upper_text(chars@.subrange(from as int, i as int)));
    }
    assert(chars@.subrange(from as int, to as int) =~= chars@.subrange(from as int, i as int));
    out
}

/// Whether `word` is the text `literal`.
pub(crate) fn is_word(word: &String, literal: &str) -> (r: bool)
    ensures
        r == (word@ == literal@),
{
    let other = String::from_str(literal);
    *word == other
}

fn keyword_of(word: &String) -> (r: Option<TokenType>)
    ensures
        r == keyword(word@),
{
    if is_word(word, "PRINT") {
        Some(TokenType::Print)
    } else if is_word(word, "INPUT") {
        Some(TokenType::Input)
    } else if is_word(word, "LET") {
        Some(TokenType::Let)
    } else if is_word(word, "IF") {
        Some(TokenType::If)
    } else if is_word(word, "THEN") {
        Some(TokenType::Then)
    } else if is_word(word, "ELSE") {
        Some(TokenType::Else)
    } else if is_word(word, "FOR") {
        Some(TokenType::For)
    } else if is_word(word, "TO") {
        Some(TokenType::To)
    } else if is_word(word, "STEP") {
        Some(TokenType::Step)
    } else if is_word(word, "NEXT") {
        Some(TokenType::Next)
    } else if is_word(word, "WHILE") {
        Some(TokenType::While)
    } else if is_word(word, "GOTO") {
        Some(TokenType::Goto)
    } else if is_word(word, "GOSUB") {
        Some(TokenType::Gosub)
    } else if is_word(word, "RETURN") {
        Some(TokenType::Return)
    } else if is_word(word, "END") {
        Some(TokenType::End)
    } else if is_word(word, "STOP") {
        Some(TokenType::Stop)
    } else if is_word(word, "DIM") {
        Some(TokenType::Dim)
    } else if is_word(word, "REM") {
        Some(TokenType::Rem)
    } else if is_word(word, "READ") {
        Some(TokenType::Read)
    } else if is_word(word, "DATA") {
        Some(TokenType::Data)
    } else if is_word(word, "RESTORE") {
        Some(TokenType::Restore)
    } else if is_word(word, "CLS") {
        Some(TokenType::Cls)
    } else if is_word(word, "LOCATE") {
        Some(TokenType::Locate)
    } else if is_word(word, "COLOR") {
        Some(TokenType::Color)
    } else if is_word(word, "PSET") {
        Some(TokenType::Pset)
    } else if is_word(word, "CIRCLE") {
        Some(TokenType::Circle)
    } else if is_word(word, "BEEP") {
        Some(TokenType::Beep)
    } else if is_word(word, "SOUND") {
        Some(TokenType::Sound)
    } else if is_word(word, "RANDOMIZE") {
        Some(TokenType::Randomize)
    } else if is_word(word, "SWAP") {
        Some(TokenType::Swap)
    } else if is_word(word, "MOD") {
        Some(TokenType::Mod)
    } else if is_word(word, "AND") {
        Some(TokenType::And)
    } else if is_word(word, "OR") {
        Some(TokenType::Or)
    } else if is_word(word, "NOT") {
        Some(TokenType::Not)
    } else {
        None
    }
}

fn symbol_of(c: char) -> (r: Option<TokenType>)
    ensures
        r == symbol(c),
{
    if c == '+' {
        Some(TokenType::Plus)
    } else if c == '-' {
        Some(TokenType::Minus)
    } else if c == '*' {
        Some(TokenType::Multiply)
    } else if c == '/' {
        Some(TokenType::Divide)
    } else if c == '\\' {
        Some(TokenType::IntDivide)
    } else if c == '^' {
        Some(TokenType::Power)
    } else if c == '=' {
        Some(TokenType::Equal)
    } else if c == '<' {
        Some(TokenType::LessThan)
    } else if c == '>' {
        Some(TokenType::GreaterThan)
    } else if c == ',' {
        Some(TokenType::Comma)
    } else if c == ';' {
        Some(TokenType::Semicolon)
    } else if c == ':' {
        Some(TokenType::Colon)
    } else if c == '(' {
        Some(TokenType::LeftParen)
    } else if c == ')' {
        Some(TokenType::RightParen)
    } else {
        None
    }
}

fn symbol_pair_of(a: char, b: char) -> (r: Option<TokenType>)
    ensures
        r == symbol_pair(a, b),
{
    if a == '<' && b == '>' {
        Some(TokenType::NotEqual)
    } else if a == '<' && b == '=' {
        Some(TokenType::LessEqual)
    } else if a == '>' && b == '=' {
        Some(TokenType::GreaterEqual)
    } else {
        None
    }
}

fn one_char(c: char) -> (r: String)
    ensures
        r@ == seq![c],
{
    let mut out = String::new();
    out.push(c);
    assert(out@ =~= seq![c]);
    out
}

fn step_number<F: Fn(FloatRequest) -> FloatReply>(
    chars: &Vec<char>,
    at: Place,
    unit: &FloatUnit<F>,
) -> (r: Scan)
    requires
        at.within(chars@.len()),
        at.pos < chars.len(),
        is_digit(chars@[at.pos as int]) || (chars@[at.pos as int] == '.' && at.pos + 1 < chars.len()
            && is_digit(chars@[at.pos + 1])),
    ensures
        r@ == lex_number(unit.oracle(), chars@, at@),
        r.moves_on(at, chars@.len()),
{
    let (end, integral) = number_bounds(chars, at.pos);
    let text = string_of(chars, at.pos, end);
    let next = at.after(end - at.pos);
    if integral {
        proof {
            lemma_run_end_bounds(chars@, at.pos as int, Run::Digits);
            assert(all_digits(chars@.subrange(at.pos as int, end as int)));
        }
        match digits_capped(chars, at.pos, end) {
            Some(v) => {
                if at.fresh {
                    return Scan::Token(at.token(TokenType::LineNumber(v as u32), text), next);
                }
                if v <= 0x7fff_ffff {
                    return Scan::Token(at.token(TokenType::Integer(v as i32), text), next);
                }
            },
            None => {},
        }
    }
    match unit.parse(text.as_str()) {
        Some(d) => Scan::Token(at.token(TokenType::Float(d), text), next),
        None => Scan::Fail(Error::SyntaxError(concat2("Invalid number: ", text.as_str()))),
    }
}

fn step_word(chars: &Vec<char>, at: Place) -> (r: Scan)
    requires
        at.within(chars@.len()),
        at.pos < chars.len(),
        is_letter(chars@[at.pos as int]),
    ensures
        r@ == lex_word(chars@, at@),
        r.moves_on(at, chars@.len()),
{
    let name_end: usize = skip_run(chars, at.pos, Run::Name);
    proof {
        lemma_run_end_bounds(chars@, at.pos + 1, Run::Name);
    }
    if name_end < chars.len() && chars[name_end] == '$' {
        let text = string_of(chars, at.pos, name_end + 1);
        return Scan::Token(at.token(TokenType::Identifier, text), at.after(name_end + 1 - at.pos));
    }
    let text = string_of(chars, at.pos, name_end);
    let word = upper_string(chars, at.pos, name_end);
    match keyword_of(&word) {
        Some(TokenType::Rem) => {
            let line_end: usize = skip_run(chars, name_end, Run::Line);
            Scan::Token(at.token(TokenType::Rem, text), at.after(line_end - at.pos))
        },
        Some(kind) => Scan::Token(at.token(kind, text), at.after(name_end - at.pos)),
        None => Scan::Token(at.token(TokenType::Identifier, text), at.after(name_end - at.pos)),
    }
}

fn step_string(chars: &Vec<char>, at: Place) -> (r: Scan)
    requires
        at.within(chars@.len()),
        at.pos < chars.len(),
    ensures
        r@ == lex_string(chars@, at@),
        r.moves_on(at, chars@.len()),
{
    let close: usize = skip_run(chars, at.pos + 1, Run::Quoted);
    if close < chars.len() && chars[close] == '"' {
        let text = string_of(chars, at.pos + 1, close);
        Scan::Token(at.token(TokenType::String, text), at.after(close + 1 - at.pos))
    } else {
        let text = string_of(chars, at.pos, close);
        Scan::Fail(Error::SyntaxError(concat2("Unterminated string: ", text.as_str())))
    }
}

fn step_one<F: Fn(FloatRequest) -> FloatReply>(chars: &Vec<char>, at: Place, unit: &FloatUnit<F>) -> (r:
    Scan)
    requires
        at.within(chars@.len()),
        at.pos < chars.len(),
    ensures
        r@ == lex_one(unit.oracle(), chars@, at@),
        r.moves_on(at, chars@.len()),
{
    let c: char = chars[at.pos];
    let n: usize = chars.len();
    proof {
        lemma_run_end_bounds(chars@, at.pos + 1, Run::Blank);
        lemma_run_end_bounds(chars@, at.pos + 1, Run::Line);
    }
    if char_in_run(Run::Blank, c) {
        let end: usize = skip_run(chars, at.pos, Run::Blank);
        Scan::Skip(
            Place { pos: end, line: at.line, column: at.column + (end - at.pos), fresh: at.fresh },
        )
    } else if c == '\n' {
        Scan::Token(
            at.token(TokenType::Newline, one_char('\n')),
            Place { pos: at.pos + 1, line: at.line + 1, column: 1, fresh: true },
        )
    } else if char_is_digit(c) || (c == '.' && n - at.pos > 1 && char_is_digit(chars[at.pos + 1])) {
        step_number(chars, at, unit)
    } else if (c >= 'a' && c <= 'z') || (c >= 'A' && c <= 'Z') {
        step_word(chars, at)
    } else if c == '"' {
        step_string(chars, at)
    } else if c == '\'' {
        let end: usize = skip_run(chars, at.pos, Run::Line);
        Scan::Skip(
            Place { pos: end, line: at.line, column: at.column + (end - at.pos), fresh: at.fresh },
        )
    } else {
        if n - at.pos > 1 {
            match symbol_pair_of(c, chars[at.pos + 1]) {
                Some(kind) => {
                    let text = string_of(chars, at.pos, at.pos + 2);
                    return Scan::Token(at.token(kind, text), at.after(2));
                },
                None => {},
            }
        }
        match symbol_of(c) {
            Some(kind) => Scan::Token(at.token(kind, one_char(c)), at.after(1)),
            None => {
                let text = one_char(c);
                Scan::Fail(Error::SyntaxError(concat2("Unexpected character: ", text.as_str())))
            },
        }
    }
}

/// Turns program text into tokens.
pub struct Lexer {
    chars: Vec<char>,
    at: Place,
}

impl Lexer {
    /// The text that the lexer reads.
    pub closed spec fn text(&self) -> Seq<char> {
        self.chars@
    }

    /// Where the lexer stands in the text.
    pub closed spec fn cursor(&self) -> Cursor {
        self.at@
    }

    /// The cursor is inside the text or at its end.
    pub closed spec fn wf(&self) -> bool {
        self.at.within(self.chars@.len())
    }

    /// A lexer at the start of `input`.
    pub fn new(input: &str) -> (lexer: Lexer)
        requires
            input@.len() < usize::MAX,
        ensures
            lexer.wf(),
            lexer.text() == input@,
            lexer.cursor() == (Cursor { pos: 0, line: 1, column: 1, fresh: true }),
    {
        Lexer { chars: to_chars(input), at: Place { pos: 0, line: 1, column: 1, fresh: true } }
    }

    /// Reads the rest of the text into tokens, the last of which marks the
    /// end of the input. A failure is the first one met, and carries the
    /// offending text.
    pub fn tokenize<F: Fn(FloatRequest) -> FloatReply>(&mut self, unit: &FloatUnit<F>) -> (r: Result<
        Vec<Token>,
        Error,
    >)
        requires
            old(self).wf(),
        ensures
            final(self).wf(),
            final(self).text() == old(self).text(),
            tokens_result_view(r) == lex_all(unit.oracle(), old(self).text(), old(self).cursor()),
            r is Ok ==> final(self).cursor().pos == old(self).text().len(),
    {
        let mut tokens: Vec<Token> = Vec::new();
        let ghost start = self.at@;
        while self.at.pos < self.chars.len()
            invariant
                self.wf(),
                self.chars@ == old(self).chars@,
                start == old(self).at@,
                lex_all(unit.oracle(), self.chars@, start) == tokens_then(
                        token_views(tokens@),
                        lex_all(unit.oracle(), self.chars@, self.at@),
                    ),
            decreases self.chars.len() - self.at.pos,
        {
            let ghost before = self.at@;
            let ghost so_far = token_views(tokens@);
            match step_one(&self.chars, self.at, unit) {
                Scan::Token(t, next) => {
                    tokens.push(t);
                    self.at = next;
                    proof {
                        assert(token_views(tokens@) =~= so_far.push(t@));
                        assert(lex_all(unit.oracle(), self.chars@, start)
                            == tokens_then(token_views(tokens@), lex_all(unit.oracle(), self.chars@, self.at@))) by {
                            let rest = lex_all(unit.oracle(), self.chars@, next@);
                            assert(lex_all(unit.oracle(), self.chars@, before) == tokens_then(seq![t@], rest));
                            if rest is Ok {
                                assert(so_far + (seq![t@] + rest->Ok_0) =~= so_far.push(t@) + rest->Ok_0);
                            }
                        };
                    }
                },
                Scan::Skip(next) => {
                    self.at = next;
                },
                Scan::Fail(e) => {
                    proof {
                        assert(lex_all(unit.oracle(), self.chars@, start)
                            == Err::<Seq<TokenView>, ErrorView>(e@)) by {
                            assert(lex_all(unit.oracle(), self.chars@, before) == Err::<Seq<TokenView>, ErrorView>(
                                e@,
                            ));
                        };
                    }
                    return Err(e);
                },
            }
        }
        let end = Token::new(TokenType::Eof, self.at.line, self.at.column);
        let ghost so_far = token_views(tokens@);
        tokens.push(end);
        proof {
            assert(token_views(tokens@) =~= so_far + seq![end@]);
        }
        Ok(tokens)
    }
}

} // verus!
