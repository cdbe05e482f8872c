//! The syntax tree of a program.

use vstd::prelude::*;
use crate::value::{Value, ValueView};

verus! {

/// Binary operators.
#[derive(Clone, Copy, Debug, PartialEq, Eq, Structural)]
pub enum BinaryOperator {
    Add,
    Subtract,
    Multiply,
    Divide,
    IntDivide,
    Mod,
    Power,
    Equal,
    NotEqual,
    LessThan,
    GreaterThan,
    LessEqual,
    GreaterEqual,
    And,
    Or,
    Xor,
    Eqv,
    Imp,
}

/// Unary operators.
#[derive(Clone, Copy, Debug, PartialEq, Eq, Structural)]
pub enum UnaryOperator {
    Negate,
    Not,
}

/// A node of the syntax tree: an expression, a statement, a numbered line or
/// a whole program.
#[derive(Debug, PartialEq)]
pub enum AstNode {
    Print(Vec<AstNode>),
    Input(Vec<String>),
    Let(String, Box<AstNode>),
    If(Box<AstNode>, Vec<AstNode>, Option<Vec<AstNode>>),
    For(String, Box<AstNode>, Box<AstNode>, Option<Box<AstNode>>),
    Next(String),
    While(Box<AstNode>, Vec<AstNode>),
    Goto(u32),
    Gosub(u32),
    Return,
    End,
    Stop,
    Dim(String, Vec<AstNode>),
    Read(Vec<String>),
    Data(Vec<AstNode>),
    Restore(Option<u32>),
    Rem(String),
    Cls,
    Locate(Box<AstNode>, Box<AstNode>),
    Color(Option<Box<AstNode>>, Option<Box<AstNode>>),
    Screen(Box<AstNode>),
    Pset(Box<AstNode>, Box<AstNode>, Option<Box<AstNode>>),
    DrawLine(Box<AstNode>, Box<AstNode>, Box<AstNode>, Box<AstNode>, Option<Box<AstNode>>),
    Circle(Box<AstNode>, Box<AstNode>, Box<AstNode>, Option<Box<AstNode>>),
    Beep,
    Sound(Box<AstNode>, Box<AstNode>),
    /// File name, file number, mode.
    Open(String, Box<AstNode>, String),
    Close(Vec<i32>),
    Randomize(Option<Box<AstNode>>),
    Swap(String, String),
    Literal(Value),
    Variable(String),
    BinaryOp(BinaryOperator, Box<AstNode>, Box<AstNode>),
    UnaryOp(UnaryOperator, Box<AstNode>),
    FunctionCall(String, Vec<AstNode>),
    Line(u32, Vec<AstNode>),
    Program(Vec<AstNode>),
}

/// An `AstNode` with its lists as sequences and its strings as sequences of
/// characters.
pub enum AstView {
    Print(Seq<AstView>),
    Input(Seq<Seq<char>>),
    Let(Seq<char>, Box<AstView>),
    If(Box<AstView>, Seq<AstView>, Option<Seq<AstView>>),
    For(Seq<char>, Box<AstView>, Box<AstView>, Option<Box<AstView>>),
    Next(Seq<char>),
    While(Box<AstView>, Seq<AstView>),
    Goto(u32),
    Gosub(u32),
    Return,
    End,
    Stop,
    Dim(Seq<char>, Seq<AstView>),
    Read(Seq<Seq<char>>),
    Data(Seq<AstView>),
    Restore(Option<u32>),
    Rem(Seq<char>),
    Cls,
    Locate(Box<AstView>, Box<AstView>),
    Color(Option<Box<AstView>>, Option<Box<AstView>>),
    Screen(Box<AstView>),
    Pset(Box<AstView>, Box<AstView>, Option<Box<AstView>>),
    DrawLine(Box<AstView>, Box<AstView>, Box<AstView>, Box<AstView>, Option<Box<AstView>>),
    Circle(Box<AstView>, Box<AstView>, Box<AstView>, Option<Box<AstView>>),
    Beep,
    Sound(Box<AstView>, Box<AstView>),
    Open(Seq<char>, Box<AstView>, Seq<char>),
    Close(Seq<i32>),
    Randomize(Option<Box<AstView>>),
    Swap(Seq<char>, Seq<char>),
    Literal(ValueView),
    Variable(Seq<char>),
    BinaryOp(BinaryOperator, Box<AstView>, Box<AstView>),
    UnaryOp(UnaryOperator, Box<AstView>),
    FunctionCall(Seq<char>, Seq<AstView>),
    Line(u32, Seq<AstView>),
    Program(Seq<AstView>),
}

/// The views of a list of names.
pub open spec fn name_views(names: Seq<String>) -> Seq<Seq<char>> {
    Seq::new(names.len(), |i: int| names[i]@)
}

/// The views of a list of nodes.
pub open spec fn node_views(nodes: Seq<AstNode>) -> Seq<AstView>
    decreases nodes,
{
    Seq::new(
        nodes.len(),
        |i: int|
            if 0 <= i < nodes.len() {
                ast_view(nodes[i])
            } else {
                AstView::End
            },
    )
}

/// The view of a node that may be absent.
pub open spec fn optional_view(node: Option<Box<AstNode>>) -> Option<Box<AstView>>
    decreases node,
{
    match node {
        Some(n) => Some(Box::new(ast_view(*n))),
        None => None,
    }
}

/// The view of a node.
pub open spec fn ast_view(node: AstNode) -> AstView
    decreases node,
{
    match node {
        AstNode::Print(es) => AstView::Print(node_views(es@)),
        AstNode::Input(names) => AstView::Input(name_views(names@)),
        AstNode::Let(name, e) => AstView::Let(name@, Box::new(ast_view(*e))),
        AstNode::If(c, t, e) => AstView::If(
            Box::new(ast_view(*c)),
            node_views(t@),
            match e {
                Some(es) => Some(node_views(es@)),
                None => None,
            },
        ),
        AstNode::For(name, a, b, s) => AstView::For(
            name@,
            Box::new(ast_view(*a)),
            Box::new(ast_view(*b)),
            optional_view(s),
        ),
        AstNode::Next(name) => AstView::Next(name@),
        AstNode::While(c, body) => AstView::While(Box::new(ast_view(*c)), node_views(body@)),
        AstNode::Goto(n) => AstView::Goto(n),
        AstNode::Gosub(n) => AstView::Gosub(n),
        AstNode::Return => AstView::Return,
        AstNode::End => AstView::End,
        AstNode::Stop => AstView::Stop,
        AstNode::Dim(name, es) => AstView::Dim(name@, node_views(es@)),
        AstNode::Read(names) => AstView::Read(name_views(names@)),
        AstNode::Data(es) => AstView::Data(node_views(es@)),
        AstNode::Restore(n) => AstView::Restore(n),
        AstNode::Rem(text) => AstView::Rem(text@),
        AstNode::Cls => AstView::Cls,
        AstNode::Locate(a, b) => AstView::Locate(Box::new(ast_view(*a)), Box::new(ast_view(*b))),
        AstNode::Color(a, b) => AstView::Color(optional_view(a), optional_view(b)),
        AstNode::Screen(a) => AstView::Screen(Box::new(ast_view(*a))),
        AstNode::Pset(a, b, c) => AstView::Pset(
            Box::new(ast_view(*a)),
            Box::new(ast_view(*b)),
            optional_view(c),
        ),
        AstNode::DrawLine(a, b, c, d, e) => AstView::DrawLine(
            Box::new(ast_view(*a)),
            Box::new(ast_view(*b)),
            Box::new(ast_view(*c)),
            Box::new(ast_view(*d)),
            optional_view(e),
        ),
        AstNode::Circle(a, b, c, d) => AstView::Circle(
            Box::new(ast_view(*a)),
            Box::new(ast_view(*b)),
            Box::new(ast_view(*c)),
            optional_view(d),
        ),
        AstNode::Beep => AstView::Beep,
        AstNode::Sound(a, b) => AstView::Sound(Box::new(ast_view(*a)), Box::new(ast_view(*b))),
        AstNode::Open(name, n, mode) => AstView::Open(name@, Box::new(ast_view(*n)), mode@),
        AstNode::Close(ns) => AstView::Close(ns@),
        AstNode::Randomize(a) => AstView::Randomize(optional_view(a)),
        AstNode::Swap(a, b) => AstView::Swap(a@, b@),
        AstNode::Literal(v) => AstView::Literal(v@),
        AstNode::Variable(name) => AstView::Variable(name@),
        AstNode::BinaryOp(op, a, b) => AstView::BinaryOp(
            op,
            Box::new(ast_view(*a)),
            Box::new(ast_view(*b)),
        ),
        AstNode::UnaryOp(op, a) => AstView::UnaryOp(op, Box::new(ast_view(*a))),
        AstNode::FunctionCall(name, es) => AstView::FunctionCall(name@, node_views(es@)),
        AstNode::Line(n, es) => AstView::Line(n, node_views(es@)),
        AstNode::Program(es) => AstView::Program(node_views(es@)),
    }
}

impl View for AstNode {
    type V = AstView;

    open spec fn view(&self) -> AstView {
        ast_view(*self)
    }
}

} // verus!
