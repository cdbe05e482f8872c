//! The float unit: the arithmetic on floating-point numbers that rounds, and
//! their conversion from and to decimal text.
//!
//! The interpreter does not compute these itself. It asks a function that the
//! host supplies, one request at a time, and works with whatever comes back.
//! The function has to answer alike what reads alike. Contracts that depend
//! on an answer are stated over the `oracle` of the unit: the mathematical
//! function from requests to replies that the host's function computes.

use vstd::prelude::*;
use crate::numeric::{Double, Single};

verus! {

/// An arithmetic operation on two doubles.
#[derive(Clone, Copy, Debug, PartialEq, Eq, Structural)]
pub enum FloatOp {
    Add,
    Subtract,
    Multiply,
    Divide,
    Power,
}

/// A function of one double.
#[derive(Clone, Copy, Debug, PartialEq, Eq, Structural)]
pub enum FloatFunction {
    Sqrt,
    Sin,
    Cos,
    Tan,
    Atan,
    Exp,
    Ln,
}

/// What the float unit can be asked.
#[derive(Debug)]
pub enum FloatRequest {
    /// The result of an operation on two doubles; answered in `bits`.
    Binary(FloatOp, Double, Double),
    /// The value of a function at a double; answered in `bits`.
    Unary(FloatFunction, Double),
    /// The single nearest to a double; answered in the low half of `bits`.
    Narrow(Double),
    /// The quotient of two singles; answered in the low half of `bits`.
    DivideSingle(Single, Single),
    /// The double that a decimal text denotes; `ok` says whether the text
    /// denotes one, and `bits` holds it.
    Parse(String),
    /// The decimal text of a double; answered in `text`.
    Format(Double),
    /// The decimal text of a single; answered in `text`.
    FormatSingle(Single),
}

pub enum FloatRequestView {
    Binary(FloatOp, Double, Double),
    Unary(FloatFunction, Double),
    Narrow(Double),
    DivideSingle(Single, Single),
    Parse(Seq<char>),
    Format(Double),
    FormatSingle(Single),
}

impl View for FloatRequest {
    type V = FloatRequestView;

    open spec fn view(&self) -> FloatRequestView {
        match self {
            FloatRequest::Binary(op, a, b) => FloatRequestView::Binary(*op, *a, *b),
            FloatRequest::Unary(f, a) => FloatRequestView::Unary(*f, *a),
            FloatRequest::Narrow(a) => FloatRequestView::Narrow(*a),
            FloatRequest::DivideSingle(a, b) => FloatRequestView::DivideSingle(*a, *b),
            FloatRequest::Parse(s) => FloatRequestView::Parse(s@),
            FloatRequest::Format(a) => FloatRequestView::Format(*a),
            FloatRequest::FormatSingle(a) => FloatRequestView::FormatSingle(*a),
        }
    }
}

/// What the float unit answers. A request reads the fields that its own
/// description names and ignores the others.
#[derive(Debug)]
pub struct FloatReply {
    pub ok: bool,
    pub bits: u64,
    pub text: String,
}

pub struct FloatReplyView {
    pub ok: bool,
    pub bits: u64,
    pub text: Seq<char>,
}

impl View for FloatReply {
    type V = FloatReplyView;

    open spec fn view(&self) -> FloatReplyView {
        FloatReplyView { ok: self.ok, bits: self.bits, text: self.text@ }
    }
}

/// A function from requests to replies.
pub type Oracle = spec_fn(FloatRequestView) -> FloatReplyView;

/// The double that `o` gives for `a op b`.
pub open spec fn binary_answer(o: Oracle, op: FloatOp, a: Double, b: Double) -> Double {
    Double { bits: o(FloatRequestView::Binary(op, a, b)).bits }
}

/// The double that `o` gives for `f(a)`.
pub open spec fn unary_answer(o: Oracle, f: FloatFunction, a: Double) -> Double {
    Double { bits: o(FloatRequestView::Unary(f, a)).bits }
}

/// The single that `o` gives for `a`.
pub open spec fn narrow_answer(o: Oracle, a: Double) -> Single {
    Single { bits: (o(FloatRequestView::Narrow(a)).bits % 0x1_0000_0000) as u32 }
}

/// The single that `o` gives for `a / b`.
pub open spec fn single_quotient_answer(o: Oracle, a: Single, b: Single) -> Single {
    Single { bits: (o(FloatRequestView::DivideSingle(a, b)).bits % 0x1_0000_0000) as u32 }
}

/// The double that `o` reads from `text`, if it reads one.
pub open spec fn parse_answer(o: Oracle, text: Seq<char>) -> Option<Double> {
    let reply = o(FloatRequestView::Parse(text));
    if reply.ok {
        Some(Double { bits: reply.bits })
    } else {
        None
    }
}

/// The text that `o` writes for `a`.
pub open spec fn format_answer(o: Oracle, a: Double) -> Seq<char> {
    o(FloatRequestView::Format(a)).text
}

/// The text that `o` writes for the single `a`.
pub open spec fn format_single_answer(o: Oracle, a: Single) -> Seq<char> {
    o(FloatRequestView::FormatSingle(a)).text
}

/// Whether a function answers every request, and answers alike what reads
/// alike: two requests with the same view get replies with the same view.
pub open spec fn steady<F: Fn(FloatRequest) -> FloatReply>(run: F) -> bool {
    &&& forall|req: FloatRequest| call_requires(run, (req,))
    &&& forall|first: FloatRequest, second: FloatRequest, a: FloatReply, b: FloatReply|
        first@ == second@ && #[trigger] call_ensures(run, (first,), a) && #[trigger] call_ensures(
            run,
            (second,),
            b,
        ) ==> a@ == b@
}

/// The host's floating-point arithmetic, behind one function. The function
/// is steady, so what it answers is a function of what it is asked: the
/// `oracle` of the unit.
pub struct FloatUnit<F: Fn(FloatRequest) -> FloatReply> {
    run: F,
}

impl<F: Fn(FloatRequest) -> FloatReply> FloatUnit<F> {
    /// The function is steady.
    #[verifier::type_invariant]
    closed spec fn ready(&self) -> bool {
        steady(self.run)
    }

    /// The function that answers the requests.
    pub closed spec fn function(&self) -> F {
        self.run
    }

    /// Whether the function can answer a request that reads as `request`
    /// with a reply that reads as `reply`.
    closed spec fn answers(&self, request: FloatRequestView, reply: FloatReplyView) -> bool {
        exists|req: FloatRequest, r: FloatReply|
            req@ == request && r@ == reply && #[trigger] call_ensures(self.run, (req,), r)
    }

    /// What the unit answers, as a function of what it is asked.
    pub closed spec fn oracle(&self) -> Oracle {
        |request: FloatRequestView| choose|reply: FloatReplyView| self.answers(request, reply)
    }

    /// A unit around a steady function.
    pub fn new(run: F) -> (unit: Self)
        requires
            steady(run),
        ensures
            unit.function() == run,
    {
        FloatUnit { run }
    }

    /// Asks the function, whose answer is the oracle's.
    fn ask(&self, request: FloatRequest) -> (reply: FloatReply)
        ensures
            reply@ == self.oracle()(request@),
    {
        let ghost asked = request;
        proof {
            use_type_invariant(self);
        }
        let reply = (self.run)(request);
        proof {
            assert(call_ensures(self.run, (asked,), reply));
            assert(self.answers(asked@, reply@));
            let chosen = self.oracle()(asked@);
            assert(self.answers(asked@, chosen));
            let (req, r) = choose|req: FloatRequest, r: FloatReply|
                req@ == asked@ && r@ == chosen && #[trigger] call_ensures(self.run, (req,), r);
            assert(r@ == reply@);
        }
        reply
    }

    /// Asks for `a op b`.
    pub fn binary(&self, op: FloatOp, a: Double, b: Double) -> (r: Double)
        ensures
            r == binary_answer(self.oracle(), op, a, b),
    {
        let reply = self.ask(FloatRequest::Binary(op, a, b));
        Double { bits: reply.bits }
    }

    /// Asks for `f(a)`.
    pub fn unary(&self, f: FloatFunction, a: Double) -> (r: Double)
        ensures
            r == unary_answer(self.oracle(), f, a),
    {
        let reply = self.ask(FloatRequest::Unary(f, a));
        Double { bits: reply.bits }
    }

    /// Asks for the single nearest to `a`.
    pub fn narrow(&self, a: Double) -> (r: Single)
        ensures
            r == narrow_answer(self.oracle(), a),
    {
        let reply = self.ask(FloatRequest::Narrow(a));
        Single { bits: (reply.bits % 0x1_0000_0000) as u32 }
    }

    /// Asks for the quotient of two singles.
    pub fn divide_single(&self, a: Single, b: Single) -> (r: Single)
        ensures
            r == single_quotient_answer(self.oracle(), a, b),
    {
        let reply = self.ask(FloatRequest::DivideSingle(a, b));
        Single { bits: (reply.bits % 0x1_0000_0000) as u32 }
    }

    /// Asks for the double that `text` denotes.
    pub fn parse(&self, text: &str) -> (r: Option<Double>)
        ensures
            r == parse_answer(self.oracle(), text@),
    {
        let reply = self.ask(FloatRequest::Parse(text.to_owned()));
        if reply.ok {
            Some(Double { bits: reply.bits })
        } else {
            None
        }
    }

    /// Asks for the decimal text of `a`.
    pub fn format(&self, a: Double) -> (r: String)
        ensures
            r@ == format_answer(self.oracle(), a),
    {
        let reply = self.ask(FloatRequest::Format(a));
        reply.text
    }

    /// Asks for the decimal text of the single `a`.
    pub fn format_single(&self, a: Single) -> (r: String)
        ensures
            r@ == format_single_answer(self.oracle(), a),
    {
        let reply = self.ask(FloatRequest::FormatSingle(a));
        reply.text
    }
}

} // verus!
