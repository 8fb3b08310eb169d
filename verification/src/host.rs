//! The arithmetic that the interpreter computes with. Numbers are 64-bit
//! floating-point values; the library holds each as its 64 bits and leaves
//! every operation on them to a host function that its caller supplies.

use vstd::prelude::*;

verus! {

/// A question to the host arithmetic.
#[derive(Debug)]
pub enum NumberRequest {
    /// The number that a literal denotes.
    Parse(String),
    /// The sum of two numbers.
    Add(u64, u64),
    /// The first number less the second.
    Subtract(u64, u64),
    /// Whether two numbers are equal.
    Equal(u64, u64),
    /// Whether the first number is less than the second.
    Less(u64, u64),
    /// The string form of a number.
    Format(u64),
}

/// The host's answer.
#[derive(Debug)]
pub enum NumberReply {
    Number(u64),
    Truth(bool),
    Text(String),
    /// The literal denotes no number.
    Invalid,
}

pub ghost enum NumberRequestView {
    Parse(Seq<char>),
    Add(u64, u64),
    Subtract(u64, u64),
    Equal(u64, u64),
    Less(u64, u64),
    Format(u64),
}

pub ghost enum NumberReplyView {
    Number(u64),
    Truth(bool),
    Text(Seq<char>),
    Invalid,
}

impl View for NumberRequest {
    type V = NumberRequestView;

    open spec fn view(&self) -> NumberRequestView {
        match self {
            NumberRequest::Parse(text) => NumberRequestView::Parse(text@),
            NumberRequest::Add(a, b) => NumberRequestView::Add(*a, *b),
            NumberRequest::Subtract(a, b) => NumberRequestView::Subtract(*a, *b),
            NumberRequest::Equal(a, b) => NumberRequestView::Equal(*a, *b),
            NumberRequest::Less(a, b) => NumberRequestView::Less(*a, *b),
            NumberRequest::Format(a) => NumberRequestView::Format(*a),
        }
    }
}

impl View for NumberReply {
    type V = NumberReplyView;

    open spec fn view(&self) -> NumberReplyView {
        match self {
            NumberReply::Number(bits) => NumberReplyView::Number(*bits),
            NumberReply::Truth(b) => NumberReplyView::Truth(*b),
            NumberReply::Text(text) => NumberReplyView::Text(text@),
            NumberReply::Invalid => NumberReplyView::Invalid,
        }
    }
}

/// An arithmetic: the answer to every question.
pub type Arithmetic = spec_fn(NumberRequestView) -> NumberReplyView;

/// `reply` is an answer that `host` may give to `request`.
pub open spec fn answers<H: Fn(NumberRequest) -> NumberReply>(
    host: H,
    request: NumberRequestView,
    reply: NumberReplyView,
) -> bool {
    exists|r: NumberRequest, p: NumberReply|
        r@ == request && p@ == reply && #[trigger] host.ensures((r,), p)
}

/// `host` answers every question, and the same question always alike.
pub open spec fn is_arithmetic<H: Fn(NumberRequest) -> NumberReply>(host: H) -> bool {
    &&& forall|r: NumberRequest| #[trigger] host.requires((r,))
    &&& forall|r1: NumberRequest, r2: NumberRequest, p1: NumberReply, p2: NumberReply|
        #[trigger] host.ensures((r1,), p1) && #[trigger] host.ensures((r2,), p2) && r1@ == r2@
            ==> p1@ == p2@
}

/// The arithmetic that `host` computes.
pub open spec fn arithmetic_of<H: Fn(NumberRequest) -> NumberReply>(host: H) -> Arithmetic {
    |request: NumberRequestView| choose|reply: NumberReplyView| answers(host, request, reply)
}

/// Puts `request` to `host`.
pub fn ask<H: Fn(NumberRequest) -> NumberReply>(host: &H, request: NumberRequest) -> (reply:
    NumberReply)
    requires
        is_arithmetic(*host),
    ensures
        reply@ == arithmetic_of(*host)(request@),
{
    let ghost asked = request@;
    let ghost witness = request;
    let reply = host(request);
    proof {
        assert(host.ensures((witness,), reply));
        assert(answers(*host, asked, reply@));
        let chosen = choose|p: NumberReplyView| answers(*host, asked, p);
        assert(answers(*host, asked, chosen));
        let (r2, p2) = choose|r: NumberRequest, p: NumberReply|
            r@ == asked && p@ == chosen && #[trigger] host.ensures((r,), p);
        assert(p2@ == reply@);
    }
    reply
}

} // verus!
