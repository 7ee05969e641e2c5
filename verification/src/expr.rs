//! The operator-precedence expression parser: an output stack of completed
//! sub-expressions and an operator stack of operators and structural markers
//! (group, call, index), driven one token at a time.
use vstd::prelude::*;
use crate::ast::{ACompileError, AExpr, Expr, ExprV, ParseError, aexpr_view, aexprs_view};
use crate::buffer::Buffer;
use crate::span::{Span, env, spec_env};
use crate::token::{
    Operator, Token, spec_binary_ok, spec_is_left, spec_percedence, spec_unary_ok,
};
use crate::types::{spec_text, toks_in_src};

verus! {

/// One entry of the operator stack: a real operator with its unary flag, or
/// a structural marker for a grouping parenthesis, a call (holding the callee
/// and the pending argument count), or an indexing bracket (holding the base).
pub enum OpEntry {
    Op(Operator, Span, bool),
    Group(Span),
    Call(AExpr, Span, usize),
    Index(AExpr, Span),
}

/// The shape of an operator-stack entry.
pub enum OpEntryV {
    Op(Operator, Span, bool),
    Group(Span),
    Call((ExprV, Span), Span, usize),
    Index((ExprV, Span), Span),
}

/// The shape of one operator-stack entry.
pub open spec fn op_entry_view(e: OpEntry) -> OpEntryV {
    match e {
        OpEntry::Op(o, sp, u) => OpEntryV::Op(o, sp, u),
        OpEntry::Group(sp) => OpEntryV::Group(sp),
        OpEntry::Call(callee, sp, n) => OpEntryV::Call(aexpr_view(callee), sp, n),
        OpEntry::Index(base, sp) => OpEntryV::Index(aexpr_view(base), sp),
    }
}

/// The shapes of the output stack, bottom first.
pub open spec fn outs_view(s: Seq<AExpr>) -> Seq<(ExprV, Span)> {
    Seq::new(s.len(), |i: int| aexpr_view(s[i]))
}

/// The shapes of the operator stack, bottom first.
pub open spec fn ops_view(s: Seq<OpEntry>) -> Seq<OpEntryV> {
    Seq::new(s.len(), |i: int| op_entry_view(s[i]))
}

/// The recursive and the pointwise description of the output stack agree.
pub proof fn lemma_outs_view_is_aexprs_view(s: Seq<AExpr>)
    ensures
        aexprs_view(s) == outs_view(s),
    decreases s.len(),
{
    if s.len() == 0 {
        assert(aexprs_view(s) =~= outs_view(s));
    } else {
        lemma_outs_view_is_aexprs_view(s.drop_last());
        assert(aexprs_view(s) =~= outs_view(s));
    }
}

/// Every operator on the stack may stand in the position its flag records.
pub open spec fn ops_valid(ops: Seq<OpEntryV>) -> bool {
    forall|i: int|
        0 <= i < ops.len() ==> match #[trigger] ops[i] {
            OpEntryV::Op(o, _, u) => if u {
                spec_unary_ok(o)
            } else {
                spec_binary_ok(o)
            },
            _ => true,
        }
}

/// A span inside the consumed range: it starts no earlier than `a` and no
/// later than `bs`, is non-empty, and ends by `be`.
pub open spec fn span_in(s: Span, a: int, bs: int, be: int) -> bool {
    a <= s.start && s.start <= bs && s.start < s.end && s.end <= be
}

/// Every output-stack entry's span lies inside the consumed range.
pub open spec fn out_spans_in(out: Seq<(ExprV, Span)>, a: int, bs: int, be: int) -> bool {
    forall|i: int| 0 <= i < out.len() ==> span_in(#[trigger] out[i].1, a, bs, be)
}

/// Every operator-stack entry's spans lie inside the consumed range.
pub open spec fn ops_spans_in(ops: Seq<OpEntryV>, a: int, bs: int, be: int) -> bool {
    forall|i: int|
        0 <= i < ops.len() ==> match #[trigger] ops[i] {
            OpEntryV::Op(_, sp, _) => span_in(sp, a, bs, be),
            OpEntryV::Group(sp) => span_in(sp, a, bs, be),
            OpEntryV::Call(c, sp, _) => span_in(c.1, a, bs, be) && span_in(sp, a, bs, be),
            OpEntryV::Index(b, sp) => span_in(b.1, a, bs, be) && span_in(sp, a, bs, be),
        }
}

/// An output stack, or the error that interrupted the parse.
pub enum SeqRes {
    Done { out: Seq<(ExprV, Span)> },
    Fail { err: ACompileError },
}

/// Both stacks, or the error that interrupted the parse.
pub enum PairRes {
    Done { out: Seq<(ExprV, Span)>, ops: Seq<OpEntryV> },
    Fail { err: ACompileError },
}

/// What popping down to a call marker finds.
pub enum CommaRes {
    Found { out: Seq<(ExprV, Span)>, ops: Seq<OpEntryV> },
    NoCall,
    Fail { err: ACompileError },
}

/// What the expression parser returns at the mathematical level, with the
/// cursor position it leaves behind.
pub enum ERes {
    Done { expr: (ExprV, Span), next: int },
    Fail { err: ACompileError, next: int },
}

/// One operator applied to the output stack: a unary operator wraps the top
/// expression, a binary one combines the top two (popped right first); the
/// node's span is the envelope of the operator's span and its operands'.
pub open spec fn spec_apply(
    out: Seq<(ExprV, Span)>,
    op: Operator,
    span: Span,
    unary: bool,
) -> SeqRes {
    if unary {
        if out.len() < 1 {
            SeqRes::Fail { err: (ParseError::RanOutOperands, span) }
        } else {
            let opr = out.last();
            SeqRes::Done {
                out: out.drop_last().push(
                    (ExprV::UnOp { operand: Box::new(opr), op: op }, spec_env(span, opr.1)),
                ),
            }
        }
    } else {
        if out.len() < 2 {
            SeqRes::Fail { err: (ParseError::RanOutOperands, span) }
        } else {
            let rhs = out.last();
            let lhs = out.drop_last().last();
            SeqRes::Done {
                out: out.drop_last().drop_last().push(
                    (
                        ExprV::BiOp { lhs: Box::new(lhs), rhs: Box::new(rhs), op: op },
                        spec_env(spec_env(span, lhs.1), rhs.1),
                    ),
                ),
            }
        }
    }
}

/// Whether the stacked operator binds at least as tightly as the incoming
/// one: strictly tighter, or equally tight with the incoming one
/// left-associative.
pub open spec fn spec_should_pop(o2: Operator, u2: bool, o1: Operator, un: bool) -> bool {
    spec_percedence(o2, u2) > spec_percedence(o1, un) || (spec_percedence(o2, u2)
        == spec_percedence(o1, un) && spec_is_left(o1))
}

/// Operators that bind at least as tightly as the incoming one are popped and
/// applied; a marker or a looser operator stops the popping.
pub open spec fn spec_pop_bin(
    out: Seq<(ExprV, Span)>,
    ops: Seq<OpEntryV>,
    o1: Operator,
    un: bool,
) -> PairRes
    decreases ops.len(),
{
    if ops.len() == 0 {
        PairRes::Done { out, ops }
    } else {
        match ops.last() {
            OpEntryV::Op(o2, sp, u2) => {
                if spec_should_pop(o2, u2, o1, un) {
                    match spec_apply(out, o2, sp, u2) {
                        SeqRes::Done { out: out2 } => spec_pop_bin(out2, ops.drop_last(), o1, un),
                        SeqRes::Fail { err } => PairRes::Fail { err },
                    }
                } else {
                    PairRes::Done { out, ops }
                }
            },
            _ => PairRes::Done { out, ops },
        }
    }
}

/// Operators above the nearest call marker are popped and applied; a group or
/// index marker, or an empty stack, means the comma belongs to no call.
pub open spec fn spec_pop_comma(out: Seq<(ExprV, Span)>, ops: Seq<OpEntryV>) -> CommaRes
    decreases ops.len(),
{
    if ops.len() == 0 {
        CommaRes::NoCall
    } else {
        match ops.last() {
            OpEntryV::Op(o2, sp, u2) => match spec_apply(out, o2, sp, u2) {
                SeqRes::Done { out: out2 } => spec_pop_comma(out2, ops.drop_last()),
                SeqRes::Fail { err } => CommaRes::Fail { err },
            },
            OpEntryV::Call(_, _, _) => CommaRes::Found { out, ops },
            _ => CommaRes::NoCall,
        }
    }
}

/// The envelope of a call marker's span and its arguments' spans, folded in
/// the order the arguments are popped (last first).
pub open spec fn spec_env_args(sp: Span, args: Seq<(ExprV, Span)>) -> Span
    decreases args.len(),
{
    if args.len() == 0 {
        sp
    } else {
        spec_env_args(spec_env(sp, args.last().1), args.drop_last())
    }
}

/// A call node synthesized from the top `n` output entries, in source order,
/// under the stored callee; too few entries is a missing-operand error at the
/// marker's span.
pub open spec fn spec_build_call(
    out: Seq<(ExprV, Span)>,
    callee: (ExprV, Span),
    mspan: Span,
    n: usize,
) -> SeqRes {
    if out.len() < n {
        SeqRes::Fail { err: (ParseError::RanOutOperands, mspan) }
    } else {
        let args = out.subrange(out.len() - n, out.len() as int);
        SeqRes::Done {
            out: out.subrange(0, out.len() - n).push(
                (
                    ExprV::FnCall { callee: Box::new(callee), args },
                    spec_env_args(mspan, args),
                ),
            ),
        }
    }
}

/// A closing parenthesis: operators are popped and applied; a group marker is
/// discarded, a call marker synthesizes the call, an index marker is the
/// wrong kind of bracket, and an empty stack means the parenthesis was never
/// opened.
pub open spec fn spec_close_paren(
    out: Seq<(ExprV, Span)>,
    ops: Seq<OpEntryV>,
    tokspan: Span,
) -> PairRes
    decreases ops.len(),
{
    if ops.len() == 0 {
        PairRes::Fail { err: (ParseError::UnstartedBracket, tokspan) }
    } else {
        match ops.last() {
            OpEntryV::Op(o2, sp, u2) => match spec_apply(out, o2, sp, u2) {
                SeqRes::Done { out: out2 } => spec_close_paren(out2, ops.drop_last(), tokspan),
                SeqRes::Fail { err } => PairRes::Fail { err },
            },
            OpEntryV::Group(_) => PairRes::Done { out, ops: ops.drop_last() },
            OpEntryV::Call(callee, sp, n) => match spec_build_call(out, callee, sp, n) {
                SeqRes::Done { out: out2 } => PairRes::Done { out: out2, ops: ops.drop_last() },
                SeqRes::Fail { err } => PairRes::Fail { err },
            },
            OpEntryV::Index(_, _) => PairRes::Fail { err: (ParseError::BracketNotMatch, tokspan) },
        }
    }
}

/// A closing square bracket: operators are popped and applied; an index
/// marker synthesizes the indexing node, a group or call marker is the wrong
/// kind of bracket, and an empty stack means the bracket was never opened.
pub open spec fn spec_close_bracket(
    out: Seq<(ExprV, Span)>,
    ops: Seq<OpEntryV>,
    tokspan: Span,
) -> PairRes
    decreases ops.len(),
{
    if ops.len() == 0 {
        PairRes::Fail { err: (ParseError::UnstartedBracket, tokspan) }
    } else {
        match ops.last() {
            OpEntryV::Op(o2, sp, u2) => match spec_apply(out, o2, sp, u2) {
                SeqRes::Done { out: out2 } => spec_close_bracket(out2, ops.drop_last(), tokspan),
                SeqRes::Fail { err } => PairRes::Fail { err },
            },
            OpEntryV::Index(base, sp) => {
                if out.len() == 0 {
                    PairRes::Fail { err: (ParseError::RanOutOperands, sp) }
                } else {
                    let idx = out.last();
                    PairRes::Done {
                        out: out.drop_last().push(
                            (
                                ExprV::Index { base: Box::new(base), index: Box::new(idx) },
                                spec_env(sp, idx.1),
                            ),
                        ),
                        ops: ops.drop_last(),
                    }
                }
            },
            _ => PairRes::Fail { err: (ParseError::BracketNotMatch, tokspan) },
        }
    }
}

/// The drain at the end of an expression: a leftover group or index marker is
/// an unended bracket, a leftover call marker an unended call; remaining
/// operators are applied.
pub open spec fn spec_drain(out: Seq<(ExprV, Span)>, ops: Seq<OpEntryV>) -> SeqRes
    decreases ops.len(),
{
    if ops.len() == 0 {
        SeqRes::Done { out }
    } else {
        match ops.last() {
            OpEntryV::Op(o2, sp, u2) => match spec_apply(out, o2, sp, u2) {
                SeqRes::Done { out: out2 } => spec_drain(out2, ops.drop_last()),
                SeqRes::Fail { err } => SeqRes::Fail { err },
            },
            OpEntryV::Group(sp) => SeqRes::Fail { err: (ParseError::UnendedBracket, sp) },
            OpEntryV::Index(_, sp) => SeqRes::Fail { err: (ParseError::UnendedBracket, sp) },
            OpEntryV::Call(_, sp, _) => SeqRes::Fail { err: (ParseError::UnendedFnCall, sp) },
        }
    }
}

/// After the terminator: the stacks are drained and exactly one expression
/// must remain; zero or several is an expression-parse error over the
/// envelope of the consumed tokens.
pub open spec fn spec_finish(
    out: Seq<(ExprV, Span)>,
    ops: Seq<OpEntryV>,
    lo: usize,
    hi: usize,
    next: int,
) -> ERes {
    match spec_drain(out, ops) {
        SeqRes::Fail { err } => ERes::Fail { err, next },
        SeqRes::Done { out: out2 } => {
            if out2.len() == 1 {
                ERes::Done { expr: out2[0], next }
            } else {
                ERes::Fail { err: (ParseError::ExprParseError, Span { start: lo, end: hi }), next }
            }
        },
    }
}

/// Whether this token ends a value, so that `(` starts a call and `[` an
/// indexing.
pub open spec fn spec_val_end(t: Token) -> bool {
    t matches Token::Ident || t matches Token::RoBracketE || t matches Token::SqBracketE
}

/// Whether a value may not directly follow this token.
pub open spec fn spec_blocks_value(t: Token) -> bool {
    t matches Token::Integer(_) || spec_val_end(t)
}

/// Whether the next operator stands in unary position after this token.
pub open spec fn spec_unary_pos(t: Token) -> bool {
    t matches Token::Operator(_) || t matches Token::NoneToken
}

/// The saturating increment used for a call marker's pending argument count.
pub open spec fn spec_inc(n: usize) -> usize {
    if n < usize::MAX {
        (n + 1) as usize
    } else {
        n
    }
}

/// The expression grammar, one token at a time, over the output stack `out`,
/// the operator stack `ops`, the previously consumed token `last`, and the
/// envelope `lo..hi` of the consumed tokens. A semicolon or the end of the
/// input drains the stacks; every error is returned at once, with the cursor
/// left where it stood.
pub open spec fn spec_expr_run(
    toks: Seq<(Token, Span)>,
    src: Seq<char>,
    i: int,
    out: Seq<(ExprV, Span)>,
    ops: Seq<OpEntryV>,
    last: Token,
    lo: usize,
    hi: usize,
) -> ERes
    decreases toks.len() - i,
{
    if i < 0 || i >= toks.len() {
        spec_finish(out, ops, lo, hi, i)
    } else {
        let (tok, span) = toks[i];
        let lo2: usize = if span.start < lo {
            span.start
        } else {
            lo
        };
        let hi2: usize = if span.end > hi {
            span.end
        } else {
            hi
        };
        match tok {
            Token::Semicolon => spec_finish(out, ops, lo, hi, i + 1),
            Token::Integer(v) => {
                if spec_blocks_value(last) {
                    ERes::Fail { err: (ParseError::UnexpectedToken, span), next: i + 1 }
                } else {
                    spec_expr_run(
                        toks,
                        src,
                        i + 1,
                        out.push((ExprV::Integer(v as i128), span)),
                        ops,
                        tok,
                        lo2,
                        hi2,
                    )
                }
            },
            Token::Ident => {
                if spec_blocks_value(last) {
                    ERes::Fail { err: (ParseError::UnexpectedToken, span), next: i + 1 }
                } else {
                    spec_expr_run(
                        toks,
                        src,
                        i + 1,
                        out.push((ExprV::Ident(spec_text(src, span)), span)),
                        ops,
                        tok,
                        lo2,
                        hi2,
                    )
                }
            },
            Token::Operator(o1) => {
                let un = spec_unary_pos(last);
                if (un && !spec_unary_ok(o1)) || (!un && !spec_binary_ok(o1)) {
                    ERes::Fail { err: (ParseError::UnexpectedToken, span), next: i + 1 }
                } else {
                    match spec_pop_bin(out, ops, o1, un) {
                        PairRes::Done { out: out2, ops: ops2 } => spec_expr_run(
                            toks,
                            src,
                            i + 1,
                            out2,
                            ops2.push(OpEntryV::Op(o1, span, un)),
                            tok,
                            lo2,
                            hi2,
                        ),
                        PairRes::Fail { err } => ERes::Fail { err, next: i + 1 },
                    }
                }
            },
            Token::Comma => {
                match spec_pop_comma(out, ops) {
                    CommaRes::Found { out: out2, ops: ops2 } => {
                        let k = ops2.len() - 1;
                        match ops2[k] {
                            OpEntryV::Call(callee, sp, n) => spec_expr_run(
                                toks,
                                src,
                                i + 1,
                                out2,
                                ops2.update(k, OpEntryV::Call(callee, sp, spec_inc(n))),
                                tok,
                                lo2,
                                hi2,
                            ),
                            _ => ERes::Fail { err: (ParseError::UnexpectedToken, span), next: i + 1 },
                        }
                    },
                    CommaRes::NoCall => ERes::Fail {
                        err: (ParseError::UnexpectedToken, span),
                        next: i + 1,
                    },
                    CommaRes::Fail { err } => ERes::Fail { err, next: i + 1 },
                }
            },
            Token::RoBracketS => {
                if last matches Token::Integer(_) {
                    ERes::Fail { err: (ParseError::UnexpectedToken, span), next: i + 1 }
                } else if spec_val_end(last) {
                    if out.len() == 0 {
                        ERes::Fail { err: (ParseError::RanOutOperands, span), next: i + 1 }
                    } else {
                        let callee = out.last();
                        let mspan = Span { start: callee.1.start, end: span.end };
                        let count: usize = if i + 1 < toks.len() && (toks[i + 1].0
                            matches Token::RoBracketE) {
                            0
                        } else {
                            1
                        };
                        spec_expr_run(
                            toks,
                            src,
                            i + 1,
                            out.drop_last(),
                            ops.push(OpEntryV::Call(callee, mspan, count)),
                            tok,
                            lo2,
                            hi2,
                        )
                    }
                } else {
                    spec_expr_run(
                        toks,
                        src,
                        i + 1,
                        out,
                        ops.push(OpEntryV::Group(span)),
                        tok,
                        lo2,
                        hi2,
                    )
                }
            },
            Token::RoBracketE => {
                match spec_close_paren(out, ops, span) {
                    PairRes::Done { out: out2, ops: ops2 } => spec_expr_run(
                        toks,
                        src,
                        i + 1,
                        out2,
                        ops2,
                        tok,
                        lo2,
                        hi2,
                    ),
                    PairRes::Fail { err } => ERes::Fail { err, next: i + 1 },
                }
            },
            Token::SqBracketS => {
                if spec_val_end(last) {
                    if out.len() == 0 {
                        ERes::Fail { err: (ParseError::RanOutOperands, span), next: i + 1 }
                    } else {
                        let base = out.last();
                        let mspan = Span { start: base.1.start, end: span.end };
                        spec_expr_run(
                            toks,
                            src,
                            i + 1,
                            out.drop_last(),
                            ops.push(OpEntryV::Index(base, mspan)),
                            tok,
                            lo2,
                            hi2,
                        )
                    }
                } else {
                    ERes::Fail { err: (ParseError::UnexpectedToken, span), next: i + 1 }
                }
            },
            Token::SqBracketE => {
                match spec_close_bracket(out, ops, span) {
                    PairRes::Done { out: out2, ops: ops2 } => spec_expr_run(
                        toks,
                        src,
                        i + 1,
                        out2,
                        ops2,
                        tok,
                        lo2,
                        hi2,
                    ),
                    PairRes::Fail { err } => ERes::Fail { err, next: i + 1 },
                }
            },
            _ => ERes::Fail { err: (ParseError::UnexpectedToken, span), next: i + 1 },
        }
    }
}

/// The whole expression grammar from a cursor position: both stacks empty, no
/// previous token, an empty span envelope.
pub open spec fn spec_parse_expr(toks: Seq<(Token, Span)>, src: Seq<char>, i: int) -> ERes {
    spec_expr_run(toks, src, i, Seq::empty(), Seq::empty(), Token::NoneToken, usize::MAX, 0)
}

/// How an executable outcome and final cursor position realize an `ERes`.
pub open spec fn eres_match(sr: ERes, r: Result<AExpr, ACompileError>, next: int) -> bool {
    match sr {
        ERes::Done { expr, next: n } => r matches Ok(e) && aexpr_view(e) == expr && next == n,
        ERes::Fail { err, next: n } => (r matches Err(e) && e == err) && next == n,
    }
}

/// Applies one operator to the output stack.
fn apply_one(
    out: &mut Vec<AExpr>,
    op: Operator,
    span: Span,
    unary: bool,
    bounds: Ghost<(int, int, int)>,
) -> (r: Result<(), ACompileError>)
    ensures
        match spec_apply(outs_view(old(out)@), op, span, unary) {
            SeqRes::Done { out: o } => r is Ok && outs_view(final(out)@) == o,
            SeqRes::Fail { err } => r == Err::<(), ACompileError>(err),
        },
        out_spans_in(outs_view(old(out)@), bounds@.0, bounds@.1, bounds@.2) && span_in(
            span,
            bounds@.0,
            bounds@.1,
            bounds@.2,
        ) ==> out_spans_in(outs_view(final(out)@), bounds@.0, bounds@.1, bounds@.2),
{
    let ghost out0 = outs_view(old(out)@);
    if unary {
        match out.pop() {
            None => Err((ParseError::RanOutOperands, span)),
            Some(opr) => {
                let sp = env(span, opr.1);
                let node: AExpr = (Expr::UnOp { operand: Box::new(opr), op }, sp);
                out.push(node);
                proof {
                    assert(outs_view(final(out)@) =~= out0.drop_last().push(aexpr_view(node)));
                }
                Ok(())
            },
        }
    } else {
        match out.pop() {
            None => Err((ParseError::RanOutOperands, span)),
            Some(rhs) => {
                match out.pop() {
                    None => Err((ParseError::RanOutOperands, span)),
                    Some(lhs) => {
                        let sp = env(env(span, lhs.1), rhs.1);
                        let node: AExpr = (
                            Expr::BiOp { lhs: Box::new(lhs), rhs: Box::new(rhs), op },
                            sp,
                        );
                        out.push(node);
                        proof {
                            assert(outs_view(final(out)@) =~= out0.drop_last().drop_last().push(
                                aexpr_view(node),
                            ));
                        }
                        Ok(())
                    },
                }
            },
        }
    }
}

/// Pops and applies stacked operators that bind at least as tightly as the
/// incoming one.
fn pop_bin(
    out: &mut Vec<AExpr>,
    ops: &mut Vec<OpEntry>,
    o1: &Operator,
    un: bool,
    bounds: Ghost<(int, int, int)>,
) -> (r: Result<(), ACompileError>)
    requires
        un ==> spec_unary_ok(*o1),
        !un ==> spec_binary_ok(*o1),
        ops_valid(ops_view(old(ops)@)),
    ensures
        match spec_pop_bin(outs_view(old(out)@), ops_view(old(ops)@), *o1, un) {
            PairRes::Done { out: o, ops: p } => r is Ok && outs_view(final(out)@) == o && ops_view(
                final(ops)@,
            ) == p && ops_valid(p),
            PairRes::Fail { err } => r == Err::<(), ACompileError>(err),
        },
        out_spans_in(outs_view(old(out)@), bounds@.0, bounds@.1, bounds@.2) && ops_spans_in(
            ops_view(old(ops)@),
            bounds@.0,
            bounds@.1,
            bounds@.2,
        ) ==> out_spans_in(outs_view(final(out)@), bounds@.0, bounds@.1, bounds@.2)
            && ops_spans_in(ops_view(final(ops)@), bounds@.0, bounds@.1, bounds@.2),
{
    let prec1 = o1.percedence(un);
    let left1 = o1.is_left();
    loop
        invariant
            ops_valid(ops_view(ops@)),
            spec_pop_bin(outs_view(out@), ops_view(ops@), *o1, un) == spec_pop_bin(
                outs_view(old(out)@),
                ops_view(old(ops)@),
                *o1,
                un,
            ),
            out_spans_in(outs_view(old(out)@), bounds@.0, bounds@.1, bounds@.2) && ops_spans_in(
                ops_view(old(ops)@),
                bounds@.0,
                bounds@.1,
                bounds@.2,
            ) ==> out_spans_in(outs_view(out@), bounds@.0, bounds@.1, bounds@.2) && ops_spans_in(
                ops_view(ops@),
                bounds@.0,
                bounds@.1,
                bounds@.2,
            ),
        decreases ops.len(),
    {
        let ghost outv = outs_view(out@);
        let ghost opsv = ops_view(ops@);
        if ops.len() == 0 {
            return Ok(());
        }
        match ops.pop() {
            Some(OpEntry::Op(o2, sp, u2)) => {
                proof {
                    assert(opsv.last() == OpEntryV::Op(o2, sp, u2));
                    assert(ops_view(ops@) =~= opsv.drop_last());
                }
                let p2 = o2.percedence(u2);
                if p2 > prec1 || (p2 == prec1 && left1) {
                    match apply_one(out, o2, sp, u2, bounds) {
                        Ok(()) => {},
                        Err(e) => {
                            return Err(e);
                        },
                    }
                } else {
                    ops.push(OpEntry::Op(o2, sp, u2));
                    proof {
                        assert(ops_view(ops@) =~= opsv);
                    }
                    return Ok(());
                }
            },
            Some(other) => {
                ops.push(other);
                proof {
                    assert(ops_view(ops@) =~= opsv);
                }
                return Ok(());
            },
            None => {
                return Ok(());
            },
        }
    }
}

/// Pops and applies stacked operators down to the nearest call marker;
/// returns whether one was found.
fn pop_to_call(
    out: &mut Vec<AExpr>,
    ops: &mut Vec<OpEntry>,
    bounds: Ghost<(int, int, int)>,
) -> (r: Result<bool, ACompileError>)
    requires
        ops_valid(ops_view(old(ops)@)),
    ensures
        match spec_pop_comma(outs_view(old(out)@), ops_view(old(ops)@)) {
            CommaRes::Found { out: o, ops: p } => r == Ok::<bool, ACompileError>(true) && outs_view(
                final(out)@,
            ) == o && ops_view(final(ops)@) == p && ops_valid(p) && p.len() > 0
                && p.last() matches OpEntryV::Call(_, _, _),
            CommaRes::NoCall => r == Ok::<bool, ACompileError>(false),
            CommaRes::Fail { err } => r == Err::<bool, ACompileError>(err),
        },
        out_spans_in(outs_view(old(out)@), bounds@.0, bounds@.1, bounds@.2) && ops_spans_in(
            ops_view(old(ops)@),
            bounds@.0,
            bounds@.1,
            bounds@.2,
        ) ==> out_spans_in(outs_view(final(out)@), bounds@.0, bounds@.1, bounds@.2)
            && ops_spans_in(ops_view(final(ops)@), bounds@.0, bounds@.1, bounds@.2),
{
    loop
        invariant
            ops_valid(ops_view(ops@)),
            spec_pop_comma(outs_view(out@), ops_view(ops@)) == spec_pop_comma(
                outs_view(old(out)@),
                ops_view(old(ops)@),
            ),
            out_spans_in(outs_view(old(out)@), bounds@.0, bounds@.1, bounds@.2) && ops_spans_in(
                ops_view(old(ops)@),
                bounds@.0,
                bounds@.1,
                bounds@.2,
            ) ==> out_spans_in(outs_view(out@), bounds@.0, bounds@.1, bounds@.2) && ops_spans_in(
                ops_view(ops@),
                bounds@.0,
                bounds@.1,
                bounds@.2,
            ),
        decreases ops.len(),
    {
        let ghost outv = outs_view(out@);
        let ghost opsv = ops_view(ops@);
        if ops.len() == 0 {
            return Ok(false);
        }
        match ops.pop() {
            Some(OpEntry::Op(o2, sp, u2)) => {
                proof {
                    assert(opsv.last() == OpEntryV::Op(o2, sp, u2));
                    assert(ops_view(ops@) =~= opsv.drop_last());
                }
                match apply_one(out, o2, sp, u2, bounds) {
                    Ok(()) => {},
                    Err(e) => {
                        return Err(e);
                    },
                }
            },
            Some(OpEntry::Call(callee, sp, n)) => {
                ops.push(OpEntry::Call(callee, sp, n));
                proof {
                    assert(ops_view(ops@) =~= opsv);
                }
                return Ok(true);
            },
            Some(other) => {
                ops.push(other);
                proof {
                    assert(ops_view(ops@) =~= opsv);
                }
                return Ok(false);
            },
            None => {
                return Ok(false);
            },
        }
    }
}

/// Synthesizes a call node from the stored callee and the top `n` output
/// entries, reordered left to right.
fn build_call(
    out: &mut Vec<AExpr>,
    callee: AExpr,
    mspan: Span,
    n: usize,
    bounds: Ghost<(int, int, int)>,
) -> (r: Result<(), ACompileError>)
    ensures
        match spec_build_call(outs_view(old(out)@), aexpr_view(callee), mspan, n) {
            SeqRes::Done { out: o } => r is Ok && outs_view(final(out)@) == o,
            SeqRes::Fail { err } => r == Err::<(), ACompileError>(err),
        },
        out_spans_in(outs_view(old(out)@), bounds@.0, bounds@.1, bounds@.2) && span_in(
            mspan,
            bounds@.0,
            bounds@.1,
            bounds@.2,
        ) ==> out_spans_in(outs_view(final(out)@), bounds@.0, bounds@.1, bounds@.2),
{
    let ghost out0 = outs_view(old(out)@);
    let ghost len0 = old(out)@.len() as int;
    let mut rev_args: Vec<AExpr> = Vec::new();
    let mut sp = mspan;
    let mut k: usize = 0;
    while k < n
        invariant
            k <= n,
            k <= len0,
            out@ == old(out)@.subrange(0, len0 - k),
            rev_args@.len() == k,
            forall|j: int| 0 <= j < k ==> rev_args@[j] == old(out)@[len0 - 1 - j],
            n <= len0 ==> spec_env_args(mspan, out0.subrange(len0 - n, len0)) == spec_env_args(
                sp,
                out0.subrange(len0 - n, len0 - k),
            ),
            out_spans_in(out0, bounds@.0, bounds@.1, bounds@.2) && span_in(
                mspan,
                bounds@.0,
                bounds@.1,
                bounds@.2,
            ) ==> span_in(sp, bounds@.0, bounds@.1, bounds@.2),
        decreases n - k,
    {
        let ghost sp_old = sp;
        match out.pop() {
            None => {
                return Err((ParseError::RanOutOperands, mspan));
            },
            Some(a) => {
                proof {
                    assert(a == old(out)@[len0 - 1 - k]);
                    assert(out0[len0 - 1 - k] == aexpr_view(a));
                    assert(out0[len0 - 1 - k].1 == a.1);
                    assert(out@ =~= old(out)@.subrange(0, len0 - (k + 1)));
                    if n <= len0 {
                        let rest = out0.subrange(len0 - n, len0 - k);
                        assert(rest.last() == out0[len0 - k - 1]);
                        assert(out0[len0 - k - 1] == aexpr_view(old(out)@[len0 - 1 - k]));
                        assert(rest.drop_last() =~= out0.subrange(len0 - n, len0 - (k + 1)));
                    }
                }
                sp = env(sp, a.1);
                rev_args.push(a);
                k = k + 1;
            },
        }
    }
    proof {
        assert(n <= len0);
        assert(out0.subrange(len0 - n, len0 - n) =~= Seq::empty());
        assert(spec_env_args(mspan, out0.subrange(len0 - n, len0)) == sp);
    }
    let mut args: Vec<AExpr> = Vec::new();
    let mut j: usize = 0;
    while j < n
        invariant
            j <= n,
            n <= len0,
            out@ == old(out)@.subrange(0, len0 - n),
            rev_args@.len() == n - j,
            forall|m: int| 0 <= m < n - j ==> rev_args@[m] == old(out)@[len0 - 1 - m],
            args@.len() == j,
            forall|m: int| 0 <= m < j ==> args@[m] == old(out)@[len0 - n + m],
        decreases n - j,
    {
        match rev_args.pop() {
            None => {
                proof {
                    assert(false);
                }
                return Err((ParseError::RanOutOperands, mspan));
            },
            Some(a) => {
                proof {
                    assert(a == old(out)@[len0 - 1 - (n - j - 1)]);
                }
                args.push(a);
                j = j + 1;
            },
        }
    }
    proof {
        lemma_outs_view_is_aexprs_view(args@);
        assert(outs_view(args@) =~= out0.subrange(len0 - n, len0));
    }
    let node: AExpr = (Expr::FnCall { callee: Box::new(callee), args }, sp);
    out.push(node);
    proof {
        assert(outs_view(final(out)@) =~= out0.subrange(0, len0 - n).push(aexpr_view(node)));
    }
    Ok(())
}

/// Resolves a closing parenthesis against the operator stack.
fn close_paren(
    out: &mut Vec<AExpr>,
    ops: &mut Vec<OpEntry>,
    tokspan: Span,
    bounds: Ghost<(int, int, int)>,
) -> (r: Result<(), ACompileError>)
    requires
        ops_valid(ops_view(old(ops)@)),
    ensures
        match spec_close_paren(outs_view(old(out)@), ops_view(old(ops)@), tokspan) {
            PairRes::Done { out: o, ops: p } => r is Ok && outs_view(final(out)@) == o && ops_view(
                final(ops)@,
            ) == p && ops_valid(p),
            PairRes::Fail { err } => r == Err::<(), ACompileError>(err),
        },
        out_spans_in(outs_view(old(out)@), bounds@.0, bounds@.1, bounds@.2) && ops_spans_in(
            ops_view(old(ops)@),
            bounds@.0,
            bounds@.1,
            bounds@.2,
        ) ==> out_spans_in(outs_view(final(out)@), bounds@.0, bounds@.1, bounds@.2)
            && ops_spans_in(ops_view(final(ops)@), bounds@.0, bounds@.1, bounds@.2),
{
    loop
        invariant
            ops_valid(ops_view(ops@)),
            spec_close_paren(outs_view(out@), ops_view(ops@), tokspan) == spec_close_paren(
                outs_view(old(out)@),
                ops_view(old(ops)@),
                tokspan,
            ),
            out_spans_in(outs_view(old(out)@), bounds@.0, bounds@.1, bounds@.2) && ops_spans_in(
                ops_view(old(ops)@),
                bounds@.0,
                bounds@.1,
                bounds@.2,
            ) ==> out_spans_in(outs_view(out@), bounds@.0, bounds@.1, bounds@.2) && ops_spans_in(
                ops_view(ops@),
                bounds@.0,
                bounds@.1,
                bounds@.2,
            ),
        decreases ops.len(),
    {
        let ghost opsv = ops_view(ops@);
        if ops.len() == 0 {
            return Err((ParseError::UnstartedBracket, tokspan));
        }
        match ops.pop() {
            Some(OpEntry::Op(o2, sp, u2)) => {
                proof {
                    assert(opsv.last() == OpEntryV::Op(o2, sp, u2));
                    assert(ops_view(ops@) =~= opsv.drop_last());
                }
                match apply_one(out, o2, sp, u2, bounds) {
                    Ok(()) => {},
                    Err(e) => {
                        return Err(e);
                    },
                }
            },
            Some(OpEntry::Group(_)) => {
                proof {
                    assert(ops_view(ops@) =~= opsv.drop_last());
                }
                return Ok(());
            },
            Some(OpEntry::Call(callee, sp, n)) => {
                proof {
                    assert(opsv.last() == OpEntryV::Call(aexpr_view(callee), sp, n));
                    assert(ops_view(ops@) =~= opsv.drop_last());
                }
                match build_call(out, callee, sp, n, bounds) {
                    Ok(()) => {
                        return Ok(());
                    },
                    Err(e) => {
                        return Err(e);
                    },
                }
            },
            Some(OpEntry::Index(_, _)) => {
                proof {
                    assert(ops_view(ops@) =~= opsv.drop_last());
                }
                return Err((ParseError::BracketNotMatch, tokspan));
            },
            None => {
                return Err((ParseError::UnstartedBracket, tokspan));
            },
        }
    }
}

/// Resolves a closing square bracket against the operator stack.
fn close_bracket(
    out: &mut Vec<AExpr>,
    ops: &mut Vec<OpEntry>,
    tokspan: Span,
    bounds: Ghost<(int, int, int)>,
) -> (r: Result<(), ACompileError>)
    requires
        ops_valid(ops_view(old(ops)@)),
    ensures
        match spec_close_bracket(outs_view(old(out)@), ops_view(old(ops)@), tokspan) {
            PairRes::Done { out: o, ops: p } => r is Ok && outs_view(final(out)@) == o && ops_view(
                final(ops)@,
            ) == p && ops_valid(p),
            PairRes::Fail { err } => r == Err::<(), ACompileError>(err),
        },
        out_spans_in(outs_view(old(out)@), bounds@.0, bounds@.1, bounds@.2) && ops_spans_in(
            ops_view(old(ops)@),
            bounds@.0,
            bounds@.1,
            bounds@.2,
        ) ==> out_spans_in(outs_view(final(out)@), bounds@.0, bounds@.1, bounds@.2)
            && ops_spans_in(ops_view(final(ops)@), bounds@.0, bounds@.1, bounds@.2),
{
    loop
        invariant
            ops_valid(ops_view(ops@)),
            spec_close_bracket(outs_view(out@), ops_view(ops@), tokspan) == spec_close_bracket(
                outs_view(old(out)@),
                ops_view(old(ops)@),
                tokspan,
            ),
            out_spans_in(outs_view(old(out)@), bounds@.0, bounds@.1, bounds@.2) && ops_spans_in(
                ops_view(old(ops)@),
                bounds@.0,
                bounds@.1,
                bounds@.2,
            ) ==> out_spans_in(outs_view(out@), bounds@.0, bounds@.1, bounds@.2) && ops_spans_in(
                ops_view(ops@),
                bounds@.0,
                bounds@.1,
                bounds@.2,
            ),
        decreases ops.len(),
    {
        let ghost outv = outs_view(out@);
        let ghost opsv = ops_view(ops@);
        if ops.len() == 0 {
            return Err((ParseError::UnstartedBracket, tokspan));
        }
        match ops.pop() {
            Some(OpEntry::Op(o2, sp, u2)) => {
                proof {
                    assert(opsv.last() == OpEntryV::Op(o2, sp, u2));
                    assert(ops_view(ops@) =~= opsv.drop_last());
                }
                match apply_one(out, o2, sp, u2, bounds) {
                    Ok(()) => {},
                    Err(e) => {
                        return Err(e);
                    },
                }
            },
            Some(OpEntry::Index(base, sp)) => {
                proof {
                    assert(opsv.last() == OpEntryV::Index(aexpr_view(base), sp));
                    assert(ops_view(ops@) =~= opsv.drop_last());
                }
                match out.pop() {
                    None => {
                        return Err((ParseError::RanOutOperands, sp));
                    },
                    Some(idx) => {
                        let s2 = env(sp, idx.1);
                        let node: AExpr = (
                            Expr::Index { base: Box::new(base), index: Box::new(idx) },
                            s2,
                        );
                        out.push(node);
                        proof {
                            assert(outs_view(out@) =~= outv.drop_last().push(aexpr_view(node)));
                        }
                        return Ok(());
                    },
                }
            },
            Some(other) => {
                proof {
                    assert(ops_view(ops@) =~= opsv.drop_last());
                }
                return Err((ParseError::BracketNotMatch, tokspan));
            },
            None => {
                return Err((ParseError::UnstartedBracket, tokspan));
            },
        }
    }
}

/// Drains the operator stack at the end of an expression.
fn drain(
    out: &mut Vec<AExpr>,
    ops: &mut Vec<OpEntry>,
    bounds: Ghost<(int, int, int)>,
) -> (r: Result<(), ACompileError>)
    requires
        ops_valid(ops_view(old(ops)@)),
    ensures
        match spec_drain(outs_view(old(out)@), ops_view(old(ops)@)) {
            SeqRes::Done { out: o } => r is Ok && outs_view(final(out)@) == o,
            SeqRes::Fail { err } => r == Err::<(), ACompileError>(err),
        },
        out_spans_in(outs_view(old(out)@), bounds@.0, bounds@.1, bounds@.2) && ops_spans_in(
            ops_view(old(ops)@),
            bounds@.0,
            bounds@.1,
            bounds@.2,
        ) ==> out_spans_in(outs_view(final(out)@), bounds@.0, bounds@.1, bounds@.2)
            && ops_spans_in(ops_view(final(ops)@), bounds@.0, bounds@.1, bounds@.2),
{
    loop
        invariant
            ops_valid(ops_view(ops@)),
            spec_drain(outs_view(out@), ops_view(ops@)) == spec_drain(
                outs_view(old(out)@),
                ops_view(old(ops)@),
            ),
            out_spans_in(outs_view(old(out)@), bounds@.0, bounds@.1, bounds@.2) && ops_spans_in(
                ops_view(old(ops)@),
                bounds@.0,
                bounds@.1,
                bounds@.2,
            ) ==> out_spans_in(outs_view(out@), bounds@.0, bounds@.1, bounds@.2) && ops_spans_in(
                ops_view(ops@),
                bounds@.0,
                bounds@.1,
                bounds@.2,
            ),
        decreases ops.len(),
    {
        let ghost opsv = ops_view(ops@);
        if ops.len() == 0 {
            return Ok(());
        }
        match ops.pop() {
            Some(OpEntry::Op(o2, sp, u2)) => {
                proof {
                    assert(opsv.last() == OpEntryV::Op(o2, sp, u2));
                    assert(ops_view(ops@) =~= opsv.drop_last());
                }
                match apply_one(out, o2, sp, u2, bounds) {
                    Ok(()) => {},
                    Err(e) => {
                        return Err(e);
                    },
                }
            },
            Some(OpEntry::Group(sp)) => {
                proof {
                    assert(ops_view(ops@) =~= opsv.drop_last());
                }
                return Err((ParseError::UnendedBracket, sp));
            },
            Some(OpEntry::Index(_, sp)) => {
                proof {
                    assert(ops_view(ops@) =~= opsv.drop_last());
                }
                return Err((ParseError::UnendedBracket, sp));
            },
            Some(OpEntry::Call(_, sp, _)) => {
                proof {
                    assert(ops_view(ops@) =~= opsv.drop_last());
                }
                return Err((ParseError::UnendedFnCall, sp));
            },
            None => {
                return Ok(());
            },
        }
    }
}

/// Drains the stacks after the terminator and checks that exactly one
/// expression remains.
fn finish_expr(
    out: Vec<AExpr>,
    ops: Vec<OpEntry>,
    lo: usize,
    hi: usize,
    bounds: Ghost<(int, int, int)>,
) -> (r: Result<AExpr, ACompileError>)
    requires
        ops_valid(ops_view(ops@)),
    ensures
        match spec_drain(outs_view(out@), ops_view(ops@)) {
            SeqRes::Done { out: o } => if o.len() == 1 {
                r matches Ok(e) && aexpr_view(e) == o[0]
            } else {
                r == Err::<AExpr, ACompileError>(
                    (ParseError::ExprParseError, Span { start: lo, end: hi }),
                )
            },
            SeqRes::Fail { err } => r == Err::<AExpr, ACompileError>(err),
        },
        out_spans_in(outs_view(out@), bounds@.0, bounds@.1, bounds@.2) && ops_spans_in(
            ops_view(ops@),
            bounds@.0,
            bounds@.1,
            bounds@.2,
        ) ==> match spec_drain(outs_view(out@), ops_view(ops@)) {
            SeqRes::Done { out: o } => out_spans_in(o, bounds@.0, bounds@.1, bounds@.2),
            SeqRes::Fail { .. } => true,
        },
{
    let mut out = out;
    let mut ops = ops;
    match drain(&mut out, &mut ops, bounds) {
        Err(e) => Err(e),
        Ok(()) => {
            if out.len() == 1 {
                match out.pop() {
                    Some(e) => Ok(e),
                    None => Err((ParseError::ExprParseError, Span { start: lo, end: hi })),
                }
            } else {
                Err((ParseError::ExprParseError, Span { start: lo, end: hi }))
            }
        },
    }
}

/// Where an expression parse of an ordered token stream succeeds, its span
/// starts at or after the first consumed token and no later than the
/// terminator.
pub open spec fn eres_bounded(toks: Seq<(Token, Span)>, i0: int, r: ERes) -> bool {
    match r {
        ERes::Done { expr, next } => (0 <= i0 && i0 < toks.len() && i0 < next <= toks.len())
            ==> (toks[i0].1.start <= expr.1.start && expr.1.start < expr.1.end && expr.1.start
            <= toks[next - 1].1.start),
        ERes::Fail { .. } => true,
    }
}

/// Parses one expression at the cursor via operator-precedence parsing,
/// returning the spanned expression or the first error, exactly as
/// `spec_parse_expr` describes.
pub fn parse_expr(buf: &mut Buffer, src: &str) -> (r: Result<AExpr, ACompileError>)
    requires
        src.is_ascii(),
        toks_in_src(old(buf).toks@, src@),
    ensures
        final(buf).toks@ == old(buf).toks@,
        eres_match(
            spec_parse_expr(old(buf).toks@, src@, old(buf).idx as int),
            r,
            final(buf).idx as int,
        ),
        crate::buffer::toks_ordered(old(buf).toks@) ==> eres_bounded(
            old(buf).toks@,
            old(buf).idx as int,
            spec_parse_expr(old(buf).toks@, src@, old(buf).idx as int),
        ),
{
    let ghost toks = buf.toks@;
    let ghost i0 = buf.idx as int;
    let ghost ord = crate::buffer::toks_ordered(toks);
    let ghost a0: int = if 0 <= i0 && i0 < toks.len() {
        toks[i0].1.start as int
    } else {
        0
    };
    let mut out: Vec<AExpr> = Vec::new();
    let mut ops: Vec<OpEntry> = Vec::new();
    let mut last: Token = Token::NoneToken;
    let mut expr_lo: usize = usize::MAX;
    let mut expr_hi: usize = 0;
    proof {
        assert(outs_view(out@) =~= Seq::<(ExprV, Span)>::empty());
        assert(ops_view(ops@) =~= Seq::<OpEntryV>::empty());
    }

    loop
        invariant
            buf.toks@ == toks,
            ops_valid(ops_view(ops@)),
            spec_expr_run(
                toks,
                src@,
                buf.idx as int,
                outs_view(out@),
                ops_view(ops@),
                last,
                expr_lo,
                expr_hi,
            ) == spec_parse_expr(toks, src@, i0),
            ord && 0 <= i0 && i0 < toks.len() ==> ((buf.idx as int == i0 && out@.len() == 0
                && ops@.len() == 0) || (i0 < buf.idx && buf.idx <= toks.len() && out_spans_in(
                outs_view(out@),
                a0,
                toks[buf.idx - 1].1.start as int,
                toks[buf.idx - 1].1.end as int,
            ) && ops_spans_in(
                ops_view(ops@),
                a0,
                toks[buf.idx - 1].1.start as int,
                toks[buf.idx - 1].1.end as int,
            ))),
        decreases toks.len() - buf.idx,
    {
        let ghost i_c = buf.idx as int;
        let ghost outv = outs_view(out@);
        let ghost opsv = ops_view(ops@);
        let ghost last_old = last;
        let ghost lo_old = expr_lo;
        let ghost hi_old = expr_hi;
        let ghost bnd: (int, int, int) = if i0 < i_c && i_c <= toks.len() {
            (a0, toks[i_c - 1].1.start as int, toks[i_c - 1].1.end as int)
        } else {
            (a0, a0, a0)
        };
        match buf.next() {
            None => {
                return finish_expr(out, ops, expr_lo, expr_hi, Ghost(bnd));
            },
            Some((tok, span)) => {
                proof {
                    assert((tok, span) == toks[i_c]);
                }
                match tok {
                    Token::Semicolon => {
                        proof {
                            if ord && 0 <= i0 && i0 < toks.len() && i0 < i_c {
                                crate::buffer::lemma_toks_ordered_mono(toks, i_c - 1, i_c);
                            }
                        }
                        return finish_expr(out, ops, expr_lo, expr_hi, Ghost(bnd));
                    },
                    Token::Integer(v) => {
                        if matches!(
                            last,
                            Token::Integer(_)
                            | Token::Ident
                            | Token::RoBracketE
                            | Token::SqBracketE
                        ) {
                            return Err((ParseError::UnexpectedToken, span));
                        }
                        let node: AExpr = (Expr::Integer(#[verifier::truncate] (v as i128)), span);
                        out.push(node);
                        proof {
                            assert(outs_view(out@) =~= outv.push(aexpr_view(node)));
                        }
                    },
                    Token::Ident => {
                        if matches!(
                            last,
                            Token::Integer(_)
                            | Token::Ident
                            | Token::RoBracketE
                            | Token::SqBracketE
                        ) {
                            return Err((ParseError::UnexpectedToken, span));
                        }
                        let name = String::from_str(src.substring_ascii(span.start, span.end));
                        let node: AExpr = (Expr::Ident(name), span);
                        out.push(node);
                        proof {
                            assert(outs_view(out@) =~= outv.push(aexpr_view(node)));
                        }
                    },
                    Token::Operator(o1) => {
                        let un = matches!(last, Token::Operator(_) | Token::NoneToken);
                        if un {
                            if !matches!(
                                o1,
                                Operator::Add | Operator::Sub | Operator::Mlt | Operator::Not
                            ) {
                                return Err((ParseError::UnexpectedToken, span));
                            }
                        } else {
                            if matches!(o1, Operator::Not) {
                                return Err((ParseError::UnexpectedToken, span));
                            }
                        }
                        match pop_bin(&mut out, &mut ops, &o1, un, Ghost(bnd)) {
                            Err(e) => {
                                return Err(e);
                            },
                            Ok(()) => {},
                        }
                        let ghost opsm = ops_view(ops@);
                        ops.push(OpEntry::Op(o1, span, un));
                        proof {
                            assert(ops_view(ops@) =~= opsm.push(
                                op_entry_view(ops@.last()),
                            ));
                        }
                    },
                    Token::Comma => {
                        match pop_to_call(&mut out, &mut ops, Ghost(bnd)) {
                            Err(e) => {
                                return Err(e);
                            },
                            Ok(false) => {
                                return Err((ParseError::UnexpectedToken, span));
                            },
                            Ok(true) => {
                                let ghost opsm = ops_view(ops@);
                                match ops.pop() {
                                    Some(OpEntry::Call(callee, sp, n)) => {
                                        let n2: usize = if n < usize::MAX {
                                            n + 1
                                        } else {
                                            n
                                        };
                                        ops.push(OpEntry::Call(callee, sp, n2));
                                        proof {
                                            assert(ops_view(ops@) =~= opsm.update(
                                                opsm.len() - 1,
                                                OpEntryV::Call(
                                                    op_entry_view(ops@.last())->Call_0,
                                                    sp,
                                                    spec_inc(n),
                                                ),
                                            ));
                                        }
                                    },
                                    _ => {
                                        return Err((ParseError::UnexpectedToken, span));
                                    },
                                }
                            },
                        }
                    },
                    Token::RoBracketS => {
                        if matches!(last, Token::Integer(_)) {
                            return Err((ParseError::UnexpectedToken, span));
                        } else if matches!(
                            last,
                            Token::Ident | Token::RoBracketE | Token::SqBracketE
                        ) {
                            match out.pop() {
                                None => {
                                    return Err((ParseError::RanOutOperands, span));
                                },
                                Some(callee) => {
                                    proof {
                                        assert(aexpr_view(callee) == outv.last());
                                        assert(outs_view(out@) =~= outv.drop_last());
                                    }
                                    let mspan = Span { start: callee.1.start, end: span.end };
                                    let cnt: usize = match buf.peek() {
                                        Some((Token::RoBracketE, _)) => 0,
                                        _ => 1,
                                    };
                                    ops.push(OpEntry::Call(callee, mspan, cnt));
                                    proof {
                                        assert(ops_view(ops@) =~= opsv.push(
                                            op_entry_view(ops@.last()),
                                        ));
                                    }
                                },
                            }
                        } else {
                            ops.push(OpEntry::Group(span));
                            proof {
                                assert(ops_view(ops@) =~= opsv.push(OpEntryV::Group(span)));
                            }
                        }
                    },
                    Token::RoBracketE => {
                        match close_paren(&mut out, &mut ops, span, Ghost(bnd)) {
                            Err(e) => {
                                return Err(e);
                            },
                            Ok(()) => {},
                        }
                    },
                    Token::SqBracketS => {
                        if matches!(last, Token::Ident | Token::RoBracketE | Token::SqBracketE) {
                            match out.pop() {
                                None => {
                                    return Err((ParseError::RanOutOperands, span));
                                },
                                Some(base) => {
                                    proof {
                                        assert(aexpr_view(base) == outv.last());
                                        assert(outs_view(out@) =~= outv.drop_last());
                                    }
                                    let mspan = Span { start: base.1.start, end: span.end };
                                    ops.push(OpEntry::Index(base, mspan));
                                    proof {
                                        assert(ops_view(ops@) =~= opsv.push(
                                            op_entry_view(ops@.last()),
                                        ));
                                    }
                                },
                            }
                        } else {
                            return Err((ParseError::UnexpectedToken, span));
                        }
                    },
                    Token::SqBracketE => {
                        match close_bracket(&mut out, &mut ops, span, Ghost(bnd)) {
                            Err(e) => {
                                return Err(e);
                            },
                            Ok(()) => {},
                        }
                    },
                    _ => {
                        return Err((ParseError::UnexpectedToken, span));
                    },
                }
                expr_lo = if span.start < expr_lo {
                    span.start
                } else {
                    expr_lo
                };
                expr_hi = if span.end > expr_hi {
                    span.end
                } else {
                    expr_hi
                };
                last = match buf.current() {
                    Some((t, _)) => t,
                    None => Token::NoneToken,
                };
                proof {
                    assert(last == toks[i_c].0);
                    assert(spec_expr_run(
                        toks,
                        src@,
                        buf.idx as int,
                        outs_view(out@),
                        ops_view(ops@),
                        last,
                        expr_lo,
                        expr_hi,
                    ) == spec_expr_run(toks, src@, i_c, outv, opsv, last_old, lo_old, hi_old));
                    if ord && 0 <= i0 && i0 < toks.len() {
                        crate::buffer::lemma_toks_ordered_mono(toks, i0, i_c);
                        if i0 < i_c {
                            crate::buffer::lemma_toks_ordered_mono(toks, i_c - 1, i_c);
                        }
                        assert(out_spans_in(
                            outs_view(out@),
                            a0,
                            toks[i_c].1.start as int,
                            toks[i_c].1.end as int,
                        ));
                        assert(ops_spans_in(
                            ops_view(ops@),
                            a0,
                            toks[i_c].1.start as int,
                            toks[i_c].1.end as int,
                        ));
                    }
                }
            },
        }
    }
}

} // verus!
