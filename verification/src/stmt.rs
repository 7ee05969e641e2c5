//! The statement-level parser: a stack of open scopes, dispatch on the
//! leading token, recovery to the next `;` or `}` after every error, and one
//! error list for the whole parse.
use vstd::prelude::*;
use crate::ast::{
    ACompileError, ANode, AST, AString, AType, ExprV, Node, NodeV, ParseError, TypeV, ast_view,
    node_view, scope_ordered,
};
use crate::buffer::{Buffer, spec_prev_span_or_zero};
use crate::expr::{
    CommaRes, ERes, OpEntryV, PairRes, parse_expr, spec_close_bracket, spec_close_paren, spec_inc,
    spec_expr_run, spec_parse_expr, spec_pop_bin, spec_pop_comma, spec_unary_pos,
};
use crate::span::Span;
use crate::token::{Operator, Token};
use crate::types::{TypeRes, parse_type, spec_parse_type, spec_text, toks_in_src};

verus! {

/// The header of a function whose body is still being parsed.
pub struct FnHeader {
    pub ident: AString,
    pub params: Vec<(AString, AType, Span)>,
    pub fspan: Span,
}

/// One open scope: its statements so far, its span, and, for a function
/// body, the pending header emitted when the scope closes.
pub struct Frame {
    pub nodes: Vec<ANode>,
    pub span: Span,
    pub header: Option<FnHeader>,
}

/// The shape of a pending function header.
pub struct HeaderV {
    pub ident: (Seq<char>, Span),
    pub params: Seq<((Seq<char>, Span), (TypeV, Span), Span)>,
    pub fspan: Span,
}

/// The shape of one open scope.
pub struct FrameV {
    pub nodes: Seq<(NodeV, Span)>,
    pub span: Span,
    pub header: Option<HeaderV>,
}

/// The shapes of a scope's statements, in order.
pub open spec fn nodes_view(s: Seq<ANode>) -> Seq<(NodeV, Span)> {
    Seq::new(s.len(), |i: int| (node_view(s[i].0), s[i].1))
}

/// The recursive and the pointwise description of a scope agree.
pub proof fn lemma_nodes_view_is_ast_view(s: Seq<ANode>)
    ensures
        ast_view(s) == nodes_view(s),
    decreases s.len(),
{
    if s.len() == 0 {
        assert(ast_view(s) =~= nodes_view(s));
    } else {
        lemma_nodes_view_is_ast_view(s.drop_last());
        assert(ast_view(s) =~= nodes_view(s));
    }
}

/// The shape of a pending header.
pub open spec fn header_view(h: FnHeader) -> HeaderV {
    HeaderV {
        ident: (h.ident.0@, h.ident.1),
        params: h.params@.map_values(
            |p: (AString, AType, Span)| ((p.0.0@, p.0.1), crate::ast::atype_view(p.1), p.2),
        ),
        fspan: h.fspan,
    }
}

/// The shape of one open scope.
pub open spec fn frame_view(f: Frame) -> FrameV {
    FrameV {
        nodes: nodes_view(f.nodes@),
        span: f.span,
        header: match f.header {
            Option::Some(h) => Option::Some(header_view(h)),
            Option::None => Option::None,
        },
    }
}

/// The shapes of the scope stack, root first.
pub open spec fn stack_view(s: Seq<Frame>) -> Seq<FrameV> {
    Seq::new(s.len(), |i: int| frame_view(s[i]))
}

/// The position after error recovery: tokens are discarded until a `;` or `}`
/// has been consumed, or the input ends.
pub open spec fn spec_skip(toks: Seq<(Token, Span)>, i: int) -> int
    decreases toks.len() - i,
{
    if i < 0 || i >= toks.len() {
        i
    } else if (toks[i].0 matches Token::Semicolon) || (toks[i].0 matches Token::CuBracketE) {
        i + 1
    } else {
        spec_skip(toks, i + 1)
    }
}

/// Recovery discards at least the token it starts on.
pub proof fn lemma_skip_ge(toks: Seq<(Token, Span)>, i: int)
    ensures
        spec_skip(toks, i) >= i,
        0 <= i < toks.len() ==> spec_skip(toks, i) >= i + 1,
        i <= toks.len() ==> spec_skip(toks, i) <= toks.len(),
    decreases toks.len() - i,
{
    if 0 <= i && i < toks.len() {
        if !((toks[i].0 matches Token::Semicolon) || (toks[i].0 matches Token::CuBracketE)) {
            lemma_skip_ge(toks, i + 1);
        }
    }
}

/// The bounds on the cursor position an expression-parser outcome leaves.
pub open spec fn expr_next_ok(toks: Seq<(Token, Span)>, i: int, r: ERes) -> bool {
    match r {
        ERes::Done { next, .. } => next >= i && (0 <= i < toks.len() ==> next >= i + 1) && (0 <= i
            <= toks.len() ==> next <= toks.len()),
        ERes::Fail { next, .. } => next >= i && (0 <= i < toks.len() ==> next >= i + 1) && (0 <= i
            <= toks.len() ==> next <= toks.len()),
    }
}

/// The expression parser never moves the cursor backwards, and consumes at
/// least one token when one is there.
#[verifier::rlimit(60)]
pub proof fn lemma_expr_run_next_ge_all(toks: Seq<(Token, Span)>, src: Seq<char>, i: int)
    ensures
        forall|out: Seq<(ExprV, Span)>, ops: Seq<OpEntryV>, last: Token, lo: usize, hi: usize|
            expr_next_ok(
                toks,
                i,
                #[trigger] spec_expr_run(toks, src, i, out, ops, last, lo, hi),
            ),
    decreases toks.len() - i,
{
    if 0 <= i && i < toks.len() {
        lemma_expr_run_next_ge_all(toks, src, i + 1);
    }
    assert forall|out: Seq<(ExprV, Span)>, ops: Seq<OpEntryV>, last: Token, lo: usize, hi: usize|
        expr_next_ok(
            toks,
            i,
            #[trigger] spec_expr_run(toks, src, i, out, ops, last, lo, hi),
        ) by {
        if 0 <= i && i < toks.len() {
            let (tok, span) = toks[i];
            let lo2: usize = if span.start < lo {
                span.start
            } else {
                lo
            };
            let hi2: usize = if span.end > hi {
                span.end
            } else {
                hi
            };
            match tok {
                Token::Integer(v) => {
                    let r2 = spec_expr_run(
                        toks,
                        src,
                        i + 1,
                        out.push((ExprV::Integer(v as i128), span)),
                        ops,
                        tok,
                        lo2,
                        hi2,
                    );
                    assert(expr_next_ok(toks, i + 1, r2));
                },
                Token::Ident => {
                    let r2 = spec_expr_run(
                        toks,
                        src,
                        i + 1,
                        out.push((ExprV::Ident(spec_text(src, span)), span)),
                        ops,
                        tok,
                        lo2,
                        hi2,
                    );
                    assert(expr_next_ok(toks, i + 1, r2));
                },
                Token::Operator(o1) => {
                    let un = spec_unary_pos(last);
                    match spec_pop_bin(out, ops, o1, un) {
                        PairRes::Done { out: out2, ops: ops2 } => {
                            let r2 = spec_expr_run(
                                toks,
                                src,
                                i + 1,
                                out2,
                                ops2.push(OpEntryV::Op(o1, span, un)),
                                tok,
                                lo2,
                                hi2,
                            );
                            assert(expr_next_ok(toks, i + 1, r2));
                        },
                        PairRes::Fail { .. } => {},
                    }
                },
                Token::Comma => {
                    match spec_pop_comma(out, ops) {
                        CommaRes::Found { out: out2, ops: ops2 } => {
                            let k = ops2.len() - 1;
                            match ops2[k] {
                                OpEntryV::Call(callee, sp, n) => {
                                    let r2 = spec_expr_run(
                                        toks,
                                        src,
                                        i + 1,
                                        out2,
                                        ops2.update(k, OpEntryV::Call(callee, sp, spec_inc(n))),
                                        tok,
                                        lo2,
                                        hi2,
                                    );
                                    assert(expr_next_ok(toks, i + 1, r2));
                                },
                                _ => {},
                            }
                        },
                        _ => {},
                    }
                },
                Token::RoBracketS => {
                    if out.len() > 0 {
                        let callee = out.last();
                        let mspan = Span { start: callee.1.start, end: span.end };
                        let count: usize = if i + 1 < toks.len() && (toks[i + 1].0
                            matches Token::RoBracketE) {
                            0
                        } else {
                            1
                        };
                        let r2 = spec_expr_run(
                            toks,
                            src,
                            i + 1,
                            out.drop_last(),
                            ops.push(OpEntryV::Call(callee, mspan, count)),
                            tok,
                            lo2,
                            hi2,
                        );
                        assert(expr_next_ok(toks, i + 1, r2));
                    }
                    let r3 = spec_expr_run(
                        toks,
                        src,
                        i + 1,
                        out,
                        ops.push(OpEntryV::Group(span)),
                        tok,
                        lo2,
                        hi2,
                    );
                    assert(expr_next_ok(toks, i + 1, r3));
                },
                Token::RoBracketE => {
                    match spec_close_paren(out, ops, span) {
                        PairRes::Done { out: out2, ops: ops2 } => {
                            let r2 = spec_expr_run(toks, src, i + 1, out2, ops2, tok, lo2, hi2);
                            assert(expr_next_ok(toks, i + 1, r2));
                        },
                        PairRes::Fail { .. } => {},
                    }
                },
                Token::SqBracketS => {
                    if out.len() > 0 {
                        let base = out.last();
                        let mspan = Span { start: base.1.start, end: span.end };
                        let r2 = spec_expr_run(
                            toks,
                            src,
                            i + 1,
                            out.drop_last(),
                            ops.push(OpEntryV::Index(base, mspan)),
                            tok,
                            lo2,
                            hi2,
                        );
                        assert(expr_next_ok(toks, i + 1, r2));
                    }
                },
                Token::SqBracketE => {
                    match spec_close_bracket(out, ops, span) {
                        PairRes::Done { out: out2, ops: ops2 } => {
                            let r2 = spec_expr_run(toks, src, i + 1, out2, ops2, tok, lo2, hi2);
                            assert(expr_next_ok(toks, i + 1, r2));
                        },
                        PairRes::Fail { .. } => {},
                    }
                },
                _ => {},
            }
        }
    }
}

/// The type parser never moves the cursor backwards, and consumes at least
/// one token on success.
pub proof fn lemma_type_next_ge(
    toks: Seq<(Token, Span)>,
    src: Seq<char>,
    i: int,
    mods: Seq<(crate::types::TypeOperators, Span)>,
)
    ensures
        match spec_parse_type(toks, src, i, mods) {
            TypeRes::Done { next, .. } => next >= i + 1 && (0 <= i <= toks.len() ==> next
                <= toks.len()),
            TypeRes::Fail { next, .. } => next >= i && (0 <= i <= toks.len() ==> next
                <= toks.len()),
        },
    decreases toks.len() - i,
{
    if 0 <= i && i < toks.len() {
        let (tok, span) = toks[i];
        match tok {
            Token::Operator(Operator::BAnd) => {
                lemma_type_next_ge(toks, src, i + 1, mods.push((crate::types::TypeOperators::Pointer, span)));
            },
            Token::Operator(Operator::LAnd) => {
                let m1 = (
                    crate::types::TypeOperators::Pointer,
                    Span { start: span.start, end: crate::types::spec_mid(span) as usize },
                );
                let m2 = (
                    crate::types::TypeOperators::Pointer,
                    Span { start: crate::types::spec_mid(span) as usize, end: span.end },
                );
                lemma_type_next_ge(toks, src, i + 1, mods.push(m1).push(m2));
            },
            Token::SqBracketS => {
                if i + 1 < toks.len() {
                    let (tok2, sp2) = toks[i + 1];
                    match tok2 {
                        Token::SqBracketE => {
                            lemma_type_next_ge(
                                toks,
                                src,
                                i + 2,
                                mods.push(
                                    (
                                        crate::types::TypeOperators::Slice,
                                        Span { start: span.start, end: sp2.end },
                                    ),
                                ),
                            );
                        },
                        Token::Integer(n) => {
                            if i + 2 < toks.len() && (toks[i + 2].0 matches Token::SqBracketE) {
                                lemma_type_next_ge(
                                    toks,
                                    src,
                                    i + 3,
                                    mods.push(
                                        (
                                            crate::types::TypeOperators::Array(n),
                                            Span { start: span.start, end: sp2.end },
                                        ),
                                    ),
                                );
                            }
                        },
                        _ => {},
                    }
                }
            },
            _ => {},
        }
    }
}

/// What the parameter-list parser returns at the mathematical level.
pub enum ParamsRes {
    Done {
        params: Seq<((Seq<char>, Span), (TypeV, Span), Span)>,
        en: usize,
        next: int,
    },
    Fail { err: ACompileError, next: int },
}

/// The parameter list of a function declaration: `identifier type` pairs,
/// separated by optional commas, up to the closing parenthesis. A failure
/// already includes the recovery skip in its position.
pub open spec fn spec_params(
    toks: Seq<(Token, Span)>,
    src: Seq<char>,
    j: int,
    params: Seq<((Seq<char>, Span), (TypeV, Span), Span)>,
) -> ParamsRes
    decreases toks.len() - j via spec_params_dec
{
    if j < 0 || j >= toks.len() {
        ParamsRes::Fail { err: (ParseError::RanOutTokens, spec_prev_span_or_zero(toks, j)), next: j }
    } else {
        let (tok, sp) = toks[j];
        match tok {
            Token::RoBracketE => ParamsRes::Done { params, en: sp.end, next: j + 1 },
            Token::Ident => {
                match spec_parse_type(toks, src, j + 1, Seq::empty()) {
                    TypeRes::Done { typ, next: tn } => {
                        let param = (
                            (spec_text(src, sp), sp),
                            typ,
                            Span { start: sp.start, end: typ.1.end },
                        );
                        if tn >= toks.len() {
                            ParamsRes::Fail {
                                err: (ParseError::RanOutTokens, spec_prev_span_or_zero(toks, tn)),
                                next: spec_skip(toks, tn),
                            }
                        } else if (toks[tn].0 matches Token::Comma) {
                            spec_params(toks, src, tn + 1, params.push(param))
                        } else {
                            spec_params(toks, src, tn, params.push(param))
                        }
                    },
                    TypeRes::Fail { err, next: tn } => ParamsRes::Fail {
                        err,
                        next: spec_skip(toks, tn - 1),
                    },
                }
            },
            _ => ParamsRes::Fail {
                err: (ParseError::UnexpectedToken, sp),
                next: spec_skip(toks, j + 1),
            },
        }
    }
}

#[via_fn]
proof fn spec_params_dec(
    toks: Seq<(Token, Span)>,
    src: Seq<char>,
    j: int,
    params: Seq<((Seq<char>, Span), (TypeV, Span), Span)>,
)
{
    lemma_type_next_ge(toks, src, j + 1, Seq::empty());
}

/// The parameter-list parser never moves the cursor backwards.
pub proof fn lemma_params_next_ge(
    toks: Seq<(Token, Span)>,
    src: Seq<char>,
    j: int,
    params: Seq<((Seq<char>, Span), (TypeV, Span), Span)>,
)
    ensures
        match spec_params(toks, src, j, params) {
            ParamsRes::Done { next, .. } => next >= j + 1 && (0 <= j <= toks.len() ==> next
                <= toks.len()),
            ParamsRes::Fail { next, .. } => next >= j && (0 <= j <= toks.len() ==> next
                <= toks.len()),
        },
    decreases toks.len() - j,
{
    if 0 <= j && j < toks.len() {
        let (tok, sp) = toks[j];
        match tok {
            Token::Ident => {
                lemma_type_next_ge(toks, src, j + 1, Seq::empty());
                match spec_parse_type(toks, src, j + 1, Seq::empty()) {
                    TypeRes::Done { typ, next: tn } => {
                        let param = (
                            (spec_text(src, sp), sp),
                            typ,
                            Span { start: sp.start, end: typ.1.end },
                        );
                        if tn >= toks.len() {
                            lemma_skip_ge(toks, tn);
                        } else if (toks[tn].0 matches Token::Comma) {
                            lemma_params_next_ge(toks, src, tn + 1, params.push(param));
                        } else {
                            lemma_params_next_ge(toks, src, tn, params.push(param));
                        }
                    },
                    TypeRes::Fail { err, next: tn } => {
                        lemma_skip_ge(toks, tn - 1);
                    },
                }
            },
            _ => {
                lemma_skip_ge(toks, j + 1);
            },
        }
    }
}

/// A statement node appended to the innermost scope, whose span is stretched
/// to the node's end.
pub open spec fn spec_push_node(stack: Seq<FrameV>, nv: (NodeV, Span)) -> Seq<FrameV> {
    let k = stack.len() - 1;
    stack.update(
        k,
        FrameV {
            nodes: stack[k].nodes.push(nv),
            span: Span { start: stack[k].span.start, end: nv.1.end },
            header: stack[k].header,
        },
    )
}

/// The innermost scope closed: its statements become the body of the pending
/// function declaration, emitted into the parent in source position.
pub open spec fn spec_pop_scope(stack: Seq<FrameV>) -> Seq<FrameV> {
    let k = stack.len() - 1;
    let child = stack[k];
    match child.header {
        Option::Some(h) => spec_push_node(
            stack.drop_last(),
            (
                NodeV::FunctionDeclare { ident: h.ident, params: h.params, body: child.nodes },
                h.fspan,
            ),
        ),
        Option::None => stack.drop_last(),
    }
}

/// The start of the token at `i - 1`, where the cursor inspects the token it
/// consumed last.
pub open spec fn spec_cur_start(toks: Seq<(Token, Span)>, i: int) -> usize {
    if 1 <= i <= toks.len() {
        toks[i - 1].1.start
    } else {
        0
    }
}

/// The statement grammar, one statement at a time, over the scope stack and
/// the accumulated error list: `;` is a no-op, `var`, `return` and `func`
/// read their forms, `}` closes the innermost scope, anything else is an
/// expression statement; after any error the parser records it and discards
/// tokens through the next `;` or `}`.
pub open spec fn spec_stmt_run(
    toks: Seq<(Token, Span)>,
    src: Seq<char>,
    i: int,
    stack: Seq<FrameV>,
    errs: Seq<ACompileError>,
) -> (Seq<FrameV>, Seq<ACompileError>)
    decreases toks.len() - i via spec_stmt_run_dec
{
    if i < 0 || i >= toks.len() {
        (stack, errs)
    } else {
        let (tok, span) = toks[i];
        match tok {
            Token::Semicolon => spec_stmt_run(toks, src, i + 1, stack, errs),
            Token::CuBracketE => {
                if stack.len() <= 1 {
                    spec_stmt_run(
                        toks,
                        src,
                        spec_skip(toks, i + 1),
                        stack,
                        errs.push((ParseError::UnstartedBracket, span)),
                    )
                } else {
                    spec_stmt_run(toks, src, i + 1, spec_pop_scope(stack), errs)
                }
            },
            Token::Var => {
                if i + 1 >= toks.len() {
                    spec_stmt_run(
                        toks,
                        src,
                        spec_skip(toks, i + 1),
                        stack,
                        errs.push((ParseError::RanOutTokens, span)),
                    )
                } else if !(toks[i + 1].0 matches Token::Ident) {
                    spec_stmt_run(
                        toks,
                        src,
                        spec_skip(toks, i + 2),
                        stack,
                        errs.push((ParseError::UnexpectedToken, toks[i + 1].1)),
                    )
                } else {
                    let idp = (spec_text(src, toks[i + 1].1), toks[i + 1].1);
                    if i + 2 >= toks.len() {
                        spec_stmt_run(
                            toks,
                            src,
                            spec_skip(toks, i + 2),
                            stack,
                            errs.push((ParseError::RanOutTokens, span)),
                        )
                    } else {
                        match toks[i + 2].0 {
                            Token::Operator(Operator::Assign) => {
                                match spec_parse_expr(toks, src, i + 3) {
                                    ERes::Done { expr, next } => {
                                        let nspan = Span {
                                            start: span.start,
                                            end: spec_cur_start(toks, next),
                                        };
                                        spec_stmt_run(
                                            toks,
                                            src,
                                            next,
                                            spec_push_node(
                                                stack,
                                                (
                                                    NodeV::VarDeclare {
                                                        ident: idp,
                                                        expr: Option::Some(expr),
                                                    },
                                                    nspan,
                                                ),
                                            ),
                                            errs,
                                        )
                                    },
                                    ERes::Fail { err, next } => spec_stmt_run(
                                        toks,
                                        src,
                                        spec_skip(toks, next - 1),
                                        stack,
                                        errs.push(err),
                                    ),
                                }
                            },
                            Token::Semicolon => {
                                let nspan = Span { start: span.start, end: toks[i + 2].1.start };
                                spec_stmt_run(
                                    toks,
                                    src,
                                    i + 3,
                                    spec_push_node(
                                        stack,
                                        (
                                            NodeV::VarDeclare { ident: idp, expr: Option::None },
                                            nspan,
                                        ),
                                    ),
                                    errs,
                                )
                            },
                            _ => spec_stmt_run(
                                toks,
                                src,
                                spec_skip(toks, i + 3),
                                stack,
                                errs.push((ParseError::UnexpectedToken, toks[i + 2].1)),
                            ),
                        }
                    }
                }
            },
            Token::Return => {
                if i + 1 >= toks.len() {
                    spec_stmt_run(
                        toks,
                        src,
                        spec_skip(toks, i + 1),
                        stack,
                        errs.push((ParseError::RanOutTokens, span)),
                    )
                } else if (toks[i + 1].0 matches Token::Semicolon) {
                    let nspan = Span { start: span.start, end: toks[i + 1].1.start };
                    spec_stmt_run(
                        toks,
                        src,
                        i + 2,
                        spec_push_node(stack, (NodeV::Return(Option::None), nspan)),
                        errs,
                    )
                } else {
                    match spec_parse_expr(toks, src, i + 1) {
                        ERes::Done { expr, next } => {
                            let nspan = Span { start: span.start, end: spec_cur_start(toks, next) };
                            spec_stmt_run(
                                toks,
                                src,
                                next,
                                spec_push_node(
                                    stack,
                                    (NodeV::Return(Option::Some(expr)), nspan),
                                ),
                                errs,
                            )
                        },
                        ERes::Fail { err, next } => spec_stmt_run(
                            toks,
                            src,
                            spec_skip(toks, next - 1),
                            stack,
                            errs.push(err),
                        ),
                    }
                }
            },
            Token::Func => {
                if i + 1 >= toks.len() {
                    spec_stmt_run(
                        toks,
                        src,
                        spec_skip(toks, i + 1),
                        stack,
                        errs.push((ParseError::RanOutTokens, span)),
                    )
                } else if !(toks[i + 1].0 matches Token::Ident) {
                    spec_stmt_run(
                        toks,
                        src,
                        spec_skip(toks, i + 2),
                        stack,
                        errs.push((ParseError::UnexpectedToken, toks[i + 1].1)),
                    )
                } else {
                    let idp = (spec_text(src, toks[i + 1].1), toks[i + 1].1);
                    if i + 2 >= toks.len() {
                        spec_stmt_run(
                            toks,
                            src,
                            spec_skip(toks, i + 2),
                            stack,
                            errs.push(
                                (ParseError::RanOutTokens, spec_prev_span_or_zero(toks, i + 2)),
                            ),
                        )
                    } else if !(toks[i + 2].0 matches Token::RoBracketS) {
                        spec_stmt_run(
                            toks,
                            src,
                            spec_skip(toks, i + 3),
                            stack,
                            errs.push((ParseError::UnexpectedToken, toks[i + 2].1)),
                        )
                    } else {
                        match spec_params(toks, src, i + 3, Seq::empty()) {
                            ParamsRes::Fail { err, next } => spec_stmt_run(
                                toks,
                                src,
                                next,
                                stack,
                                errs.push(err),
                            ),
                            ParamsRes::Done { params, en, next } => {
                                if next >= toks.len() {
                                    spec_stmt_run(
                                        toks,
                                        src,
                                        spec_skip(toks, next),
                                        stack,
                                        errs.push(
                                            (
                                                ParseError::RanOutTokens,
                                                spec_prev_span_or_zero(toks, next),
                                            ),
                                        ),
                                    )
                                } else if !(toks[next].0 matches Token::CuBracketS) {
                                    spec_stmt_run(
                                        toks,
                                        src,
                                        spec_skip(toks, next + 1),
                                        stack,
                                        errs.push((ParseError::UnexpectedToken, toks[next].1)),
                                    )
                                } else {
                                    let fspan = Span { start: span.start, end: en };
                                    spec_stmt_run(
                                        toks,
                                        src,
                                        next + 1,
                                        stack.push(
                                            FrameV {
                                                nodes: Seq::empty(),
                                                span: fspan,
                                                header: Option::Some(
                                                    HeaderV { ident: idp, params, fspan },
                                                ),
                                            },
                                        ),
                                        errs,
                                    )
                                }
                            },
                        }
                    }
                }
            },
            _ => {
                match spec_parse_expr(toks, src, i) {
                    ERes::Done { expr, next } => {
                        let nspan = Span { start: expr.1.start, end: spec_cur_start(toks, next) };
                        spec_stmt_run(
                            toks,
                            src,
                            next,
                            spec_push_node(stack, (NodeV::Expr(expr), nspan)),
                            errs,
                        )
                    },
                    ERes::Fail { err, next } => spec_stmt_run(
                        toks,
                        src,
                        spec_skip(toks, next - 1),
                        stack,
                        errs.push(err),
                    ),
                }
            },
        }
    }
}

#[via_fn]
proof fn spec_stmt_run_dec(
    toks: Seq<(Token, Span)>,
    src: Seq<char>,
    i: int,
    stack: Seq<FrameV>,
    errs: Seq<ACompileError>,
)
{
    lemma_skip_ge(toks, i + 1);
    lemma_skip_ge(toks, i + 2);
    lemma_skip_ge(toks, i + 3);
    if 0 <= i && i < toks.len() {
        lemma_expr_run_next_ge_all(toks, src, i);
        lemma_expr_run_next_ge_all(toks, src, i + 1);
        lemma_expr_run_next_ge_all(toks, src, i + 3);
        match spec_parse_expr(toks, src, i) {
            ERes::Done { next, .. } => lemma_skip_ge(toks, next - 1),
            ERes::Fail { next, .. } => lemma_skip_ge(toks, next - 1),
        }
        match spec_parse_expr(toks, src, i + 1) {
            ERes::Done { next, .. } => lemma_skip_ge(toks, next - 1),
            ERes::Fail { next, .. } => lemma_skip_ge(toks, next - 1),
        }
        match spec_parse_expr(toks, src, i + 3) {
            ERes::Done { next, .. } => lemma_skip_ge(toks, next - 1),
            ERes::Fail { next, .. } => lemma_skip_ge(toks, next - 1),
        }
        lemma_params_next_ge(toks, src, i + 3, Seq::empty());
        match spec_params(toks, src, i + 3, Seq::empty()) {
            ParamsRes::Done { next, .. } => {
                lemma_skip_ge(toks, next);
                lemma_skip_ge(toks, next + 1);
            },
            ParamsRes::Fail { .. } => {},
        }
    }
}

/// What the whole parse returns at the mathematical level: the root scope
/// where no error was recorded, else the non-empty error list.
pub enum ParseRes {
    Done { ast: Seq<(NodeV, Span)> },
    Fail { errs: Seq<ACompileError> },
}

/// The whole statement grammar from a cursor position: one root scope, no
/// errors; a scope still open at the end of the input adds an unended-bracket
/// error at its span; the tree is returned only if the error list stayed
/// empty.
pub open spec fn spec_parse(toks: Seq<(Token, Span)>, src: Seq<char>, i: int) -> ParseRes {
    let init = seq![
        FrameV { nodes: Seq::empty(), span: Span { start: 0, end: 0 }, header: Option::None },
    ];
    let (stack, errs) = spec_stmt_run(toks, src, i, init, Seq::empty());
    let errs2 = if stack.len() != 1 {
        errs.push((ParseError::UnendedBracket, stack.last().span))
    } else {
        errs
    };
    if errs2.len() == 0 {
        ParseRes::Done { ast: stack[0].nodes }
    } else {
        ParseRes::Fail { errs: errs2 }
    }
}


/// A scope whose last statement ends by `b` and starts strictly before it.
pub open spec fn frame_bound(f: FrameV, b: int) -> bool {
    f.nodes.len() > 0 ==> f.nodes.last().1.end <= b && f.nodes.last().1.start < b
}

/// A child scope's pending header is non-empty and follows every statement
/// of its parent.
pub open spec fn link_ok(parent: FrameV, child: FrameV) -> bool {
    match child.header {
        Option::Some(h) => h.fspan.start < h.fspan.end && frame_bound(
            parent,
            h.fspan.start as int,
        ),
        Option::None => false,
    }
}

/// The scope stack is in source order: every scope's statements are ordered,
/// each pending header follows its parent's statements, and everything
/// emitted so far precedes the token at `i`.
pub open spec fn ordered_stack(toks: Seq<(Token, Span)>, i: int, st: Seq<FrameV>) -> bool {
    st.len() >= 1 && (forall|j: int| 0 <= j < st.len() ==> scope_ordered(#[trigger] st[j].nodes))
        && (forall|j: int| 0 <= j < st.len() - 1 ==> link_ok(#[trigger] st[j], st[j + 1])) && (0
        <= i && i < toks.len() ==> frame_bound(st.last(), toks[i].1.start as int) && (forall|j: int|
        1 <= j < st.len() ==> match (#[trigger] st[j]).header {
            Option::Some(h) => h.fspan.end <= toks[i].1.start,
            Option::None => true,
        }))
}

/// A successful parameter list ends at a closing parenthesis inside the
/// stream, whose end offset it reports.
pub proof fn lemma_params_en(
    toks: Seq<(Token, Span)>,
    src: Seq<char>,
    j: int,
    params: Seq<((Seq<char>, Span), (TypeV, Span), Span)>,
)
    ensures
        match spec_params(toks, src, j, params) {
            ParamsRes::Done { en, next, .. } => j <= next - 1 < toks.len() && en == toks[next
                - 1].1.end,
            ParamsRes::Fail { .. } => true,
        },
    decreases toks.len() - j,
{
    if 0 <= j && j < toks.len() {
        let (tok, sp) = toks[j];
        match tok {
            Token::Ident => {
                lemma_type_next_ge(toks, src, j + 1, Seq::empty());
                match spec_parse_type(toks, src, j + 1, Seq::empty()) {
                    TypeRes::Done { typ, next: tn } => {
                        let param = (
                            (spec_text(src, sp), sp),
                            typ,
                            Span { start: sp.start, end: typ.1.end },
                        );
                        if tn < toks.len() {
                            if (toks[tn].0 matches Token::Comma) {
                                lemma_params_en(toks, src, tn + 1, params.push(param));
                            } else {
                                lemma_params_en(toks, src, tn, params.push(param));
                            }
                        }
                    },
                    TypeRes::Fail { .. } => {},
                }
            },
            _ => {},
        }
    }
}

/// How an executable parse outcome realizes a `ParseRes`.
pub open spec fn pres_match(sr: ParseRes, r: Result<AST, Vec<ACompileError>>) -> bool {
    match sr {
        ParseRes::Done { ast } => r matches Ok(a) && ast_view(a@) == ast,
        ParseRes::Fail { errs } => r matches Err(e) && e@ == errs,
    }
}

/// The shapes of a parameter list, in order.
pub open spec fn params_view(s: Seq<(AString, AType, Span)>) -> Seq<
    ((Seq<char>, Span), (TypeV, Span), Span),
> {
    s.map_values(|p: (AString, AType, Span)| ((p.0.0@, p.0.1), crate::ast::atype_view(p.1), p.2))
}

/// Discards tokens until a `;` or `}` has been consumed, or the input ends.
fn sync(buf: &mut Buffer)
    ensures
        final(buf).toks@ == old(buf).toks@,
        final(buf).idx as int == spec_skip(old(buf).toks@, old(buf).idx as int),
        final(buf).idx >= old(buf).idx,
        old(buf).idx < old(buf).toks@.len() ==> final(buf).idx > old(buf).idx,
        old(buf).idx <= old(buf).toks@.len() ==> final(buf).idx <= old(buf).toks@.len(),
{
    let ghost toks = buf.toks@;
    loop
        invariant
            buf.toks@ == toks,
            buf.idx >= old(buf).idx,
            old(buf).idx <= toks.len() ==> buf.idx <= toks.len(),
            spec_skip(toks, buf.idx as int) == spec_skip(toks, old(buf).idx as int),
        decreases toks.len() - buf.idx,
    {
        match buf.next() {
            None => {
                return ;
            },
            Some((t, _)) => {
                if matches!(t, Token::Semicolon | Token::CuBracketE) {
                    return ;
                }
            },
        }
    }
}

/// The start of the token the cursor consumed last, or zero at the start.
fn cur_start(buf: &Buffer) -> (r: usize)
    ensures
        r == spec_cur_start(buf.toks@, buf.idx as int),
{
    match buf.current() {
        Some((_, sp)) => sp.start,
        None => 0,
    }
}

/// Appends a statement to the innermost scope and stretches its span.
fn push_node(stack: &mut Vec<Frame>, node: ANode)
    requires
        old(stack)@.len() >= 1,
    ensures
        final(stack)@.len() == old(stack)@.len(),
        stack_view(final(stack)@) == spec_push_node(
            stack_view(old(stack)@),
            (node_view(node.0), node.1),
        ),
{
    let ghost sv0 = stack_view(old(stack)@);
    let ghost nv = (node_view(node.0), node.1);
    let end = node.1.end;
    match stack.pop() {
        None => {},
        Some(mut top) => {
            let ghost topv = frame_view(top);
            top.nodes.push(node);
            top.span = Span { start: top.span.start, end };
            proof {
                assert(nodes_view(top.nodes@) =~= topv.nodes.push(nv));
            }
            stack.push(top);
            proof {
                assert(stack_view(stack@) =~= spec_push_node(sv0, nv));
            }
        },
    }
}

/// Parses the parameter list of a function declaration up to its closing
/// parenthesis, returning the parameters and the parenthesis's end offset;
/// on failure the recovery skip has already been performed.
fn parse_params(buf: &mut Buffer, src: &str) -> (r: Result<
    (Vec<(AString, AType, Span)>, usize),
    ACompileError,
>)
    requires
        src.is_ascii(),
        toks_in_src(old(buf).toks@, src@),
    ensures
        final(buf).toks@ == old(buf).toks@,
        match spec_params(old(buf).toks@, src@, old(buf).idx as int, Seq::empty()) {
            ParamsRes::Done { params: pv, en, next } => r matches Ok(p) && params_view(p.0@) == pv
                && p.1 == en && final(buf).idx as int == next,
            ParamsRes::Fail { err, next } => (r matches Err(e) && e == err)
                && final(buf).idx as int == next,
        },
{
    let ghost toks = buf.toks@;
    let ghost j0 = buf.idx as int;
    let mut params: Vec<(AString, AType, Span)> = Vec::new();
    proof {
        assert(params_view(params@) =~= Seq::<((Seq<char>, Span), (TypeV, Span), Span)>::empty());
    }
    loop
        invariant
            buf.toks@ == toks,
            spec_params(toks, src@, buf.idx as int, params_view(params@)) == spec_params(
                toks,
                src@,
                j0,
                Seq::empty(),
            ),
        decreases toks.len() - buf.idx,
    {
        let ghost j = buf.idx as int;
        let ghost pv0 = params_view(params@);
        match buf.next() {
            None => {
                return Err((ParseError::RanOutTokens, buf.prev_span_or_zero()));
            },
            Some((Token::RoBracketE, sp)) => {
                return Ok((params, sp.end));
            },
            Some((Token::Ident, sp)) => {
                let name = String::from_str(src.substring_ascii(sp.start, sp.end));
                proof {
                    lemma_type_next_ge(toks, src@, j + 1, Seq::empty());
                }
                match parse_type(buf, src) {
                    Err(e) => {
                        buf.rewind();
                        sync(buf);
                        return Err(e);
                    },
                    Ok(typ) => {
                        let tend = typ.1.end;
                        params.push(((name, sp), typ, Span { start: sp.start, end: tend }));
                        proof {
                            assert(params_view(params@) =~= pv0.push(
                                (
                                    (spec_text(src@, sp), sp),
                                    crate::ast::atype_view(params@.last().1),
                                    Span { start: sp.start, end: tend },
                                ),
                            ));
                        }
                        match buf.peek() {
                            None => {
                                return Err((ParseError::RanOutTokens, buf.prev_span_or_zero()));
                            },
                            Some((Token::Comma, _)) => {
                                let _c = buf.next();
                            },
                            Some(_) => {},
                        }
                    },
                }
            },
            Some((_, sp)) => {
                sync(buf);
                return Err((ParseError::UnexpectedToken, sp));
            },
        }
    }
}

/// Parses a whole token stream into the root scope's statements, or collects
/// every error with recovery at statement boundaries: exactly what
/// `spec_parse` describes. The tree is returned only if no error was
/// recorded; otherwise the non-empty error list is.
#[verifier::rlimit(100)]
pub fn parse(buf: &mut Buffer, src: &str) -> (r: Result<AST, Vec<ACompileError>>)
    requires
        src.is_ascii(),
        toks_in_src(old(buf).toks@, src@),
    ensures
        final(buf).toks@ == old(buf).toks@,
        pres_match(spec_parse(old(buf).toks@, src@, old(buf).idx as int), r),
        crate::buffer::toks_ordered(old(buf).toks@) ==> (r matches Ok(a) ==> scope_ordered(
            ast_view(a@),
        )),
{
    let ghost toks = buf.toks@;
    let ghost i0 = buf.idx as int;
    let ghost ord = crate::buffer::toks_ordered(toks);
    let ghost init = seq![
        FrameV { nodes: Seq::empty(), span: Span { start: 0, end: 0 }, header: Option::None },
    ];
    let mut stack: Vec<Frame> = Vec::new();
    stack.push(Frame { nodes: Vec::new(), span: Span { start: 0, end: 0 }, header: None });
    let mut errs: Vec<ACompileError> = Vec::new();
    proof {
        assert(nodes_view(stack@[0].nodes@) =~= Seq::<(NodeV, Span)>::empty());
        assert(stack_view(stack@) =~= init);
        assert(ordered_stack(toks, i0, stack_view(stack@)));
    }

    loop
        invariant
            buf.toks@ == toks,
            stack@.len() >= 1,
            spec_stmt_run(toks, src@, buf.idx as int, stack_view(stack@), errs@) == spec_stmt_run(
                toks,
                src@,
                i0,
                init,
                Seq::empty(),
            ),
            ord && errs@.len() == 0 ==> ordered_stack(toks, buf.idx as int, stack_view(stack@)),
        decreases toks.len() - buf.idx,
    {
        let ghost i_c = buf.idx as int;
        let ghost sv0 = stack_view(stack@);
        let ghost ev0 = errs@;
        match buf.next() {
            None => {
                if stack.len() != 1 {
                    let sp = stack[stack.len() - 1].span;
                    errs.push((ParseError::UnendedBracket, sp));
                }
                if errs.len() == 0 {
                    match stack.pop() {
                        Some(root) => {
                            proof {
                                lemma_nodes_view_is_ast_view(root.nodes@);
                            }
                            return Ok(root.nodes);
                        },
                        None => {
                            return Err(errs);
                        },
                    }
                } else {
                    return Err(errs);
                }
            },
            Some((tok, span)) => {
                proof {
                    assert((tok, span) == toks[i_c]);
                }
                match tok {
                    Token::Semicolon => {},
                    Token::CuBracketE => {
                        if stack.len() == 1 {
                            errs.push((ParseError::UnstartedBracket, span));
                            sync(buf);
                        } else {
                            match stack.pop() {
                                None => {},
                                Some(child) => {
                                    proof {
                                        assert(frame_view(child) == sv0.last());
                                        assert(stack_view(stack@) =~= sv0.drop_last());
                                    }
                                    match child.header {
                                        Some(h) => {
                                            proof {
                                                lemma_nodes_view_is_ast_view(child.nodes@);
                                            }
                                            let fspan = h.fspan;
                                            let node: ANode = (
                                                Node::FunctionDeclare {
                                                    ident: h.ident,
                                                    params: h.params,
                                                    body: child.nodes,
                                                },
                                                fspan,
                                            );
                                            push_node(&mut stack, node);
                                        },
                                        None => {},
                                    }
                                },
                            }
                        }
                    },
                    Token::Var => {
                        match buf.next() {
                            None => {
                                errs.push((ParseError::RanOutTokens, span));
                                sync(buf);
                            },
                            Some((Token::Ident, sp1)) => {
                                let name = String::from_str(
                                    src.substring_ascii(sp1.start, sp1.end),
                                );
                                match buf.next() {
                                    None => {
                                        errs.push((ParseError::RanOutTokens, span));
                                        sync(buf);
                                    },
                                    Some((Token::Operator(Operator::Assign), _)) => {
                                        proof {
                                            lemma_expr_run_next_ge_all(toks, src@, i_c + 3);
                                        }
                                        match parse_expr(buf, src) {
                                            Ok(expr) => {
                                                let end = cur_start(buf);
                                                let nspan = Span { start: span.start, end };
                                                push_node(
                                                    &mut stack,
                                                    (
                                                        Node::VarDeclare {
                                                            ident: (name, sp1),
                                                            expr: Some(expr),
                                                        },
                                                        nspan,
                                                    ),
                                                );
                                            },
                                            Err(e) => {
                                                errs.push(e);
                                                buf.rewind();
                                                sync(buf);
                                            },
                                        }
                                    },
                                    Some((Token::Semicolon, ssp)) => {
                                        let nspan = Span { start: span.start, end: ssp.start };
                                        push_node(
                                            &mut stack,
                                            (
                                                Node::VarDeclare {
                                                    ident: (name, sp1),
                                                    expr: None,
                                                },
                                                nspan,
                                            ),
                                        );
                                    },
                                    Some((_, s2)) => {
                                        errs.push((ParseError::UnexpectedToken, s2));
                                        sync(buf);
                                    },
                                }
                            },
                            Some((_, s1)) => {
                                errs.push((ParseError::UnexpectedToken, s1));
                                sync(buf);
                            },
                        }
                    },
                    Token::Return => {
                        match buf.next() {
                            None => {
                                errs.push((ParseError::RanOutTokens, span));
                                sync(buf);
                            },
                            Some((Token::Semicolon, ssp)) => {
                                let nspan = Span { start: span.start, end: ssp.start };
                                push_node(&mut stack, (Node::Return(None), nspan));
                            },
                            Some((_, _)) => {
                                buf.rewind();
                                proof {
                                    lemma_expr_run_next_ge_all(toks, src@, i_c + 1);
                                }
                                match parse_expr(buf, src) {
                                    Ok(expr) => {
                                        let end = cur_start(buf);
                                        let nspan = Span { start: span.start, end };
                                        push_node(
                                            &mut stack,
                                            (Node::Return(Some(expr)), nspan),
                                        );
                                    },
                                    Err(e) => {
                                        errs.push(e);
                                        buf.rewind();
                                        sync(buf);
                                    },
                                }
                            },
                        }
                    },
                    Token::Func => {
                        match buf.next() {
                            None => {
                                errs.push((ParseError::RanOutTokens, span));
                                sync(buf);
                            },
                            Some((Token::Ident, sp1)) => {
                                let name = String::from_str(
                                    src.substring_ascii(sp1.start, sp1.end),
                                );
                                match buf.next() {
                                    None => {
                                        let psp = buf.prev_span_or_zero();
                                        errs.push((ParseError::RanOutTokens, psp));
                                        sync(buf);
                                    },
                                    Some((Token::RoBracketS, _)) => {
                                        proof {
                                            lemma_params_next_ge(toks, src@, i_c + 3, Seq::empty());
                                            lemma_params_en(toks, src@, i_c + 3, Seq::empty());
                                        }
                                        match parse_params(buf, src) {
                                            Err(e) => {
                                                errs.push(e);
                                            },
                                            Ok((params, en)) => {
                                                match buf.next() {
                                                    None => {
                                                        let psp = buf.prev_span_or_zero();
                                                        errs.push(
                                                            (ParseError::RanOutTokens, psp),
                                                        );
                                                        sync(buf);
                                                    },
                                                    Some((Token::CuBracketS, _)) => {
                                                        let fspan = Span {
                                                            start: span.start,
                                                            end: en,
                                                        };
                                                        let frame = Frame {
                                                            nodes: Vec::new(),
                                                            span: fspan,
                                                            header: Some(
                                                                FnHeader {
                                                                    ident: (name, sp1),
                                                                    params,
                                                                    fspan,
                                                                },
                                                            ),
                                                        };
                                                        stack.push(frame);
                                                        proof {
                                                            assert(nodes_view(
                                                                stack@.last().nodes@,
                                                            ) =~= Seq::<(NodeV, Span)>::empty());
                                                            assert(stack_view(stack@) =~= sv0.push(
                                                                frame_view(stack@.last()),
                                                            ));
                                                            if ord {
                                                                let pn = buf.idx - 1;
                                                                if i_c <= pn - 1 && pn - 1
                                                                    < toks.len() {
                                                                    crate::buffer::lemma_toks_ordered_mono(
                                                                        toks,
                                                                        i_c,
                                                                        pn - 1,
                                                                    );
                                                                }
                                                                if 0 <= pn - 1 && pn < toks.len() {
                                                                    crate::buffer::lemma_toks_ordered_mono(
                                                                        toks,
                                                                        pn - 1,
                                                                        pn,
                                                                    );
                                                                }
                                                            }
                                                        }
                                                    },
                                                    Some((_, s3)) => {
                                                        errs.push(
                                                            (ParseError::UnexpectedToken, s3),
                                                        );
                                                        sync(buf);
                                                    },
                                                }
                                            },
                                        }
                                    },
                                    Some((_, s2)) => {
                                        errs.push((ParseError::UnexpectedToken, s2));
                                        sync(buf);
                                    },
                                }
                            },
                            Some((_, s1)) => {
                                errs.push((ParseError::UnexpectedToken, s1));
                                sync(buf);
                            },
                        }
                    },
                    _ => {
                        buf.rewind();
                        proof {
                            lemma_expr_run_next_ge_all(toks, src@, i_c);
                        }
                        match parse_expr(buf, src) {
                            Ok(expr) => {
                                let end = cur_start(buf);
                                let st = expr.1.start;
                                push_node(&mut stack, (Node::Expr(expr), Span { start: st, end }));
                            },
                            Err(e) => {
                                errs.push(e);
                                buf.rewind();
                                sync(buf);
                            },
                        }
                    },
                }
                proof {
                    assert(spec_stmt_run(
                        toks,
                        src@,
                        buf.idx as int,
                        stack_view(stack@),
                        errs@,
                    ) == spec_stmt_run(toks, src@, i_c, sv0, ev0));
                    if ord && errs@.len() == 0 {
                        if i_c <= buf.idx - 1 && buf.idx - 1 < toks.len() {
                            crate::buffer::lemma_toks_ordered_mono(toks, i_c, buf.idx - 1);
                        }
                        if buf.idx < toks.len() {
                            crate::buffer::lemma_toks_ordered_mono(toks, i_c, buf.idx as int);
                            if 1 <= buf.idx {
                                crate::buffer::lemma_toks_ordered_mono(
                                    toks,
                                    buf.idx - 1,
                                    buf.idx as int,
                                );
                            }
                        }
                        assert(ordered_stack(toks, buf.idx as int, stack_view(stack@)));
                    }
                }
            },
        }
    }
}

} // verus!
