//! The type-annotation parser: a stack of pointer/slice/array modifiers in
//! front of a named base type, the first-pushed modifier wrapping outermost.
use vstd::prelude::*;
use crate::ast::{ACompileError, AType, ParseError, Type, TypeV, atype_view};
use crate::buffer::{Buffer, spec_prev_span_or_zero};
use crate::span::Span;
use crate::token::{Operator, Token};

verus! {

/// One pending modifier read before the base type's name.
#[derive(Debug, Clone, Copy, PartialEq, Eq)]
pub enum TypeOperators {
    Pointer,
    Slice,
    Array(u128),
}

/// Every token's span lies inside the source text.
pub open spec fn toks_in_src(toks: Seq<(Token, Span)>, src: Seq<char>) -> bool {
    forall|i: int|
        0 <= i < toks.len() ==> #[trigger] toks[i].1.start <= toks[i].1.end && toks[i].1.end
            <= src.len()
}

/// The characters of the source under a span.
pub open spec fn spec_text(src: Seq<char>, sp: Span) -> Seq<char> {
    src.subrange(sp.start as int, sp.end as int)
}

/// The midpoint used to split a double-pointer token into two single-pointer
/// modifiers.
pub open spec fn spec_mid(sp: Span) -> int {
    if sp.start < sp.end {
        sp.start + 1
    } else {
        sp.end as int
    }
}

/// What the type parser returns at the mathematical level, together with the
/// cursor position it leaves behind.
pub enum TypeRes {
    Done { typ: (TypeV, Span), next: int },
    Fail { err: ACompileError, next: int },
}

/// One modifier applied around a type; the wrapper takes the modifier's span.
pub open spec fn spec_apply_mod(m: (TypeOperators, Span), t: (TypeV, Span)) -> (TypeV, Span) {
    match m.0 {
        TypeOperators::Pointer => (TypeV::Pointer(Box::new(t)), m.1),
        TypeOperators::Slice => (TypeV::Slice(Box::new(t)), m.1),
        TypeOperators::Array(n) => (TypeV::Array(Box::new(t), n), m.1),
    }
}

/// The pending modifiers wrapped around a base type: the last-pushed modifier
/// is applied first (innermost), the first-pushed last (outermost).
pub open spec fn spec_wrap(mods: Seq<(TypeOperators, Span)>, t: (TypeV, Span)) -> (TypeV, Span)
    decreases mods.len(),
{
    if mods.len() == 0 {
        t
    } else {
        spec_wrap(mods.drop_last(), spec_apply_mod(mods.last(), t))
    }
}

/// The type grammar, one token at a time: `&` and the double-pointer token
/// push pointer modifiers (the latter as two, its span split at the
/// midpoint), `[` `]` pushes a slice, `[` integer `]` an array; an identifier
/// names the base type and ends the annotation; anything else is an error.
pub open spec fn spec_parse_type(
    toks: Seq<(Token, Span)>,
    src: Seq<char>,
    i: int,
    mods: Seq<(TypeOperators, Span)>,
) -> TypeRes
    decreases toks.len() - i,
{
    if i < 0 || i >= toks.len() {
        TypeRes::Fail { err: (ParseError::RanOutTokens, spec_prev_span_or_zero(toks, i)), next: i }
    } else {
        let (tok, span) = toks[i];
        match tok {
            Token::Ident => TypeRes::Done {
                typ: spec_wrap(mods, (TypeV::Named(spec_text(src, span)), span)),
                next: i + 1,
            },
            Token::Operator(Operator::BAnd) => spec_parse_type(
                toks,
                src,
                i + 1,
                mods.push((TypeOperators::Pointer, span)),
            ),
            Token::Operator(Operator::LAnd) => spec_parse_type(
                toks,
                src,
                i + 1,
                mods.push(
                    (TypeOperators::Pointer, Span { start: span.start, end: spec_mid(span) as usize }),
                ).push(
                    (TypeOperators::Pointer, Span { start: spec_mid(span) as usize, end: span.end }),
                ),
            ),
            Token::SqBracketS => {
                if i + 1 >= toks.len() {
                    TypeRes::Fail {
                        err: (ParseError::RanOutTokens, spec_prev_span_or_zero(toks, i + 1)),
                        next: i + 1,
                    }
                } else {
                    let (tok2, sp2) = toks[i + 1];
                    match tok2 {
                        Token::SqBracketE => spec_parse_type(
                            toks,
                            src,
                            i + 2,
                            mods.push(
                                (TypeOperators::Slice, Span { start: span.start, end: sp2.end }),
                            ),
                        ),
                        Token::Integer(n) => {
                            if i + 2 >= toks.len() {
                                TypeRes::Fail {
                                    err: (
                                        ParseError::RanOutTokens,
                                        spec_prev_span_or_zero(toks, i + 2),
                                    ),
                                    next: i + 2,
                                }
                            } else {
                                let (tok3, sp3) = toks[i + 2];
                                match tok3 {
                                    Token::SqBracketE => spec_parse_type(
                                        toks,
                                        src,
                                        i + 3,
                                        mods.push(
                                            (
                                                TypeOperators::Array(n),
                                                Span { start: span.start, end: sp2.end },
                                            ),
                                        ),
                                    ),
                                    _ => TypeRes::Fail {
                                        err: (ParseError::UnexpectedToken, sp3),
                                        next: i + 3,
                                    },
                                }
                            }
                        },
                        _ => TypeRes::Fail { err: (ParseError::UnexpectedToken, sp2), next: i + 2 },
                    }
                }
            },
            _ => TypeRes::Fail { err: (ParseError::UnexpectedToken, span), next: i + 1 },
        }
    }
}

/// How an executable outcome and final cursor position realize a `TypeRes`.
pub open spec fn tres_match(sr: TypeRes, r: Result<AType, ACompileError>, next: int) -> bool {
    match sr {
        TypeRes::Done { typ, next: n } => r matches Ok(t) && atype_view(t) == typ && next == n,
        TypeRes::Fail { err, next: n } => (r matches Err(e) && e == err) && next == n,
    }
}

/// Parses one type annotation at the cursor, returning the spanned type or
/// the first error, exactly as `spec_parse_type` describes.
pub fn parse_type(buf: &mut Buffer, src: &str) -> (r: Result<AType, ACompileError>)
    requires
        src.is_ascii(),
        toks_in_src(old(buf).toks@, src@),
    ensures
        final(buf).toks@ == old(buf).toks@,
        tres_match(
            spec_parse_type(old(buf).toks@, src@, old(buf).idx as int, Seq::empty()),
            r,
            final(buf).idx as int,
        ),
{
    let ghost toks = buf.toks@;
    let ghost i0 = buf.idx as int;
    let mut typ_opers: Vec<(TypeOperators, Span)> = Vec::new();

    loop
        invariant
            buf.toks@ == toks,
            spec_parse_type(toks, src@, i0, Seq::empty()) == spec_parse_type(
                toks,
                src@,
                buf.idx as int,
                typ_opers@,
            ),
        decreases toks.len() - buf.idx,
    {
        let ghost i = buf.idx as int;
        let ghost mods = typ_opers@;
        match buf.next() {
            None => {
                return Err((ParseError::RanOutTokens, buf.prev_span_or_zero()));
            },
            Some((Token::Ident, span)) => {
                let name = String::from_str(src.substring_ascii(span.start, span.end));
                let mut typ: AType = (Type::Named(name), span);
                let ghost base = atype_view(typ);
                let ghost iret = buf.idx;
                let mut j: usize = typ_opers.len();
                proof {
                    assert(mods.subrange(0, j as int) =~= mods);
                }
                while j > 0
                    invariant
                        j <= typ_opers.len(),
                        typ_opers@ == mods,
                        buf.toks@ == toks,
                        buf.idx == iret,
                        spec_wrap(mods.subrange(0, j as int), atype_view(typ)) == spec_wrap(
                            mods,
                            base,
                        ),
                    decreases j,
                {
                    let (m, sp) = typ_opers[j - 1];
                    let ghost pre = mods.subrange(0, j as int);
                    proof {
                        assert(pre.last() == mods[j - 1]);
                        assert(pre.drop_last() =~= mods.subrange(0, j - 1));
                    }
                    typ = match m {
                        TypeOperators::Pointer => (Type::Pointer(Box::new(typ)), sp),
                        TypeOperators::Slice => (Type::Slice(Box::new(typ)), sp),
                        TypeOperators::Array(n) => (Type::Array(Box::new(typ), n), sp),
                    };
                    j = j - 1;
                }
                return Ok(typ);
            },
            Some((Token::Operator(Operator::BAnd), span)) => {
                typ_opers.push((TypeOperators::Pointer, span));
            },
            Some((Token::Operator(Operator::LAnd), span)) => {
                let mid: usize = if span.start < span.end {
                    span.start + 1
                } else {
                    span.end
                };
                typ_opers.push((TypeOperators::Pointer, Span { start: span.start, end: mid }));
                typ_opers.push((TypeOperators::Pointer, Span { start: mid, end: span.end }));
            },
            Some((Token::SqBracketS, span)) => {
                match buf.next() {
                    None => {
                        return Err((ParseError::RanOutTokens, buf.prev_span_or_zero()));
                    },
                    Some((Token::SqBracketE, sp)) => {
                        typ_opers.push(
                            (TypeOperators::Slice, Span { start: span.start, end: sp.end }),
                        );
                    },
                    Some((Token::Integer(n), sp)) => {
                        match buf.next() {
                            None => {
                                return Err((ParseError::RanOutTokens, buf.prev_span_or_zero()));
                            },
                            Some((Token::SqBracketE, _)) => {
                                typ_opers.push(
                                    (
                                        TypeOperators::Array(n),
                                        Span { start: span.start, end: sp.end },
                                    ),
                                );
                            },
                            Some((_, s2)) => {
                                return Err((ParseError::UnexpectedToken, s2));
                            },
                        }
                    },
                    Some((_, sp)) => {
                        return Err((ParseError::UnexpectedToken, sp));
                    },
                }
            },
            Some((_, span)) => {
                return Err((ParseError::UnexpectedToken, span));
            },
        }
    }
}

} // verus!
