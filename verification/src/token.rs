//! Tokens and operators as the scanner hands them to the parser, together
//! with the precedence and associativity tables of the expression grammar.
use vstd::prelude::*;
use crate::span::Span;

verus! {

/// An operator token. `OpAssign(op)` is the compound assignment `op=`.
#[derive(Debug, PartialEq, Eq)]
pub enum Operator {
    Add,
    Sub,
    Mlt,
    Div,
    Mod,
    Assign,
    OpAssign(Box<Operator>),
    LBrack,
    Eq,
    NE,
    GT,
    GE,
    LT,
    LE,
    BAnd,
    BOr,
    BXOr,
    Not,
    LAnd,
    LOr,
    LSh,
    RSh,
    Of,
}

/// One lexical token. Identifier text is not stored here: an `Ident` token's
/// characters are recovered from the source through its span.
#[derive(Debug, PartialEq, Eq)]
pub enum Token {
    Integer(u128),
    Ident,
    Semicolon,
    RoBracketS,
    RoBracketE,
    SqBracketS,
    SqBracketE,
    CuBracketS,
    CuBracketE,
    Operator(Operator),
    Var,
    Break,
    Continue,
    Return,
    Func,
    Comma,
    NewLine,
    NoneToken,
}

impl Clone for Operator {
    /// A deep copy, equal to the original.
    fn clone(&self) -> (r: Operator)
        ensures
            r == *self,
        decreases self,
    {
        match self {
            Operator::Add => Operator::Add,
            Operator::Sub => Operator::Sub,
            Operator::Mlt => Operator::Mlt,
            Operator::Div => Operator::Div,
            Operator::Mod => Operator::Mod,
            Operator::Assign => Operator::Assign,
            Operator::OpAssign(inner) => Operator::OpAssign(Box::new((**inner).clone())),
            Operator::LBrack => Operator::LBrack,
            Operator::Eq => Operator::Eq,
            Operator::NE => Operator::NE,
            Operator::GT => Operator::GT,
            Operator::GE => Operator::GE,
            Operator::LT => Operator::LT,
            Operator::LE => Operator::LE,
            Operator::BAnd => Operator::BAnd,
            Operator::BOr => Operator::BOr,
            Operator::BXOr => Operator::BXOr,
            Operator::Not => Operator::Not,
            Operator::LAnd => Operator::LAnd,
            Operator::LOr => Operator::LOr,
            Operator::LSh => Operator::LSh,
            Operator::RSh => Operator::RSh,
            Operator::Of => Operator::Of,
        }
    }
}

impl Clone for Token {
    /// A deep copy, equal to the original.
    fn clone(&self) -> (r: Token)
        ensures
            r == *self,
    {
        match self {
            Token::Integer(i) => Token::Integer(*i),
            Token::Ident => Token::Ident,
            Token::Semicolon => Token::Semicolon,
            Token::RoBracketS => Token::RoBracketS,
            Token::RoBracketE => Token::RoBracketE,
            Token::SqBracketS => Token::SqBracketS,
            Token::SqBracketE => Token::SqBracketE,
            Token::CuBracketS => Token::CuBracketS,
            Token::CuBracketE => Token::CuBracketE,
            Token::Operator(o) => Token::Operator(o.clone()),
            Token::Var => Token::Var,
            Token::Break => Token::Break,
            Token::Continue => Token::Continue,
            Token::Return => Token::Return,
            Token::Func => Token::Func,
            Token::Comma => Token::Comma,
            Token::NewLine => Token::NewLine,
            Token::NoneToken => Token::NoneToken,
        }
    }
}

/// Whether `op` may stand in unary position: only plus, minus, star and not.
pub open spec fn spec_unary_ok(op: Operator) -> bool {
    op == Operator::Add || op == Operator::Sub || op == Operator::Mlt || op == Operator::Not
}

/// Whether `op` may stand in binary position: every operator but `Not`.
pub open spec fn spec_binary_ok(op: Operator) -> bool {
    op != Operator::Not
}

/// The precedence table of the grammar: call/index and member access bind at
/// 13, unary operators at 12, and the binary operators from multiplicative
/// (11) down to assignment (1).
pub open spec fn spec_percedence(op: Operator, unary: bool) -> nat {
    if unary {
        12
    } else {
        match op {
            Operator::LBrack => 13,
            Operator::Of => 13,
            Operator::Mlt => 11,
            Operator::Div => 11,
            Operator::Mod => 11,
            Operator::Add => 10,
            Operator::Sub => 10,
            Operator::LSh => 9,
            Operator::RSh => 9,
            Operator::LT => 8,
            Operator::LE => 8,
            Operator::GT => 8,
            Operator::GE => 8,
            Operator::Eq => 7,
            Operator::NE => 7,
            Operator::BAnd => 6,
            Operator::BXOr => 5,
            Operator::BOr => 4,
            Operator::LAnd => 3,
            Operator::LOr => 2,
            Operator::Assign => 1,
            Operator::OpAssign(_) => 1,
            Operator::Not => 0,
        }
    }
}

/// Whether `op` is left-associative; only assignment and compound assignment
/// associate to the right.
pub open spec fn spec_is_left(op: Operator) -> bool {
    !(op == Operator::Assign || op matches Operator::OpAssign(_))
}

impl Operator {
    /// The binding strength of this operator in unary or binary position.
    pub fn percedence(&self, unary: bool) -> (r: usize)
        requires
            unary ==> spec_unary_ok(*self),
            !unary ==> spec_binary_ok(*self),
        ensures
            r == spec_percedence(*self, unary),
    {
        if unary {
            12
        } else {
            match self {
                Operator::LBrack | Operator::Of => 13,
                Operator::Mlt | Operator::Div | Operator::Mod => 11,
                Operator::Add | Operator::Sub => 10,
                Operator::LSh | Operator::RSh => 9,
                Operator::LT | Operator::LE | Operator::GT | Operator::GE => 8,
                Operator::Eq | Operator::NE => 7,
                Operator::BAnd => 6,
                Operator::BXOr => 5,
                Operator::BOr => 4,
                Operator::LAnd => 3,
                Operator::LOr => 2,
                Operator::Assign | Operator::OpAssign(_) => 1,
                Operator::Not => 0,
            }
        }
    }

    /// Whether this operator is left-associative.
    pub fn is_left(&self) -> (r: bool)
        ensures
            r == spec_is_left(*self),
    {
        match self {
            Operator::Assign | Operator::OpAssign(_) => false,
            _ => true,
        }
    }
}

} // verus!
