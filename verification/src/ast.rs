//! The abstract syntax tree handed to the later passes, the parse error
//! kinds, and the source-order well-formedness of a parsed scope.
use vstd::prelude::*;
use crate::span::Span;
use crate::token::Operator;

verus! {

/// An expression paired with the span it covers.
pub type AExpr = (Expr, Span);

/// A type annotation paired with the span it covers.
pub type AType = (Type, Span);

/// A statement node paired with the span it covers.
pub type ANode = (Node, Span);

/// An identifier's text paired with the span it covers.
pub type AString = (String, Span);

/// One lexical scope: its statements in source order.
pub type AST = Vec<ANode>;

/// An error kind paired with the span it was reported at.
pub type ACompileError = (ParseError, Span);

/// One expression tree node.
#[derive(Debug, PartialEq)]
pub enum Expr {
    Integer(i128),
    Ident(String),
    BiOp { lhs: Box<AExpr>, rhs: Box<AExpr>, op: Operator },
    UnOp { operand: Box<AExpr>, op: Operator },
    FnCall { callee: Box<AExpr>, args: Vec<AExpr> },
    Index { base: Box<AExpr>, index: Box<AExpr> },
}

/// One type annotation.
#[derive(Debug, PartialEq)]
pub enum Type {
    Named(String),
    Pointer(Box<AType>),
    Slice(Box<AType>),
    Array(Box<AType>, u128),
}

/// One statement.
#[derive(Debug, PartialEq)]
pub enum Node {
    VarDeclare { ident: AString, expr: Option<AExpr> },
    Return(Option<AExpr>),
    FunctionDeclare { ident: AString, params: Vec<(AString, AType, Span)>, body: AST },
    Expr(AExpr),
}

/// The closed set of parse error kinds.
#[derive(Debug, Clone, Copy, PartialEq, Eq, Structural)]
pub enum ParseError {
    UnexpectedToken,
    RanOutTokens,
    UnstartedBracket,
    UnendedBracket,
    UnendedFnCall,
    BracketNotMatch,
    RanOutOperands,
    ExprParseError,
}

/// The mathematical shape of an expression: identifier text is a character
/// sequence, argument lists are sequences.
pub enum ExprV {
    Integer(i128),
    Ident(Seq<char>),
    BiOp { lhs: Box<(ExprV, Span)>, rhs: Box<(ExprV, Span)>, op: Operator },
    UnOp { operand: Box<(ExprV, Span)>, op: Operator },
    FnCall { callee: Box<(ExprV, Span)>, args: Seq<(ExprV, Span)> },
    Index { base: Box<(ExprV, Span)>, index: Box<(ExprV, Span)> },
}

/// The mathematical shape of a type annotation.
pub enum TypeV {
    Named(Seq<char>),
    Pointer(Box<(TypeV, Span)>),
    Slice(Box<(TypeV, Span)>),
    Array(Box<(TypeV, Span)>, u128),
}

/// The mathematical shape of a statement.
pub enum NodeV {
    VarDeclare { ident: (Seq<char>, Span), expr: Option<(ExprV, Span)> },
    Return(Option<(ExprV, Span)>),
    FunctionDeclare {
        ident: (Seq<char>, Span),
        params: Seq<((Seq<char>, Span), (TypeV, Span), Span)>,
        body: Seq<(NodeV, Span)>,
    },
    Expr((ExprV, Span)),
}

/// The shape of an expression tree.
pub open spec fn expr_view(e: Expr) -> ExprV
    decreases e,
{
    match e {
        Expr::Integer(i) => ExprV::Integer(i),
        Expr::Ident(s) => ExprV::Ident(s@),
        Expr::BiOp { lhs, rhs, op } => ExprV::BiOp {
            lhs: Box::new(aexpr_view(*lhs)),
            rhs: Box::new(aexpr_view(*rhs)),
            op: op,
        },
        Expr::UnOp { operand, op } => ExprV::UnOp {
            operand: Box::new(aexpr_view(*operand)),
            op: op,
        },
        Expr::FnCall { callee, args } => ExprV::FnCall {
            callee: Box::new(aexpr_view(*callee)),
            args: aexprs_view(args@),
        },
        Expr::Index { base, index } => ExprV::Index {
            base: Box::new(aexpr_view(*base)),
            index: Box::new(aexpr_view(*index)),
        },
    }
}

/// The shape of a spanned expression.
pub open spec fn aexpr_view(e: AExpr) -> (ExprV, Span)
    decreases e,
{
    (expr_view(e.0), e.1)
}

/// The shapes of a sequence of spanned expressions, in order.
pub open spec fn aexprs_view(s: Seq<AExpr>) -> Seq<(ExprV, Span)>
    decreases s,
{
    if s.len() == 0 {
        Seq::empty()
    } else {
        aexprs_view(s.drop_last()).push(aexpr_view(s.last()))
    }
}

/// The shape of a type annotation.
pub open spec fn type_view(t: Type) -> TypeV
    decreases t,
{
    match t {
        Type::Named(s) => TypeV::Named(s@),
        Type::Pointer(inner) => TypeV::Pointer(Box::new(atype_view(*inner))),
        Type::Slice(inner) => TypeV::Slice(Box::new(atype_view(*inner))),
        Type::Array(inner, n) => TypeV::Array(Box::new(atype_view(*inner)), n),
    }
}

/// The shape of a spanned type annotation.
pub open spec fn atype_view(t: AType) -> (TypeV, Span)
    decreases t,
{
    (type_view(t.0), t.1)
}

/// The shape of a statement.
pub open spec fn node_view(n: Node) -> NodeV
    decreases n,
{
    match n {
        Node::VarDeclare { ident, expr } => NodeV::VarDeclare {
            ident: (ident.0@, ident.1),
            expr: match expr {
                Option::Some(e) => Option::Some(aexpr_view(e)),
                Option::None => Option::None,
            },
        },
        Node::Return(expr) => NodeV::Return(
            match expr {
                Option::Some(e) => Option::Some(aexpr_view(e)),
                Option::None => Option::None,
            },
        ),
        Node::FunctionDeclare { ident, params, body } => NodeV::FunctionDeclare {
            ident: (ident.0@, ident.1),
            params: params@.map_values(
                |p: (AString, AType, Span)| ((p.0.0@, p.0.1), atype_view(p.1), p.2),
            ),
            body: ast_view(body@),
        },
        Node::Expr(e) => NodeV::Expr(aexpr_view(e)),
    }
}

/// The shape of a whole scope, in order.
pub open spec fn ast_view(nodes: Seq<ANode>) -> Seq<(NodeV, Span)>
    decreases nodes,
{
    if nodes.len() == 0 {
        Seq::empty()
    } else {
        ast_view(nodes.drop_last()).push((node_view(nodes.last().0), nodes.last().1))
    }
}

/// Sibling statements of one scope are non-overlapping and strictly
/// increasing in source order.
pub open spec fn siblings_ordered(nodes: Seq<(NodeV, Span)>) -> bool {
    forall|i: int|
        0 <= i && i + 1 < nodes.len() ==> #[trigger] nodes[i].1.end <= nodes[i + 1].1.start
            && nodes[i].1.start < nodes[i + 1].1.start
}

/// Every scope of the tree, this one and those of the function bodies below
/// it, has its siblings in strict source order.
pub open spec fn scope_ordered(nodes: Seq<(NodeV, Span)>) -> bool
    decreases nodes,
{
    siblings_ordered(nodes) && forall|i: int|
        0 <= i < nodes.len() ==> #[trigger] node_ordered(nodes[i].0)
}

/// The scopes below one statement are in strict source order.
pub open spec fn node_ordered(node: NodeV) -> bool
    decreases node,
{
    match node {
        NodeV::FunctionDeclare { body, .. } => scope_ordered(body),
        _ => true,
    }
}

} // verus!
