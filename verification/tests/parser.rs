use parsefront::ast::{Expr, Node, ParseError, Type};
use parsefront::buffer::Buffer;
use parsefront::expr::parse_expr;
use parsefront::span::Span;
use parsefront::stmt::parse;
use parsefront::token::{Operator, Token};
use parsefront::types::parse_type;

fn sp(start: usize, end: usize) -> Span {
    Span { start, end }
}

fn buf(toks: Vec<(Token, Span)>) -> Buffer {
    Buffer::new(toks)
}

fn lit(v: i128, start: usize, end: usize) -> (Expr, Span) {
    (Expr::Integer(v), sp(start, end))
}

fn id(name: &str, start: usize, end: usize) -> (Expr, Span) {
    (Expr::Ident(name.to_string()), sp(start, end))
}

fn bi(op: Operator, lhs: (Expr, Span), rhs: (Expr, Span), start: usize, end: usize) -> (Expr, Span) {
    (Expr::BiOp { lhs: Box::new(lhs), rhs: Box::new(rhs), op }, sp(start, end))
}

fn un(op: Operator, operand: (Expr, Span), start: usize, end: usize) -> (Expr, Span) {
    (Expr::UnOp { operand: Box::new(operand), op }, sp(start, end))
}

#[test]
fn precedence_mul_binds_tighter_right() {
    // 1 + 2 * 3  ->  Add(1, Mlt(2, 3))
    let src = "1+2*3;";
    let mut b = buf(vec![
        (Token::Integer(1), sp(0, 1)),
        (Token::Operator(Operator::Add), sp(1, 2)),
        (Token::Integer(2), sp(2, 3)),
        (Token::Operator(Operator::Mlt), sp(3, 4)),
        (Token::Integer(3), sp(4, 5)),
        (Token::Semicolon, sp(5, 6)),
    ]);
    let r = parse_expr(&mut b, src).unwrap();
    let expected = bi(
        Operator::Add,
        lit(1, 0, 1),
        bi(Operator::Mlt, lit(2, 2, 3), lit(3, 4, 5), 2, 5),
        0,
        5,
    );
    assert_eq!(r, expected);
}

#[test]
fn precedence_mul_binds_tighter_left() {
    // 1 * 2 + 3  ->  Add(Mlt(1, 2), 3)
    let src = "1*2+3;";
    let mut b = buf(vec![
        (Token::Integer(1), sp(0, 1)),
        (Token::Operator(Operator::Mlt), sp(1, 2)),
        (Token::Integer(2), sp(2, 3)),
        (Token::Operator(Operator::Add), sp(3, 4)),
        (Token::Integer(3), sp(4, 5)),
        (Token::Semicolon, sp(5, 6)),
    ]);
    let r = parse_expr(&mut b, src).unwrap();
    let expected = bi(
        Operator::Add,
        bi(Operator::Mlt, lit(1, 0, 1), lit(2, 2, 3), 0, 3),
        lit(3, 4, 5),
        0,
        5,
    );
    assert_eq!(r, expected);
}

#[test]
fn assignment_is_right_associative() {
    // a = b = c  ->  Assign(a, Assign(b, c))
    let src = "a=b=c;";
    let mut b = buf(vec![
        (Token::Ident, sp(0, 1)),
        (Token::Operator(Operator::Assign), sp(1, 2)),
        (Token::Ident, sp(2, 3)),
        (Token::Operator(Operator::Assign), sp(3, 4)),
        (Token::Ident, sp(4, 5)),
        (Token::Semicolon, sp(5, 6)),
    ]);
    let r = parse_expr(&mut b, src).unwrap();
    let expected = bi(
        Operator::Assign,
        id("a", 0, 1),
        bi(Operator::Assign, id("b", 2, 3), id("c", 4, 5), 2, 5),
        0,
        5,
    );
    assert_eq!(r, expected);
}

#[test]
fn subtraction_is_left_associative() {
    // a - b - c  ->  Sub(Sub(a, b), c)
    let src = "a-b-c;";
    let mut b = buf(vec![
        (Token::Ident, sp(0, 1)),
        (Token::Operator(Operator::Sub), sp(1, 2)),
        (Token::Ident, sp(2, 3)),
        (Token::Operator(Operator::Sub), sp(3, 4)),
        (Token::Ident, sp(4, 5)),
        (Token::Semicolon, sp(5, 6)),
    ]);
    let r = parse_expr(&mut b, src).unwrap();
    let expected = bi(
        Operator::Sub,
        bi(Operator::Sub, id("a", 0, 1), id("b", 2, 3), 0, 3),
        id("c", 4, 5),
        0,
        5,
    );
    assert_eq!(r, expected);
}

#[test]
fn unary_binary_disambiguation() {
    // -a * -b  ->  Mlt(Neg(a), Neg(b))
    let src = "-a*-b;";
    let mut b = buf(vec![
        (Token::Operator(Operator::Sub), sp(0, 1)),
        (Token::Ident, sp(1, 2)),
        (Token::Operator(Operator::Mlt), sp(2, 3)),
        (Token::Operator(Operator::Sub), sp(3, 4)),
        (Token::Ident, sp(4, 5)),
        (Token::Semicolon, sp(5, 6)),
    ]);
    let r = parse_expr(&mut b, src).unwrap();
    let expected = bi(
        Operator::Mlt,
        un(Operator::Sub, id("a", 1, 2), 0, 2),
        un(Operator::Sub, id("b", 4, 5), 3, 5),
        0,
        5,
    );
    assert_eq!(r, expected);
}

#[test]
fn call_with_arguments() {
    // f(a, b+1)  ->  FnCall{callee: f, args: [a, Add(b, 1)]}
    let src = "f(a,b+1);";
    let mut b = buf(vec![
        (Token::Ident, sp(0, 1)),
        (Token::RoBracketS, sp(1, 2)),
        (Token::Ident, sp(2, 3)),
        (Token::Comma, sp(3, 4)),
        (Token::Ident, sp(4, 5)),
        (Token::Operator(Operator::Add), sp(5, 6)),
        (Token::Integer(1), sp(6, 7)),
        (Token::RoBracketE, sp(7, 8)),
        (Token::Semicolon, sp(8, 9)),
    ]);
    let r = parse_expr(&mut b, src).unwrap();
    let expected = (
        Expr::FnCall {
            callee: Box::new(id("f", 0, 1)),
            args: vec![id("a", 2, 3), bi(Operator::Add, id("b", 4, 5), lit(1, 6, 7), 4, 7)],
        },
        sp(0, 7),
    );
    assert_eq!(r, expected);
}

#[test]
fn call_with_no_arguments() {
    let src = "f();";
    let mut b = buf(vec![
        (Token::Ident, sp(0, 1)),
        (Token::RoBracketS, sp(1, 2)),
        (Token::RoBracketE, sp(2, 3)),
        (Token::Semicolon, sp(3, 4)),
    ]);
    let r = parse_expr(&mut b, src).unwrap();
    let expected = (
        Expr::FnCall { callee: Box::new(id("f", 0, 1)), args: vec![] },
        sp(0, 2),
    );
    assert_eq!(r, expected);
}

#[test]
fn chained_indexing() {
    // a[0][1]  ->  Index(Index(a, 0), 1)
    let src = "a[0][1];";
    let mut b = buf(vec![
        (Token::Ident, sp(0, 1)),
        (Token::SqBracketS, sp(1, 2)),
        (Token::Integer(0), sp(2, 3)),
        (Token::SqBracketE, sp(3, 4)),
        (Token::SqBracketS, sp(4, 5)),
        (Token::Integer(1), sp(5, 6)),
        (Token::SqBracketE, sp(6, 7)),
        (Token::Semicolon, sp(7, 8)),
    ]);
    let r = parse_expr(&mut b, src).unwrap();
    let inner = (
        Expr::Index { base: Box::new(id("a", 0, 1)), index: Box::new(lit(0, 2, 3)) },
        sp(0, 3),
    );
    let expected = (
        Expr::Index { base: Box::new(inner), index: Box::new(lit(1, 5, 6)) },
        sp(0, 6),
    );
    assert_eq!(r, expected);
}

#[test]
fn type_double_pointer_token_splits() {
    // &&int  ->  Pointer(Pointer(Named("int"))), the two-character token's
    // span split at its midpoint
    let src = "&&int";
    let mut b = buf(vec![
        (Token::Operator(Operator::LAnd), sp(0, 2)),
        (Token::Ident, sp(2, 5)),
    ]);
    let r = parse_type(&mut b, src).unwrap();
    let expected = (
        Type::Pointer(Box::new((
            Type::Pointer(Box::new((Type::Named("int".to_string()), sp(2, 5)))),
            sp(1, 2),
        ))),
        sp(0, 1),
    );
    assert_eq!(r, expected);
}

#[test]
fn type_array_of_named() {
    // [3]int  ->  Array(Named("int"), 3)
    let src = "[3]int";
    let mut b = buf(vec![
        (Token::SqBracketS, sp(0, 1)),
        (Token::Integer(3), sp(1, 2)),
        (Token::SqBracketE, sp(2, 3)),
        (Token::Ident, sp(3, 6)),
    ]);
    let r = parse_type(&mut b, src).unwrap();
    let expected = (
        Type::Array(Box::new((Type::Named("int".to_string()), sp(3, 6))), 3),
        sp(0, 2),
    );
    assert_eq!(r, expected);
}

#[test]
fn type_slice_of_pointer() {
    // []&int  ->  Slice(Pointer(Named("int")))
    let src = "[]&int";
    let mut b = buf(vec![
        (Token::SqBracketS, sp(0, 1)),
        (Token::SqBracketE, sp(1, 2)),
        (Token::Operator(Operator::BAnd), sp(2, 3)),
        (Token::Ident, sp(3, 6)),
    ]);
    let r = parse_type(&mut b, src).unwrap();
    let expected = (
        Type::Slice(Box::new((
            Type::Pointer(Box::new((Type::Named("int".to_string()), sp(3, 6)))),
            sp(2, 3),
        ))),
        sp(0, 2),
    );
    assert_eq!(r, expected);
}

#[test]
fn mismatched_bracket_closing_call() {
    // f(a]  ->  BracketNotMatch at the `]`
    let src = "f(a]";
    let mut b = buf(vec![
        (Token::Ident, sp(0, 1)),
        (Token::RoBracketS, sp(1, 2)),
        (Token::Ident, sp(2, 3)),
        (Token::SqBracketE, sp(3, 4)),
    ]);
    let r = parse_expr(&mut b, src);
    assert_eq!(r, Err((ParseError::BracketNotMatch, sp(3, 4))));
}

#[test]
fn unclosed_group_is_unended_bracket() {
    // (a with no close  ->  UnendedBracket
    let src = "(a";
    let mut b = buf(vec![
        (Token::RoBracketS, sp(0, 1)),
        (Token::Ident, sp(1, 2)),
    ]);
    let r = parse_expr(&mut b, src);
    assert_eq!(r, Err((ParseError::UnendedBracket, sp(0, 1))));
}

#[test]
fn recovery_reports_both_malformed_statements() {
    // two malformed statements separated by `;`: exactly two errors, no AST
    let src = "var 1;var 2;";
    let mut b = buf(vec![
        (Token::Var, sp(0, 3)),
        (Token::Integer(1), sp(4, 5)),
        (Token::Semicolon, sp(5, 6)),
        (Token::Var, sp(6, 9)),
        (Token::Integer(2), sp(10, 11)),
        (Token::Semicolon, sp(11, 12)),
    ]);
    let r = parse(&mut b, src);
    let errs = r.unwrap_err();
    assert_eq!(errs.len(), 2);
    assert_eq!(errs[0], (ParseError::UnexpectedToken, sp(4, 5)));
    assert_eq!(errs[1], (ParseError::UnexpectedToken, sp(10, 11)));
}

#[test]
fn parse_function_declaration() {
    // func f(x int){return x;}
    let src = "func f(x int){return x;}";
    let mut b = buf(vec![
        (Token::Func, sp(0, 4)),
        (Token::Ident, sp(5, 6)),
        (Token::RoBracketS, sp(6, 7)),
        (Token::Ident, sp(7, 8)),
        (Token::Ident, sp(9, 12)),
        (Token::RoBracketE, sp(12, 13)),
        (Token::CuBracketS, sp(13, 14)),
        (Token::Return, sp(14, 20)),
        (Token::Ident, sp(21, 22)),
        (Token::Semicolon, sp(22, 23)),
        (Token::CuBracketE, sp(23, 24)),
    ]);
    let ast = parse(&mut b, src).unwrap();
    assert_eq!(ast.len(), 1);
    match &ast[0].0 {
        Node::FunctionDeclare { ident, params, body } => {
            assert_eq!(ident.0, "f");
            assert_eq!(params.len(), 1);
            assert_eq!(params[0].0.0, "x");
            assert_eq!(params[0].1.0, Type::Named("int".to_string()));
            assert_eq!(body.len(), 1);
            match &body[0].0 {
                Node::Return(Some(e)) => assert_eq!(*e, id("x", 21, 22)),
                other => panic!("unexpected body node: {:?}", other),
            }
        },
        other => panic!("unexpected node: {:?}", other),
    }
    assert_eq!(ast[0].1, sp(0, 13));
}

#[test]
fn parse_var_declarations_and_spans_ordered() {
    let src = "var a=1;var b;a=2;";
    let mut b = buf(vec![
        (Token::Var, sp(0, 3)),
        (Token::Ident, sp(4, 5)),
        (Token::Operator(Operator::Assign), sp(5, 6)),
        (Token::Integer(1), sp(6, 7)),
        (Token::Semicolon, sp(7, 8)),
        (Token::Var, sp(8, 11)),
        (Token::Ident, sp(12, 13)),
        (Token::Semicolon, sp(13, 14)),
        (Token::Ident, sp(14, 15)),
        (Token::Operator(Operator::Assign), sp(15, 16)),
        (Token::Integer(2), sp(16, 17)),
        (Token::Semicolon, sp(17, 18)),
    ]);
    let ast = parse(&mut b, src).unwrap();
    assert_eq!(ast.len(), 3);
    match &ast[0].0 {
        Node::VarDeclare { ident, expr } => {
            assert_eq!(ident.0, "a");
            assert_eq!(*expr, Some(lit(1, 6, 7)));
        },
        other => panic!("unexpected node: {:?}", other),
    }
    match &ast[1].0 {
        Node::VarDeclare { ident, expr } => {
            assert_eq!(ident.0, "b");
            assert_eq!(*expr, None);
        },
        other => panic!("unexpected node: {:?}", other),
    }
    // sibling statement spans are non-overlapping and strictly increasing
    for w in ast.windows(2) {
        assert!(w[0].1.end <= w[1].1.start);
        assert!(w[0].1.start < w[1].1.start);
    }
}

#[test]
fn unmatched_closing_brace() {
    let src = "}";
    let mut b = buf(vec![(Token::CuBracketE, sp(0, 1))]);
    let errs = parse(&mut b, src).unwrap_err();
    assert_eq!(errs, vec![(ParseError::UnstartedBracket, sp(0, 1))]);
}

#[test]
fn unclosed_function_body() {
    let src = "func f(){";
    let mut b = buf(vec![
        (Token::Func, sp(0, 4)),
        (Token::Ident, sp(5, 6)),
        (Token::RoBracketS, sp(6, 7)),
        (Token::RoBracketE, sp(7, 8)),
        (Token::CuBracketS, sp(8, 9)),
    ]);
    let errs = parse(&mut b, src).unwrap_err();
    assert_eq!(errs, vec![(ParseError::UnendedBracket, sp(0, 8))]);
}

#[test]
fn var_at_end_of_input() {
    let src = "var";
    let mut b = buf(vec![(Token::Var, sp(0, 3))]);
    let errs = parse(&mut b, src).unwrap_err();
    assert_eq!(errs, vec![(ParseError::RanOutTokens, sp(0, 3))]);
}

#[test]
fn empty_initializer_is_expr_parse_error() {
    let src = "var x=;";
    let mut b = buf(vec![
        (Token::Var, sp(0, 3)),
        (Token::Ident, sp(4, 5)),
        (Token::Operator(Operator::Assign), sp(5, 6)),
        (Token::Semicolon, sp(6, 7)),
    ]);
    let errs = parse(&mut b, src).unwrap_err();
    assert_eq!(errs.len(), 1);
    assert_eq!(errs[0].0, ParseError::ExprParseError);
}

#[test]
fn dangling_unary_operator_runs_out_of_operands() {
    let src = "-;";
    let mut b = buf(vec![
        (Token::Operator(Operator::Sub), sp(0, 1)),
        (Token::Semicolon, sp(1, 2)),
    ]);
    let r = parse_expr(&mut b, src);
    assert_eq!(r, Err((ParseError::RanOutOperands, sp(0, 1))));
}

#[test]
fn unclosed_call_is_unended_fn_call() {
    let src = "f(a";
    let mut b = buf(vec![
        (Token::Ident, sp(0, 1)),
        (Token::RoBracketS, sp(1, 2)),
        (Token::Ident, sp(2, 3)),
    ]);
    let r = parse_expr(&mut b, src);
    assert_eq!(r, Err((ParseError::UnendedFnCall, sp(0, 2))));
}

#[test]
fn unstarted_paren_in_expression() {
    let src = ")";
    let mut b = buf(vec![(Token::RoBracketE, sp(0, 1))]);
    let r = parse_expr(&mut b, src);
    assert_eq!(r, Err((ParseError::UnstartedBracket, sp(0, 1))));
}

#[test]
fn type_at_end_of_input_runs_out() {
    let src = "&";
    let mut b = buf(vec![(Token::Operator(Operator::BAnd), sp(0, 1))]);
    let r = parse_type(&mut b, src);
    assert_eq!(r, Err((ParseError::RanOutTokens, sp(0, 0))));
}

#[test]
fn operator_precedence_table() {
    assert_eq!(Operator::Mlt.percedence(false), 11);
    assert_eq!(Operator::Div.percedence(false), 11);
    assert_eq!(Operator::Add.percedence(false), 10);
    assert_eq!(Operator::LSh.percedence(false), 9);
    assert_eq!(Operator::LT.percedence(false), 8);
    assert_eq!(Operator::Eq.percedence(false), 7);
    assert_eq!(Operator::BAnd.percedence(false), 6);
    assert_eq!(Operator::BXOr.percedence(false), 5);
    assert_eq!(Operator::BOr.percedence(false), 4);
    assert_eq!(Operator::LAnd.percedence(false), 3);
    assert_eq!(Operator::LOr.percedence(false), 2);
    assert_eq!(Operator::Assign.percedence(false), 1);
    assert_eq!(Operator::OpAssign(Box::new(Operator::Add)).percedence(false), 1);
    assert_eq!(Operator::Of.percedence(false), 13);
    assert_eq!(Operator::Sub.percedence(true), 12);
    assert_eq!(Operator::Not.percedence(true), 12);
}

#[test]
fn operator_associativity_table() {
    assert!(!Operator::Assign.is_left());
    assert!(!Operator::OpAssign(Box::new(Operator::Sub)).is_left());
    assert!(Operator::Add.is_left());
    assert!(Operator::Mlt.is_left());
    assert!(Operator::LOr.is_left());
}

#[test]
fn grouping_overrides_precedence() {
    // (1+2)*3
    let src = "(1+2)*3;";
    let mut b = buf(vec![
        (Token::RoBracketS, sp(0, 1)),
        (Token::Integer(1), sp(1, 2)),
        (Token::Operator(Operator::Add), sp(2, 3)),
        (Token::Integer(2), sp(3, 4)),
        (Token::RoBracketE, sp(4, 5)),
        (Token::Operator(Operator::Mlt), sp(5, 6)),
        (Token::Integer(3), sp(6, 7)),
        (Token::Semicolon, sp(7, 8)),
    ]);
    let r = parse_expr(&mut b, src).unwrap();
    let expected = bi(
        Operator::Mlt,
        bi(Operator::Add, lit(1, 1, 2), lit(2, 3, 4), 1, 4),
        lit(3, 6, 7),
        1,
        7,
    );
    assert_eq!(r, expected);
}

#[test]
fn adjacent_values_are_rejected() {
    let src = "1 2;";
    let mut b = buf(vec![
        (Token::Integer(1), sp(0, 1)),
        (Token::Integer(2), sp(2, 3)),
        (Token::Semicolon, sp(3, 4)),
    ]);
    let r = parse_expr(&mut b, src);
    assert_eq!(r, Err((ParseError::UnexpectedToken, sp(2, 3))));
}
