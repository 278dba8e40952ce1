use mussel::ast::Expression;
use mussel::expr::{Atom, BinOp, Expr};
use mussel::lexer::lex;
use mussel::lower::LoweringErrorKind;
use mussel::parser::{offset_to_line_column, parser, ParseError};
use mussel::token::{Token, TokenRecord};

fn parse_src(src: &[u8]) -> Result<Vec<Expression>, ParseError> {
    let toks = lex(src).expect("lexing should succeed");
    parser(&toks)
}

fn lower_src(src: &[u8]) -> Vec<Expr> {
    let parsed = parse_src(src).expect("parsing should succeed");
    Expr::from_parser(src, parsed).expect("lowering should succeed")
}

#[test]
fn parse_empty_input_is_empty_program() {
    let r = parser(&[]).expect("empty parses");
    assert_eq!(r.len(), 0);
}

#[test]
fn parse_precedence_multiplication_binds_tighter() {
    // "1 + 2 * 3" lowers to Binary(1, Add, Binary(2, Mul, 3))
    let lowered = lower_src(b"1 + 2 * 3");
    assert_eq!(lowered.len(), 1);
    match &lowered[0] {
        Expr::Binary(l, BinOp::Add, r) => {
            assert!(matches!(**l, Expr::Constant(Atom::Number(1))));
            match &**r {
                Expr::Binary(rl, BinOp::Mul, rr) => {
                    assert!(matches!(**rl, Expr::Constant(Atom::Number(2))));
                    assert!(matches!(**rr, Expr::Constant(Atom::Number(3))));
                }
                other => panic!("expected multiplication on the right, got {:?}", other),
            }
        }
        other => panic!("expected addition at the top, got {:?}", other),
    }
}

#[test]
fn parse_trailing_input_is_an_error() {
    let err = parse_src(b"1 )").expect_err("trailing parenthesis");
    match err {
        ParseError::UnexpectedEndOfInput { found } => {
            assert_eq!(found.token_type, Token::RParenthesis);
            assert_eq!(found.offset, 2);
        }
        other => panic!("expected trailing-input error, got {:?}", other),
    }
}

#[test]
fn parse_let_commits_after_keyword() {
    let err = parse_src(b"let 5 = 3").expect_err("let needs a name");
    match err {
        ParseError::UnexpectedToken { found, expected } => {
            assert_eq!(found.token_type, Token::Integer);
            assert_eq!(expected, Token::Identifier);
        }
        other => panic!("expected unexpected-token error, got {:?}", other),
    }
}

#[test]
fn parse_else_takes_block_or_if_only() {
    let err = parse_src(b"if true { } else 5").expect_err("bare else expression");
    match err {
        ParseError::UnexpectedToken { found, expected } => {
            assert_eq!(found.token_type, Token::Integer);
            assert_eq!(expected, Token::LBrace);
        }
        other => panic!("expected unexpected-token error, got {:?}", other),
    }
}

#[test]
fn parse_else_if_chain() {
    let parsed = parse_src(b"if true { } else if false { } else { }").expect("chain parses");
    assert_eq!(parsed.len(), 1);
    match &parsed[0] {
        Expression::If { else_block: Some(eb), .. } => {
            assert_eq!(eb.len(), 1);
            assert!(matches!(eb[0], Expression::If { .. }));
        }
        other => panic!("expected if with else, got {:?}", other),
    }
}

#[test]
fn parse_function_and_call() {
    let parsed = parse_src(b"fn add(a, b) { return a + b } add(2, 3)").expect("parses");
    assert_eq!(parsed.len(), 2);
    assert!(matches!(parsed[0], Expression::Function { .. }));
    assert!(matches!(parsed[1], Expression::Call { .. }));
}

#[test]
fn parse_eof_where_expression_required() {
    let err = parse_src(b"let x =").expect_err("ran out of tokens");
    assert!(matches!(err, ParseError::Eof));
}

#[test]
fn parse_error_offsets() {
    let tok = TokenRecord { token_type: Token::Comma, offset: 9, length: 1 };
    assert_eq!(ParseError::Eof.get_offset(7), 7);
    assert_eq!(
        ParseError::UnexpectedToken { found: tok, expected: Token::Identifier }.get_offset(7),
        9
    );
    assert_eq!(ParseError::UnexpectedEndOfInput { found: tok }.get_offset(7), 9);
}

#[test]
fn offset_to_line_column_resolves_positions() {
    let text = b"ab\ncd";
    assert_eq!(offset_to_line_column(text, 0), Some((1, 1)));
    assert_eq!(offset_to_line_column(text, 2), Some((1, 3)));
    assert_eq!(offset_to_line_column(text, 3), Some((2, 1)));
    assert_eq!(offset_to_line_column(text, 5), Some((2, 3)));
    assert_eq!(offset_to_line_column(text, 6), None);
    assert_eq!(offset_to_line_column(b"", 0), None);
    // an offset just past a trailing newline resolves like the newline
    assert_eq!(offset_to_line_column(b"ab\n", 3), Some((1, 3)));
}

#[test]
fn lower_rejects_unary_assignment_and_logic() {
    let parsed = parse_src(b"-x").expect("unary parses");
    assert!(Expr::from_parser(b"-x", parsed).is_err());
    let parsed = parse_src(b"x = 5").expect("assignment parses");
    assert!(Expr::from_parser(b"x = 5", parsed).is_err());
    let parsed = parse_src(b"a and b").expect("conjunction parses");
    assert!(Expr::from_parser(b"a and b", parsed).is_err());
}

#[test]
fn lower_rejects_indirect_call_targets() {
    let src = b"f()(1)";
    let parsed = parse_src(src).expect("postfix chain parses");
    assert!(Expr::from_parser(src, parsed).is_err());
}

#[test]
fn lower_array_index_must_be_a_literal_integer() {
    let lowered = lower_src(b"a[2]");
    match &lowered[0] {
        Expr::Get(name, index) => {
            assert_eq!(name, &b"a".to_vec());
            assert_eq!(*index, 2);
        }
        other => panic!("expected element access, got {:?}", other),
    }
    let src = b"a[b]";
    let parsed = parse_src(src).expect("parses");
    assert!(Expr::from_parser(src, parsed).is_err());
}

#[test]
fn lower_literals() {
    let lowered = lower_src(b"42 -7 true false \"hey\"");
    assert!(matches!(lowered[0], Expr::Constant(Atom::Number(42))));
    assert!(matches!(lowered[1], Expr::Constant(Atom::Number(-7))));
    assert!(matches!(lowered[2], Expr::Constant(Atom::Boolean(true))));
    assert!(matches!(lowered[3], Expr::Constant(Atom::Boolean(false))));
    match &lowered[4] {
        Expr::Constant(Atom::String(s)) => assert_eq!(s, &b"hey".to_vec()),
        other => panic!("expected string constant, got {:?}", other),
    }
}

#[test]
fn lower_float_literal_to_its_bits() {
    let lowered = lower_src(b"1.5");
    match &lowered[0] {
        Expr::Constant(Atom::Float(bits)) => assert_eq!(*bits, 1.5f64.to_bits()),
        other => panic!("expected float constant, got {:?}", other),
    }
    let lowered = lower_src(b"-2.25");
    match &lowered[0] {
        Expr::Constant(Atom::Float(bits)) => assert_eq!(*bits, (-2.25f64).to_bits()),
        other => panic!("expected float constant, got {:?}", other),
    }
}

#[test]
fn lower_literal_error_kinds() {
    // tokens fabricated over text that does not spell the literal kind
    let content: &[u8] = b"abc";
    let tok = |k| TokenRecord { token_type: k, offset: 0, length: 3 };
    let err = Expr::from_parser(content, vec![Expression::Float(tok(Token::Float))])
        .expect_err("not a float");
    assert_eq!(err.kind, LoweringErrorKind::InvalidFloatLiteral);
    let err = Expr::from_parser(content, vec![Expression::Bool(tok(Token::Boolean))])
        .expect_err("not a boolean");
    assert_eq!(err.kind, LoweringErrorKind::InvalidBooleanLiteral);
    let short = TokenRecord { token_type: Token::String, offset: 0, length: 1 };
    let err = Expr::from_parser(content, vec![Expression::String(short)])
        .expect_err("too short for its quotes");
    assert_eq!(err.kind, LoweringErrorKind::InvalidStringLiteral);
}

#[test]
fn lower_integer_overflow_is_an_error() {
    let src = b"99999999999999999999";
    let parsed = parse_src(src).expect("parses");
    let err = Expr::from_parser(src, parsed).expect_err("out of range");
    assert_eq!(
        err.kind,
        mussel::lower::LoweringErrorKind::InvalidIntegerLiteral
    );
}
