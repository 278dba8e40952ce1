use mussel::lexer::lex;
use mussel::token::Token;

fn kinds(src: &[u8]) -> Vec<Token> {
    lex(src)
        .expect("lexing should succeed")
        .iter()
        .map(|t| t.token_type)
        .collect()
}

#[test]
fn lex_simple_statement() {
    let toks = lex(b"let x = 1").expect("lex");
    assert_eq!(toks.len(), 4);
    assert_eq!(toks[0].token_type, Token::Let);
    assert_eq!(toks[1].token_type, Token::Identifier);
    assert_eq!(toks[2].token_type, Token::Equals);
    assert_eq!(toks[3].token_type, Token::Integer);
    assert_eq!((toks[1].offset, toks[1].length), (4, 1));
    assert_eq!((toks[3].offset, toks[3].length), (8, 1));
}

#[test]
fn lex_two_char_operators_before_one_char() {
    assert_eq!(
        kinds(b"== != <= >= = < >"),
        vec![
            Token::EqualsEquals,
            Token::NotEquals,
            Token::LessThanEquals,
            Token::GreaterThanEquals,
            Token::Equals,
            Token::LessThan,
            Token::GreaterThan,
        ]
    );
}

#[test]
fn lex_number_forms() {
    assert_eq!(
        kinds(b"12 -3 1.5 -2.25"),
        vec![Token::Integer, Token::Integer, Token::Float, Token::Float]
    );
}

#[test]
fn lex_negative_number_binds_tighter_than_minus() {
    // maximal munch: `5-3` reads as the integer 5 followed by the
    // integer -3, not as a subtraction
    assert_eq!(kinds(b"5-3"), vec![Token::Integer, Token::Integer]);
    // with spaces the minus stands alone
    assert_eq!(kinds(b"5 - 3"), vec![Token::Integer, Token::Minus, Token::Integer]);
}

#[test]
fn lex_unknown_symbol_reports_offset() {
    let err = lex(b"let @").expect_err("at-sign is no token");
    assert_eq!(err.index, 4);
}

#[test]
fn lex_adjacent_floats_fail_at_the_second_dot() {
    // two float shapes glued together: maximal munch strands the dot
    let err = lex(b"1.21.2").expect_err("stranded dot");
    assert_eq!(err.index, 4);
}

#[test]
fn lex_filters_whitespace_and_comments() {
    assert_eq!(kinds(b"a // note\nb"), vec![Token::Identifier, Token::Identifier]);
    assert_eq!(kinds(b"a /* note */ b"), vec![Token::Identifier, Token::Identifier]);
    assert_eq!(kinds(b"  \t\r\n"), vec![]);
}

#[test]
fn lex_unclosed_line_comment_falls_back_to_slashes() {
    // a line comment must reach a newline; without one the slashes are
    // two division tokens
    assert_eq!(
        kinds(b"//x"),
        vec![Token::RSlash, Token::RSlash, Token::Identifier]
    );
}

#[test]
fn lex_string_span_keeps_the_quotes() {
    let toks = lex(b"\"hi\"").expect("lex");
    assert_eq!(toks.len(), 1);
    assert_eq!(toks[0].token_type, Token::String);
    assert_eq!((toks[0].offset, toks[0].length), (0, 4));
    assert_eq!(toks[0].get_content(b"\"hi\""), b"\"hi\"".to_vec());
}

#[test]
fn lex_unterminated_string_fails() {
    let err = lex(b"\"ab").expect_err("no closing quote");
    assert_eq!(err.index, 0);
}

#[test]
fn lex_keywords_and_booleans() {
    assert_eq!(
        kinds(b"fn include for in if else until let return and or not true false ident"),
        vec![
            Token::Fn,
            Token::Include,
            Token::For,
            Token::In,
            Token::If,
            Token::Else,
            Token::Until,
            Token::Let,
            Token::Return,
            Token::And,
            Token::Or,
            Token::Not,
            Token::Boolean,
            Token::Boolean,
            Token::Identifier,
        ]
    );
}

#[test]
fn lex_keyword_prefix_is_an_identifier() {
    assert_eq!(kinds(b"letter iffy"), vec![Token::Identifier, Token::Identifier]);
}

#[test]
fn lex_punctuation() {
    assert_eq!(
        kinds(b"( ) [ ] { } , | \\ + * /"),
        vec![
            Token::LParenthesis,
            Token::RParenthesis,
            Token::LBracket,
            Token::RBracket,
            Token::LBrace,
            Token::RBrace,
            Token::Comma,
            Token::Bar,
            Token::LSlash,
            Token::Plus,
            Token::Star,
            Token::RSlash,
        ]
    );
}
