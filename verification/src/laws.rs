use vstd::prelude::*;
use crate::expr::{AtomV, ExprV};
use crate::ast::Expression;
use crate::lexer::{
    comment_spec, digit_end, find_byte, ident_end, is_digit_byte, is_ident_byte,
    is_ident_start_byte, is_ws_byte, keyword_token, lex_from, next_token_spec, number_spec,
    simple_spec, string_spec, ws_end, ws_spec, B_BACKSLASH, B_BANG, B_BAR, B_COMMA, B_DOT, B_EQ,
    B_GT, B_LBRACE, B_LBRACKET, B_LPAREN, B_LT, B_MINUS, B_PLUS, B_QUOTE, B_RBRACE, B_RBRACKET,
    B_RPAREN, B_SLASH, B_SPACE, B_STAR, lemma_next_token_bounds,
};
use crate::literals::{int_lit_value, is_digit_seq, is_int_lit};
use crate::lower::{false_bytes, lower_spec, tok_bytes, true_bytes, NotSupportedOperationError};
use crate::token::{Token, TokenRecord};

verus! {

// ---------------------------------------------------------------------------
// Exact-run lemmas: where a scan of a run must end.
// ---------------------------------------------------------------------------

proof fn lemma_digit_end_is(src: Seq<u8>, a: int, j: int)
    requires
        0 <= a <= j <= src.len(),
        forall|k: int| a <= k < j ==> is_digit_byte(#[trigger] src[k]),
        j < src.len() ==> !is_digit_byte(src[j]),
    ensures
        digit_end(src, a) == j,
    decreases j - a,
{
    if a < j {
        lemma_digit_end_is(src, a + 1, j);
    }
}

proof fn lemma_ident_end_is(src: Seq<u8>, a: int, j: int)
    requires
        0 <= a <= j <= src.len(),
        forall|k: int| a <= k < j ==> is_ident_byte(#[trigger] src[k]),
        j < src.len() ==> !is_ident_byte(src[j]),
    ensures
        ident_end(src, a) == j,
    decreases j - a,
{
    if a < j {
        lemma_ident_end_is(src, a + 1, j);
    }
}

// ---------------------------------------------------------------------------
// Literal round trips: lexing then lowering a literal text gives the
// literal's value.
// ---------------------------------------------------------------------------

/// The single token covering the whole of a one-token text.
pub open spec fn whole_token(src: Seq<u8>, kind: Token) -> TokenRecord {
    TokenRecord { token_type: kind, offset: 0, length: src.len() as usize }
}

/// An integer literal text lexes to exactly one integer token that
/// covers it whole.
pub proof fn lemma_int_literal_lexes(src: Seq<u8>)
    requires
        is_int_lit(src),
        src.len() <= usize::MAX,
    ensures
        lex_from(src, 0) == Ok::<Seq<TokenRecord>, int>(seq![whole_token(src, Token::Integer)]),
{
    let len = src.len() as int;
    let p1: int = if src[0] == B_MINUS {
        1
    } else {
        0
    };
    assert(forall|k: int| p1 <= k < len ==> is_digit_byte(#[trigger] src[k])) by {
        if src[0] == B_MINUS {
            assert(forall|k: int| 1 <= k < len ==> src.skip(1)[k - 1] == #[trigger] src[k]);
            assert(is_digit_seq(src.skip(1)));
        }
    }
    lemma_digit_end_is(src, p1, len);
    assert(!is_digit_byte(B_MINUS));
    assert(ws_spec(src, 0) is None);
    assert(comment_spec(src, 0) is None);
    assert(number_spec(src, 0) == Some((Token::Integer, len)));
    assert(next_token_spec(src, 0) == Some((Token::Integer, len)));
    assert(lex_from(src, len) == Ok::<Seq<TokenRecord>, int>(Seq::empty()));
    assert(seq![whole_token(src, Token::Integer)] + Seq::<TokenRecord>::empty() =~= seq![
        whole_token(src, Token::Integer),
    ]);
}

/// Round-trip fidelity for integers: lexing an in-range integer literal
/// and lowering the one token it produces yields the number the text
/// spells.
pub proof fn lemma_int_literal_round_trip(src: Seq<u8>)
    requires
        is_int_lit(src),
        i64::MIN <= int_lit_value(src) <= i64::MAX,
        src.len() <= usize::MAX,
    ensures
        lex_from(src, 0) == Ok::<Seq<TokenRecord>, int>(seq![whole_token(src, Token::Integer)]),
        lower_spec(src, Expression::Integer(whole_token(src, Token::Integer))) == Ok::<
            ExprV,
            NotSupportedOperationError,
        >(ExprV::Constant(AtomV::Number(int_lit_value(src) as i64))),
{
    lemma_int_literal_lexes(src);
    let t = whole_token(src, Token::Integer);
    assert(tok_bytes(src, t) =~= src);
}

/// A boolean literal text lexes to exactly one boolean token covering it
/// whole, and lowering that token yields the boolean it spells.
pub proof fn lemma_bool_literal_round_trip(src: Seq<u8>)
    requires
        src == true_bytes() || src == false_bytes(),
    ensures
        lex_from(src, 0) == Ok::<Seq<TokenRecord>, int>(seq![whole_token(src, Token::Boolean)]),
        lower_spec(src, Expression::Bool(whole_token(src, Token::Boolean))) == Ok::<
            ExprV,
            NotSupportedOperationError,
        >(ExprV::Constant(AtomV::Boolean(src == true_bytes()))),
{
    let len = src.len() as int;
    assert(forall|k: int| 1 <= k < len ==> is_ident_byte(#[trigger] src[k]));
    lemma_ident_end_is(src, 1, len);
    assert(ws_spec(src, 0) is None);
    assert(comment_spec(src, 0) is None);
    assert(number_spec(src, 0) is None) by {
        lemma_digit_end_is(src, 0, 0);
    }
    assert(simple_spec(src, 0) is None);
    assert(string_spec(src, 0) is None);
    assert(src.subrange(0, len) =~= src);
    assert(keyword_token(src) == Token::Boolean);
    assert(next_token_spec(src, 0) == Some((Token::Boolean, len)));
    assert(lex_from(src, len) == Ok::<Seq<TokenRecord>, int>(Seq::empty()));
    assert(seq![whole_token(src, Token::Boolean)] + Seq::<TokenRecord>::empty() =~= seq![
        whole_token(src, Token::Boolean),
    ]);
    let t = whole_token(src, Token::Boolean);
    assert(tok_bytes(src, t) =~= src);
}

/// A float literal text — sign, digits, a dot at position `d`, digits —
/// lexes to exactly one float token covering it whole, and lowering that
/// token yields the bits the text parses to, when it parses.
pub proof fn lemma_float_literal_lexes(src: Seq<u8>, d: int)
    requires
        src.len() <= usize::MAX,
        0 <= d < src.len() - 1,
        src[d] == B_DOT,
        ({
            let p1: int = if src[0] == B_MINUS {
                1
            } else {
                0
            };
            p1 < d && (forall|k: int| p1 <= k < d ==> is_digit_byte(#[trigger] src[k]))
        }),
        forall|k: int| d < k < src.len() ==> is_digit_byte(#[trigger] src[k]),
    ensures
        lex_from(src, 0) == Ok::<Seq<TokenRecord>, int>(seq![whole_token(src, Token::Float)]),
        lower_spec(src, Expression::Float(whole_token(src, Token::Float))) == (match crate::floats::float_of_text(
            src,
        ) {
            Some(bits) => Ok::<ExprV, NotSupportedOperationError>(
                ExprV::Constant(AtomV::Float(bits)),
            ),
            None => Err::<ExprV, NotSupportedOperationError>(
                NotSupportedOperationError {
                    kind: crate::lower::LoweringErrorKind::InvalidFloatLiteral,
                    token: whole_token(src, Token::Float),
                },
            ),
        }),
{
    let len = src.len() as int;
    let p1: int = if src[0] == B_MINUS {
        1
    } else {
        0
    };
    assert(!is_digit_byte(B_DOT));
    lemma_digit_end_is(src, p1, d);
    lemma_digit_end_is(src, d + 1, len);
    assert(ws_spec(src, 0) is None);
    assert(comment_spec(src, 0) is None);
    assert(number_spec(src, 0) == Some((Token::Float, len)));
    assert(next_token_spec(src, 0) == Some((Token::Float, len)));
    assert(lex_from(src, len) == Ok::<Seq<TokenRecord>, int>(Seq::empty()));
    assert(seq![whole_token(src, Token::Float)] + Seq::<TokenRecord>::empty() =~= seq![
        whole_token(src, Token::Float),
    ]);
    let t = whole_token(src, Token::Float);
    assert(tok_bytes(src, t) =~= src);
}

// ---------------------------------------------------------------------------
// Lexing reproduces the source: concatenating the lexed tokens' slices
// gives back the text minus its whitespace and comments.
// ---------------------------------------------------------------------------

/// The concatenation of the source slices of a token list, in order.
pub open spec fn slices_of(src: Seq<u8>, toks: Seq<TokenRecord>) -> Seq<u8>
    decreases toks.len(),
{
    if toks.len() == 0 {
        Seq::empty()
    } else {
        tok_bytes(src, toks[0]) + slices_of(src, toks.skip(1))
    }
}

/// The bytes of the source from `pos` on with the whitespace and
/// comment spans left out: what remains when each span the token rules
/// recognize is kept or dropped by its kind.
pub open spec fn retained(src: Seq<u8>, pos: int) -> Seq<u8>
    decreases src.len() - pos,
{
    if 0 <= pos < src.len() {
        match next_token_spec(src, pos) {
            Some((kind, end)) => {
                if pos < end <= src.len() {
                    if kind == Token::Ignore {
                        retained(src, end)
                    } else {
                        src.subrange(pos, end) + retained(src, end)
                    }
                } else {
                    Seq::empty()
                }
            },
            None => Seq::empty(),
        }
    } else {
        Seq::empty()
    }
}

/// Wherever lexing succeeds, concatenating each token's exact source
/// slice, in order, reproduces the non-whitespace, non-comment content
/// of the input.
pub proof fn lemma_lex_slices_reproduce(src: Seq<u8>, pos: int)
    requires
        0 <= pos <= src.len(),
        src.len() <= usize::MAX,
        lex_from(src, pos) is Ok,
    ensures
        slices_of(src, lex_from(src, pos)->Ok_0) == retained(src, pos),
    decreases src.len() - pos,
{
    if pos == src.len() {
        assert(slices_of(src, Seq::empty()) =~= retained(src, pos));
    } else {
        lemma_next_token_bounds(src, pos);
        let (kind, end) = next_token_spec(src, pos)->Some_0;
        lemma_lex_slices_reproduce(src, end);
        let rest = lex_from(src, end)->Ok_0;
        if kind == Token::Ignore {
        } else {
            let rec = TokenRecord {
                token_type: kind,
                offset: pos as usize,
                length: (end - pos) as usize,
            };
            assert((seq![rec] + rest)[0] == rec);
            assert((seq![rec] + rest).skip(1) =~= rest);
            assert(tok_bytes(src, rec) =~= src.subrange(pos, end));
        }
    }
}

/// Wherever lexing succeeds, the tokens lie inside the text, in source
/// order, each with a nonempty span, and none of them is the discarded
/// whitespace-or-comment kind.
pub proof fn lemma_lex_tokens_ordered(src: Seq<u8>, pos: int)
    requires
        0 <= pos <= src.len(),
        src.len() <= usize::MAX,
        lex_from(src, pos) is Ok,
    ensures
        forall|i: int|
            0 <= i < lex_from(src, pos)->Ok_0.len() ==> {
                let t = #[trigger] lex_from(src, pos)->Ok_0[i];
                pos <= t.offset && t.length > 0 && t.offset + t.length <= src.len()
                    && t.token_type != Token::Ignore
            },
        forall|i: int, j: int|
            0 <= i < j < lex_from(src, pos)->Ok_0.len() ==> {
                let a = #[trigger] lex_from(src, pos)->Ok_0[i];
                let b = #[trigger] lex_from(src, pos)->Ok_0[j];
                a.offset + a.length <= b.offset
            },
    decreases src.len() - pos,
{
    if pos == src.len() {
    } else {
        lemma_next_token_bounds(src, pos);
        let (kind, end) = next_token_spec(src, pos)->Some_0;
        lemma_lex_tokens_ordered(src, end);
        let rest = lex_from(src, end)->Ok_0;
        if kind == Token::Ignore {
            assert(forall|i: int|
                0 <= i < rest.len() ==> pos <= #[trigger] rest[i].offset) by {
                assert(forall|i: int| 0 <= i < rest.len() ==> end <= #[trigger] rest[i].offset);
            }
        } else {
            let rec = TokenRecord {
                token_type: kind,
                offset: pos as usize,
                length: (end - pos) as usize,
            };
            let toks = seq![rec] + rest;
            assert(toks[0] == rec);
            assert(forall|i: int| 1 <= i < toks.len() ==> #[trigger] toks[i] == rest[i - 1]);
        }
    }
}

// ---------------------------------------------------------------------------
// Lexing is total over the documented token shapes: any sequence of
// shape-words joined by single spaces lexes without an unknown-symbol
// failure, to exactly one token per word.  (The claim needs the space
// separators: adjacent shapes can merge or split under maximal munch.)
// ---------------------------------------------------------------------------

proof fn lemma_find_byte_is(src: Seq<u8>, a: int, j: int, b: u8)
    requires
        0 <= a <= j <= src.len(),
        forall|k: int| a <= k < j ==> #[trigger] src[k] != b,
        j < src.len() ==> src[j] == b,
    ensures
        find_byte(src, a, b) == if j < src.len() { j } else { src.len() as int },
    decreases j - a,
{
    if a < j {
        lemma_find_byte_is(src, a + 1, j, b);
    }
}

proof fn lemma_ws_end_is(src: Seq<u8>, a: int, j: int)
    requires
        0 <= a <= j <= src.len(),
        forall|k: int| a <= k < j ==> is_ws_byte(#[trigger] src[k]),
        j < src.len() ==> !is_ws_byte(src[j]),
    ensures
        ws_end(src, a) == j,
    decreases j - a,
{
    if a < j {
        lemma_ws_end_is(src, a + 1, j);
    }
}

/// A float literal shape: optional minus, digits, a dot, digits.
pub open spec fn is_float_shape(w: Seq<u8>) -> bool {
    let p1: int = if w.len() > 0 && w[0] == B_MINUS {
        1
    } else {
        0
    };
    let d1 = digit_end(w, p1);
    w.len() > 0 && p1 < d1 && d1 < w.len() && w[d1] == B_DOT && d1 + 1 < w.len() && digit_end(
        w,
        d1 + 1,
    ) == w.len()
}

/// A string literal shape: quote, any bytes without a quote, quote.
pub open spec fn is_string_shape(w: Seq<u8>) -> bool {
    w.len() >= 2 && w[0] == B_QUOTE && w[w.len() - 1] == B_QUOTE && (forall|k: int|
        0 < k < w.len() - 1 ==> #[trigger] w[k] != B_QUOTE)
}

/// An identifier-or-keyword shape.
pub open spec fn is_ident_shape(w: Seq<u8>) -> bool {
    w.len() >= 1 && is_ident_start_byte(w[0]) && (forall|k: int|
        0 < k < w.len() ==> is_ident_byte(#[trigger] w[k]))
}

/// The operator or punctuation mark a word spells, if any.
pub open spec fn op_kind(w: Seq<u8>) -> Option<Token> {
    if w == seq![B_EQ, B_EQ] {
        Some(Token::EqualsEquals)
    } else if w == seq![B_BANG, B_EQ] {
        Some(Token::NotEquals)
    } else if w == seq![B_LT, B_EQ] {
        Some(Token::LessThanEquals)
    } else if w == seq![B_GT, B_EQ] {
        Some(Token::GreaterThanEquals)
    } else if w == seq![B_PLUS] {
        Some(Token::Plus)
    } else if w == seq![B_MINUS] {
        Some(Token::Minus)
    } else if w == seq![B_STAR] {
        Some(Token::Star)
    } else if w == seq![B_SLASH] {
        Some(Token::RSlash)
    } else if w == seq![B_BACKSLASH] {
        Some(Token::LSlash)
    } else if w == seq![B_EQ] {
        Some(Token::Equals)
    } else if w == seq![B_LT] {
        Some(Token::LessThan)
    } else if w == seq![B_GT] {
        Some(Token::GreaterThan)
    } else if w == seq![B_LPAREN] {
        Some(Token::LParenthesis)
    } else if w == seq![B_RPAREN] {
        Some(Token::RParenthesis)
    } else if w == seq![B_LBRACKET] {
        Some(Token::LBracket)
    } else if w == seq![B_RBRACKET] {
        Some(Token::RBracket)
    } else if w == seq![B_LBRACE] {
        Some(Token::LBrace)
    } else if w == seq![B_RBRACE] {
        Some(Token::RBrace)
    } else if w == seq![B_COMMA] {
        Some(Token::Comma)
    } else if w == seq![B_BAR] {
        Some(Token::Bar)
    } else {
        None
    }
}

/// A word of the grammar: one of the documented token shapes that the
/// lexer keeps (whitespace and comments are the separators' business).
pub open spec fn is_word_shape(w: Seq<u8>) -> bool {
    is_int_lit(w) || is_float_shape(w) || is_string_shape(w) || is_ident_shape(w) || op_kind(
        w,
    ) is Some
}

/// The token kind a word lexes to.
pub open spec fn word_kind(w: Seq<u8>) -> Token {
    if is_int_lit(w) {
        Token::Integer
    } else if is_float_shape(w) {
        Token::Float
    } else if is_string_shape(w) {
        Token::String
    } else if is_ident_shape(w) {
        keyword_token(w)
    } else {
        match op_kind(w) {
            Some(t) => t,
            None => Token::Ignore,
        }
    }
}

proof fn lemma_word_nonempty(w: Seq<u8>)
    requires
        is_word_shape(w),
    ensures
        w.len() > 0,
        !is_ws_byte(w[0]),
        word_kind(w) != Token::Ignore,
{
    if is_int_lit(w) {
    } else if is_float_shape(w) {
    } else if is_string_shape(w) {
    } else if is_ident_shape(w) {
        assert(keyword_token(w) != Token::Ignore);
    } else {
    }
}

/// A word embedded at `p`, followed by a space or the end of the text,
/// lexes there to exactly one token of the word's kind, covering the
/// word and nothing more.
proof fn lemma_word_token_at(all: Seq<u8>, p: int, w: Seq<u8>)
    requires
        0 <= p,
        p + w.len() <= all.len(),
        all.subrange(p, p + w.len()) == w,
        is_word_shape(w),
        p + w.len() == all.len() || all[p + w.len()] == B_SPACE,
    ensures
        next_token_spec(all, p) == Some((word_kind(w), p + w.len())),
{
    let len = w.len() as int;
    let e = p + len;
    assert forall|k: int| p <= k < e implies #[trigger] all[k] == w[k - p] by {
        assert(all.subrange(p, e)[k - p] == all[k]);
        assert(all.subrange(p, e)[k - p] == w[k - p]);
    }
    lemma_word_nonempty(w);
    assert(all[p] == w[0]);
    if is_int_lit(w) {
        let p1: int = if w[0] == B_MINUS {
            1
        } else {
            0
        };
        assert(forall|k: int| p1 <= k < len ==> is_digit_byte(#[trigger] w[k])) by {
            if w[0] == B_MINUS {
                assert(forall|k: int| 1 <= k < len ==> w.skip(1)[k - 1] == #[trigger] w[k]);
                assert(is_digit_seq(w.skip(1)));
            }
        }
        assert forall|k: int| p + p1 <= k < e implies is_digit_byte(#[trigger] all[k]) by {
            assert(all[k] == w[k - p]);
            assert(is_digit_byte(w[k - p]));
        }
        lemma_digit_end_is(all, p + p1, e);
        assert(ws_spec(all, p) is None);
        assert(comment_spec(all, p) is None);
        assert(number_spec(all, p) == Some((Token::Integer, e)));
    } else if is_float_shape(w) {
        let p1: int = if w[0] == B_MINUS {
            1
        } else {
            0
        };
        let d1 = digit_end(w, p1);
        crate::lexer::lemma_digit_end(w, p1);
        crate::lexer::lemma_digit_end(w, d1 + 1);
        assert forall|k: int| p + p1 <= k < p + d1 implies is_digit_byte(#[trigger] all[k]) by {
            assert(all[k] == w[k - p]);
        }
        lemma_digit_end_is(all, p + p1, p + d1);
        assert forall|k: int| p + d1 + 1 <= k < e implies is_digit_byte(#[trigger] all[k]) by {
            assert(all[k] == w[k - p]);
        }
        lemma_digit_end_is(all, p + d1 + 1, e);
        assert(all[p + d1] == B_DOT);
        assert(ws_spec(all, p) is None);
        assert(comment_spec(all, p) is None);
        assert(number_spec(all, p) == Some((Token::Float, e)));
    } else if is_string_shape(w) {
        assert forall|k: int| p + 1 <= k < e - 1 implies #[trigger] all[k] != B_QUOTE by {
            assert(all[k] == w[k - p]);
        }
        lemma_find_byte_is(all, p + 1, e - 1, B_QUOTE);
        assert(all[e - 1] == B_QUOTE);
        assert(ws_spec(all, p) is None);
        assert(comment_spec(all, p) is None);
        assert(number_spec(all, p) is None) by {
            lemma_digit_end_is(all, p, p);
        }
        assert(simple_spec(all, p) is None);
        assert(string_spec(all, p) == Some((Token::String, e)));
    } else if is_ident_shape(w) {
        assert forall|k: int| p + 1 <= k < e implies is_ident_byte(#[trigger] all[k]) by {
            assert(all[k] == w[k - p]);
        }
        lemma_ident_end_is(all, p + 1, e);
        assert(ws_spec(all, p) is None);
        assert(comment_spec(all, p) is None);
        assert(number_spec(all, p) is None) by {
            lemma_digit_end_is(all, p, p);
        }
        assert(simple_spec(all, p) is None);
        assert(string_spec(all, p) is None);
        assert(all.subrange(p, ident_end(all, p + 1)) =~= w);
        assert(next_token_spec(all, p) == Some((keyword_token(w), e)));
    } else {
        let t = op_kind(w)->Some_0;
        assert(ws_spec(all, p) is None);
        if w == seq![B_SLASH] {
            assert(comment_spec(all, p) is None);
            assert(number_spec(all, p) is None) by {
                lemma_digit_end_is(all, p, p);
            }
            assert(simple_spec(all, p) == Some((Token::RSlash, p + 1)));
        } else if w == seq![B_MINUS] {
            assert(comment_spec(all, p) is None);
            assert(number_spec(all, p) is None) by {
                lemma_digit_end_is(all, p + 1, p + 1);
            }
            assert(simple_spec(all, p) == Some((Token::Minus, p + 1)));
        } else {
            assert(comment_spec(all, p) is None);
            assert(number_spec(all, p) is None) by {
                lemma_digit_end_is(all, p, p);
            }
            assert(simple_spec(all, p) == Some((t, e)));
        }
        assert(next_token_spec(all, p) == Some((t, e)));
    }
}

/// The words joined with single spaces between them.
pub open spec fn join_spaced(words: Seq<Seq<u8>>) -> Seq<u8>
    decreases words.len(),
{
    if words.len() == 0 {
        Seq::empty()
    } else if words.len() == 1 {
        words[0]
    } else {
        words[0] + seq![B_SPACE] + join_spaced(words.skip(1))
    }
}

/// One token per word, with the offsets the spaced layout dictates.
pub open spec fn tokens_of(words: Seq<Seq<u8>>, offset: int) -> Seq<TokenRecord>
    decreases words.len(),
{
    if words.len() == 0 {
        Seq::empty()
    } else {
        seq![
            TokenRecord {
                token_type: word_kind(words[0]),
                offset: offset as usize,
                length: words[0].len() as usize,
            },
        ] + tokens_of(words.skip(1), offset + words[0].len() + 1)
    }
}

proof fn lemma_lex_total_spaced_from(all: Seq<u8>, words: Seq<Seq<u8>>, p: int)
    requires
        0 <= p <= all.len(),
        all.len() <= usize::MAX,
        all.subrange(p, all.len() as int) == join_spaced(words),
        forall|i: int| 0 <= i < words.len() ==> is_word_shape(#[trigger] words[i]),
    ensures
        lex_from(all, p) == Ok::<Seq<TokenRecord>, int>(tokens_of(words, p)),
    decreases words.len(),
{
    let len = all.len() as int;
    if words.len() == 0 {
        assert(join_spaced(words).len() == 0);
        assert(p == len);
    } else {
        let w0 = words[0];
        lemma_word_nonempty(w0);
        let wl = w0.len() as int;
        if words.len() == 1 {
            assert(p + wl == len);
            assert(all.subrange(p, p + wl) =~= w0);
            lemma_word_token_at(all, p, w0);
            let rec = TokenRecord {
                token_type: word_kind(w0),
                offset: p as usize,
                length: wl as usize,
            };
            assert(lex_from(all, len) == Ok::<Seq<TokenRecord>, int>(Seq::empty()));
            assert(seq![rec] + Seq::<TokenRecord>::empty() =~= seq![rec]);
            assert(tokens_of(words.skip(1), p + wl + 1) == Seq::<TokenRecord>::empty());
            assert(tokens_of(words, p) =~= seq![rec]);
        } else {
            let rest = join_spaced(words.skip(1));
            lemma_word_nonempty(words.skip(1)[0]);
            assert(join_spaced(words) == w0 + seq![B_SPACE] + rest);
            assert(p + wl + 1 <= len) by {
                assert(join_spaced(words).len() == wl + 1 + rest.len());
            }
            assert(all.subrange(p, p + wl) =~= w0) by {
                assert(forall|k: int|
                    0 <= k < wl ==> #[trigger] all.subrange(p, len)[k] == all[p + k]);
            }
            assert(all[p + wl] == B_SPACE) by {
                assert(all.subrange(p, len)[wl] == (w0 + seq![B_SPACE] + rest)[wl]);
            }
            lemma_word_token_at(all, p, w0);
            let rec = TokenRecord {
                token_type: word_kind(w0),
                offset: p as usize,
                length: wl as usize,
            };
            // the single separating space lexes as one discarded span
            assert(rest.len() > 0) by {
                assert(words.skip(1).len() >= 1);
                assert(rest == join_spaced(words.skip(1)));
            }
            assert(p + wl + 1 < len) by {
                assert(join_spaced(words).len() == wl + 1 + rest.len());
            }
            assert(all[p + wl + 1] == rest[0]) by {
                assert(all.subrange(p, len)[wl + 1] == all[p + wl + 1]);
                assert(all.subrange(p, len)[wl + 1] == (w0 + seq![B_SPACE] + rest)[wl + 1]);
            }
            assert(rest[0] == words.skip(1)[0][0]) by {
                if words.skip(1).len() == 1 {
                } else {
                    assert(rest == words.skip(1)[0] + seq![B_SPACE] + join_spaced(
                        words.skip(1).skip(1),
                    ));
                }
            }
            assert(!is_ws_byte(all[p + wl + 1]));
            lemma_ws_end_is(all, p + wl, p + wl + 1);
            assert(ws_spec(all, p + wl) == Some((Token::Ignore, p + wl + 1)));
            assert(next_token_spec(all, p + wl) == Some((Token::Ignore, p + wl + 1)));
            assert(all.subrange(p, len).len() == wl + 1 + rest.len());
            assert forall|k: int|
                0 <= k < rest.len() implies all.subrange(p + wl + 1, len)[k] == rest[k] by {
                assert(all.subrange(p + wl + 1, len)[k] == all[p + wl + 1 + k]);
                assert(all.subrange(p, len)[wl + 1 + k] == all[p + wl + 1 + k]);
                assert((w0 + seq![B_SPACE] + rest)[wl + 1 + k] == rest[k]);
            }
            assert(all.subrange(p + wl + 1, len) =~= rest);
            lemma_lex_total_spaced_from(all, words.skip(1), p + wl + 1);
            assert(lex_from(all, p + wl) == Ok::<Seq<TokenRecord>, int>(
                tokens_of(words.skip(1), p + wl + 1),
            ));
            assert(lex_from(all, p) == Ok::<Seq<TokenRecord>, int>(
                seq![rec] + tokens_of(words.skip(1), p + wl + 1),
            ));
            assert(tokens_of(words, p) == seq![rec] + tokens_of(words.skip(1), p + wl + 1));
        }
    }
}

/// Lexing is total over the documented token shapes: a text made of
/// shape-words joined by single spaces always lexes — never an
/// unknown-symbol failure — and its tokens are exactly one per word, of
/// the word's kind, at the word's place.  Without the separators the
/// claim fails: maximal munch can merge adjacent shapes or split a
/// shape's remainder.
pub proof fn lemma_lex_total_spaced(words: Seq<Seq<u8>>)
    requires
        join_spaced(words).len() <= usize::MAX,
        forall|i: int| 0 <= i < words.len() ==> is_word_shape(#[trigger] words[i]),
    ensures
        lex_from(join_spaced(words), 0) == Ok::<Seq<TokenRecord>, int>(tokens_of(words, 0)),
{
    let all = join_spaced(words);
    assert(all.subrange(0, all.len() as int) =~= all);
    lemma_lex_total_spaced_from(all, words, 0);
}

} // verus!
