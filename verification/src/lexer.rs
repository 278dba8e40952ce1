use vstd::prelude::*;
use crate::token::{Token, TokenRecord};

verus! {

/// Error of the lexer: no rule matched at byte offset `index`.
#[derive(Debug, PartialEq, Eq, Clone, Copy, Structural)]
pub struct TokenError {
    pub index: usize,
}

// Byte values of the characters the grammar mentions.
pub const B_TAB: u8 = 9;
pub const B_LF: u8 = 10;
pub const B_CR: u8 = 13;
pub const B_SPACE: u8 = 32;
pub const B_BANG: u8 = 33;
pub const B_QUOTE: u8 = 34;
pub const B_LPAREN: u8 = 40;
pub const B_RPAREN: u8 = 41;
pub const B_STAR: u8 = 42;
pub const B_PLUS: u8 = 43;
pub const B_COMMA: u8 = 44;
pub const B_MINUS: u8 = 45;
pub const B_DOT: u8 = 46;
pub const B_SLASH: u8 = 47;
pub const B_LT: u8 = 60;
pub const B_EQ: u8 = 61;
pub const B_GT: u8 = 62;
pub const B_LBRACKET: u8 = 91;
pub const B_BACKSLASH: u8 = 92;
pub const B_RBRACKET: u8 = 93;
pub const B_LBRACE: u8 = 123;
pub const B_BAR: u8 = 124;
pub const B_RBRACE: u8 = 125;

/// Whitespace, as the lexer discards it: space, tab, carriage return, newline.
pub open spec fn is_ws_byte(b: u8) -> bool {
    b == B_SPACE || b == B_TAB || b == B_CR || b == B_LF
}

/// An ASCII decimal digit.
pub open spec fn is_digit_byte(b: u8) -> bool {
    48 <= b <= 57
}

/// A byte that may start an identifier: ASCII letter or underscore.
pub open spec fn is_ident_start_byte(b: u8) -> bool {
    (65 <= b <= 90) || (97 <= b <= 122) || b == 95
}

/// A byte that may continue an identifier: letter, digit or underscore.
pub open spec fn is_ident_byte(b: u8) -> bool {
    is_ident_start_byte(b) || is_digit_byte(b)
}

/// End of the maximal run of whitespace bytes that starts at `pos`.
pub open spec fn ws_end(src: Seq<u8>, pos: int) -> int
    decreases src.len() - pos,
{
    if 0 <= pos < src.len() && is_ws_byte(src[pos]) {
        ws_end(src, pos + 1)
    } else {
        pos
    }
}

/// End of the maximal run of digit bytes that starts at `pos`.
pub open spec fn digit_end(src: Seq<u8>, pos: int) -> int
    decreases src.len() - pos,
{
    if 0 <= pos < src.len() && is_digit_byte(src[pos]) {
        digit_end(src, pos + 1)
    } else {
        pos
    }
}

/// End of the maximal run of identifier bytes that starts at `pos`.
pub open spec fn ident_end(src: Seq<u8>, pos: int) -> int
    decreases src.len() - pos,
{
    if 0 <= pos < src.len() && is_ident_byte(src[pos]) {
        ident_end(src, pos + 1)
    } else {
        pos
    }
}

/// Index of the first occurrence of `b` at or after `pos`, or `src.len()`
/// if there is none.
pub open spec fn find_byte(src: Seq<u8>, pos: int, b: u8) -> int
    decreases src.len() - pos,
{
    if 0 <= pos < src.len() {
        if src[pos] == b {
            pos
        } else {
            find_byte(src, pos + 1, b)
        }
    } else {
        src.len() as int
    }
}

/// Index of the first `*/` at or after `pos`, or `src.len()` if there is none.
pub open spec fn find_close(src: Seq<u8>, pos: int) -> int
    decreases src.len() - pos,
{
    if 0 <= pos && pos + 1 < src.len() {
        if src[pos] == B_STAR && src[pos + 1] == B_SLASH {
            pos
        } else {
            find_close(src, pos + 1)
        }
    } else {
        src.len() as int
    }
}

/// The token kind of an identifier-shaped word: a keyword kind for the
/// exact keyword spellings, the boolean-literal kind for `true`/`false`,
/// and `Identifier` otherwise.
pub open spec fn keyword_token(w: Seq<u8>) -> Token {
    if w == seq![102u8, 110u8] {  // fn
        Token::Fn
    } else if w == seq![105u8, 110u8, 99u8, 108u8, 117u8, 100u8, 101u8] {  // include
        Token::Include
    } else if w == seq![102u8, 111u8, 114u8] {  // for
        Token::For
    } else if w == seq![105u8, 110u8] {  // in
        Token::In
    } else if w == seq![105u8, 102u8] {  // if
        Token::If
    } else if w == seq![101u8, 108u8, 115u8, 101u8] {  // else
        Token::Else
    } else if w == seq![117u8, 110u8, 116u8, 105u8, 108u8] {  // until
        Token::Until
    } else if w == seq![108u8, 101u8, 116u8] {  // let
        Token::Let
    } else if w == seq![114u8, 101u8, 116u8, 117u8, 114u8, 110u8] {  // return
        Token::Return
    } else if w == seq![116u8, 114u8, 117u8, 101u8] {  // true
        Token::Boolean
    } else if w == seq![102u8, 97u8, 108u8, 115u8, 101u8] {  // false
        Token::Boolean
    } else if w == seq![111u8, 114u8] {  // or
        Token::Or
    } else if w == seq![97u8, 110u8, 100u8] {  // and
        Token::And
    } else if w == seq![110u8, 111u8, 116u8] {  // not
        Token::Not
    } else {
        Token::Identifier
    }
}

/// A whitespace run at `pos`, if any.
pub open spec fn ws_spec(src: Seq<u8>, pos: int) -> Option<(Token, int)> {
    if is_ws_byte(src[pos]) {
        Some((Token::Ignore, ws_end(src, pos)))
    } else {
        None
    }
}

/// A line comment `// ... \n` or a block comment `/* ... */` at `pos`,
/// if any.  A line comment must reach a newline and a block comment its
/// closing `*/`, else the rule does not match.
pub open spec fn comment_spec(src: Seq<u8>, pos: int) -> Option<(Token, int)> {
    if pos + 1 < src.len() && src[pos] == B_SLASH && src[pos + 1] == B_SLASH {
        let n = find_byte(src, pos + 2, B_LF);
        if n < src.len() {
            Some((Token::Ignore, n + 1))
        } else {
            None
        }
    } else if pos + 1 < src.len() && src[pos] == B_SLASH && src[pos + 1] == B_STAR {
        let c = find_close(src, pos + 2);
        if c < src.len() {
            Some((Token::Ignore, c + 2))
        } else {
            None
        }
    } else {
        None
    }
}

/// A numeric literal at `pos`: optional `-`, one or more digits, and an
/// optional `.` followed by one or more digits.  The presence of the dot
/// part selects `Float`, else `Integer`.
pub open spec fn number_spec(src: Seq<u8>, pos: int) -> Option<(Token, int)> {
    let p1 = if src[pos] == B_MINUS { pos + 1 } else { pos };
    let d1 = digit_end(src, p1);
    if d1 == p1 {
        None
    } else if d1 < src.len() && src[d1] == B_DOT && digit_end(src, d1 + 1) > d1 + 1 {
        Some((Token::Float, digit_end(src, d1 + 1)))
    } else {
        Some((Token::Integer, d1))
    }
}

/// An operator or punctuation mark at `pos`: the two-character operators
/// before their one-character prefixes.
pub open spec fn simple_spec(src: Seq<u8>, pos: int) -> Option<(Token, int)> {
    let b = src[pos];
    if pos + 1 < src.len() && b == B_EQ && src[pos + 1] == B_EQ {
        Some((Token::EqualsEquals, pos + 2))
    } else if pos + 1 < src.len() && b == B_BANG && src[pos + 1] == B_EQ {
        Some((Token::NotEquals, pos + 2))
    } else if pos + 1 < src.len() && b == B_LT && src[pos + 1] == B_EQ {
        Some((Token::LessThanEquals, pos + 2))
    } else if pos + 1 < src.len() && b == B_GT && src[pos + 1] == B_EQ {
        Some((Token::GreaterThanEquals, pos + 2))
    } else if b == B_PLUS {
        Some((Token::Plus, pos + 1))
    } else if b == B_MINUS {
        Some((Token::Minus, pos + 1))
    } else if b == B_STAR {
        Some((Token::Star, pos + 1))
    } else if b == B_SLASH {
        Some((Token::RSlash, pos + 1))
    } else if b == B_BACKSLASH {
        Some((Token::LSlash, pos + 1))
    } else if b == B_EQ {
        Some((Token::Equals, pos + 1))
    } else if b == B_LT {
        Some((Token::LessThan, pos + 1))
    } else if b == B_GT {
        Some((Token::GreaterThan, pos + 1))
    } else if b == B_LPAREN {
        Some((Token::LParenthesis, pos + 1))
    } else if b == B_RPAREN {
        Some((Token::RParenthesis, pos + 1))
    } else if b == B_LBRACKET {
        Some((Token::LBracket, pos + 1))
    } else if b == B_RBRACKET {
        Some((Token::RBracket, pos + 1))
    } else if b == B_LBRACE {
        Some((Token::LBrace, pos + 1))
    } else if b == B_RBRACE {
        Some((Token::RBrace, pos + 1))
    } else if b == B_COMMA {
        Some((Token::Comma, pos + 1))
    } else if b == B_BAR {
        Some((Token::Bar, pos + 1))
    } else {
        None
    }
}

/// A string literal at `pos`: a double quote, any bytes other than a
/// double quote, and a closing double quote.  The span keeps the quotes.
pub open spec fn string_spec(src: Seq<u8>, pos: int) -> Option<(Token, int)> {
    if src[pos] == B_QUOTE {
        let q = find_byte(src, pos + 1, B_QUOTE);
        if q < src.len() {
            Some((Token::String, q + 1))
        } else {
            None
        }
    } else {
        None
    }
}

/// An identifier or keyword at `pos`.
pub open spec fn ident_spec(src: Seq<u8>, pos: int) -> Option<(Token, int)> {
    if is_ident_start_byte(src[pos]) {
        let e = ident_end(src, pos + 1);
        Some((keyword_token(src.subrange(pos, e)), e))
    } else {
        None
    }
}

/// The token at position `pos`, by the lexer's rule order: whitespace,
/// comment, number, operator or punctuation, string, identifier.  `None`
/// means no rule matches there and lexing fails at `pos`.
pub open spec fn next_token_spec(src: Seq<u8>, pos: int) -> Option<(Token, int)> {
    if ws_spec(src, pos) is Some {
        ws_spec(src, pos)
    } else if comment_spec(src, pos) is Some {
        comment_spec(src, pos)
    } else if number_spec(src, pos) is Some {
        number_spec(src, pos)
    } else if simple_spec(src, pos) is Some {
        simple_spec(src, pos)
    } else if string_spec(src, pos) is Some {
        string_spec(src, pos)
    } else {
        ident_spec(src, pos)
    }
}

/// The token records of `src` from position `pos` on, whitespace and
/// comments filtered out; or the offset at which no rule matches.
pub open spec fn lex_from(src: Seq<u8>, pos: int) -> Result<Seq<TokenRecord>, int>
    decreases src.len() - pos,
{
    if pos == src.len() {
        Ok(Seq::empty())
    } else if 0 <= pos < src.len() {
        match next_token_spec(src, pos) {
            None => Err(pos),
            Some((kind, end)) => {
                if pos < end <= src.len() {
                    match lex_from(src, end) {
                        Err(i) => Err(i),
                        Ok(rest) => {
                            if kind == Token::Ignore {
                                Ok(rest)
                            } else {
                                Ok(
                                    seq![
                                        TokenRecord {
                                            token_type: kind,
                                            offset: pos as usize,
                                            length: (end - pos) as usize,
                                        },
                                    ] + rest,
                                )
                            }
                        },
                    }
                } else {
                    Err(pos)
                }
            },
        }
    } else {
        Err(pos)
    }
}

// ---------------------------------------------------------------------------
// Characterization of the run-scanning spec functions.
// ---------------------------------------------------------------------------

pub proof fn lemma_ws_end(src: Seq<u8>, pos: int)
    requires
        0 <= pos <= src.len(),
    ensures
        pos <= ws_end(src, pos) <= src.len(),
        forall|k: int| pos <= k < ws_end(src, pos) ==> is_ws_byte(#[trigger] src[k]),
        ws_end(src, pos) < src.len() ==> !is_ws_byte(src[ws_end(src, pos)]),
    decreases src.len() - pos,
{
    if pos < src.len() && is_ws_byte(src[pos]) {
        lemma_ws_end(src, pos + 1);
    }
}

pub proof fn lemma_digit_end(src: Seq<u8>, pos: int)
    requires
        0 <= pos <= src.len(),
    ensures
        pos <= digit_end(src, pos) <= src.len(),
        forall|k: int| pos <= k < digit_end(src, pos) ==> is_digit_byte(#[trigger] src[k]),
        digit_end(src, pos) < src.len() ==> !is_digit_byte(src[digit_end(src, pos)]),
    decreases src.len() - pos,
{
    if pos < src.len() && is_digit_byte(src[pos]) {
        lemma_digit_end(src, pos + 1);
    }
}

pub proof fn lemma_ident_end(src: Seq<u8>, pos: int)
    requires
        0 <= pos <= src.len(),
    ensures
        pos <= ident_end(src, pos) <= src.len(),
        forall|k: int| pos <= k < ident_end(src, pos) ==> is_ident_byte(#[trigger] src[k]),
        ident_end(src, pos) < src.len() ==> !is_ident_byte(src[ident_end(src, pos)]),
    decreases src.len() - pos,
{
    if pos < src.len() && is_ident_byte(src[pos]) {
        lemma_ident_end(src, pos + 1);
    }
}

pub proof fn lemma_find_byte(src: Seq<u8>, pos: int, b: u8)
    requires
        0 <= pos <= src.len(),
    ensures
        pos <= find_byte(src, pos, b) <= src.len(),
        find_byte(src, pos, b) < src.len() ==> src[find_byte(src, pos, b)] == b,
        forall|k: int| pos <= k < find_byte(src, pos, b) ==> #[trigger] src[k] != b,
    decreases src.len() - pos,
{
    if pos < src.len() && src[pos] != b {
        lemma_find_byte(src, pos + 1, b);
    }
}

pub proof fn lemma_find_close(src: Seq<u8>, pos: int)
    requires
        0 <= pos <= src.len(),
    ensures
        pos <= find_close(src, pos) <= src.len(),
        find_close(src, pos) < src.len() ==> find_close(src, pos) + 1 < src.len()
            && src[find_close(src, pos)] == B_STAR && src[find_close(src, pos) + 1] == B_SLASH,
        forall|k: int|
            pos <= k < find_close(src, pos) && k + 1 < src.len() ==> !(#[trigger] src[k] == B_STAR
                && src[k + 1] == B_SLASH),
    decreases src.len() - pos,
{
    if pos + 1 < src.len() && !(src[pos] == B_STAR && src[pos + 1] == B_SLASH) {
        lemma_find_close(src, pos + 1);
    }
}

/// Every token the rule table yields ends after `pos` and within `src`.
pub proof fn lemma_next_token_bounds(src: Seq<u8>, pos: int)
    requires
        0 <= pos < src.len(),
        next_token_spec(src, pos) is Some,
    ensures
        pos < next_token_spec(src, pos)->Some_0.1 <= src.len(),
{
    lemma_ws_end(src, pos);
    lemma_digit_end(src, pos);
    lemma_digit_end(src, pos + 1);
    lemma_find_byte(src, pos + 1, B_QUOTE);
    if pos + 2 <= src.len() {
        lemma_find_byte(src, pos + 2, B_LF);
        lemma_find_close(src, pos + 2);
    }
    lemma_ident_end(src, pos + 1);
    if number_spec(src, pos) is Some {
        let p1: int = if src[pos] == B_MINUS { pos + 1 } else { pos };
        let d1 = digit_end(src, p1);
        lemma_digit_end(src, p1);
        if d1 < src.len() && src[d1] == B_DOT && digit_end(src, d1 + 1) > d1 + 1 {
            lemma_digit_end(src, d1 + 1);
        }
    }
}

// ---------------------------------------------------------------------------
// Executable scanners, one per rule, each proved against its spec.
// ---------------------------------------------------------------------------

fn is_ws(b: u8) -> (r: bool)
    ensures
        r == is_ws_byte(b),
{
    b == B_SPACE || b == B_TAB || b == B_CR || b == B_LF
}

fn is_digit(b: u8) -> (r: bool)
    ensures
        r == is_digit_byte(b),
{
    48 <= b && b <= 57
}

fn is_ident_start(b: u8) -> (r: bool)
    ensures
        r == is_ident_start_byte(b),
{
    (65 <= b && b <= 90) || (97 <= b && b <= 122) || b == 95
}

fn is_ident_char(b: u8) -> (r: bool)
    ensures
        r == is_ident_byte(b),
{
    is_ident_start(b) || is_digit(b)
}

fn ws_scan(src: &[u8], pos: usize) -> (r: usize)
    requires
        pos <= src@.len(),
    ensures
        r == ws_end(src@, pos as int),
{
    let mut i = pos;
    while i < src.len() && is_ws(src[i])
        invariant
            pos <= i <= src@.len(),
            ws_end(src@, pos as int) == ws_end(src@, i as int),
        decreases src@.len() - i,
    {
        i = i + 1;
    }
    i
}

fn digit_scan(src: &[u8], pos: usize) -> (r: usize)
    requires
        pos <= src@.len(),
    ensures
        r == digit_end(src@, pos as int),
{
    let mut i = pos;
    while i < src.len() && is_digit(src[i])
        invariant
            pos <= i <= src@.len(),
            digit_end(src@, pos as int) == digit_end(src@, i as int),
        decreases src@.len() - i,
    {
        i = i + 1;
    }
    i
}

fn ident_scan(src: &[u8], pos: usize) -> (r: usize)
    requires
        pos <= src@.len(),
    ensures
        r == ident_end(src@, pos as int),
{
    let mut i = pos;
    while i < src.len() && is_ident_char(src[i])
        invariant
            pos <= i <= src@.len(),
            ident_end(src@, pos as int) == ident_end(src@, i as int),
        decreases src@.len() - i,
    {
        i = i + 1;
    }
    i
}

pub(crate) fn find_byte_scan(src: &[u8], pos: usize, b: u8) -> (r: usize)
    requires
        pos <= src@.len(),
    ensures
        r == find_byte(src@, pos as int, b),
{
    let mut i = pos;
    while i < src.len() && src[i] != b
        invariant
            pos <= i <= src@.len(),
            find_byte(src@, pos as int, b) == find_byte(src@, i as int, b),
        decreases src@.len() - i,
    {
        i = i + 1;
    }
    i
}

fn find_close_scan(src: &[u8], pos: usize) -> (r: usize)
    requires
        pos <= src@.len(),
    ensures
        r == find_close(src@, pos as int),
{
    let n = src.len();
    let mut i = pos;
    while i < n && i + 1 < n && !(src[i] == B_STAR && src[i + 1] == B_SLASH)
        invariant
            pos <= i <= n,
            n == src@.len(),
            find_close(src@, pos as int) == find_close(src@, i as int),
        decreases n - i,
    {
        i = i + 1;
    }
    if i < n && i + 1 < n {
        i
    } else {
        n
    }
}

/// True when the bytes of `src` in `[start, end)` spell exactly `w`.
fn word_eq(src: &[u8], start: usize, end: usize, w: &[u8]) -> (r: bool)
    requires
        start <= end <= src@.len(),
    ensures
        r <==> src@.subrange(start as int, end as int) == w@,
{
    if end - start != w.len() {
        proof {
            assert(src@.subrange(start as int, end as int).len() == end - start);
        }
        return false;
    }
    let mut i: usize = 0;
    while i < w.len()
        invariant
            i <= w@.len(),
            start <= end <= src@.len(),
            end - start == w@.len(),
            forall|k: int| 0 <= k < i ==> src@.subrange(start as int, end as int)[k] == w@[k],
        decreases w@.len() - i,
    {
        if src[start + i] != w[i] {
            proof {
                assert(src@.subrange(start as int, end as int)[i as int] != w@[i as int]);
            }
            return false;
        }
        i = i + 1;
    }
    proof {
        assert(src@.subrange(start as int, end as int) =~= w@);
    }
    true
}

/// The token kind of the identifier-shaped word in `[start, end)`.
fn classify_word(src: &[u8], start: usize, end: usize) -> (r: Token)
    requires
        start <= end <= src@.len(),
    ensures
        r == keyword_token(src@.subrange(start as int, end as int)),
{
    if word_eq(src, start, end, &['f' as u8, 'n' as u8]) {
        Token::Fn
    } else if word_eq(
        src,
        start,
        end,
        &['i' as u8, 'n' as u8, 'c' as u8, 'l' as u8, 'u' as u8, 'd' as u8, 'e' as u8],
    ) {
        Token::Include
    } else if word_eq(src, start, end, &['f' as u8, 'o' as u8, 'r' as u8]) {
        Token::For
    } else if word_eq(src, start, end, &['i' as u8, 'n' as u8]) {
        Token::In
    } else if word_eq(src, start, end, &['i' as u8, 'f' as u8]) {
        Token::If
    } else if word_eq(src, start, end, &['e' as u8, 'l' as u8, 's' as u8, 'e' as u8]) {
        Token::Else
    } else if word_eq(src, start, end, &['u' as u8, 'n' as u8, 't' as u8, 'i' as u8, 'l' as u8]) {
        Token::Until
    } else if word_eq(src, start, end, &['l' as u8, 'e' as u8, 't' as u8]) {
        Token::Let
    } else if word_eq(
        src,
        start,
        end,
        &['r' as u8, 'e' as u8, 't' as u8, 'u' as u8, 'r' as u8, 'n' as u8],
    ) {
        Token::Return
    } else if word_eq(src, start, end, &['t' as u8, 'r' as u8, 'u' as u8, 'e' as u8]) {
        Token::Boolean
    } else if word_eq(src, start, end, &['f' as u8, 'a' as u8, 'l' as u8, 's' as u8, 'e' as u8]) {
        Token::Boolean
    } else if word_eq(src, start, end, &['o' as u8, 'r' as u8]) {
        Token::Or
    } else if word_eq(src, start, end, &['a' as u8, 'n' as u8, 'd' as u8]) {
        Token::And
    } else if word_eq(src, start, end, &['n' as u8, 'o' as u8, 't' as u8]) {
        Token::Not
    } else {
        Token::Identifier
    }
}

fn try_ws(src: &[u8], pos: usize) -> (r: Option<(Token, usize)>)
    requires
        pos < src@.len(),
    ensures
        match r {
            Some(t) => ws_spec(src@, pos as int) == Some((t.0, t.1 as int)),
            None => ws_spec(src@, pos as int) is None,
        },
{
    if is_ws(src[pos]) {
        Some((Token::Ignore, ws_scan(src, pos)))
    } else {
        None
    }
}

fn try_comment(src: &[u8], pos: usize) -> (r: Option<(Token, usize)>)
    requires
        pos < src@.len(),
    ensures
        match r {
            Some(t) => comment_spec(src@, pos as int) == Some((t.0, t.1 as int)),
            None => comment_spec(src@, pos as int) is None,
        },
{
    let len = src.len();
    if pos + 1 < len && src[pos] == B_SLASH && src[pos + 1] == B_SLASH {
        let n = find_byte_scan(src, pos + 2, B_LF);
        if n < len {
            Some((Token::Ignore, n + 1))
        } else {
            None
        }
    } else if pos + 1 < len && src[pos] == B_SLASH && src[pos + 1] == B_STAR {
        let c = find_close_scan(src, pos + 2);
        proof {
            lemma_find_close(src@, pos + 2);
        }
        if c < len {
            Some((Token::Ignore, c + 2))
        } else {
            None
        }
    } else {
        None
    }
}

fn try_number(src: &[u8], pos: usize) -> (r: Option<(Token, usize)>)
    requires
        pos < src@.len(),
    ensures
        match r {
            Some(t) => number_spec(src@, pos as int) == Some((t.0, t.1 as int)),
            None => number_spec(src@, pos as int) is None,
        },
{
    let p1 = if src[pos] == B_MINUS {
        pos + 1
    } else {
        pos
    };
    let d1 = digit_scan(src, p1);
    proof {
        lemma_digit_end(src@, p1 as int);
    }
    if d1 == p1 {
        None
    } else if d1 < src.len() && src[d1] == B_DOT {
        let d2 = digit_scan(src, d1 + 1);
        proof {
            lemma_digit_end(src@, d1 + 1);
        }
        if d2 > d1 + 1 {
            Some((Token::Float, d2))
        } else {
            Some((Token::Integer, d1))
        }
    } else {
        Some((Token::Integer, d1))
    }
}

fn try_simple(src: &[u8], pos: usize) -> (r: Option<(Token, usize)>)
    requires
        pos < src@.len(),
    ensures
        match r {
            Some(t) => simple_spec(src@, pos as int) == Some((t.0, t.1 as int)),
            None => simple_spec(src@, pos as int) is None,
        },
{
    let len = src.len();
    let b = src[pos];
    if pos + 1 < len && b == B_EQ && src[pos + 1] == B_EQ {
        Some((Token::EqualsEquals, pos + 2))
    } else if pos + 1 < len && b == B_BANG && src[pos + 1] == B_EQ {
        Some((Token::NotEquals, pos + 2))
    } else if pos + 1 < len && b == B_LT && src[pos + 1] == B_EQ {
        Some((Token::LessThanEquals, pos + 2))
    } else if pos + 1 < len && b == B_GT && src[pos + 1] == B_EQ {
        Some((Token::GreaterThanEquals, pos + 2))
    } else if b == B_PLUS {
        Some((Token::Plus, pos + 1))
    } else if b == B_MINUS {
        Some((Token::Minus, pos + 1))
    } else if b == B_STAR {
        Some((Token::Star, pos + 1))
    } else if b == B_SLASH {
        Some((Token::RSlash, pos + 1))
    } else if b == B_BACKSLASH {
        Some((Token::LSlash, pos + 1))
    } else if b == B_EQ {
        Some((Token::Equals, pos + 1))
    } else if b == B_LT {
        Some((Token::LessThan, pos + 1))
    } else if b == B_GT {
        Some((Token::GreaterThan, pos + 1))
    } else if b == B_LPAREN {
        Some((Token::LParenthesis, pos + 1))
    } else if b == B_RPAREN {
        Some((Token::RParenthesis, pos + 1))
    } else if b == B_LBRACKET {
        Some((Token::LBracket, pos + 1))
    } else if b == B_RBRACKET {
        Some((Token::RBracket, pos + 1))
    } else if b == B_LBRACE {
        Some((Token::LBrace, pos + 1))
    } else if b == B_RBRACE {
        Some((Token::RBrace, pos + 1))
    } else if b == B_COMMA {
        Some((Token::Comma, pos + 1))
    } else if b == B_BAR {
        Some((Token::Bar, pos + 1))
    } else {
        None
    }
}

fn try_string(src: &[u8], pos: usize) -> (r: Option<(Token, usize)>)
    requires
        pos < src@.len(),
    ensures
        match r {
            Some(t) => string_spec(src@, pos as int) == Some((t.0, t.1 as int)),
            None => string_spec(src@, pos as int) is None,
        },
{
    if src[pos] == B_QUOTE {
        let q = find_byte_scan(src, pos + 1, B_QUOTE);
        if q < src.len() {
            Some((Token::String, q + 1))
        } else {
            None
        }
    } else {
        None
    }
}

fn try_ident(src: &[u8], pos: usize) -> (r: Option<(Token, usize)>)
    requires
        pos < src@.len(),
    ensures
        match r {
            Some(t) => ident_spec(src@, pos as int) == Some((t.0, t.1 as int)),
            None => ident_spec(src@, pos as int) is None,
        },
{
    if is_ident_start(src[pos]) {
        proof {
            lemma_ident_end(src@, pos + 1);
        }
        let e = ident_scan(src, pos + 1);
        let kind = classify_word(src, pos, e);
        Some((kind, e))
    } else {
        None
    }
}

/// One token at `pos`, by the rule order of `next_token_spec`.
fn scan_token(src: &[u8], pos: usize) -> (r: Option<(Token, usize)>)
    requires
        pos < src@.len(),
    ensures
        match r {
            Some(t) => next_token_spec(src@, pos as int) == Some((t.0, t.1 as int)),
            None => next_token_spec(src@, pos as int) is None,
        },
{
    if let Some(t) = try_ws(src, pos) {
        return Some(t);
    }
    if let Some(t) = try_comment(src, pos) {
        return Some(t);
    }
    if let Some(t) = try_number(src, pos) {
        return Some(t);
    }
    if let Some(t) = try_simple(src, pos) {
        return Some(t);
    }
    if let Some(t) = try_string(src, pos) {
        return Some(t);
    }
    if let Some(t) = try_ident(src, pos) {
        return Some(t);
    }
    None
}

/// Lexes the whole of `src` into token records, filtering out whitespace
/// and comments, or reports the byte offset at which no token rule
/// matches.
pub fn lex(src: &[u8]) -> (r: Result<Vec<TokenRecord>, TokenError>)
    ensures
        match r {
            Ok(v) => lex_from(src@, 0) == Ok::<Seq<TokenRecord>, int>(v@),
            Err(e) => lex_from(src@, 0) == Err::<Seq<TokenRecord>, int>(e.index as int),
        },
{
    let mut acc: Vec<TokenRecord> = Vec::new();
    let mut pos: usize = 0;
    proof {
        if lex_from(src@, 0) is Ok {
            assert(acc@ + lex_from(src@, 0)->Ok_0 =~= lex_from(src@, 0)->Ok_0);
        }
    }
    while pos < src.len()
        invariant
            pos <= src@.len(),
            match lex_from(src@, pos as int) {
                Ok(t) => lex_from(src@, 0) == Ok::<Seq<TokenRecord>, int>(acc@ + t),
                Err(i) => lex_from(src@, 0) == Err::<Seq<TokenRecord>, int>(i),
            },
        decreases src@.len() - pos,
    {
        match scan_token(src, pos) {
            None => {
                return Err(TokenError { index: pos });
            },
            Some((kind, end)) => {
                proof {
                    lemma_next_token_bounds(src@, pos as int);
                }
                let ghost acc0 = acc@;
                if kind != Token::Ignore {
                    acc.push(TokenRecord { token_type: kind, offset: pos, length: end - pos });
                    proof {
                        let rec = TokenRecord {
                            token_type: kind,
                            offset: pos,
                            length: (end - pos) as usize,
                        };
                        assert(acc@ =~= acc0 + seq![rec]);
                        if lex_from(src@, end as int) is Ok {
                            let rest = lex_from(src@, end as int)->Ok_0;
                            assert((acc0 + (seq![rec] + rest)) =~= (acc@ + rest));
                        }
                    }
                }
                pos = end;
            },
        }
    }
    proof {
        assert(acc@ + Seq::<TokenRecord>::empty() =~= acc@);
    }
    Ok(acc)
}

} // verus!
