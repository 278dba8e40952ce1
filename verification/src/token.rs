use vstd::prelude::*;

verus! {

/// The kind of a lexed token.
///
/// One variant per operator, punctuation mark, keyword and literal class of
/// the language, plus `Ignore` for whitespace and comments, which the lexer
/// recognizes and then filters out.
#[derive(Debug, PartialEq, Eq, Clone, Copy, Structural)]
pub enum Token {
    Plus,
    Minus,
    Star,
    RSlash,
    LSlash,
    Equals,
    EqualsEquals,
    NotEquals,
    LessThan,
    GreaterThan,
    LessThanEquals,
    GreaterThanEquals,
    LParenthesis,
    RParenthesis,
    LBracket,
    RBracket,
    LBrace,
    RBrace,
    Comma,
    Bar,
    Fn,
    Include,
    For,
    In,
    If,
    Else,
    Until,
    Let,
    Return,
    And,
    Or,
    Not,
    /// Whitespace or a comment; filtered out before parsing.
    Ignore,
    Integer,
    Float,
    Boolean,
    String,
    Identifier,
}

/// One lexed token: its kind plus the byte range of the source text it
/// was read from.  A record never owns source text; it only points into it.
#[derive(Debug, PartialEq, Eq, Clone, Copy, Structural)]
pub struct TokenRecord {
    pub token_type: Token,
    pub offset: usize,
    pub length: usize,
}

impl TokenRecord {
    /// The half-open byte range `[offset, offset + length)` of this token,
    /// as a start/end pair.
    pub fn range(&self) -> (r: (usize, usize))
        requires
            self.offset + self.length <= usize::MAX,
        ensures
            r.0 == self.offset,
            r.1 == self.offset + self.length,
    {
        (self.offset, self.offset + self.length)
    }

    /// The bytes of this token, copied out of the source text.
    pub fn get_content(&self, input: &[u8]) -> (r: Vec<u8>)
        requires
            self.offset + self.length <= input@.len(),
        ensures
            r@ == input@.subrange(self.offset as int, self.offset + self.length),
    {
        let n = input.len();
        let mut out: Vec<u8> = Vec::new();
        let mut i: usize = 0;
        while i < self.length
            invariant
                i <= self.length,
                self.offset + self.length <= n,
                n == input@.len(),
                out@ == input@.subrange(self.offset as int, self.offset + i),
            decreases self.length - i,
        {
            out.push(input[self.offset + i]);
            proof {
                assert(out@ =~= input@.subrange(self.offset as int, self.offset + i + 1));
            }
            i = i + 1;
        }
        out
    }
}

} // verus!
