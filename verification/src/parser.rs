use vstd::prelude::*;
use crate::ast::{BinaryOperator, Expression, PostFixExpr, UnaryOperator};
use crate::token::{Token, TokenRecord};

verus! {

/// A parse failure.  The closed set of shapes a parse can fail with:
/// a token that could not be accepted (with the kind that was wanted),
/// trailing tokens after a complete parse, running out of tokens, and a
/// list aggregating the candidate failures of an alternation.
#[derive(Debug)]
pub enum ParseError {
    UnexpectedToken { found: TokenRecord, expected: Token },
    UnexpectedEndOfInput { found: TokenRecord },
    Eof,
    Compound(Vec<ParseError>),
}

impl ParseError {
    /// The byte offset a diagnostic for this error should point at;
    /// `max` stands in where the input simply ended.
    pub fn get_offset(&self, max: usize) -> (r: usize)
        ensures
            self matches ParseError::UnexpectedToken { found, .. } ==> r == found.offset,
            self matches ParseError::UnexpectedEndOfInput { found } ==> r == found.offset,
            self is Eof ==> r == max,
        decreases *self,
    {
        match self {
            ParseError::UnexpectedToken { found, .. } => found.offset,
            ParseError::UnexpectedEndOfInput { found } => found.offset,
            ParseError::Eof => max,
            ParseError::Compound(v) => {
                if v.len() > 0 {
                    proof {
                        assert(decreases_to!(*self => v@[0]));
                    }
                    v[0].get_offset(max)
                } else {
                    max
                }
            },
        }
    }
}

/// A failure inside the parser: the error, and whether it is committed.
/// Once a statement-introducing keyword has been accepted, failures of
/// the remainder are committed: no enclosing alternation or repetition
/// may backtrack over them, so the most specific diagnostic survives.
struct PFail {
    err: ParseError,
    hard: bool,
}

/// The same failure, committed.
fn commit(e: PFail) -> (r: PFail)
    ensures
        r.hard,
        r.err == e.err,
{
    PFail { err: e.err, hard: true }
}

/// A one-token stream holding a literal or an identifier: the smallest
/// complete programs, used to pin the descent down — such a stream must
/// parse to exactly its leaf node.
pub open spec fn single_literal_input(toks: Seq<TokenRecord>) -> bool {
    toks.len() == 1 && (toks[0].token_type == Token::Integer || toks[0].token_type
        == Token::Float || toks[0].token_type == Token::Boolean || toks[0].token_type
        == Token::String || toks[0].token_type == Token::Identifier)
}

/// The leaf node a literal or identifier token parses to.
pub open spec fn literal_node(t: TokenRecord) -> Expression {
    if t.token_type == Token::Integer {
        Expression::Integer(t)
    } else if t.token_type == Token::Float {
        Expression::Float(t)
    } else if t.token_type == Token::Boolean {
        Expression::Bool(t)
    } else if t.token_type == Token::String {
        Expression::String(t)
    } else {
        Expression::Identifier(t)
    }
}

/// A literal or identifier token stands at `i`.
pub open spec fn lit_at(toks: Seq<TokenRecord>, i: int) -> bool {
    0 <= i < toks.len() && (toks[i].token_type == Token::Integer || toks[i].token_type
        == Token::Float || toks[i].token_type == Token::Boolean || toks[i].token_type
        == Token::String || toks[i].token_type == Token::Identifier)
}

/// A token at `i` that extends a factor: a call, an index, or an
/// assignment.
pub open spec fn continues_factor(toks: Seq<TokenRecord>, i: int) -> bool {
    0 <= i < toks.len() && (toks[i].token_type == Token::LParenthesis || toks[i].token_type
        == Token::LBracket || toks[i].token_type == Token::Equals)
}

/// A token at `i` that extends the multiplicative level.
pub open spec fn continues_mult(toks: Seq<TokenRecord>, i: int) -> bool {
    0 <= i < toks.len() && (toks[i].token_type == Token::Star || toks[i].token_type
        == Token::RSlash)
}

/// A token at `i` that extends the additive level.
pub open spec fn continues_add(toks: Seq<TokenRecord>, i: int) -> bool {
    0 <= i < toks.len() && (toks[i].token_type == Token::Plus || toks[i].token_type
        == Token::Minus)
}

/// A token at `i` that extends one of the levels above the additive
/// one: a relational, equality, conjunction or disjunction operator.
pub open spec fn continues_upper(toks: Seq<TokenRecord>, i: int) -> bool {
    0 <= i < toks.len() && (toks[i].token_type == Token::LessThan || toks[i].token_type
        == Token::GreaterThan || toks[i].token_type == Token::LessThanEquals
        || toks[i].token_type == Token::GreaterThanEquals || toks[i].token_type
        == Token::EqualsEquals || toks[i].token_type == Token::NotEquals || toks[i].token_type
        == Token::And || toks[i].token_type == Token::Or)
}

/// The grammar operator of a multiplicative token.
pub open spec fn mult_op_of(k: Token) -> BinaryOperator {
    if k == Token::Star {
        BinaryOperator::Multiply
    } else {
        BinaryOperator::Divide
    }
}

/// The grammar operator of an additive token.
pub open spec fn add_op_of(k: Token) -> BinaryOperator {
    if k == Token::Plus {
        BinaryOperator::Add
    } else {
        BinaryOperator::Subtract
    }
}

/// The multiplicative level's parse of a run of literals joined by
/// `*` and `/`, chaining right-associatively: the tree and the position
/// just past it.  Defined only where every literal stands bare (no
/// postfix or assignment follows it).
pub open spec fn mult_group(toks: Seq<TokenRecord>, pos: int) -> Option<(Expression, int)>
    decreases toks.len() - pos,
{
    if lit_at(toks, pos) && !continues_factor(toks, pos + 1) {
        if continues_mult(toks, pos + 1) {
            match mult_group(toks, pos + 2) {
                Some(t) => Some(
                    (
                        Expression::Binary {
                            left: Box::new(literal_node(toks[pos])),
                            op: mult_op_of(toks[pos + 1].token_type),
                            op_token: toks[pos + 1],
                            right: Box::new(t.0),
                        },
                        t.1,
                    ),
                ),
                None => None,
            }
        } else {
            Some((literal_node(toks[pos]), pos + 1))
        }
    } else {
        None
    }
}

/// The additive level's parse over multiplicative groups joined by `+`
/// and `-`, chaining right-associatively: multiplication and division
/// bind tighter because each operand is a whole multiplicative group.
pub open spec fn add_group(toks: Seq<TokenRecord>, pos: int) -> Option<(Expression, int)>
    decreases toks.len() - pos,
{
    match mult_group(toks, pos) {
        Some(lt) => if continues_add(toks, lt.1) && pos < lt.1 {
            match add_group(toks, lt.1 + 1) {
                Some(rt) => Some(
                    (
                        Expression::Binary {
                            left: Box::new(lt.0),
                            op: add_op_of(toks[lt.1].token_type),
                            op_token: toks[lt.1],
                            right: Box::new(rt.0),
                        },
                        rt.1,
                    ),
                ),
                None => None,
            }
        } else {
            Some(lt)
        },
        None => None,
    }
}

/// A token kind that begins no expression: no statement keyword, no
/// object form, no unary operator.  The descent fails softly on it,
/// without consuming.
pub open spec fn begins_no_expr(k: Token) -> bool {
    !(k == Token::Include || k == Token::Return || k == Token::Fn || k == Token::For || k
        == Token::Until || k == Token::If || k == Token::Let || k == Token::LBracket || k
        == Token::Bar || k == Token::String || k == Token::Integer || k == Token::Float || k
        == Token::Boolean || k == Token::Identifier || k == Token::LParenthesis || k
        == Token::Minus || k == Token::Not)
}

/// Whether the token at `pos` has kind `k`.
fn peek_is(toks: &[TokenRecord], pos: usize, k: Token) -> (r: bool)
    requires
        pos <= toks@.len(),
    ensures
        r <==> pos < toks@.len() && toks@[pos as int].token_type == k,
{
    pos < toks.len() && toks[pos].token_type == k
}

/// Accepts exactly one token of kind `expected`.
fn match_token(toks: &[TokenRecord], pos: usize, expected: Token) -> (r: Result<
    (TokenRecord, usize),
    PFail,
>)
    requires
        pos <= toks@.len(),
    ensures
        r is Ok <==> pos < toks@.len() && toks@[pos as int].token_type == expected,
        r matches Ok(t) ==> t.0 == toks@[pos as int] && t.1 == pos + 1,
        r matches Err(e) ==> !e.hard,
        (pos < toks@.len() && toks@[pos as int].token_type != expected) ==> (r matches Err(e)
            && (e.err matches ParseError::UnexpectedToken { found, expected: x } && found
            == toks@[pos as int] && x == expected)),
        pos >= toks@.len() ==> (r matches Err(e) && e.err is Eof),
{
    if pos < toks.len() {
        let t = toks[pos];
        if t.token_type == expected {
            Ok((t, pos + 1))
        } else {
            Err(PFail { err: ParseError::UnexpectedToken { found: t, expected }, hard: false })
        }
    } else {
        Err(PFail { err: ParseError::Eof, hard: false })
    }
}

/// `include` statement: the keyword, then the library name.
fn p_include(toks: &[TokenRecord], pos: usize) -> (r: Result<(Expression, usize), PFail>)
    requires
        pos <= toks@.len(),
    ensures
        r matches Ok(t) ==> pos < t.1 <= toks@.len(),
        (pos < toks@.len() && toks@[pos as int].token_type == Token::Include && (pos + 1
            >= toks@.len() || toks@[pos + 1].token_type != Token::Identifier)) ==> (r
            matches Err(e) && e.hard && (pos + 1 < toks@.len() ==> (e.err
            matches ParseError::UnexpectedToken { found, expected } && found == toks@[pos + 1]
            && expected == Token::Identifier)) && (pos + 1 >= toks@.len() ==> e.err is Eof)),
    decreases toks@.len() - pos, 11int,
{
    let (_, p1) = match match_token(toks, pos, Token::Include) {
        Ok(x) => x,
        Err(e) => {
            return Err(e);
        },
    };
    let (id, p2) = match match_token(toks, p1, Token::Identifier) {
        Ok(x) => x,
        Err(e) => {
            return Err(commit(e));
        },
    };
    Ok((Expression::Include { id }, p2))
}

/// `return` statement: the keyword, then the returned expression.
fn p_return(toks: &[TokenRecord], pos: usize) -> (r: Result<(Expression, usize), PFail>)
    requires
        pos <= toks@.len(),
    ensures
        r matches Ok(t) ==> pos < t.1 <= toks@.len(),
    decreases toks@.len() - pos, 11int,
{
    let (_, p1) = match match_token(toks, pos, Token::Return) {
        Ok(x) => x,
        Err(e) => {
            return Err(e);
        },
    };
    let (e, p2) = match p_expr(toks, p1) {
        Ok(x) => x,
        Err(e) => {
            return Err(commit(e));
        },
    };
    Ok((Expression::Return { expr: Box::new(e) }, p2))
}

/// A comma-separated list of identifiers, possibly empty.  A comma not
/// followed by an identifier is left unconsumed.
#[verifier::loop_isolation(false)]
fn p_ident_list(toks: &[TokenRecord], pos: usize) -> (r: (Vec<TokenRecord>, usize))
    requires
        pos <= toks@.len(),
    ensures
        pos <= r.1 <= toks@.len(),
    decreases toks@.len() - pos, 13int,
{
    let mut out: Vec<TokenRecord> = Vec::new();
    if !peek_is(toks, pos, Token::Identifier) {
        return (out, pos);
    }
    out.push(toks[pos]);
    let n = toks.len();
    let mut cur = pos + 1;
    while cur < n && cur + 1 < n && toks[cur].token_type == Token::Comma && toks[cur
        + 1].token_type == Token::Identifier
        invariant
            pos < cur <= toks@.len(),
            n == toks@.len(),
        decreases toks@.len() - cur,
    {
        out.push(toks[cur + 1]);
        cur = cur + 2;
    }
    (out, cur)
}

/// `fn` statement: keyword, name, parenthesized parameter names, body.
fn p_function(toks: &[TokenRecord], pos: usize) -> (r: Result<(Expression, usize), PFail>)
    requires
        pos <= toks@.len(),
    ensures
        r matches Ok(t) ==> pos < t.1 <= toks@.len(),
        (pos < toks@.len() && toks@[pos as int].token_type == Token::Fn && (pos + 1
            >= toks@.len() || toks@[pos + 1].token_type != Token::Identifier)) ==> (r
            matches Err(e) && e.hard && (pos + 1 < toks@.len() ==> (e.err
            matches ParseError::UnexpectedToken { found, expected } && found == toks@[pos + 1]
            && expected == Token::Identifier)) && (pos + 1 >= toks@.len() ==> e.err is Eof)),
    decreases toks@.len() - pos, 11int,
{
    let (_, p1) = match match_token(toks, pos, Token::Fn) {
        Ok(x) => x,
        Err(e) => {
            return Err(e);
        },
    };
    let (id, p2) = match match_token(toks, p1, Token::Identifier) {
        Ok(x) => x,
        Err(e) => {
            return Err(commit(e));
        },
    };
    let (_, p3) = match match_token(toks, p2, Token::LParenthesis) {
        Ok(x) => x,
        Err(e) => {
            return Err(commit(e));
        },
    };
    let (args, p4) = p_ident_list(toks, p3);
    let (_, p5) = match match_token(toks, p4, Token::RParenthesis) {
        Ok(x) => x,
        Err(e) => {
            return Err(commit(e));
        },
    };
    let (block, p6) = match p_block(toks, p5) {
        Ok(x) => x,
        Err(e) => {
            return Err(commit(e));
        },
    };
    Ok((Expression::Function { id, args, block }, p6))
}

/// `for` statement: keyword, loop variable, `in`, iterable, body.
fn p_for(toks: &[TokenRecord], pos: usize) -> (r: Result<(Expression, usize), PFail>)
    requires
        pos <= toks@.len(),
    ensures
        r matches Ok(t) ==> pos < t.1 <= toks@.len(),
        (pos < toks@.len() && toks@[pos as int].token_type == Token::For && (pos + 1
            >= toks@.len() || toks@[pos + 1].token_type != Token::Identifier)) ==> (r
            matches Err(e) && e.hard && (pos + 1 < toks@.len() ==> (e.err
            matches ParseError::UnexpectedToken { found, expected } && found == toks@[pos + 1]
            && expected == Token::Identifier)) && (pos + 1 >= toks@.len() ==> e.err is Eof)),
    decreases toks@.len() - pos, 11int,
{
    let (_, p1) = match match_token(toks, pos, Token::For) {
        Ok(x) => x,
        Err(e) => {
            return Err(e);
        },
    };
    let (id, p2) = match match_token(toks, p1, Token::Identifier) {
        Ok(x) => x,
        Err(e) => {
            return Err(commit(e));
        },
    };
    let (_, p3) = match match_token(toks, p2, Token::In) {
        Ok(x) => x,
        Err(e) => {
            return Err(commit(e));
        },
    };
    let (it, p4) = match p_expr(toks, p3) {
        Ok(x) => x,
        Err(e) => {
            return Err(commit(e));
        },
    };
    let (block, p5) = match p_block(toks, p4) {
        Ok(x) => x,
        Err(e) => {
            return Err(commit(e));
        },
    };
    Ok((Expression::For { id, expr: Box::new(it), block }, p5))
}

/// `until` statement: keyword, condition, body.
fn p_until(toks: &[TokenRecord], pos: usize) -> (r: Result<(Expression, usize), PFail>)
    requires
        pos <= toks@.len(),
    ensures
        r matches Ok(t) ==> pos < t.1 <= toks@.len(),
    decreases toks@.len() - pos, 11int,
{
    let (_, p1) = match match_token(toks, pos, Token::Until) {
        Ok(x) => x,
        Err(e) => {
            return Err(e);
        },
    };
    let (c, p2) = match p_expr(toks, p1) {
        Ok(x) => x,
        Err(e) => {
            return Err(commit(e));
        },
    };
    let (block, p3) = match p_block(toks, p2) {
        Ok(x) => x,
        Err(e) => {
            return Err(commit(e));
        },
    };
    Ok((Expression::Until { expr: Box::new(c), block }, p3))
}

/// `if` statement: keyword, condition, block, and an optional `else`
/// followed by either a block or a nested `if` (else-if chaining); a
/// bare non-if expression after `else` is refused.
fn p_if(toks: &[TokenRecord], pos: usize) -> (r: Result<(Expression, usize), PFail>)
    requires
        pos <= toks@.len(),
    ensures
        r matches Ok(t) ==> pos < t.1 <= toks@.len(),
        (pos + 5 < toks@.len() && toks@[pos as int].token_type == Token::If && toks@[pos
            + 1].token_type == Token::Boolean && toks@[pos + 2].token_type == Token::LBrace
            && toks@[pos + 3].token_type == Token::RBrace && toks@[pos + 4].token_type
            == Token::Else && toks@[pos + 5].token_type != Token::LBrace && toks@[pos
            + 5].token_type != Token::If) ==> (r matches Err(e) && e.hard && (e.err
            matches ParseError::UnexpectedToken { found, expected } && found == toks@[pos + 5]
            && expected == Token::LBrace)),
    decreases toks@.len() - pos, 11int,
{
    let (_, p1) = match match_token(toks, pos, Token::If) {
        Ok(x) => x,
        Err(e) => {
            return Err(e);
        },
    };
    let (c, p2) = match p_expr(toks, p1) {
        Ok(x) => x,
        Err(e) => {
            return Err(commit(e));
        },
    };
    let (block, p3) = match p_block(toks, p2) {
        Ok(x) => x,
        Err(e) => {
            return Err(commit(e));
        },
    };
    if peek_is(toks, p3, Token::Else) {
        let n = toks.len();
        proof {
            assert(p3 < n);
        }
        let p4 = p3 + 1;
        if peek_is(toks, p4, Token::LBrace) {
            let (eb, p5) = match p_block(toks, p4) {
                Ok(x) => x,
                Err(e) => {
                    return Err(commit(e));
                },
            };
            Ok((Expression::If { expr: Box::new(c), block, else_block: Some(eb) }, p5))
        } else if peek_is(toks, p4, Token::If) {
            let (nested, p5) = match p_if(toks, p4) {
                Ok(x) => x,
                Err(e) => {
                    return Err(commit(e));
                },
            };
            let mut eb: Vec<Expression> = Vec::new();
            eb.push(nested);
            Ok((Expression::If { expr: Box::new(c), block, else_block: Some(eb) }, p5))
        } else if p4 < toks.len() {
            Err(
                PFail {
                    err: ParseError::UnexpectedToken {
                        found: toks[p4],
                        expected: Token::LBrace,
                    },
                    hard: true,
                },
            )
        } else {
            Err(PFail { err: ParseError::Eof, hard: true })
        }
    } else {
        Ok((Expression::If { expr: Box::new(c), block, else_block: None }, p3))
    }
}

/// `let` statement: keyword, name, `=`, bound expression.
fn p_let(toks: &[TokenRecord], pos: usize) -> (r: Result<(Expression, usize), PFail>)
    requires
        pos <= toks@.len(),
    ensures
        r matches Ok(t) ==> pos < t.1 <= toks@.len(),
        (pos < toks@.len() && toks@[pos as int].token_type == Token::Let && (pos + 1
            >= toks@.len() || toks@[pos + 1].token_type != Token::Identifier)) ==> (r
            matches Err(e) && e.hard && (pos + 1 < toks@.len() ==> (e.err
            matches ParseError::UnexpectedToken { found, expected } && found == toks@[pos + 1]
            && expected == Token::Identifier)) && (pos + 1 >= toks@.len() ==> e.err is Eof)),
    decreases toks@.len() - pos, 11int,
{
    let (_, p1) = match match_token(toks, pos, Token::Let) {
        Ok(x) => x,
        Err(e) => {
            return Err(e);
        },
    };
    let (id, p2) = match match_token(toks, p1, Token::Identifier) {
        Ok(x) => x,
        Err(e) => {
            return Err(commit(e));
        },
    };
    let (_, p3) = match match_token(toks, p2, Token::Equals) {
        Ok(x) => x,
        Err(e) => {
            return Err(commit(e));
        },
    };
    let (e, p4) = match p_expr(toks, p3) {
        Ok(x) => x,
        Err(e) => {
            return Err(commit(e));
        },
    };
    Ok((Expression::Let { id, expr: Box::new(e) }, p4))
}

/// Disjunction level: `conditionalAnd ('or' conditionalOr)?`, binding
/// right-associatively like every binary level of the grammar.
fn p_cond_or(toks: &[TokenRecord], pos: usize) -> (r: Result<(Expression, usize), PFail>)
    requires
        pos <= toks@.len(),
    ensures
        r matches Ok(t) ==> pos < t.1 <= toks@.len(),
        (single_literal_input(toks@) && pos == 0) ==> (r matches Ok(t) && t.0 == literal_node(
            toks@[0],
        ) && t.1 == 1),
        (pos < toks@.len() && begins_no_expr(toks@[pos as int].token_type)) ==> (r matches Err(
            e,
        ) && !e.hard),
        add_group(toks@, pos as int) matches Some(t) ==> (!continues_upper(toks@, t.1) ==> (r
            matches Ok(x) && x.0 == t.0 && x.1 == t.1)),
    decreases toks@.len() - pos, 10int,
{
    let (left, p1) = match p_cond_and(toks, pos) {
        Ok(x) => x,
        Err(e) => {
            return Err(e);
        },
    };
    if peek_is(toks, p1, Token::Or) {
        let op_token = toks[p1];
        let (right, p2) = match p_cond_or(toks, p1 + 1) {
            Ok(x) => x,
            Err(e) => {
                return Err(e);
            },
        };
        Ok(
            (
                Expression::Binary {
                    left: Box::new(left),
                    op: BinaryOperator::Or,
                    op_token,
                    right: Box::new(right),
                },
                p2,
            ),
        )
    } else {
        Ok((left, p1))
    }
}

/// Conjunction level: `equality ('and' conditionalAnd)?`.
fn p_cond_and(toks: &[TokenRecord], pos: usize) -> (r: Result<(Expression, usize), PFail>)
    requires
        pos <= toks@.len(),
    ensures
        r matches Ok(t) ==> pos < t.1 <= toks@.len(),
        (single_literal_input(toks@) && pos == 0) ==> (r matches Ok(t) && t.0 == literal_node(
            toks@[0],
        ) && t.1 == 1),
        (pos < toks@.len() && begins_no_expr(toks@[pos as int].token_type)) ==> (r matches Err(
            e,
        ) && !e.hard),
        add_group(toks@, pos as int) matches Some(t) ==> (!continues_upper(toks@, t.1) ==> (r
            matches Ok(x) && x.0 == t.0 && x.1 == t.1)),
    decreases toks@.len() - pos, 9int,
{
    let (left, p1) = match p_equality(toks, pos) {
        Ok(x) => x,
        Err(e) => {
            return Err(e);
        },
    };
    if peek_is(toks, p1, Token::And) {
        let op_token = toks[p1];
        let (right, p2) = match p_cond_and(toks, p1 + 1) {
            Ok(x) => x,
            Err(e) => {
                return Err(e);
            },
        };
        Ok(
            (
                Expression::Binary {
                    left: Box::new(left),
                    op: BinaryOperator::And,
                    op_token,
                    right: Box::new(right),
                },
                p2,
            ),
        )
    } else {
        Ok((left, p1))
    }
}

/// Equality level: `relational (('==' | '!=') equality)?`.
fn p_equality(toks: &[TokenRecord], pos: usize) -> (r: Result<(Expression, usize), PFail>)
    requires
        pos <= toks@.len(),
    ensures
        r matches Ok(t) ==> pos < t.1 <= toks@.len(),
        (single_literal_input(toks@) && pos == 0) ==> (r matches Ok(t) && t.0 == literal_node(
            toks@[0],
        ) && t.1 == 1),
        (pos < toks@.len() && begins_no_expr(toks@[pos as int].token_type)) ==> (r matches Err(
            e,
        ) && !e.hard),
        add_group(toks@, pos as int) matches Some(t) ==> (!continues_upper(toks@, t.1) ==> (r
            matches Ok(x) && x.0 == t.0 && x.1 == t.1)),
    decreases toks@.len() - pos, 8int,
{
    let (left, p1) = match p_relational(toks, pos) {
        Ok(x) => x,
        Err(e) => {
            return Err(e);
        },
    };
    let op = if peek_is(toks, p1, Token::EqualsEquals) {
        Some(BinaryOperator::Equal)
    } else if peek_is(toks, p1, Token::NotEquals) {
        Some(BinaryOperator::NotEqual)
    } else {
        None
    };
    match op {
        Some(op) => {
            let op_token = toks[p1];
            let (right, p2) = match p_equality(toks, p1 + 1) {
                Ok(x) => x,
                Err(e) => {
                    return Err(e);
                },
            };
            Ok(
                (
                    Expression::Binary {
                        left: Box::new(left),
                        op,
                        op_token,
                        right: Box::new(right),
                    },
                    p2,
                ),
            )
        },
        None => Ok((left, p1)),
    }
}

/// Relational level: `additive (('<' | '>' | '<=' | '>=') relational)?`.
fn p_relational(toks: &[TokenRecord], pos: usize) -> (r: Result<(Expression, usize), PFail>)
    requires
        pos <= toks@.len(),
    ensures
        r matches Ok(t) ==> pos < t.1 <= toks@.len(),
        (single_literal_input(toks@) && pos == 0) ==> (r matches Ok(t) && t.0 == literal_node(
            toks@[0],
        ) && t.1 == 1),
        (pos < toks@.len() && begins_no_expr(toks@[pos as int].token_type)) ==> (r matches Err(
            e,
        ) && !e.hard),
        add_group(toks@, pos as int) matches Some(t) ==> (!continues_upper(toks@, t.1) ==> (r
            matches Ok(x) && x.0 == t.0 && x.1 == t.1)),
    decreases toks@.len() - pos, 7int,
{
    let (left, p1) = match p_additive(toks, pos) {
        Ok(x) => x,
        Err(e) => {
            return Err(e);
        },
    };
    let op = if peek_is(toks, p1, Token::LessThan) {
        Some(BinaryOperator::LessThan)
    } else if peek_is(toks, p1, Token::GreaterThan) {
        Some(BinaryOperator::GreaterThan)
    } else if peek_is(toks, p1, Token::LessThanEquals) {
        Some(BinaryOperator::LessThanOrEqual)
    } else if peek_is(toks, p1, Token::GreaterThanEquals) {
        Some(BinaryOperator::GreaterThanOrEqual)
    } else {
        None
    };
    match op {
        Some(op) => {
            let op_token = toks[p1];
            let (right, p2) = match p_relational(toks, p1 + 1) {
                Ok(x) => x,
                Err(e) => {
                    return Err(e);
                },
            };
            Ok(
                (
                    Expression::Binary {
                        left: Box::new(left),
                        op,
                        op_token,
                        right: Box::new(right),
                    },
                    p2,
                ),
            )
        },
        None => Ok((left, p1)),
    }
}

/// Additive level: `multiplicative (('+' | '-') additive)?`.
fn p_additive(toks: &[TokenRecord], pos: usize) -> (r: Result<(Expression, usize), PFail>)
    requires
        pos <= toks@.len(),
    ensures
        r matches Ok(t) ==> pos < t.1 <= toks@.len(),
        (single_literal_input(toks@) && pos == 0) ==> (r matches Ok(t) && t.0 == literal_node(
            toks@[0],
        ) && t.1 == 1),
        (pos < toks@.len() && begins_no_expr(toks@[pos as int].token_type)) ==> (r matches Err(
            e,
        ) && !e.hard),
        add_group(toks@, pos as int) matches Some(t) ==> (r matches Ok(x) && x.0 == t.0 && x.1
            == t.1),
    decreases toks@.len() - pos, 6int,
{
    let (left, p1) = match p_multiplicative(toks, pos) {
        Ok(x) => x,
        Err(e) => {
            return Err(e);
        },
    };
    let op = if peek_is(toks, p1, Token::Plus) {
        Some(BinaryOperator::Add)
    } else if peek_is(toks, p1, Token::Minus) {
        Some(BinaryOperator::Subtract)
    } else {
        None
    };
    match op {
        Some(op) => {
            let op_token = toks[p1];
            let (right, p2) = match p_additive(toks, p1 + 1) {
                Ok(x) => x,
                Err(e) => {
                    return Err(e);
                },
            };
            Ok(
                (
                    Expression::Binary {
                        left: Box::new(left),
                        op,
                        op_token,
                        right: Box::new(right),
                    },
                    p2,
                ),
            )
        },
        None => Ok((left, p1)),
    }
}

/// Multiplicative level: `unary (('*' | '/') multiplicative)?`.
fn p_multiplicative(toks: &[TokenRecord], pos: usize) -> (r: Result<(Expression, usize), PFail>)
    requires
        pos <= toks@.len(),
    ensures
        r matches Ok(t) ==> pos < t.1 <= toks@.len(),
        (single_literal_input(toks@) && pos == 0) ==> (r matches Ok(t) && t.0 == literal_node(
            toks@[0],
        ) && t.1 == 1),
        (pos < toks@.len() && begins_no_expr(toks@[pos as int].token_type)) ==> (r matches Err(
            e,
        ) && !e.hard),
        mult_group(toks@, pos as int) matches Some(t) ==> (r matches Ok(x) && x.0 == t.0
            && x.1 == t.1),
    decreases toks@.len() - pos, 5int,
{
    let (left, p1) = match p_unary(toks, pos) {
        Ok(x) => x,
        Err(e) => {
            return Err(e);
        },
    };
    let op = if peek_is(toks, p1, Token::Star) {
        Some(BinaryOperator::Multiply)
    } else if peek_is(toks, p1, Token::RSlash) {
        Some(BinaryOperator::Divide)
    } else {
        None
    };
    match op {
        Some(op) => {
            let op_token = toks[p1];
            let (right, p2) = match p_multiplicative(toks, p1 + 1) {
                Ok(x) => x,
                Err(e) => {
                    return Err(e);
                },
            };
            Ok(
                (
                    Expression::Binary {
                        left: Box::new(left),
                        op,
                        op_token,
                        right: Box::new(right),
                    },
                    p2,
                ),
            )
        },
        None => Ok((left, p1)),
    }
}

/// Unary level: `('-' | 'not')? factor`.
fn p_unary(toks: &[TokenRecord], pos: usize) -> (r: Result<(Expression, usize), PFail>)
    requires
        pos <= toks@.len(),
    ensures
        r matches Ok(t) ==> pos < t.1 <= toks@.len(),
        (single_literal_input(toks@) && pos == 0) ==> (r matches Ok(t) && t.0 == literal_node(
            toks@[0],
        ) && t.1 == 1),
        (pos < toks@.len() && begins_no_expr(toks@[pos as int].token_type)) ==> (r matches Err(
            e,
        ) && !e.hard),
        (lit_at(toks@, pos as int) && !continues_factor(toks@, pos + 1)) ==> (r matches Ok(t)
            && t.0 == literal_node(toks@[pos as int]) && t.1 == pos + 1),
    decreases toks@.len() - pos, 4int,
{
    let op = if peek_is(toks, pos, Token::Minus) {
        Some(UnaryOperator::Negate)
    } else if peek_is(toks, pos, Token::Not) {
        Some(UnaryOperator::Not)
    } else {
        None
    };
    match op {
        Some(op) => {
            let op_token = toks[pos];
            let (e, p1) = match p_factor(toks, pos + 1) {
                Ok(x) => x,
                Err(e) => {
                    return Err(e);
                },
            };
            Ok((Expression::Unary { op, op_token, expr: Box::new(e) }, p1))
        },
        None => p_factor(toks, pos),
    }
}

/// Factor: an object, zero or more call/index postfixes folded over it
/// left to right, then an optional `= expr` making the whole chain an
/// assignment.
#[verifier::loop_isolation(false)]
fn p_factor(toks: &[TokenRecord], pos: usize) -> (r: Result<(Expression, usize), PFail>)
    requires
        pos <= toks@.len(),
    ensures
        r matches Ok(t) ==> pos < t.1 <= toks@.len(),
        (single_literal_input(toks@) && pos == 0) ==> (r matches Ok(t) && t.0 == literal_node(
            toks@[0],
        ) && t.1 == 1),
        (pos < toks@.len() && begins_no_expr(toks@[pos as int].token_type)) ==> (r matches Err(
            e,
        ) && !e.hard),
        (lit_at(toks@, pos as int) && !continues_factor(toks@, pos + 1)) ==> (r matches Ok(t)
            && t.0 == literal_node(toks@[pos as int]) && t.1 == pos + 1),
        (lit_at(toks@, pos as int) && pos + 2 < toks@.len() && toks@[pos + 1].token_type
            == Token::LParenthesis && toks@[pos + 2].token_type == Token::RParenthesis
            && !continues_factor(toks@, pos + 3)) ==> (r matches Ok(t) && (t.0
            matches Expression::Call { region, left, args } && region == toks@[pos + 1] && *left
            == literal_node(toks@[pos as int]) && args@.len() == 0) && t.1 == pos + 3),
        (lit_at(toks@, pos as int) && pos + 1 < toks@.len() && toks@[pos + 1].token_type
            == Token::Equals && lit_at(toks@, pos + 2) && !continues_factor(toks@, pos + 3)
            && !continues_mult(toks@, pos + 3) && !continues_add(toks@, pos + 3)
            && !continues_upper(toks@, pos + 3)) ==> (r matches Ok(t) && (t.0
            matches Expression::Assignment { region, left, right } && region == toks@[pos + 1]
            && *left == literal_node(toks@[pos as int]) && *right == literal_node(
            toks@[pos + 2],
        )) && t.1 == pos + 3),
    decreases toks@.len() - pos, 3int,
{
    let (obj, p1) = match p_object(toks, pos) {
        Ok(x) => x,
        Err(e) => {
            return Err(e);
        },
    };
    let mut left = obj;
    let mut cur = p1;
    loop
        invariant
            pos < cur <= toks@.len(),
            (single_literal_input(toks@) && pos == 0) ==> (cur == 1 && left == literal_node(
                toks@[0],
            )),
            (lit_at(toks@, pos as int) && !continues_factor(toks@, pos + 1)) ==> (cur == pos + 1
                && left == literal_node(toks@[pos as int])),
            (lit_at(toks@, pos as int) && pos + 2 < toks@.len() && toks@[pos + 1].token_type
                == Token::LParenthesis && toks@[pos + 2].token_type == Token::RParenthesis
                && !continues_factor(toks@, pos + 3)) ==> ((cur == pos + 1 && left
                == literal_node(toks@[pos as int])) || (cur == pos + 3 && (left
                matches Expression::Call { region, left: l2, args } && region == toks@[pos + 1]
                && *l2 == literal_node(toks@[pos as int]) && args@.len() == 0))),
            (lit_at(toks@, pos as int) && pos + 1 < toks@.len() && toks@[pos + 1].token_type
                == Token::Equals) ==> (cur == pos + 1 && left == literal_node(
                toks@[pos as int],
            )),
        decreases toks@.len() - cur,
    {
        match p_post_fix(toks, cur) {
            Ok((pf, p2)) => {
                left = pf.apply(left);
                cur = p2;
            },
            Err(e) => {
                if e.hard {
                    return Err(e);
                }
                break ;
            },
        }
    }
    if peek_is(toks, cur, Token::Equals) {
        let eq_tok = toks[cur];
        match p_expr(toks, cur + 1) {
            Ok((right, p3)) => {
                return Ok(
                    (
                        Expression::Assignment {
                            region: eq_tok,
                            left: Box::new(left),
                            right: Box::new(right),
                        },
                        p3,
                    ),
                );
            },
            Err(e) => {
                if e.hard {
                    return Err(e);
                }
                // A lone `=` is left for the caller, as the repetition
                // operators of the grammar backtrack over it.
                return Ok((left, cur));
            },
        }
    }
    Ok((left, cur))
}

/// One postfix: a parenthesized argument list or a bracketed index.
fn p_post_fix(toks: &[TokenRecord], pos: usize) -> (r: Result<(PostFixExpr, usize), PFail>)
    requires
        pos <= toks@.len(),
    ensures
        r matches Ok(t) ==> pos < t.1 <= toks@.len(),
        (pos >= toks@.len() || !(toks@[pos as int].token_type == Token::LParenthesis
            || toks@[pos as int].token_type == Token::LBracket)) ==> (r matches Err(e)
            && !e.hard),
        (pos + 1 < toks@.len() && toks@[pos as int].token_type == Token::LParenthesis
            && toks@[pos + 1].token_type == Token::RParenthesis) ==> (r matches Ok(t) && (t.0
            matches PostFixExpr::Call(rg, cargs) && rg == toks@[pos as int] && cargs@.len()
            == 0) && t.1 == pos + 2),
    decreases toks@.len() - pos, 13int,
{
    if peek_is(toks, pos, Token::LParenthesis) {
        let region = toks[pos];
        let (args, p1) = match p_expression_list(toks, pos + 1) {
            Ok(x) => x,
            Err(e) => {
                return Err(e);
            },
        };
        let (_, p2) = match match_token(toks, p1, Token::RParenthesis) {
            Ok(x) => x,
            Err(e) => {
                return Err(e);
            },
        };
        Ok((PostFixExpr::Call(region, args), p2))
    } else if peek_is(toks, pos, Token::LBracket) {
        let region = toks[pos];
        let (ix, p1) = match p_expr(toks, pos + 1) {
            Ok(x) => x,
            Err(e) => {
                return Err(e);
            },
        };
        let (_, p2) = match match_token(toks, p1, Token::RBracket) {
            Ok(x) => x,
            Err(e) => {
                return Err(e);
            },
        };
        Ok((PostFixExpr::Index(region, Box::new(ix)), p2))
    } else if pos < toks.len() {
        Err(
            PFail {
                err: ParseError::UnexpectedToken {
                    found: toks[pos],
                    expected: Token::LParenthesis,
                },
                hard: false,
            },
        )
    } else {
        Err(PFail { err: ParseError::Eof, hard: false })
    }
}

/// A comma-separated list of expressions, possibly empty.  A trailing
/// comma is left unconsumed, as is one whose following element fails
/// softly.
#[verifier::loop_isolation(false)]
fn p_expression_list(toks: &[TokenRecord], pos: usize) -> (r: Result<
    (Vec<Expression>, usize),
    PFail,
>)
    requires
        pos <= toks@.len(),
    ensures
        r matches Ok(t) ==> pos <= t.1 <= toks@.len(),
        (pos < toks@.len() && begins_no_expr(toks@[pos as int].token_type)) ==> (r matches Ok(
            t,
        ) && t.0@.len() == 0 && t.1 == pos),
    decreases toks@.len() - pos, 13int,
{
    let mut out: Vec<Expression> = Vec::new();
    let first = match p_expr(toks, pos) {
        Ok(x) => x,
        Err(e) => {
            if e.hard {
                return Err(e);
            }
            return Ok((out, pos));
        },
    };
    out.push(first.0);
    let n = toks.len();
    let mut cur = first.1;
    while peek_is(toks, cur, Token::Comma)
        invariant
            pos < cur <= toks@.len(),
            n == toks@.len(),
        decreases toks@.len() - cur,
    {
        match p_expr(toks, cur + 1) {
            Ok((e, p2)) => {
                out.push(e);
                cur = p2;
            },
            Err(e) => {
                if e.hard {
                    return Err(e);
                }
                break ;
            },
        }
    }
    Ok((out, cur))
}

/// An object: an array, a closure, a literal, an identifier, or a
/// parenthesized expression.  When none of those can begin here, the
/// failure aggregates the candidate expectations.
fn p_object(toks: &[TokenRecord], pos: usize) -> (r: Result<(Expression, usize), PFail>)
    requires
        pos <= toks@.len(),
    ensures
        r matches Ok(t) ==> pos < t.1 <= toks@.len(),
        (single_literal_input(toks@) && pos == 0) ==> (r matches Ok(t) && t.0 == literal_node(
            toks@[0],
        ) && t.1 == 1),
        (pos < toks@.len() && begins_no_expr(toks@[pos as int].token_type)) ==> (r matches Err(
            e,
        ) && !e.hard),
        lit_at(toks@, pos as int) ==> (r matches Ok(t) && t.0 == literal_node(
            toks@[pos as int],
        ) && t.1 == pos + 1),
    decreases toks@.len() - pos, 2int,
{
    if pos >= toks.len() {
        return Err(PFail { err: ParseError::Eof, hard: false });
    }
    let t = toks[pos];
    match t.token_type {
        Token::LBracket => p_array(toks, pos),
        Token::Bar => p_closure(toks, pos),
        Token::String => Ok((Expression::String(t), pos + 1)),
        Token::Integer => Ok((Expression::Integer(t), pos + 1)),
        Token::Float => Ok((Expression::Float(t), pos + 1)),
        Token::Boolean => Ok((Expression::Bool(t), pos + 1)),
        Token::Identifier => Ok((Expression::Identifier(t), pos + 1)),
        Token::LParenthesis => {
            let (e, p1) = match p_expr(toks, pos + 1) {
                Ok(x) => x,
                Err(e) => {
                    return Err(e);
                },
            };
            let (_, p2) = match match_token(toks, p1, Token::RParenthesis) {
                Ok(x) => x,
                Err(e) => {
                    return Err(e);
                },
            };
            Ok((e, p2))
        },
        _ => {
            let mut cands: Vec<ParseError> = Vec::new();
            cands.push(ParseError::UnexpectedToken { found: t, expected: Token::LBracket });
            cands.push(ParseError::UnexpectedToken { found: t, expected: Token::Bar });
            cands.push(ParseError::UnexpectedToken { found: t, expected: Token::String });
            cands.push(ParseError::UnexpectedToken { found: t, expected: Token::Integer });
            cands.push(ParseError::UnexpectedToken { found: t, expected: Token::Float });
            cands.push(ParseError::UnexpectedToken { found: t, expected: Token::Boolean });
            cands.push(ParseError::UnexpectedToken { found: t, expected: Token::Identifier });
            cands.push(
                ParseError::UnexpectedToken { found: t, expected: Token::LParenthesis },
            );
            Err(PFail { err: ParseError::Compound(cands), hard: false })
        },
    }
}

/// An array literal: bracketed, comma-separated expressions.
fn p_array(toks: &[TokenRecord], pos: usize) -> (r: Result<(Expression, usize), PFail>)
    requires
        pos <= toks@.len(),
    ensures
        r matches Ok(t) ==> pos < t.1 <= toks@.len(),
    decreases toks@.len() - pos, 1int,
{
    let (_, p1) = match match_token(toks, pos, Token::LBracket) {
        Ok(x) => x,
        Err(e) => {
            return Err(e);
        },
    };
    let (items, p2) = match p_expression_list(toks, p1) {
        Ok(x) => x,
        Err(e) => {
            return Err(e);
        },
    };
    let (_, p3) = match match_token(toks, p2, Token::RBracket) {
        Ok(x) => x,
        Err(e) => {
            return Err(e);
        },
    };
    Ok((Expression::Array(items), p3))
}

/// A closure literal: parameter names between bars, then a block.
fn p_closure(toks: &[TokenRecord], pos: usize) -> (r: Result<(Expression, usize), PFail>)
    requires
        pos <= toks@.len(),
    ensures
        r matches Ok(t) ==> pos < t.1 <= toks@.len(),
    decreases toks@.len() - pos, 1int,
{
    let (_, p1) = match match_token(toks, pos, Token::Bar) {
        Ok(x) => x,
        Err(e) => {
            return Err(e);
        },
    };
    let (args, p2) = p_ident_list(toks, p1);
    let (_, p3) = match match_token(toks, p2, Token::Bar) {
        Ok(x) => x,
        Err(e) => {
            return Err(e);
        },
    };
    let (block, p4) = match p_block(toks, p3) {
        Ok(x) => x,
        Err(e) => {
            return Err(e);
        },
    };
    Ok((Expression::Closure { args, block }, p4))
}

/// A braced block: `{ expr* }`.
#[verifier::loop_isolation(false)]
fn p_block(toks: &[TokenRecord], pos: usize) -> (r: Result<(Vec<Expression>, usize), PFail>)
    requires
        pos <= toks@.len(),
    ensures
        r matches Ok(t) ==> pos < t.1 <= toks@.len(),
        (pos + 1 < toks@.len() && toks@[pos as int].token_type == Token::LBrace && toks@[pos
            + 1].token_type == Token::RBrace) ==> (r matches Ok(t) && t.0@.len() == 0 && t.1
            == pos + 2),
    decreases toks@.len() - pos, 13int,
{
    let (_, p1) = match match_token(toks, pos, Token::LBrace) {
        Ok(x) => x,
        Err(e) => {
            return Err(e);
        },
    };
    let mut out: Vec<Expression> = Vec::new();
    let mut cur = p1;
    loop
        invariant
            pos < cur <= toks@.len(),
            (pos + 1 < toks@.len() && toks@[pos as int].token_type == Token::LBrace && toks@[pos
                + 1].token_type == Token::RBrace) ==> (cur == pos + 1 && out@.len() == 0),
        decreases toks@.len() - cur,
    {
        match p_expr(toks, cur) {
            Ok((e, p2)) => {
                out.push(e);
                cur = p2;
            },
            Err(e) => {
                if e.hard {
                    return Err(e);
                }
                break ;
            },
        }
    }
    let (_, p3) = match match_token(toks, cur, Token::RBrace) {
        Ok(x) => x,
        Err(e) => {
            return Err(e);
        },
    };
    Ok((out, p3))
}

/// One expression or statement, dispatched on its first token; the
/// statement forms each begin with their own keyword, so the first
/// token decides the alternative.
fn p_expr(toks: &[TokenRecord], pos: usize) -> (r: Result<(Expression, usize), PFail>)
    requires
        pos <= toks@.len(),
    ensures
        r matches Ok(t) ==> pos < t.1 <= toks@.len(),
        (single_literal_input(toks@) && pos == 0) ==> (r matches Ok(t) && t.0 == literal_node(
            toks@[0],
        ) && t.1 == 1),
        (pos < toks@.len() && begins_no_expr(toks@[pos as int].token_type)) ==> (r matches Err(
            e,
        ) && !e.hard),
        add_group(toks@, pos as int) matches Some(t) ==> (!continues_upper(toks@, t.1) ==> (r
            matches Ok(x) && x.0 == t.0 && x.1 == t.1)),
        (pos < toks@.len() && toks@[pos as int].token_type == Token::Let && (pos + 1
            >= toks@.len() || toks@[pos + 1].token_type != Token::Identifier)) ==> (r
            matches Err(e) && e.hard && (pos + 1 < toks@.len() ==> (e.err
            matches ParseError::UnexpectedToken { found, expected } && found == toks@[pos + 1]
            && expected == Token::Identifier)) && (pos + 1 >= toks@.len() ==> e.err is Eof)),
    decreases toks@.len() - pos, 12int,
{
    if pos < toks.len() {
        match toks[pos].token_type {
            Token::Include => p_include(toks, pos),
            Token::Return => p_return(toks, pos),
            Token::Fn => p_function(toks, pos),
            Token::For => p_for(toks, pos),
            Token::Until => p_until(toks, pos),
            Token::If => p_if(toks, pos),
            Token::Let => p_let(toks, pos),
            _ => p_cond_or(toks, pos),
        }
    } else {
        p_cond_or(toks, pos)
    }
}

/// Parses the whole token stream into a list of top-level expressions.
/// Tokens left over after the last parseable expression are an error
/// carrying the first unconsumed token; an empty stream parses to an
/// empty list.
#[verifier::loop_isolation(false)]
pub fn parser(input: &[TokenRecord]) -> (r: Result<Vec<Expression>, ParseError>)
    ensures
        input@.len() == 0 ==> (r matches Ok(v) && v@.len() == 0),
        single_literal_input(input@) ==> (r matches Ok(v) && v@.len() == 1 && v@[0]
            == literal_node(input@[0])),
        (input@.len() > 0 && begins_no_expr(input@[0].token_type)) ==> (r matches Err(e) && (e
            matches ParseError::UnexpectedEndOfInput { found } && found == input@[0])),
        add_group(input@, 0) matches Some(t) ==> ((!continues_upper(input@, t.1) && t.1
            == input@.len()) ==> (r matches Ok(v) && v@.len() == 1 && v@[0] == t.0)),
        add_group(input@, 0) matches Some(t) ==> ((!continues_upper(input@, t.1) && t.1
            < input@.len() && begins_no_expr(input@[t.1].token_type)) ==> (r matches Err(e) && (
        e matches ParseError::UnexpectedEndOfInput { found } && found == input@[t.1]))),
        (input@.len() > 0 && input@[0].token_type == Token::Let && (1 >= input@.len()
            || input@[1].token_type != Token::Identifier)) ==> (r matches Err(e) && (1
            < input@.len() ==> (e matches ParseError::UnexpectedToken { found, expected }
            && found == input@[1] && expected == Token::Identifier)) && (1 >= input@.len() ==> e
            is Eof)),
{
    let mut out: Vec<Expression> = Vec::new();
    let mut cur: usize = 0;
    #[verifier::loop_isolation(true)]
    loop
        invariant
            cur <= input@.len(),
            input@.len() == 0 ==> cur == 0 && out@.len() == 0,
            single_literal_input(input@) ==> ((cur == 0 && out@.len() == 0) || (cur == 1
                && out@.len() == 1 && out@[0] == literal_node(input@[0]))),
            add_group(input@, 0) matches Some(t) ==> ((!continues_upper(input@, t.1) && (t.1
                == input@.len() || begins_no_expr(input@[t.1].token_type))) ==> ((cur == 0
                && out@.len() == 0) || (cur == t.1 && out@.len() == 1 && out@[0] == t.0))),
            (input@.len() > 0 && begins_no_expr(input@[0].token_type)) ==> (cur == 0
                && out@.len() == 0),
            (input@.len() > 0 && input@[0].token_type == Token::Let && (1 >= input@.len()
                || input@[1].token_type != Token::Identifier)) ==> (cur == 0 && out@.len()
                == 0),
        ensures
            cur <= input@.len(),
            input@.len() == 0 ==> cur == 0 && out@.len() == 0,
            single_literal_input(input@) ==> (cur == 1 && out@.len() == 1 && out@[0]
                == literal_node(input@[0])),
            add_group(input@, 0) matches Some(t) ==> ((!continues_upper(input@, t.1) && (t.1
                == input@.len() || begins_no_expr(input@[t.1].token_type))) ==> (cur == t.1
                && out@.len() == 1 && out@[0] == t.0)),
            (input@.len() > 0 && begins_no_expr(input@[0].token_type)) ==> (cur == 0
                && out@.len() == 0),
            !(input@.len() > 0 && input@[0].token_type == Token::Let && (1 >= input@.len()
                || input@[1].token_type != Token::Identifier)),
        decreases input@.len() - cur,
    {
        if cur >= input.len() {
            break ;
        }
        match p_expr(input, cur) {
            Ok((e, p2)) => {
                out.push(e);
                cur = p2;
            },
            Err(e) => {
                if e.hard {
                    return Err(e.err);
                }
                break ;
            },
        }
    }
    if cur < input.len() {
        return Err(ParseError::UnexpectedEndOfInput { found: input[cur] });
    }
    Ok(out)
}


/// The number of newline bytes strictly before `end`.
pub open spec fn count_nl(s: Seq<u8>, end: int) -> int
    decreases end,
{
    if end <= 0 || end > s.len() {
        0
    } else {
        count_nl(s, end - 1) + (if s[end - 1] == 10 {
            1int
        } else {
            0int
        })
    }
}

/// The index just after the last newline strictly before `end`, or zero
/// when there is none: where the line holding position `end` begins.
pub open spec fn line_start(s: Seq<u8>, end: int) -> int
    decreases end,
{
    if end <= 0 || end > s.len() {
        0
    } else if s[end - 1] == 10 {
        end
    } else {
        line_start(s, end - 1)
    }
}

/// Resolves a byte offset of the source text to a one-based line and
/// column.  An offset just past the end of a text that closes with a
/// newline resolves like the newline itself; an offset beyond the text,
/// or any offset into an empty text, resolves to nothing.
#[verifier::loop_isolation(false)]
pub fn offset_to_line_column(text: &[u8], offset: usize) -> (r: Option<(usize, usize)>)
    requires
        text@.len() < usize::MAX,
    ensures
        (offset > text@.len() || text@.len() == 0) <==> r is None,
        r matches Some(lc) ==> ({
            let eff: int = if offset == text@.len() && text@[text@.len() - 1] == 10 {
                text@.len() - 1
            } else {
                offset as int
            };
            lc.0 == count_nl(text@, eff) + 1 && lc.1 == eff - line_start(text@, eff) + 1
        }),
{
    let n = text.len();
    if offset > n || n == 0 {
        return None;
    }
    let eff: usize = if offset == n && text[n - 1] == 10 {
        n - 1
    } else {
        offset
    };
    let mut cnt: usize = 0;
    let mut start: usize = 0;
    let mut i: usize = 0;
    while i < eff
        invariant
            0 <= i <= eff <= text@.len(),
            cnt == count_nl(text@, i as int),
            start == line_start(text@, i as int),
            cnt <= i,
            start <= i,
        decreases eff - i,
    {
        if text[i] == 10 {
            cnt = cnt + 1;
            start = i + 1;
        }
        i = i + 1;
    }
    Some((cnt + 1, eff - start + 1))
}

} // verus!
