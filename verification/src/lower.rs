use vstd::prelude::*;
use crate::ast::{BinaryOperator, Expression};
use crate::expr::{Atom, AtomV, BinOp, Expr, ExprV, Operator, exprs_view};
use crate::floats::{float_of_text, float_parse};
use crate::literals::{int_lit_value, is_int_lit, parse_i64};
use crate::token::TokenRecord;

verus! {

/// What went wrong while lowering a syntax tree to evaluation form.
#[derive(Debug, PartialEq, Eq, Clone, Copy, Structural)]
pub enum LoweringErrorKind {
    /// A construct the evaluator does not implement: a unary operator, a
    /// bare assignment, `and`/`or`, an indirect call or index target, or
    /// a token pointing outside the source text.
    UnsupportedOperation,
    InvalidIntegerLiteral,
    InvalidFloatLiteral,
    InvalidBooleanLiteral,
    InvalidStringLiteral,
}

/// A lowering failure: its kind, and the token it points at.
#[derive(Debug, PartialEq, Eq, Clone, Copy, Structural)]
pub struct NotSupportedOperationError {
    pub kind: LoweringErrorKind,
    pub token: TokenRecord,
}

/// The bytes a token points at.
pub open spec fn tok_bytes(content: Seq<u8>, t: TokenRecord) -> Seq<u8> {
    content.subrange(t.offset as int, t.offset + t.length)
}

/// Whether a token points inside the source text.
pub open spec fn tok_ok(content: Seq<u8>, t: TokenRecord) -> bool {
    t.offset + t.length <= content.len()
}

/// The spelling of the boolean literal `true`.
pub open spec fn true_bytes() -> Seq<u8> {
    seq![116u8, 114u8, 117u8, 101u8]
}

/// The spelling of the boolean literal `false`.
pub open spec fn false_bytes() -> Seq<u8> {
    seq![102u8, 97u8, 108u8, 115u8, 101u8]
}

/// The result of lowering one syntax node against the source text; the
/// contract of `Expr::from_parser_inner` is equality with this function.
pub open spec fn lower_spec(content: Seq<u8>, e: Expression) -> Result<
    ExprV,
    NotSupportedOperationError,
>
    decreases e,
{
    match e {
        Expression::Include { id } => {
            if tok_ok(content, id) {
                Ok(ExprV::Include(tok_bytes(content, id)))
            } else {
                Err(oob(id))
            }
        },
        Expression::Return { expr } => {
            match lower_spec(content, *expr) {
                Err(er) => Err(er),
                Ok(v) => Ok(ExprV::Return(Box::new(v))),
            }
        },
        Expression::Function { id, args, block } => {
            if !tok_ok(content, id) {
                Err(oob(id))
            } else if bad_arg(content, args@, 0) < args@.len() {
                Err(oob(args@[bad_arg(content, args@, 0)]))
            } else {
                match lower_list_spec(content, block@) {
                    Err(er) => Err(er),
                    Ok(body) => Ok(
                        ExprV::Function(
                            tok_bytes(content, id),
                            arg_names(content, args@),
                            body,
                        ),
                    ),
                }
            }
        },
        Expression::For { id, expr, block } => {
            if !tok_ok(content, id) {
                Err(oob(id))
            } else {
                match lower_list_spec(content, block@) {
                    Err(er) => Err(er),
                    Ok(body) => match lower_spec(content, *expr) {
                        Err(er) => Err(er),
                        Ok(it) => Ok(
                            ExprV::For(tok_bytes(content, id), Box::new(it), body),
                        ),
                    },
                }
            }
        },
        Expression::Until { expr, block } => {
            match lower_spec(content, *expr) {
                Err(er) => Err(er),
                Ok(c) => match lower_list_spec(content, block@) {
                    Err(er) => Err(er),
                    Ok(body) => Ok(ExprV::Until(Box::new(c), body)),
                },
            }
        },
        Expression::If { expr, block, else_block } => {
            match lower_spec(content, *expr) {
                Err(er) => Err(er),
                Ok(c) => match lower_list_spec(content, block@) {
                    Err(er) => Err(er),
                    Ok(body) => match else_block {
                        None => Ok(ExprV::If(Box::new(c), body, None)),
                        Some(eb) => match lower_list_spec(content, eb@) {
                            Err(er) => Err(er),
                            Ok(ebody) => Ok(ExprV::If(Box::new(c), body, Some(ebody))),
                        },
                    },
                },
            }
        },
        Expression::Let { id, expr } => {
            if !tok_ok(content, id) {
                Err(oob(id))
            } else {
                match lower_spec(content, *expr) {
                    Err(er) => Err(er),
                    Ok(v) => Ok(ExprV::Let(tok_bytes(content, id), Box::new(v))),
                }
            }
        },
        Expression::Binary { left, op, op_token, right } => {
            match lower_spec(content, *left) {
                Err(er) => Err(er),
                Ok(l) => match lower_spec(content, *right) {
                    Err(er) => Err(er),
                    Ok(r) => match op {
                        BinaryOperator::Add => Ok(
                            ExprV::Binary(Box::new(l), BinOp::Add, Box::new(r)),
                        ),
                        BinaryOperator::Subtract => Ok(
                            ExprV::Binary(Box::new(l), BinOp::Sub, Box::new(r)),
                        ),
                        BinaryOperator::Multiply => Ok(
                            ExprV::Binary(Box::new(l), BinOp::Mul, Box::new(r)),
                        ),
                        BinaryOperator::Divide => Ok(
                            ExprV::Binary(Box::new(l), BinOp::Div, Box::new(r)),
                        ),
                        BinaryOperator::Equal => Ok(
                            ExprV::Compare(Box::new(l), Operator::Equal, Box::new(r)),
                        ),
                        BinaryOperator::NotEqual => Ok(
                            ExprV::Compare(Box::new(l), Operator::NotEqual, Box::new(r)),
                        ),
                        BinaryOperator::LessThan => Ok(
                            ExprV::Compare(Box::new(l), Operator::LessThan, Box::new(r)),
                        ),
                        BinaryOperator::GreaterThan => Ok(
                            ExprV::Compare(Box::new(l), Operator::GreaterThan, Box::new(r)),
                        ),
                        BinaryOperator::LessThanOrEqual => Ok(
                            ExprV::Compare(Box::new(l), Operator::LessThanEqual, Box::new(r)),
                        ),
                        BinaryOperator::GreaterThanOrEqual => Ok(
                            ExprV::Compare(
                                Box::new(l),
                                Operator::GreaterThanEqual,
                                Box::new(r),
                            ),
                        ),
                        _ => Err(
                            NotSupportedOperationError {
                                kind: LoweringErrorKind::UnsupportedOperation,
                                token: op_token,
                            },
                        ),
                    },
                },
            }
        },
        Expression::Unary { op: _, op_token, expr: _ } => Err(
            NotSupportedOperationError {
                kind: LoweringErrorKind::UnsupportedOperation,
                token: op_token,
            },
        ),
        Expression::Assignment { region, left: _, right: _ } => Err(
            NotSupportedOperationError {
                kind: LoweringErrorKind::UnsupportedOperation,
                token: region,
            },
        ),
        Expression::Identifier(t) => {
            if tok_ok(content, t) {
                Ok(ExprV::Constant(AtomV::Name(tok_bytes(content, t))))
            } else {
                Err(oob(t))
            }
        },
        Expression::String(t) => {
            if !tok_ok(content, t) {
                Err(oob(t))
            } else if t.length >= 2 {
                Ok(
                    ExprV::Constant(
                        AtomV::String(
                            content.subrange(t.offset + 1, t.offset + t.length - 1),
                        ),
                    ),
                )
            } else {
                Err(
                    NotSupportedOperationError {
                        kind: LoweringErrorKind::InvalidStringLiteral,
                        token: t,
                    },
                )
            }
        },
        Expression::Integer(t) => {
            if !tok_ok(content, t) {
                Err(oob(t))
            } else if is_int_lit(tok_bytes(content, t)) && i64::MIN <= int_lit_value(
                tok_bytes(content, t),
            ) <= i64::MAX {
                Ok(
                    ExprV::Constant(
                        AtomV::Number(int_lit_value(tok_bytes(content, t)) as i64),
                    ),
                )
            } else {
                Err(
                    NotSupportedOperationError {
                        kind: LoweringErrorKind::InvalidIntegerLiteral,
                        token: t,
                    },
                )
            }
        },
        Expression::Float(t) => {
            if !tok_ok(content, t) {
                Err(oob(t))
            } else {
                match float_of_text(tok_bytes(content, t)) {
                    Some(bits) => Ok(ExprV::Constant(AtomV::Float(bits))),
                    None => Err(
                        NotSupportedOperationError {
                            kind: LoweringErrorKind::InvalidFloatLiteral,
                            token: t,
                        },
                    ),
                }
            }
        },
        Expression::Bool(t) => {
            if !tok_ok(content, t) {
                Err(oob(t))
            } else if tok_bytes(content, t) == true_bytes() {
                Ok(ExprV::Constant(AtomV::Boolean(true)))
            } else if tok_bytes(content, t) == false_bytes() {
                Ok(ExprV::Constant(AtomV::Boolean(false)))
            } else {
                Err(
                    NotSupportedOperationError {
                        kind: LoweringErrorKind::InvalidBooleanLiteral,
                        token: t,
                    },
                )
            }
        },
        Expression::Array(inner) => {
            match lower_list_spec(content, inner@) {
                Err(er) => Err(er),
                Ok(items) => Ok(ExprV::Array(items)),
            }
        },
        Expression::Closure { args, block } => {
            if bad_arg(content, args@, 0) < args@.len() {
                Err(oob(args@[bad_arg(content, args@, 0)]))
            } else {
                match lower_list_spec(content, block@) {
                    Err(er) => Err(er),
                    Ok(body) => Ok(ExprV::Closure(arg_names(content, args@), body)),
                }
            }
        },
        Expression::Call { region, left, args } => {
            match lower_spec(content, *left) {
                Err(er) => Err(er),
                Ok(callee) => match lower_list_spec(content, args@) {
                    Err(er) => Err(er),
                    Ok(largs) => {
                        if callee matches ExprV::Constant(AtomV::Name(n)) {
                            Ok(ExprV::Call(callee->Constant_0->Name_0, largs))
                        } else {
                            Err(
                                NotSupportedOperationError {
                                    kind: LoweringErrorKind::UnsupportedOperation,
                                    token: region,
                                },
                            )
                        }
                    },
                },
            }
        },
        Expression::Index { region, left, index } => {
            match lower_spec(content, *left) {
                Err(er) => Err(er),
                Ok(callee) => match lower_spec(content, *index) {
                    Err(er) => Err(er),
                    Ok(ix) => {
                        if callee matches ExprV::Constant(AtomV::Name(n)) {
                            if ix matches ExprV::Constant(AtomV::Number(i)) && 0
                                <= ix->Constant_0->Number_0 <= usize::MAX {
                                Ok(
                                    ExprV::Get(
                                        callee->Constant_0->Name_0,
                                        ix->Constant_0->Number_0 as int,
                                    ),
                                )
                            } else {
                                Err(
                                    NotSupportedOperationError {
                                        kind: LoweringErrorKind::UnsupportedOperation,
                                        token: region,
                                    },
                                )
                            }
                        } else {
                            Err(
                                NotSupportedOperationError {
                                    kind: LoweringErrorKind::UnsupportedOperation,
                                    token: region,
                                },
                            )
                        }
                    },
                },
            }
        },
    }
}

/// An out-of-range token, reported as an unsupported operation.
pub open spec fn oob(t: TokenRecord) -> NotSupportedOperationError {
    NotSupportedOperationError { kind: LoweringErrorKind::UnsupportedOperation, token: t }
}


/// The out-of-range error, built in executable code.
fn oob_err(t: TokenRecord) -> (r: NotSupportedOperationError)
    ensures
        r == oob(t),
{
    NotSupportedOperationError { kind: LoweringErrorKind::UnsupportedOperation, token: t }
}

/// The index of the first token from `i` on that points outside the
/// text, or the length when all are inside.
pub open spec fn bad_arg(content: Seq<u8>, args: Seq<TokenRecord>, i: int) -> int
    decreases args.len() - i,
{
    if 0 <= i < args.len() {
        if !tok_ok(content, args[i]) {
            i
        } else {
            bad_arg(content, args, i + 1)
        }
    } else {
        args.len() as int
    }
}

/// The names the argument tokens point at.
pub open spec fn arg_names(content: Seq<u8>, args: Seq<TokenRecord>) -> Seq<Seq<u8>> {
    Seq::new(args.len(), |i: int| tok_bytes(content, args[i]))
}

/// Lowering a list of nodes in order; the first failure wins.
pub open spec fn lower_list_spec(content: Seq<u8>, es: Seq<Expression>) -> Result<
    Seq<ExprV>,
    NotSupportedOperationError,
>
    decreases es,
{
    if es.len() == 0 {
        Ok(Seq::empty())
    } else {
        match lower_spec(content, es[0]) {
            Err(er) => Err(er),
            Ok(v) => match lower_list_spec(content, es.skip(1)) {
                Err(er) => Err(er),
                Ok(rest) => Ok(seq![v] + rest),
            },
        }
    }
}

// ---------------------------------------------------------------------------
// Executable lowering, proved equal to the specification above.
// ---------------------------------------------------------------------------

/// The token's bytes, when the token lies within the text.
fn tok_slice(content: &[u8], t: TokenRecord) -> (r: Option<Vec<u8>>)
    ensures
        r is Some <==> tok_ok(content@, t),
        r matches Some(v) ==> v@ == tok_bytes(content@, t),
{
    if t.length <= content.len() && t.offset <= content.len() - t.length {
        Some(t.get_content(content))
    } else {
        None
    }
}

fn is_true_lit(v: &Vec<u8>) -> (r: bool)
    ensures
        r <==> v@ == true_bytes(),
{
    let r = v.len() == 4 && v[0] == 116 && v[1] == 114 && v[2] == 117 && v[3] == 101;
    proof {
        if r {
            assert(v@ =~= true_bytes());
        }
    }
    r
}

fn is_false_lit(v: &Vec<u8>) -> (r: bool)
    ensures
        r <==> v@ == false_bytes(),
{
    let r = v.len() == 5 && v[0] == 102 && v[1] == 97 && v[2] == 108 && v[3] == 115 && v[4]
        == 101;
    proof {
        if r {
            assert(v@ =~= false_bytes());
        }
    }
    r
}

/// The first argument token that points outside the text, if any, and
/// the names all of them point at otherwise.
#[verifier::loop_isolation(false)]
fn lower_arg_names(content: &[u8], args: &Vec<TokenRecord>) -> (r: Result<
    Vec<Vec<u8>>,
    NotSupportedOperationError,
>)
    ensures
        match r {
            Ok(names) => bad_arg(content@, args@, 0) == args@.len() && crate::expr::names_view(
                names@,
            ) == arg_names(content@, args@),
            Err(e) => bad_arg(content@, args@, 0) < args@.len() && e == oob(
                args@[bad_arg(content@, args@, 0)],
            ),
        },
{
    let mut names: Vec<Vec<u8>> = Vec::new();
    let mut i: usize = 0;
    while i < args.len()
        invariant
            0 <= i <= args@.len(),
            names@.len() == i,
            bad_arg(content@, args@, 0) == bad_arg(content@, args@, i as int),
            forall|k: int| 0 <= k < i ==> tok_ok(content@, #[trigger] args@[k]),
            forall|k: int|
                0 <= k < i ==> #[trigger] names@[k]@ == tok_bytes(content@, args@[k]),
        decreases args@.len() - i,
    {
        match tok_slice(content, args[i]) {
            None => {
                return Err(
                    NotSupportedOperationError {
                        kind: LoweringErrorKind::UnsupportedOperation,
                        token: args[i],
                    },
                );
            },
            Some(v) => {
                names.push(v);
            },
        }
        i = i + 1;
    }
    proof {
        assert(crate::expr::names_view(names@) =~= arg_names(content@, args@));
    }
    Ok(names)
}

proof fn lemma_exprs_view_push(s: Seq<Expr>, x: Expr)
    ensures
        exprs_view(s.push(x)) == exprs_view(s) + seq![crate::expr::expr_view(x)],
{
    assert(exprs_view(s.push(x)) =~= exprs_view(s) + seq![crate::expr::expr_view(x)]);
}

impl Expr {
    /// Lowers a whole parsed program against its source text; the result
    /// is exactly what `lower_list_spec` says, node for node.
    pub fn from_parser(content: &[u8], parsed: Vec<Expression>) -> (r: Result<
        Vec<Expr>,
        NotSupportedOperationError,
    >)
        ensures
            match r {
                Ok(v) => lower_list_spec(content@, parsed@) == Ok::<
                    Seq<ExprV>,
                    NotSupportedOperationError,
                >(exprs_view(v@)),
                Err(e) => lower_list_spec(content@, parsed@) == Err::<
                    Seq<ExprV>,
                    NotSupportedOperationError,
                >(e),
            },
    {
        Expr::from_parser_block(content, &parsed)
    }

    /// Lowers a list of syntax nodes in order; the first failure wins.
    #[verifier::loop_isolation(false)]
    fn from_parser_block(content: &[u8], block: &Vec<Expression>) -> (r: Result<
        Vec<Expr>,
        NotSupportedOperationError,
    >)
        ensures
            match r {
                Ok(v) => lower_list_spec(content@, block@) == Ok::<
                    Seq<ExprV>,
                    NotSupportedOperationError,
                >(exprs_view(v@)),
                Err(e) => lower_list_spec(content@, block@) == Err::<
                    Seq<ExprV>,
                    NotSupportedOperationError,
                >(e),
            },
        decreases block@,
    {
        let mut out: Vec<Expr> = Vec::new();
        let mut i: usize = 0;
        proof {
            assert(block@.skip(0) =~= block@);
        }
        while i < block.len()
            invariant
                0 <= i <= block@.len(),
                exprs_view(out@).len() == i,
                match lower_list_spec(content@, block@.skip(i as int)) {
                    Ok(rest) => lower_list_spec(content@, block@) == Ok::<
                        Seq<ExprV>,
                        NotSupportedOperationError,
                    >(exprs_view(out@) + rest),
                    Err(e) => lower_list_spec(content@, block@) == Err::<
                        Seq<ExprV>,
                        NotSupportedOperationError,
                    >(e),
                },
            decreases block@.len() - i,
        {
            proof {
                assert(decreases_to!(block@ => block@[i as int]));
                assert(block@.skip(i as int)[0] == block@[i as int]);
                assert(block@.skip(i as int).skip(1) =~= block@.skip(i + 1));
            }
            match Expr::from_parser_inner(content, &block[i]) {
                Err(e) => {
                    return Err(e);
                },
                Ok(v) => {
                    proof {
                        lemma_exprs_view_push(out@, v);
                        if lower_list_spec(content@, block@.skip(i + 1)) is Ok {
                            let rest = lower_list_spec(content@, block@.skip(i + 1))->Ok_0;
                            assert((exprs_view(out@) + (seq![crate::expr::expr_view(v)] + rest))
                                =~= ((exprs_view(out@) + seq![crate::expr::expr_view(v)]) + rest));
                        }
                    }
                    out.push(v);
                },
            }
            i = i + 1;
        }
        proof {
            assert(block@.skip(block@.len() as int) =~= Seq::<Expression>::empty());
            assert(exprs_view(out@) + Seq::<ExprV>::empty() =~= exprs_view(out@));
        }
        Ok(out)
    }

    /// Lowers one syntax node against the source text: resolves literal
    /// tokens to typed atoms, rejects the constructs the evaluator does
    /// not implement, and keeps everything else structurally.
    #[verifier::rlimit(100)]
    fn from_parser_inner(content: &[u8], e: &Expression) -> (r: Result<
        Expr,
        NotSupportedOperationError,
    >)
        ensures
            match r {
                Ok(v) => lower_spec(content@, *e) == Ok::<ExprV, NotSupportedOperationError>(v@),
                Err(er) => lower_spec(content@, *e) == Err::<ExprV, NotSupportedOperationError>(
                    er,
                ),
            },
        decreases *e,
    {
        match e {
            Expression::Include { id } => {
                match tok_slice(content, *id) {
                    None => Err(oob_err(*id)),
                    Some(n) => Ok(Expr::Include(n)),
                }
            },
            Expression::Return { expr } => {
                match Expr::from_parser_inner(content, expr) {
                    Err(er) => Err(er),
                    Ok(v) => Ok(Expr::Return(Box::new(v))),
                }
            },
            Expression::Function { id, args, block } => {
                let name = match tok_slice(content, *id) {
                    None => {
                        return Err(oob_err(*id));
                    },
                    Some(n) => n,
                };
                let params = match lower_arg_names(content, args) {
                    Err(er) => {
                        return Err(er);
                    },
                    Ok(p) => p,
                };
                match Expr::from_parser_block(content, block) {
                    Err(er) => Err(er),
                    Ok(body) => Ok(Expr::Function(name, params, body)),
                }
            },
            Expression::For { id, expr, block } => {
                let name = match tok_slice(content, *id) {
                    None => {
                        return Err(oob_err(*id));
                    },
                    Some(n) => n,
                };
                let body = match Expr::from_parser_block(content, block) {
                    Err(er) => {
                        return Err(er);
                    },
                    Ok(b) => b,
                };
                match Expr::from_parser_inner(content, expr) {
                    Err(er) => Err(er),
                    Ok(it) => Ok(Expr::For(name, Box::new(it), body)),
                }
            },
            Expression::Until { expr, block } => {
                let c = match Expr::from_parser_inner(content, expr) {
                    Err(er) => {
                        return Err(er);
                    },
                    Ok(c) => c,
                };
                match Expr::from_parser_block(content, block) {
                    Err(er) => Err(er),
                    Ok(body) => Ok(Expr::Until(Box::new(c), body)),
                }
            },
            Expression::If { expr, block, else_block } => {
                let c = match Expr::from_parser_inner(content, expr) {
                    Err(er) => {
                        return Err(er);
                    },
                    Ok(c) => c,
                };
                let body = match Expr::from_parser_block(content, block) {
                    Err(er) => {
                        return Err(er);
                    },
                    Ok(b) => b,
                };
                match else_block {
                    None => Ok(Expr::If(Box::new(c), body, None)),
                    Some(eb) => {
                        match Expr::from_parser_block(content, eb) {
                            Err(er) => Err(er),
                            Ok(ebody) => Ok(Expr::If(Box::new(c), body, Some(ebody))),
                        }
                    },
                }
            },
            Expression::Let { id, expr } => {
                let name = match tok_slice(content, *id) {
                    None => {
                        return Err(oob_err(*id));
                    },
                    Some(n) => n,
                };
                match Expr::from_parser_inner(content, expr) {
                    Err(er) => Err(er),
                    Ok(v) => Ok(Expr::Let(name, Box::new(v))),
                }
            },
            Expression::Binary { left, op, op_token, right } => {
                let l = match Expr::from_parser_inner(content, left) {
                    Err(er) => {
                        return Err(er);
                    },
                    Ok(l) => l,
                };
                let r2 = match Expr::from_parser_inner(content, right) {
                    Err(er) => {
                        return Err(er);
                    },
                    Ok(r2) => r2,
                };
                match op.as_bin_op() {
                    Some(b) => Ok(Expr::Binary(Box::new(l), b, Box::new(r2))),
                    None => match op.as_operator() {
                        Some(cmp) => Ok(Expr::Compare(Box::new(l), cmp, Box::new(r2))),
                        None => Err(
                            NotSupportedOperationError {
                                kind: LoweringErrorKind::UnsupportedOperation,
                                token: *op_token,
                            },
                        ),
                    },
                }
            },
            Expression::Unary { op: _, op_token, expr: _ } => Err(
                NotSupportedOperationError {
                    kind: LoweringErrorKind::UnsupportedOperation,
                    token: *op_token,
                },
            ),
            Expression::Assignment { region, left: _, right: _ } => Err(
                NotSupportedOperationError {
                    kind: LoweringErrorKind::UnsupportedOperation,
                    token: *region,
                },
            ),
            Expression::Identifier(t) => {
                match tok_slice(content, *t) {
                    None => Err(oob_err(*t)),
                    Some(n) => Ok(Expr::Constant(Atom::Name(n))),
                }
            },
            Expression::String(t) => {
                match tok_slice(content, *t) {
                    None => Err(oob_err(*t)),
                    Some(v) => {
                        if t.length >= 2 {
                            let mut inner: Vec<u8> = Vec::new();
                            let mut i: usize = 1;
                            while i < v.len() - 1
                                invariant
                                    1 <= i <= v@.len() - 1,
                                    v@.len() == t.length,
                                    t.length >= 2,
                                    inner@ == v@.subrange(1, i as int),
                                decreases v@.len() - i,
                            {
                                inner.push(v[i]);
                                proof {
                                    assert(inner@ =~= v@.subrange(1, i + 1));
                                }
                                i = i + 1;
                            }
                            proof {
                                assert(v@.subrange(1, t.length - 1) =~= content@.subrange(
                                    t.offset + 1,
                                    t.offset + t.length - 1,
                                ));
                            }
                            Ok(Expr::Constant(Atom::String(inner)))
                        } else {
                            Err(
                                NotSupportedOperationError {
                                    kind: LoweringErrorKind::InvalidStringLiteral,
                                    token: *t,
                                },
                            )
                        }
                    },
                }
            },
            Expression::Integer(t) => {
                match tok_slice(content, *t) {
                    None => Err(oob_err(*t)),
                    Some(v) => {
                        match parse_i64(v.as_slice()) {
                            Some(n) => Ok(Expr::Constant(Atom::Number(n))),
                            None => Err(
                                NotSupportedOperationError {
                                    kind: LoweringErrorKind::InvalidIntegerLiteral,
                                    token: *t,
                                },
                            ),
                        }
                    },
                }
            },
            Expression::Float(t) => {
                match tok_slice(content, *t) {
                    None => Err(oob_err(*t)),
                    Some(v) => {
                        match float_parse(v.as_slice()) {
                            Some(bits) => Ok(Expr::Constant(Atom::Float(bits))),
                            None => Err(
                                NotSupportedOperationError {
                                    kind: LoweringErrorKind::InvalidFloatLiteral,
                                    token: *t,
                                },
                            ),
                        }
                    },
                }
            },
            Expression::Bool(t) => {
                match tok_slice(content, *t) {
                    None => Err(oob_err(*t)),
                    Some(v) => {
                        if is_true_lit(&v) {
                            Ok(Expr::Constant(Atom::Boolean(true)))
                        } else if is_false_lit(&v) {
                            Ok(Expr::Constant(Atom::Boolean(false)))
                        } else {
                            Err(
                                NotSupportedOperationError {
                                    kind: LoweringErrorKind::InvalidBooleanLiteral,
                                    token: *t,
                                },
                            )
                        }
                    },
                }
            },
            Expression::Array(inner) => {
                match Expr::from_parser_block(content, inner) {
                    Err(er) => Err(er),
                    Ok(items) => Ok(Expr::Array(items)),
                }
            },
            Expression::Closure { args, block } => {
                let params = match lower_arg_names(content, args) {
                    Err(er) => {
                        return Err(er);
                    },
                    Ok(p) => p,
                };
                match Expr::from_parser_block(content, block) {
                    Err(er) => Err(er),
                    Ok(body) => Ok(Expr::Closure(params, body)),
                }
            },
            Expression::Call { region, left, args } => {
                let callee = match Expr::from_parser_inner(content, left) {
                    Err(er) => {
                        return Err(er);
                    },
                    Ok(c) => c,
                };
                let largs = match Expr::from_parser_block(content, args) {
                    Err(er) => {
                        return Err(er);
                    },
                    Ok(a) => a,
                };
                match callee {
                    Expr::Constant(Atom::Name(n)) => Ok(Expr::Call(n, largs)),
                    _ => Err(
                        NotSupportedOperationError {
                            kind: LoweringErrorKind::UnsupportedOperation,
                            token: *region,
                        },
                    ),
                }
            },
            Expression::Index { region, left, index } => {
                let callee = match Expr::from_parser_inner(content, left) {
                    Err(er) => {
                        return Err(er);
                    },
                    Ok(c) => c,
                };
                let ix = match Expr::from_parser_inner(content, index) {
                    Err(er) => {
                        return Err(er);
                    },
                    Ok(x) => x,
                };
                match callee {
                    Expr::Constant(Atom::Name(n)) => {
                        match ix {
                            Expr::Constant(Atom::Number(i)) => {
                                if 0 <= i && i as u64 <= usize::MAX as u64 {
                                    Ok(Expr::Get(n, i as usize))
                                } else {
                                    Err(
                                        NotSupportedOperationError {
                                            kind: LoweringErrorKind::UnsupportedOperation,
                                            token: *region,
                                        },
                                    )
                                }
                            },
                            _ => Err(
                                NotSupportedOperationError {
                                    kind: LoweringErrorKind::UnsupportedOperation,
                                    token: *region,
                                },
                            ),
                        }
                    },
                    _ => Err(
                        NotSupportedOperationError {
                            kind: LoweringErrorKind::UnsupportedOperation,
                            token: *region,
                        },
                    ),
                }
            },
        }
    }
}

} // verus!
