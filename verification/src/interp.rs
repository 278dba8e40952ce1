use vstd::prelude::*;
use crate::env::Env;
use crate::expr::{
    bytes_clone, bytes_eq, expr_clone, expr_eq, Atom, AtomV, BinOp, BuiltinId, Expr, ExprV,
    Operator,
};
use crate::floats::{
    f64_eq, f64_is_zero, f64_lt, float_add, float_add_of, float_div, float_div_of, float_eq,
    float_is_zero, float_le, float_lt, float_mul, float_mul_of, float_sub, float_sub_of,
};
use crate::lexer::{find_byte, lex, B_LBRACE, B_RBRACE};
use crate::render::render_expr;

verus! {

/// The input and output channel of one program run: the lines standing
/// in for standard input, a cursor over them, and the chunks written as
/// output, in order.  `println` appends one chunk per call, its rendered
/// arguments followed by one newline; `input` appends its prompt and
/// consumes one line.
pub struct Io {
    pub inputs: Vec<Vec<u8>>,
    pub cursor: usize,
    pub outputs: Vec<Vec<u8>>,
}

impl Io {
    /// A fresh channel over the given input lines.
    pub fn new(inputs: Vec<Vec<u8>>) -> (r: Io)
        ensures
            r.inputs == inputs,
            r.cursor == 0,
            r.outputs@.len() == 0,
    {
        Io { inputs, cursor: 0, outputs: Vec::new() }
    }
}

/// The host side of the builtin surface.  The builtins whose bodies
/// need the host process — hardware floating point for `sqrt` and
/// `pow`, the file system for `getcwd`, `listdir` and `exists` — are
/// dispatched through this trait, the registry-style boundary the
/// builtin protocol calls for.  The evaluator hands over the evaluated
/// arguments and assumes nothing of the answer beyond its type: its own
/// contracts hold whatever comes back.
pub trait HostBuiltins {
    /// Answers one host builtin call, given the evaluated arguments.
    fn host_call(&mut self, id: BuiltinId, args: Vec<Expr>) -> Result<Expr, EvalError>;
}

/// The host that answers nothing: every host builtin is reported
/// unavailable, by name.  Running a program against this host is
/// running it without a file system or hardware floats.
pub struct NoHost;

impl HostBuiltins for NoHost {
    fn host_call(&mut self, id: BuiltinId, args: Vec<Expr>) -> Result<Expr, EvalError> {
        let name = match id {
            BuiltinId::MathSqrt => name_vec(&['s' as u8, 'q' as u8, 'r' as u8, 't' as u8]),
            BuiltinId::MathPow => name_vec(&['p' as u8, 'o' as u8, 'w' as u8]),
            BuiltinId::OsGetcwd => name_vec(
                &['g' as u8, 'e' as u8, 't' as u8, 'c' as u8, 'w' as u8, 'd' as u8],
            ),
            BuiltinId::OsListdir => name_vec(
                &['l' as u8, 'i' as u8, 's' as u8, 't' as u8, 'd' as u8, 'i' as u8, 'r' as u8],
            ),
            BuiltinId::OsExists => name_vec(
                &['e' as u8, 'x' as u8, 'i' as u8, 's' as u8, 't' as u8, 's' as u8],
            ),
            _ => name_vec(&[]),
        };
        Err(EvalError::UnavailableBuiltinError(name))
    }
}

/// A fatal evaluation fault.  Every fault is an explicit result rather
/// than an abort, so a host can catch and report it.
#[derive(Debug)]
pub enum EvalError {
    /// A name with no binding was read.
    NameError(Vec<u8>),
    /// A call named neither a binding nor a special form.
    UndefinedFunctionError(Vec<u8>),
    /// Operands a comparison operator does not accept.
    InvalidComparisonError,
    /// A value of the wrong shape: a non-boolean condition, a non-array
    /// index target, or non-numeric arithmetic operands.
    TypeError,
    /// A `for` loop over a value that is not an array.
    NotIterableError,
    /// An array index past the end.
    IndexOutOfBoundsError,
    /// Integer or float division by exactly zero.
    DivisionByZeroError,
    /// An `include` of a library name the registry does not know.
    UnknownLibraryError(Vec<u8>),
    /// Arguments a builtin refuses: wrong count or wrong kinds; carries
    /// the builtin's name.
    BuiltinError(Vec<u8>),
    /// A builtin whose body needs the host process (the file system or
    /// hardware floating point) and so cannot run inside the library;
    /// carries the builtin's name.
    UnavailableBuiltinError(Vec<u8>),
    /// Integer arithmetic left the 64-bit range.
    OverflowError,
    /// The evaluation depth budget ran out.
    RecursionLimitError,
}

/// Truncating division of 64-bit integers, as the host machine divides.
pub open spec fn trunc_div(a: int, b: int) -> int {
    if a == 0 {
        0
    } else if a > 0 && b > 0 {
        a / b
    } else if a < 0 && b < 0 {
        (a * -1) / (b * -1)
    } else if a < 0 {
        ((a * -1) / b) * -1
    } else {
        (a / (b * -1)) * -1
    }
}

/// Applies an arithmetic operator to two evaluated operands.  Both must
/// be numbers of the same kind; division by exactly zero is fatal, as is
/// integer arithmetic leaving the 64-bit range.
pub fn eval_binary(lv: Expr, op: BinOp, rv: Expr) -> (r: Result<Expr, EvalError>)
    ensures
        (match (lv@, rv@) {
            (ExprV::Constant(AtomV::Number(a)), ExprV::Constant(AtomV::Number(b))) => {
                match op {
                    BinOp::Add => {
                        if i64::MIN <= a + b <= i64::MAX {
                            r matches Ok(v) && v@ == ExprV::Constant(AtomV::Number((a + b) as i64))
                        } else {
                            r matches Err(e) && e is OverflowError
                        }
                    },
                    BinOp::Sub => {
                        if i64::MIN <= a - b <= i64::MAX {
                            r matches Ok(v) && v@ == ExprV::Constant(AtomV::Number((a - b) as i64))
                        } else {
                            r matches Err(e) && e is OverflowError
                        }
                    },
                    BinOp::Mul => {
                        if i64::MIN <= a * b <= i64::MAX {
                            r matches Ok(v) && v@ == ExprV::Constant(AtomV::Number((a * b) as i64))
                        } else {
                            r matches Err(e) && e is OverflowError
                        }
                    },
                    BinOp::Div => {
                        if b == 0 {
                            r matches Err(e) && e is DivisionByZeroError
                        } else if i64::MIN <= trunc_div(a as int, b as int) <= i64::MAX {
                            r matches Ok(v) && v@ == ExprV::Constant(
                                AtomV::Number(trunc_div(a as int, b as int) as i64),
                            )
                        } else {
                            r matches Err(e) && e is OverflowError
                        }
                    },
                }
            },
            (ExprV::Constant(AtomV::Float(a)), ExprV::Constant(AtomV::Float(b))) => {
                match op {
                    BinOp::Add => r matches Ok(v) && v@ == ExprV::Constant(
                        AtomV::Float(float_add_of(a, b)),
                    ),
                    BinOp::Sub => r matches Ok(v) && v@ == ExprV::Constant(
                        AtomV::Float(float_sub_of(a, b)),
                    ),
                    BinOp::Mul => r matches Ok(v) && v@ == ExprV::Constant(
                        AtomV::Float(float_mul_of(a, b)),
                    ),
                    BinOp::Div => {
                        if f64_is_zero(b) {
                            r matches Err(e) && e is DivisionByZeroError
                        } else {
                            r matches Ok(v) && v@ == ExprV::Constant(
                                AtomV::Float(float_div_of(a, b)),
                            )
                        }
                    },
                }
            },
            _ => r matches Err(e) && e is TypeError,
        }),
{
    match (lv, rv) {
        (Expr::Constant(Atom::Number(a)), Expr::Constant(Atom::Number(b))) => {
            match op {
                BinOp::Add => {
                    match a.checked_add(b) {
                        Some(c) => Ok(Expr::Constant(Atom::Number(c))),
                        None => Err(EvalError::OverflowError),
                    }
                },
                BinOp::Sub => {
                    match a.checked_sub(b) {
                        Some(c) => Ok(Expr::Constant(Atom::Number(c))),
                        None => Err(EvalError::OverflowError),
                    }
                },
                BinOp::Mul => {
                    match a.checked_mul(b) {
                        Some(c) => Ok(Expr::Constant(Atom::Number(c))),
                        None => Err(EvalError::OverflowError),
                    }
                },
                BinOp::Div => {
                    if b == 0 {
                        Err(EvalError::DivisionByZeroError)
                    } else {
                        match a.checked_div(b) {
                            Some(c) => Ok(Expr::Constant(Atom::Number(c))),
                            None => Err(EvalError::OverflowError),
                        }
                    }
                },
            }
        },
        (Expr::Constant(Atom::Float(a)), Expr::Constant(Atom::Float(b))) => {
            match op {
                BinOp::Add => Ok(Expr::Constant(Atom::Float(float_add(a, b)))),
                BinOp::Sub => Ok(Expr::Constant(Atom::Float(float_sub(a, b)))),
                BinOp::Mul => Ok(Expr::Constant(Atom::Float(float_mul(a, b)))),
                BinOp::Div => {
                    if float_is_zero(b) {
                        Err(EvalError::DivisionByZeroError)
                    } else {
                        Ok(Expr::Constant(Atom::Float(float_div(a, b))))
                    }
                },
            }
        },
        _ => Err(EvalError::TypeError),
    }
}

/// What a comparison of two evaluated operands yields: a boolean, or no
/// result where the operands' kinds do not admit the operator.
pub open spec fn compare_spec(l: ExprV, op: Operator, r: ExprV) -> Option<bool> {
    match (l, r) {
        (ExprV::Constant(AtomV::Number(a)), ExprV::Constant(AtomV::Number(b))) => {
            match op {
                Operator::Equal => Some(a == b),
                Operator::NotEqual => Some(a != b),
                Operator::LessThan => Some(a < b),
                Operator::LessThanEqual => Some(a <= b),
                Operator::GreaterThan => Some(a > b),
                Operator::GreaterThanEqual => Some(a >= b),
            }
        },
        (ExprV::Constant(AtomV::Float(a)), ExprV::Constant(AtomV::Float(b))) => {
            match op {
                Operator::Equal => Some(f64_eq(a, b)),
                Operator::NotEqual => Some(!f64_eq(a, b)),
                Operator::LessThan => Some(f64_lt(a, b)),
                Operator::LessThanEqual => Some(f64_lt(a, b) || f64_eq(a, b)),
                Operator::GreaterThan => Some(f64_lt(b, a)),
                Operator::GreaterThanEqual => Some(f64_lt(b, a) || f64_eq(b, a)),
            }
        },
        (ExprV::Constant(AtomV::Boolean(a)), ExprV::Constant(AtomV::Boolean(b))) => {
            match op {
                Operator::Equal => Some(a == b),
                Operator::NotEqual => Some(a != b),
                _ => None,
            }
        },
        (ExprV::Constant(AtomV::String(a)), ExprV::Constant(AtomV::String(b))) => {
            match op {
                Operator::Equal => Some(a == b),
                Operator::NotEqual => Some(a != b),
                _ => None,
            }
        },
        _ => None,
    }
}

/// Applies a comparison operator to two evaluated operands: exactly what
/// `compare_spec` yields, or the fatal comparison error where it yields
/// nothing.
pub fn eval_compare(lv: Expr, op: Operator, rv: Expr) -> (r: Result<Expr, EvalError>)
    ensures
        (match compare_spec(lv@, op, rv@) {
            Some(b) => r matches Ok(v) && v@ == ExprV::Constant(AtomV::Boolean(b)),
            None => r matches Err(e) && e is InvalidComparisonError,
        }),
{
    match (lv, rv) {
        (Expr::Constant(Atom::Number(a)), Expr::Constant(Atom::Number(b))) => {
            let c = match op {
                Operator::Equal => a == b,
                Operator::NotEqual => a != b,
                Operator::LessThan => a < b,
                Operator::LessThanEqual => a <= b,
                Operator::GreaterThan => a > b,
                Operator::GreaterThanEqual => a >= b,
            };
            Ok(Expr::Constant(Atom::Boolean(c)))
        },
        (Expr::Constant(Atom::Float(a)), Expr::Constant(Atom::Float(b))) => {
            let c = match op {
                Operator::Equal => float_eq(a, b),
                Operator::NotEqual => !float_eq(a, b),
                Operator::LessThan => float_lt(a, b),
                Operator::LessThanEqual => float_le(a, b),
                Operator::GreaterThan => float_lt(b, a),
                Operator::GreaterThanEqual => float_le(b, a),
            };
            Ok(Expr::Constant(Atom::Boolean(c)))
        },
        (Expr::Constant(Atom::Boolean(a)), Expr::Constant(Atom::Boolean(b))) => {
            match op {
                Operator::Equal => Ok(Expr::Constant(Atom::Boolean(a == b))),
                Operator::NotEqual => Ok(Expr::Constant(Atom::Boolean(a != b))),
                _ => Err(EvalError::InvalidComparisonError),
            }
        },
        (Expr::Constant(Atom::String(a)), Expr::Constant(Atom::String(b))) => {
            match op {
                Operator::Equal => Ok(
                    Expr::Constant(Atom::Boolean(bytes_eq(a.as_slice(), b.as_slice()))),
                ),
                Operator::NotEqual => Ok(
                    Expr::Constant(Atom::Boolean(!bytes_eq(a.as_slice(), b.as_slice()))),
                ),
                _ => Err(EvalError::InvalidComparisonError),
            }
        },
        _ => Err(EvalError::InvalidComparisonError),
    }
}

/// The number of complete `{ ... }` interpolation spans in a string,
/// scanning left to right from `i`.
pub open spec fn span_count(s: Seq<u8>, i: int) -> nat
    decreases s.len() - i,
{
    if 0 <= i <= s.len() {
        let o = find_byte(s, i, B_LBRACE);
        if o >= s.len() {
            0
        } else {
            let c = find_byte(s, o + 1, B_RBRACE);
            if c >= s.len() {
                0
            } else if c + 1 > i {
                span_count(s, c + 1) + 1
            } else {
                0
            }
        }
    } else {
        0
    }
}

/// A copy of `s[a..b]`.
pub(crate) fn sub_vec(s: &[u8], a: usize, b: usize) -> (r: Vec<u8>)
    requires
        a <= b <= s@.len(),
    ensures
        r@ == s@.subrange(a as int, b as int),
{
    let mut out: Vec<u8> = Vec::new();
    let mut i = a;
    while i < b
        invariant
            a <= i <= b <= s@.len(),
            out@ == s@.subrange(a as int, i as int),
        decreases b - i,
    {
        out.push(s[i]);
        proof {
            assert(out@ =~= s@.subrange(a as int, i + 1));
        }
        i = i + 1;
    }
    out
}

/// Splits a string literal's bytes into interpolation segments: the
/// literal stretches between spans, and each span's text parsed through
/// the full pipeline as one expression.  Returns the segments and the
/// number of spans, or nothing where a span is malformed: an unclosed
/// brace, or span text that does not read as exactly one expression.
#[verifier::loop_isolation(false)]
fn parse_interpolation(s: &Vec<u8>) -> (r: Option<(Vec<Expr>, usize)>)
    ensures
        r matches Some(t) ==> t.1 == span_count(s@, 0),
{
    let mut segs: Vec<Expr> = Vec::new();
    let mut count: usize = 0;
    let mut i: usize = 0;
    let n = s.len();
    loop
        invariant
            0 <= i <= n,
            n == s@.len(),
            count + span_count(s@, i as int) == span_count(s@, 0),
        decreases n - i,
    {
        let o = crate::lexer::find_byte_scan(s.as_slice(), i, B_LBRACE);
        if o >= n {
            if i < n {
                segs.push(Expr::Constant(Atom::String(sub_vec(s.as_slice(), i, n))));
            }
            return Some((segs, count));
        }
        proof {
            crate::lexer::lemma_find_byte(s@, i as int, B_LBRACE);
        }
        let c = crate::lexer::find_byte_scan(s.as_slice(), o + 1, B_RBRACE);
        if c >= n {
            return None;
        }
        proof {
            crate::lexer::lemma_find_byte(s@, o + 1, B_RBRACE);
        }
        if o > i {
            segs.push(Expr::Constant(Atom::String(sub_vec(s.as_slice(), i, o))));
        }
        let inner = sub_vec(s.as_slice(), o + 1, c);
        let toks = match lex(inner.as_slice()) {
            Ok(t) => t,
            Err(_) => {
                return None;
            },
        };
        let parsed = match crate::parser::parser(toks.as_slice()) {
            Ok(p) => p,
            Err(_) => {
                return None;
            },
        };
        if parsed.len() != 1 {
            return None;
        }
        let mut lowered = match Expr::from_parser(inner.as_slice(), parsed) {
            Ok(l) => l,
            Err(_) => {
                return None;
            },
        };
        if lowered.len() != 1 {
            return None;
        }
        match lowered.pop() {
            Some(e) => {
                segs.push(e);
            },
            None => {
                return None;
            },
        }
        if count == usize::MAX {
            return None;
        }
        count = count + 1;
        i = c + 1;
    }
}

/// Dispatches a builtin call on its identity, handing it the already
/// evaluated arguments.  The builtins the library computes are called
/// directly; the ones that need the host process go to the host.
fn dispatch_builtin<H: HostBuiltins>(id: BuiltinId, args: Vec<Expr>, host: &mut H) -> (r: Result<
    Expr,
    EvalError,
>) {
    match id {
        BuiltinId::MathAbs => crate::stdlib::math::math_abs(args),
        BuiltinId::MathSqrt => host.host_call(id, args),
        BuiltinId::MathPow => host.host_call(id, args),
        BuiltinId::StrLowercase => crate::stdlib::string::string_lowercase(args),
        BuiltinId::StrUppercase => crate::stdlib::string::string_uppercase(args),
        BuiltinId::StrLength => crate::stdlib::string::string_length(args),
        BuiltinId::StrSplit => crate::stdlib::string::string_split(args),
        BuiltinId::StrReverse => crate::stdlib::string::string_reverse(args),
        BuiltinId::StrTrim => crate::stdlib::string::string_trim(args),
        BuiltinId::StrLtrim => crate::stdlib::string::string_ltrim(args),
        BuiltinId::StrRtrim => crate::stdlib::string::string_rtrim(args),
        BuiltinId::TimeMs => crate::stdlib::time::time_ms(args),
        BuiltinId::TimeSec => crate::stdlib::time::time_sec(args),
        BuiltinId::OsGetcwd => host.host_call(id, args),
        BuiltinId::OsListdir => host.host_call(id, args),
        BuiltinId::OsExists => host.host_call(id, args),
        BuiltinId::RandomRand => crate::stdlib::random::random_rand(args),
    }
}

/// A name as a byte vector.
pub(crate) fn name_vec(w: &[u8]) -> (r: Vec<u8>)
    ensures
        r@ == w@,
{
    let mut out: Vec<u8> = Vec::new();
    let mut i: usize = 0;
    while i < w.len()
        invariant
            0 <= i <= w@.len(),
            out@ == w@.subrange(0, i as int),
        decreases w@.len() - i,
    {
        out.push(w[i]);
        proof {
            assert(out@ =~= w@.subrange(0, i + 1));
        }
        i = i + 1;
    }
    proof {
        assert(w@.subrange(0, w@.len() as int) =~= w@);
    }
    out
}

/// Runs a whole program: each top-level expression in order, against one
/// fresh root environment, stopping at the first fatal fault.  `fuel`
/// bounds the depth of indirection a single evaluation may reach:
/// nested calls, array-element and interpolation re-evaluation; it does
/// not bound loop iteration counts except for `until`, each of whose
/// iterations re-enters its condition.
pub fn interpreter(exprs: Vec<Expr>, io: &mut Io, fuel: u64) -> (r: Result<(), EvalError>)
    ensures
        exprs@.len() == 0 ==> (r is Ok && *final (io) == *old(io)),
        (forall|k: int|
            0 <= k < exprs@.len() ==> is_plain_lit(
                crate::expr::expr_view(#[trigger] exprs@[k]),
            )) ==> (r is Ok && *final (io) == *old(io)),
        exprs@.len() == 1 ==> (match crate::expr::expr_view(exprs@[0]) {
            ExprV::Include(n) => (!(n == random_lib() || n == string_lib() || n == time_lib()
                || n == math_lib() || n == os_lib())) ==> (r matches Err(e) && (e
                matches EvalError::UnknownLibraryError(m) && m@ == n)),
            ExprV::Call(_, cargs) => println_lit_call(
                crate::expr::expr_view(exprs@[0]),
                Map::<Seq<u8>, ExprV>::empty(),
                fuel,
            ) ==> (r is Ok && final (io).inputs == old(io).inputs && final (io).cursor == old(io).cursor && final (io).outputs@.len() == old(io).outputs@.len() + 1 && final (io).outputs@.drop_last() == old(io).outputs@ && final (io).outputs@.last()@
                == line_text(cargs)),
            ExprV::Return(inner) => is_effectless_lit(*inner) ==> (r is Ok && *final (io)
                == *old(io)),
            _ => true,
        }),
{
    interpreter_with_host(exprs, io, &mut NoHost, fuel)
}

/// Runs a whole program against the given host for the builtins whose
/// bodies the library cannot compute; otherwise as `interpreter`.
pub fn interpreter_with_host<H: HostBuiltins>(
    exprs: Vec<Expr>,
    io: &mut Io,
    host: &mut H,
    fuel: u64,
) -> (r: Result<(), EvalError>)
    ensures
        exprs@.len() == 0 ==> (r is Ok && *final (io) == *old(io)),
        (forall|k: int|
            0 <= k < exprs@.len() ==> is_plain_lit(
                crate::expr::expr_view(#[trigger] exprs@[k]),
            )) ==> (r is Ok && *final (io) == *old(io)),
        exprs@.len() == 1 ==> (match crate::expr::expr_view(exprs@[0]) {
            ExprV::Include(n) => (!(n == random_lib() || n == string_lib() || n == time_lib()
                || n == math_lib() || n == os_lib())) ==> (r matches Err(e) && (e
                matches EvalError::UnknownLibraryError(m) && m@ == n)),
            ExprV::Call(_, cargs) => println_lit_call(
                crate::expr::expr_view(exprs@[0]),
                Map::<Seq<u8>, ExprV>::empty(),
                fuel,
            ) ==> (r is Ok && final (io).inputs == old(io).inputs && final (io).cursor == old(io).cursor && final (io).outputs@.len() == old(io).outputs@.len() + 1 && final (io).outputs@.drop_last() == old(io).outputs@ && final (io).outputs@.last()@
                == line_text(cargs)),
            ExprV::Return(inner) => is_effectless_lit(*inner) ==> (r is Ok && *final (io)
                == *old(io)),
            _ => true,
        }),
{
    let mut env = Env::new();
    let mut i: usize = 0;
    while i < exprs.len()
        invariant
            0 <= i <= exprs@.len(),
            i == 0 ==> env@ == Map::<Seq<u8>, ExprV>::empty(),
            i == 0 ==> *io == *old(io),
            exprs@.len() == 0 ==> *io == *old(io),
            (forall|k: int|
                0 <= k < exprs@.len() ==> is_plain_lit(
                    crate::expr::expr_view(#[trigger] exprs@[k]),
                )) ==> *io == *old(io),
            (exprs@.len() == 1 && i == 1) ==> (match crate::expr::expr_view(exprs@[0]) {
                ExprV::Include(n) => n == random_lib() || n == string_lib() || n == time_lib()
                    || n == math_lib() || n == os_lib(),
                ExprV::Call(_, cargs) => println_lit_call(
                    crate::expr::expr_view(exprs@[0]),
                    Map::<Seq<u8>, ExprV>::empty(),
                    fuel,
                ) ==> (io.inputs == old(io).inputs && io.cursor == old(io).cursor
                    && io.outputs@.len() == old(io).outputs@.len() + 1
                    && io.outputs@.drop_last() == old(io).outputs@ && io.outputs@.last()@
                    == line_text(cargs)),
                ExprV::Return(inner) => is_effectless_lit(*inner) ==> *io == *old(io),
                _ => true,
            }),
        decreases exprs@.len() - i,
    {
        match interpreter_expr(&exprs[i], &mut env, io, host, fuel) {
            Ok(_) => (),
            Err(e) => {
                return Err(e);
            },
        }
        i = i + 1;
    }
    Ok(())
}

/// Binds a function definition: the name is bound to a closure of the
/// parameters and body, and the definition itself yields nothing.
fn define_function(name: &Vec<u8>, params: &Vec<Vec<u8>>, body: &Vec<Expr>, env: &mut Env) -> (r:
    Expr)
    ensures
        r@ == ExprV::Void,
        final (env)@ == old(env)@.insert(
            name@,
            ExprV::Closure(crate::expr::names_view(params@), crate::expr::exprs_view(body@)),
        ),
{
    let closure = Expr::Closure(crate::expr::names_clone(params), crate::expr::exprs_clone(body));
    env.insert(bytes_clone(name), closure);
    Expr::Void
}

/// Reads element `index` of the array bound to `name`, still
/// unevaluated: an unbound name, a non-array binding and an index past
/// the end are each their own fault.
fn get_element(name: &Vec<u8>, index: usize, env: &Env) -> (r: Result<Expr, EvalError>)
    ensures
        !env@.contains_key(name@) ==> (r matches Err(e) && (e matches EvalError::NameError(m)
            && m@ == name@)),
        (env@.contains_key(name@) && !(env@[name@] is Array)) ==> (r matches Err(e) && e
            is TypeError),
        (env@.contains_key(name@) && env@[name@] is Array && index
            >= env@[name@]->Array_0.len()) ==> (r matches Err(e) && e
            is IndexOutOfBoundsError),
        r matches Ok(v) ==> env@.contains_key(name@) && env@[name@] is Array && index
            < env@[name@]->Array_0.len() && v@ == env@[name@]->Array_0[index as int],
        (env@.contains_key(name@) && env@[name@] is Array && index
            < env@[name@]->Array_0.len()) ==> r is Ok,
{
    match env.lookup(name.as_slice()) {
        Some(Expr::Array(items)) => {
            proof {
                assert(env@[name@] == ExprV::Array(crate::expr::exprs_view(items@)));
                assert(env@[name@]->Array_0.len() == items@.len());
            }
            if index < items.len() {
                proof {
                    assert(crate::expr::exprs_view(items@)[index as int]
                        == crate::expr::expr_view(items@[index as int]));
                }
                Ok(expr_clone(&items[index]))
            } else {
                Err(EvalError::IndexOutOfBoundsError)
            }
        },
        Some(_) => Err(EvalError::TypeError),
        None => Err(EvalError::NameError(bytes_clone(name))),
    }
}

/// The library names `include` knows, by their spellings.
pub open spec fn random_lib() -> Seq<u8> {
    seq![114u8, 97u8, 110u8, 100u8, 111u8, 109u8]
}

pub open spec fn string_lib() -> Seq<u8> {
    seq![115u8, 116u8, 114u8, 105u8, 110u8, 103u8]
}

pub open spec fn time_lib() -> Seq<u8> {
    seq![116u8, 105u8, 109u8, 101u8]
}

pub open spec fn math_lib() -> Seq<u8> {
    seq![109u8, 97u8, 116u8, 104u8]
}

pub open spec fn os_lib() -> Seq<u8> {
    seq![111u8, 115u8]
}

/// The outcome of the all-literal arithmetic fragment: a value of one
/// numeric kind, or the fault the evaluator must report.
pub enum NumOutcome {
    Num(i64),
    Flt(u64),
    DivZero,
    Over,
    Mixed,
}

/// Combines two operand outcomes under an arithmetic operator: a fault
/// of the left operand surfaces first, then one of the right, then the
/// operator's own arithmetic with its overflow and zero-divisor faults.
pub open spec fn arith_combine(a: NumOutcome, op: BinOp, b: NumOutcome) -> NumOutcome {
    match a {
        NumOutcome::Num(x) => match b {
            NumOutcome::Num(y) => match op {
                BinOp::Add => if i64::MIN <= x + y <= i64::MAX {
                    NumOutcome::Num((x + y) as i64)
                } else {
                    NumOutcome::Over
                },
                BinOp::Sub => if i64::MIN <= x - y <= i64::MAX {
                    NumOutcome::Num((x - y) as i64)
                } else {
                    NumOutcome::Over
                },
                BinOp::Mul => if i64::MIN <= x * y <= i64::MAX {
                    NumOutcome::Num((x * y) as i64)
                } else {
                    NumOutcome::Over
                },
                BinOp::Div => if y == 0 {
                    NumOutcome::DivZero
                } else if i64::MIN <= trunc_div(x as int, y as int) <= i64::MAX {
                    NumOutcome::Num(trunc_div(x as int, y as int) as i64)
                } else {
                    NumOutcome::Over
                },
            },
            NumOutcome::Flt(_) => NumOutcome::Mixed,
            _ => b,
        },
        NumOutcome::Flt(x) => match b {
            NumOutcome::Flt(y) => match op {
                BinOp::Add => NumOutcome::Flt(float_add_of(x, y)),
                BinOp::Sub => NumOutcome::Flt(float_sub_of(x, y)),
                BinOp::Mul => NumOutcome::Flt(float_mul_of(x, y)),
                BinOp::Div => if f64_is_zero(y) {
                    NumOutcome::DivZero
                } else {
                    NumOutcome::Flt(float_div_of(x, y))
                },
            },
            NumOutcome::Num(_) => NumOutcome::Mixed,
            _ => b,
        },
        _ => a,
    }
}

/// What the all-literal arithmetic fragment evaluates to: defined on
/// numeric literals and on arithmetic over the fragment, and on nothing
/// else.  Precedence lives in the tree, so this pins, for instance, that
/// an addition whose right operand is a product evaluates the product.
pub open spec fn arith_spec(e: ExprV) -> Option<NumOutcome>
    decreases e,
{
    match e {
        ExprV::Constant(AtomV::Number(n)) => Some(NumOutcome::Num(n)),
        ExprV::Constant(AtomV::Float(b)) => Some(NumOutcome::Flt(b)),
        ExprV::Binary(l, op, r) => match (arith_spec(*l), arith_spec(*r)) {
            (Some(a), Some(b)) => Some(arith_combine(a, op, b)),
            _ => None,
        },
        _ => None,
    }
}

/// An expression that evaluates to itself with no effect: a plain
/// literal, or a string literal with at most one interpolation span.
pub open spec fn is_effectless_lit(e: ExprV) -> bool {
    is_plain_lit(e) || (match e {
        ExprV::Constant(AtomV::String(s)) => span_count(s, 0) <= 1,
        _ => false,
    })
}

/// The spelling of the special form `println`.
pub open spec fn println_name() -> Seq<u8> {
    seq![112u8, 114u8, 105u8, 110u8, 116u8, 108u8, 110u8]
}

/// The one output chunk a `println` call writes: each argument's
/// rendering in order, then a newline.
pub open spec fn line_text(args: Seq<ExprV>) -> Seq<u8>
    decreases args,
{
    if args.len() == 0 {
        seq![10u8]
    } else {
        crate::render::expr_text(args[0]) + line_text(args.skip(1))
    }
}

/// The name a closure whose whole body is `return` of that name reads
/// back, where `f` is bound to such a closure.
pub open spec fn closure_returning_name(env0: Map<Seq<u8>, ExprV>, f: Seq<u8>) -> Option<
    Seq<u8>,
> {
    if env0.contains_key(f) {
        match env0[f] {
            ExprV::Closure(_, b) => if b.len() == 1 {
                match b[0] {
                    ExprV::Return(i) => match *i {
                        ExprV::Constant(AtomV::Name(y)) => Some(y),
                        _ => None,
                    },
                    _ => None,
                }
            } else {
                None
            },
            _ => None,
        }
    } else {
        None
    }
}

/// A literal constant: a number, a float or a boolean, which evaluates
/// to itself without reading or changing anything.
pub open spec fn is_plain_lit(e: ExprV) -> bool {
    e matches ExprV::Constant(AtomV::Number(_)) || e matches ExprV::Constant(AtomV::Float(_))
        || e matches ExprV::Constant(AtomV::Boolean(_))
}

/// A call whose arguments are all literal constants and whose name is
/// bound to a closure: scoping isolation says such a call leaves the
/// caller's environment exactly as it was, whatever the closure's body
/// binds inside its own scope.
pub open spec fn literal_args_closure_call(e: ExprV, env0: Map<Seq<u8>, ExprV>) -> bool {
    match e {
        ExprV::Call(n, cargs) => (forall|i: int|
            0 <= i < cargs.len() ==> is_plain_lit(#[trigger] cargs[i])) && env0.contains_key(n)
            && (env0[n] is Closure),
        _ => false,
    }
}

/// A `println` special-form call on literal arguments, with the name
/// unbound (so the special form is reached) and fuel for the argument
/// renderings: such a call appends exactly one output chunk.
pub open spec fn println_lit_call(e: ExprV, env0: Map<Seq<u8>, ExprV>, fuel: u64) -> bool {
    match e {
        ExprV::Call(f, cargs) => f == println_name() && !env0.contains_key(f) && (forall|i: int|
            0 <= i < cargs.len() ==> is_plain_lit(#[trigger] cargs[i])) && (cargs.len() > 0
            ==> fuel >= 1),
        _ => false,
    }
}

/// A call without arguments of a closure whose whole body returns a
/// name bound in the calling environment: enclosing-scope visibility
/// says such a call yields exactly that binding.
pub open spec fn reads_back_call(e: ExprV, env0: Map<Seq<u8>, ExprV>, fuel: u64) -> bool {
    match e {
        ExprV::Call(f, cargs) => cargs.len() == 0 && fuel >= 1 && (match closure_returning_name(
            env0,
            f,
        ) {
            Some(y) => env0.contains_key(y),
            None => false,
        }),
        _ => false,
    }
}

/// Evaluates one expression against the environment and the channel.
///
/// The clauses below pin the semantics wherever it can be said without
/// a full evaluation relation: all-literal arithmetic to any nesting
/// depth (so precedence of the lowered tree is honored), comparisons of
/// literal operands, the self-evaluating forms, name resolution, a
/// string with at most one interpolation span, a `let` of a plain
/// literal, an `until` whose condition is literally `true`, the
/// non-boolean-condition fault and the empty branches of `if`, the
/// non-array fault and the empty-array run of `for`, `return` of a
/// literal or of a name, scoping isolation of a closure call on literal
/// arguments, the read-back of an enclosing binding through a closure,
/// the output chunk of a `println` on literal arguments, what each
/// `include` loads, what a function definition binds, and element
/// access.  The general recursive cases are exercised by the tests.
#[verifier::loop_isolation(false)]
#[verifier::rlimit(100)]
pub fn interpreter_expr<H: HostBuiltins>(
    expr: &Expr,
    env: &mut Env,
    io: &mut Io,
    host: &mut H,
    fuel: u64,
) -> (r: Result<Expr, EvalError>)
    ensures
        (match arith_spec(expr@) {
            Some(out) => final (env)@ == old(env)@ && *final (io) == *old(io) && (match out {
                NumOutcome::Num(n) => r matches Ok(v) && v@ == ExprV::Constant(AtomV::Number(n)),
                NumOutcome::Flt(b) => r matches Ok(v) && v@ == ExprV::Constant(AtomV::Float(b)),
                NumOutcome::DivZero => r matches Err(e) && e is DivisionByZeroError,
                NumOutcome::Over => r matches Err(e) && e is OverflowError,
                NumOutcome::Mixed => r matches Err(e) && e is TypeError,
            }),
            None => true,
        }),
        (match expr@ {
            ExprV::Void => r matches Ok(v) && v@ == expr@ && final (env)@ == old(env)@ && *final (io) == *old(io),
            ExprV::Array(_) => r matches Ok(v) && v@ == expr@ && final (env)@ == old(env)@
                && *final (io) == *old(io),
            ExprV::Closure(_, _) => r matches Ok(v) && v@ == expr@ && final (env)@ == old(env)@
                && *final (io) == *old(io),
            ExprV::Builtin(_) => r matches Ok(v) && v@ == expr@ && final (env)@ == old(env)@
                && *final (io) == *old(io),
            ExprV::Constant(AtomV::Number(_)) => r matches Ok(v) && v@ == expr@ && final (env)@
                == old(env)@ && *final (io) == *old(io),
            ExprV::Constant(AtomV::Float(_)) => r matches Ok(v) && v@ == expr@ && final (env)@
                == old(env)@ && *final (io) == *old(io),
            ExprV::Constant(AtomV::Boolean(_)) => r matches Ok(v) && v@ == expr@ && final (env)@
                == old(env)@ && *final (io) == *old(io),
            ExprV::Constant(AtomV::Name(n)) => final (env)@ == old(env)@ && *final (io) == *old(io) && (match r {
                Ok(v) => old(env)@.contains_key(n) && v@ == old(env)@[n],
                Err(e) => !old(env)@.contains_key(n) && (e matches EvalError::NameError(m)
                    && m@ == n),
            }),
            ExprV::Constant(AtomV::String(s)) => span_count(s, 0) <= 1 ==> (r matches Ok(v) && v@
                == expr@ && final (env)@ == old(env)@ && *final (io) == *old(io)),
            ExprV::Let(n, v) => (match *v {
                ExprV::Constant(AtomV::Number(_)) => r matches Ok(out) && out@ == ExprV::Void
                    && final (env)@ == old(env)@.insert(n, *v) && *final (io) == *old(io),
                ExprV::Constant(AtomV::Float(_)) => r matches Ok(out) && out@ == ExprV::Void
                    && final (env)@ == old(env)@.insert(n, *v) && *final (io) == *old(io),
                ExprV::Constant(AtomV::Boolean(_)) => r matches Ok(out) && out@ == ExprV::Void
                    && final (env)@ == old(env)@.insert(n, *v) && *final (io) == *old(io),
                _ => true,
            }),
            ExprV::If(c, t, els) => {
                &&& ((is_effectless_lit(*c) && !((*c) matches ExprV::Constant(AtomV::Boolean(_))))
                    ==> (r matches Err(e) && e is TypeError && final (env)@ == old(env)@
                    && *final (io) == *old(io)))
                &&& ((*c == ExprV::Constant(AtomV::Boolean(true)) && t.len() == 0) ==> (r
                    matches Ok(v) && v@ == ExprV::Void && final (env)@ == old(env)@ && *final (io)
                    == *old(io)))
                &&& ((*c == ExprV::Constant(AtomV::Boolean(false)) && (match els {
                    Some(eb) => eb.len() == 0,
                    None => true,
                })) ==> (r matches Ok(v) && v@ == ExprV::Void && final (env)@ == old(env)@
                    && *final (io) == *old(io)))
            },
            ExprV::For(_, it, _) => {
                &&& (is_effectless_lit(*it) ==> (r matches Err(e) && e is NotIterableError
                    && final (env)@ == old(env)@ && *final (io) == *old(io)))
                &&& (((*it) matches ExprV::Array(fitems) && fitems.len() == 0) ==> (r matches Ok(
                    v,
                ) && v@ == ExprV::Void && final (env)@ == old(env)@ && *final (io) == *old(io)))
            },
            ExprV::Return(inner) => {
                &&& (is_effectless_lit(*inner) ==> (r matches Ok(v) && v@ == ExprV::Return(inner)
                    && final (env)@ == old(env)@ && *final (io) == *old(io)))
                &&& ((*inner) matches ExprV::Constant(AtomV::Name(nm)) ==> (final (env)@ == old(
                    env,
                )@ && *final (io) == *old(io) && (match r {
                    Ok(v) => old(env)@.contains_key(nm) && v@ == ExprV::Return(
                        Box::new(old(env)@[nm]),
                    ),
                    Err(e) => !old(env)@.contains_key(nm) && (e matches EvalError::NameError(m)
                        && m@ == nm),
                })))
            },
            ExprV::Compare(cl, cop, cr) => (is_effectless_lit(*cl) && is_effectless_lit(*cr))
                ==> (final (env)@ == old(env)@ && *final (io) == *old(io) && (match compare_spec(
                *cl,
                cop,
                *cr,
            ) {
                Some(b) => r matches Ok(v) && v@ == ExprV::Constant(AtomV::Boolean(b)),
                None => r matches Err(e) && e is InvalidComparisonError,
            })),
            ExprV::Until(c, _) => *c == ExprV::Constant(AtomV::Boolean(true)) ==> (r matches Ok(v)
                && v@ == ExprV::Void && final (env)@ == old(env)@ && *final (io) == *old(io)),
            ExprV::Binary(l, op, rr) => (op == BinOp::Div && (match (*l, *rr) {
                (ExprV::Constant(AtomV::Number(_)), ExprV::Constant(AtomV::Number(z))) => z == 0,
                (ExprV::Constant(AtomV::Float(_)), ExprV::Constant(AtomV::Float(zb))) =>
                    f64_is_zero(zb),
                _ => false,
            })) ==> (r matches Err(e) && e is DivisionByZeroError),
            ExprV::Call(f, cargs) => {
                &&& (literal_args_closure_call(expr@, old(env)@) ==> final (env)@ == old(env)@)
                &&& (println_lit_call(expr@, old(env)@, fuel) ==> (r matches Ok(v) && v@
                    == ExprV::Void && final (env)@ == old(env)@ && final (io).inputs == old(io).inputs && final (io).cursor == old(io).cursor && final (io).outputs@.len()
                    == old(io).outputs@.len() + 1 && final (io).outputs@.drop_last() == old(io).outputs@ && final (io).outputs@.last()@ == line_text(cargs)))
                &&& (reads_back_call(expr@, old(env)@, fuel) ==> (match closure_returning_name(
                    old(env)@,
                    f,
                ) {
                    Some(y) => r matches Ok(v) && v@ == old(env)@[y] && final (env)@ == old(
                        env,
                    )@ && *final (io) == *old(io),
                    None => true,
                }))
            },
            ExprV::Include(n) => {
                &&& (n == random_lib() ==> (r matches Ok(v) && v@ == ExprV::Void && final (env)@
                    == crate::stdlib::random::loaded(old(env)@) && *final (io) == *old(io)))
                &&& (n == string_lib() ==> (r matches Ok(v) && v@ == ExprV::Void && final (env)@
                    == crate::stdlib::string::loaded(old(env)@) && *final (io) == *old(io)))
                &&& (n == time_lib() ==> (r matches Ok(v) && v@ == ExprV::Void && final (env)@
                    == crate::stdlib::time::loaded(old(env)@) && *final (io) == *old(io)))
                &&& (n == math_lib() ==> (r matches Ok(v) && v@ == ExprV::Void && final (env)@
                    == crate::stdlib::math::loaded(old(env)@) && *final (io) == *old(io)))
                &&& (n == os_lib() ==> (r matches Ok(v) && v@ == ExprV::Void && final (env)@
                    == crate::stdlib::os::loaded(old(env)@) && *final (io) == *old(io)))
                &&& (!(n == random_lib() || n == string_lib() || n == time_lib() || n
                    == math_lib() || n == os_lib()) ==> (r matches Err(e) && (e
                    matches EvalError::UnknownLibraryError(m) && m@ == n) && final (env)@ == old(
                    env,
                )@ && *final (io) == *old(io)))
            },
            ExprV::Function(n, ps, b) => r matches Ok(v) && v@ == ExprV::Void && final (env)@
                == old(env)@.insert(n, ExprV::Closure(ps, b)) && *final (io) == *old(io),
            ExprV::Get(n, ix) => {
                &&& (!old(env)@.contains_key(n) ==> (r matches Err(e) && (e
                    matches EvalError::NameError(m) && m@ == n) && final (env)@ == old(env)@
                    && *final (io) == *old(io)))
                &&& ((old(env)@.contains_key(n) && !(old(env)@[n] is Array)) ==> (r matches Err(
                    e,
                ) && e is TypeError && final (env)@ == old(env)@ && *final (io) == *old(io)))
                &&& ((old(env)@.contains_key(n) && old(env)@[n] is Array && ix >= old(
                    env,
                )@[n]->Array_0.len()) ==> (r matches Err(e) && e is IndexOutOfBoundsError
                    && final (env)@ == old(env)@ && *final (io) == *old(io)))
                &&& ((old(env)@.contains_key(n) && old(env)@[n] is Array && 0 <= ix < old(
                    env,
                )@[n]->Array_0.len() && is_plain_lit(old(env)@[n]->Array_0[ix]) && fuel >= 1)
                    ==> (r matches Ok(v) && v@ == old(env)@[n]->Array_0[ix] && final (env)@
                    == old(env)@ && *final (io) == *old(io)))
            },
            _ => true,
        }),
    decreases fuel, *expr,
{
    match expr {
        Expr::Void => Ok(expr_clone(expr)),
        Expr::Array(_) => Ok(expr_clone(expr)),
        Expr::Closure(_, _) => Ok(expr_clone(expr)),
        Expr::Builtin(_) => Ok(expr_clone(expr)),
        Expr::Return(inner) => {
            let v = match interpreter_expr(inner, env, io, host, fuel) {
                Ok(v) => v,
                Err(e) => {
                    return Err(e);
                },
            };
            Ok(Expr::Return(Box::new(v)))
        },
        Expr::Constant(Atom::String(s)) => {
            match parse_interpolation(s) {
                None => Ok(expr_clone(expr)),
                Some((segs, count)) => {
                    if count <= 1 {
                        Ok(expr_clone(expr))
                    } else {
                        let mut out: Vec<u8> = Vec::new();
                        let mut i: usize = 0;
                        while i < segs.len()
                            invariant
                                0 <= i <= segs@.len(),
                            decreases segs@.len() - i,
                        {
                            let mut cur = expr_clone(&segs[i]);
                            let mut f = fuel;
                            loop
                                invariant
                                    f <= fuel,
                                decreases f,
                            {
                                if f == 0 {
                                    return Err(EvalError::RecursionLimitError);
                                }
                                f = f - 1;
                                let new = match interpreter_expr(&cur, env, io, host, f) {
                                    Ok(v) => v,
                                    Err(e) => {
                                        return Err(e);
                                    },
                                };
                                if expr_eq(&new, &cur) {
                                    break ;
                                }
                                cur = new;
                            }
                            let piece = render_expr(&cur);
                            let mut j: usize = 0;
                            while j < piece.len()
                                invariant
                                    0 <= j <= piece@.len(),
                                decreases piece@.len() - j,
                            {
                                out.push(piece[j]);
                                j = j + 1;
                            }
                            i = i + 1;
                        }
                        Ok(Expr::Constant(Atom::String(out)))
                    }
                },
            }
        },
        Expr::Constant(Atom::Name(n)) => {
            match env.lookup(n.as_slice()) {
                Some(v) => Ok(v),
                None => Err(EvalError::NameError(bytes_clone(n))),
            }
        },
        Expr::Constant(_) => Ok(expr_clone(expr)),
        Expr::Let(n, inner) => {
            let v = match interpreter_expr(inner, env, io, host, fuel) {
                Ok(v) => v,
                Err(e) => {
                    return Err(e);
                },
            };
            env.insert(bytes_clone(n), v);
            Ok(Expr::Void)
        },
        Expr::Compare(l, op, rr) => {
            let lv = match interpreter_expr(l, env, io, host, fuel) {
                Ok(v) => v,
                Err(e) => {
                    return Err(e);
                },
            };
            let rv = match interpreter_expr(rr, env, io, host, fuel) {
                Ok(v) => v,
                Err(e) => {
                    return Err(e);
                },
            };
            eval_compare(lv, *op, rv)
        },
        Expr::Binary(l, op, rr) => {
            let lv = match interpreter_expr(l, env, io, host, fuel) {
                Ok(v) => v,
                Err(e) => {
                    return Err(e);
                },
            };
            let rv = match interpreter_expr(rr, env, io, host, fuel) {
                Ok(v) => v,
                Err(e) => {
                    return Err(e);
                },
            };
            eval_binary(lv, *op, rv)
        },
        Expr::If(c, then_block, else_block) => {
            let cv = match interpreter_expr(c, env, io, host, fuel) {
                Ok(v) => v,
                Err(e) => {
                    return Err(e);
                },
            };
            proof {
                assert(expr@->If_1 == crate::expr::exprs_view(then_block@));
            }
            match cv {
                Expr::Constant(Atom::Boolean(b)) => {
                    if b {
                        let mut i: usize = 0;
                        while i < then_block.len()
                            invariant
                                0 <= i <= then_block@.len(),
                                (match expr@ {
                                    ExprV::If(c2, t2, _) => (*c2 == ExprV::Constant(
                                        AtomV::Boolean(true),
                                    ) && t2.len() == 0) ==> (env@ == old(env)@ && *io == *old(io)),
                                    _ => true,
                                }),
                            decreases then_block@.len() - i,
                        {
                            proof {
                                assert(decreases_to!(*expr => *then_block));
                                assert(decreases_to!(*then_block => then_block@));
                                assert(decreases_to!(then_block@ => then_block@[i as int]));
                            }
                            match interpreter_expr(&then_block[i], env, io, host, fuel) {
                                Ok(_) => (),
                                Err(e) => {
                                    return Err(e);
                                },
                            }
                            i = i + 1;
                        }
                    } else {
                        match else_block {
                            Some(eb) => {
                                proof {
                                    assert(expr@->If_2 == Some(
                                        crate::expr::exprs_view(eb@),
                                    ));
                                }
                                let mut i: usize = 0;
                                while i < eb.len()
                                    invariant
                                        0 <= i <= eb@.len(),
                                        (match expr@ {
                                            ExprV::If(c2, _, e2) => (*c2 == ExprV::Constant(
                                                AtomV::Boolean(false),
                                            ) && (match e2 {
                                                Some(eb2) => eb2.len() == 0,
                                                None => true,
                                            })) ==> (env@ == old(env)@ && *io == *old(io)),
                                            _ => true,
                                        }),
                                    decreases eb@.len() - i,
                                {
                                    proof {
                                        assert(decreases_to!(*expr => *eb));
                                        assert(decreases_to!(*eb => eb@));
                                        assert(decreases_to!(eb@ => eb@[i as int]));
                                    }
                                    match interpreter_expr(&eb[i], env, io, host, fuel) {
                                        Ok(_) => (),
                                        Err(e) => {
                                            return Err(e);
                                        },
                                    }
                                    i = i + 1;
                                }
                            },
                            None => (),
                        }
                    }
                    Ok(Expr::Void)
                },
                _ => Err(EvalError::TypeError),
            }
        },
        Expr::Call(name, args) => {
            let mut vals: Vec<Expr> = Vec::new();
            let mut i: usize = 0;
            while i < args.len()
                invariant
                    0 <= i <= args@.len(),
                    literal_args_closure_call(expr@, old(env)@) ==> env@ == old(env)@,
                    reads_back_call(expr@, old(env)@, fuel) ==> (env@ == old(env)@ && *io
                        == *old(io) && vals@.len() == i),
                    println_lit_call(expr@, old(env)@, fuel) ==> (env@ == old(env)@ && *io
                        == *old(io) && vals@.len() == i && (forall|k: int|
                            0 <= k < i ==> crate::expr::expr_view(#[trigger] vals@[k])
                            == expr@->Call_1[k])),
                decreases args@.len() - i,
            {
                proof {
                    assert(decreases_to!(*expr => *args));
                    assert(decreases_to!(*args => args@));
                    assert(decreases_to!(args@ => args@[i as int]));
                    if literal_args_closure_call(expr@, old(env)@) {
                        assert(expr@ == ExprV::Call(name@, crate::expr::exprs_view(args@)));
                        assert(is_plain_lit(expr@->Call_1[i as int]));
                        assert(expr@->Call_1[i as int] == crate::expr::expr_view(
                            args@[i as int],
                        ));
                    }
                    if println_lit_call(expr@, old(env)@, fuel) {
                        assert(expr@ == ExprV::Call(name@, crate::expr::exprs_view(args@)));
                        assert(is_plain_lit(expr@->Call_1[i as int]));
                        assert(expr@->Call_1[i as int] == crate::expr::expr_view(
                            args@[i as int],
                        ));
                    }
                }
                match interpreter_expr(&args[i], env, io, host, fuel) {
                    Ok(v) => {
                        vals.push(v);
                    },
                    Err(e) => {
                        return Err(e);
                    },
                }
                i = i + 1;
            }
            match env.lookup(name.as_slice()) {
                Some(Expr::Builtin(id)) => dispatch_builtin(id, vals, host),
                Some(Expr::Closure(params, body)) => {
                    proof {
                        if reads_back_call(expr@, old(env)@, fuel) {
                            assert(expr@ == ExprV::Call(
                                name@,
                                crate::expr::exprs_view(args@),
                            ));
                            assert(old(env)@[name@] == ExprV::Closure(
                                crate::expr::names_view(params@),
                                crate::expr::exprs_view(body@),
                            ));
                            assert(crate::expr::exprs_view(body@).len() == 1);
                            assert(crate::expr::exprs_view(body@)[0] == crate::expr::expr_view(
                                body@[0],
                            ));
                        }
                    }
                    if fuel == 0 {
                        return Err(EvalError::RecursionLimitError);
                    }
                    let mut scope = env.clone_env();
                    let bound = if params.len() < vals.len() {
                        params.len()
                    } else {
                        vals.len()
                    };
                    let mut i: usize = 0;
                    while i < bound
                        invariant
                            0 <= i <= bound,
                            bound <= params@.len(),
                            bound <= vals@.len(),
                            reads_back_call(expr@, old(env)@, fuel) ==> (env@ == old(env)@
                                && scope@ == old(env)@ && *io == *old(io)),
                        decreases bound - i,
                    {
                        let v = match interpreter_expr(&vals[i], &mut scope, io, host, fuel - 1) {
                            Ok(v) => v,
                            Err(e) => {
                                return Err(e);
                            },
                        };
                        scope.insert(bytes_clone(&params[i]), v);
                        i = i + 1;
                    }
                    let mut j: usize = 0;
                    while j < body.len()
                        invariant
                            0 <= j <= body@.len(),
                            reads_back_call(expr@, old(env)@, fuel) ==> (env@ == old(env)@
                                && scope@ == old(env)@ && *io == *old(io) && j == 0),
                        decreases body@.len() - j,
                    {
                        let rv = match interpreter_expr(&body[j], &mut scope, io, host, fuel - 1) {
                            Ok(v) => v,
                            Err(e) => {
                                return Err(e);
                            },
                        };
                        match rv {
                            Expr::Return(inner) => {
                                return Ok(*inner);
                            },
                            _ => (),
                        }
                        j = j + 1;
                    }
                    Ok(Expr::Void)
                },
                _ => {
                    let pn = [
                        'p' as u8,
                        'r' as u8,
                        'i' as u8,
                        'n' as u8,
                        't' as u8,
                        'l' as u8,
                        'n' as u8,
                    ];
                    proof {
                        assert(pn@ =~= println_name());
                    }
                    if bytes_eq(name.as_slice(), &pn) {
                        if vals.len() > 0 && fuel == 0 {
                            return Err(EvalError::RecursionLimitError);
                        }
                        let ghost pa = println_lit_call(expr@, old(env)@, fuel);
                        proof {
                            if pa {
                                assert(expr@->Call_1.skip(0) =~= expr@->Call_1);
                            }
                        }
                        let mut line: Vec<u8> = Vec::new();
                        let mut i: usize = 0;
                        while i < vals.len()
                            invariant
                                0 <= i <= vals@.len(),
                                vals@.len() > 0 ==> fuel >= 1,
                                pa == println_lit_call(expr@, old(env)@, fuel),
                                pa ==> (env@ == old(env)@ && *io == *old(io) && vals@.len()
                                    == expr@->Call_1.len() && (forall|k: int|
                                    0 <= k < vals@.len() ==> crate::expr::expr_view(
                                        #[trigger] vals@[k],
                                    ) == expr@->Call_1[k]) && line_text(expr@->Call_1) == line@
                                    + line_text(expr@->Call_1.skip(i as int))),
                            decreases vals@.len() - i,
                        {
                            proof {
                                if pa {
                                    assert(is_plain_lit(
                                        crate::expr::expr_view(vals@[i as int]),
                                    ));
                                }
                            }
                            let v = match interpreter_expr(&vals[i], env, io, host, fuel - 1) {
                                Ok(v) => v,
                                Err(e) => {
                                    return Err(e);
                                },
                            };
                            let piece = render_expr(&v);
                            let ghost line0 = line@;
                            let mut j: usize = 0;
                            while j < piece.len()
                                invariant
                                    0 <= j <= piece@.len(),
                                    line@ == line0 + piece@.subrange(0, j as int),
                                decreases piece@.len() - j,
                            {
                                line.push(piece[j]);
                                proof {
                                    assert(line@ =~= line0 + piece@.subrange(0, j + 1));
                                }
                                j = j + 1;
                            }
                            proof {
                                assert(piece@.subrange(0, piece@.len() as int) =~= piece@);
                                if pa {
                                    let ca = expr@->Call_1;
                                    assert(ca.skip(i as int)[0] == ca[i as int]);
                                    assert(ca.skip(i as int).skip(1) =~= ca.skip(i + 1));
                                    assert(line_text(ca.skip(i as int)) == crate::render::expr_text(
                                        ca[i as int],
                                    ) + line_text(ca.skip(i + 1)));
                                    assert((line0 + (crate::render::expr_text(ca[i as int])
                                        + line_text(ca.skip(i + 1)))) =~= ((line0
                                        + crate::render::expr_text(ca[i as int])) + line_text(
                                        ca.skip(i + 1),
                                    )));
                                }
                            }
                            i = i + 1;
                        }
                        proof {
                            if pa {
                                let ca = expr@->Call_1;
                                assert(ca.skip(ca.len() as int) =~= Seq::<ExprV>::empty());
                                assert(line_text(Seq::<ExprV>::empty()) == seq![10u8]);
                            }
                        }
                        let ghost line1 = line@;
                        line.push(10);
                        proof {
                            if pa {
                                assert(line@ =~= line1 + seq![10u8]);
                            }
                        }
                        let ghost outs0 = io.outputs@;
                        io.outputs.push(line);
                        proof {
                            if pa {
                                assert(io.outputs@.drop_last() =~= outs0);
                            }
                        }
                        Ok(Expr::Void)
                    } else if bytes_eq(
                        name.as_slice(),
                        &['i' as u8, 'n' as u8, 'p' as u8, 'u' as u8, 't' as u8],
                    ) {
                        if vals.len() > 0 {
                            if fuel == 0 {
                                return Err(EvalError::RecursionLimitError);
                            }
                            let p = match interpreter_expr(&vals[0], env, io, host, fuel - 1) {
                                Ok(v) => v,
                                Err(e) => {
                                    return Err(e);
                                },
                            };
                            let prompt = render_expr(&p);
                            io.outputs.push(prompt);
                        }
                        let line = if io.cursor < io.inputs.len() {
                            let l = bytes_clone(&io.inputs[io.cursor]);
                            io.cursor = io.cursor + 1;
                            l
                        } else {
                            Vec::new()
                        };
                        let trimmed = crate::stdlib::string::rtrim_bytes(&line);
                        Ok(Expr::Constant(Atom::String(trimmed)))
                    } else {
                        Err(EvalError::UndefinedFunctionError(bytes_clone(name)))
                    }
                },
            }
        },
        Expr::Function(name, params, body) => Ok(define_function(name, params, body, env)),
        Expr::For(name, iterable, body) => {
            let arr = match interpreter_expr(iterable, env, io, host, fuel) {
                Ok(v) => v,
                Err(e) => {
                    return Err(e);
                },
            };
            let ghost arrv = arr@;
            match arr {
                Expr::Array(items) => {
                    proof {
                        assert(arrv == ExprV::Array(crate::expr::exprs_view(items@)));
                    }
                    let mut scope = env.clone_env();
                    let mut i: usize = 0;
                    while i < items.len()
                        invariant
                            0 <= i <= items@.len(),
                            (match expr@ {
                                ExprV::For(_, it2, _) => ((*it2) matches ExprV::Array(fitems)
                                    && fitems.len() == 0) ==> (env@ == old(env)@ && *io == *old(io)),
                                _ => true,
                            }),
                        decreases items@.len() - i,
                    {
                        scope.insert(bytes_clone(name), expr_clone(&items[i]));
                        let mut j: usize = 0;
                        while j < body.len()
                            invariant
                                0 <= j <= body@.len(),
                            decreases body@.len() - j,
                        {
                            proof {
                                assert(decreases_to!(*expr => *body));
                                assert(decreases_to!(*body => body@));
                                assert(decreases_to!(body@ => body@[j as int]));
                            }
                            match interpreter_expr(&body[j], &mut scope, io, host, fuel) {
                                Ok(_) => (),
                                Err(e) => {
                                    return Err(e);
                                },
                            }
                            j = j + 1;
                        }
                        i = i + 1;
                    }
                    Ok(Expr::Void)
                },
                _ => Err(EvalError::NotIterableError),
            }
        },
        Expr::Get(name, index) => {
            match get_element(name, *index, env) {
                Err(e) => Err(e),
                Ok(item) => {
                    if fuel == 0 {
                        return Err(EvalError::RecursionLimitError);
                    }
                    interpreter_expr(&item, env, io, host, fuel - 1)
                },
            }
        },
        Expr::Until(cond, body) => {
            let mut f = fuel;
            loop
                invariant
                    f <= fuel,
                    (match expr@ {
                        ExprV::Until(c, _) => (*c == ExprV::Constant(AtomV::Boolean(true))) ==> (
                        env@ == old(env)@ && *io == *old(io)),
                        _ => true,
                    }),
                decreases f,
            {
                let cv = match interpreter_expr(cond, env, io, host, f) {
                    Ok(v) => v,
                    Err(e) => {
                        return Err(e);
                    },
                };
                match cv {
                    Expr::Constant(Atom::Boolean(true)) => {
                        return Ok(Expr::Void);
                    },
                    _ => (),
                }
                if f == 0 {
                    return Err(EvalError::RecursionLimitError);
                }
                f = f - 1;
                let mut j: usize = 0;
                while j < body.len()
                    invariant
                        0 <= j <= body@.len(),
                        f < fuel,
                    decreases body@.len() - j,
                {
                    proof {
                        assert(decreases_to!(*expr => *body));
                        assert(decreases_to!(*body => body@));
                        assert(decreases_to!(body@ => body@[j as int]));
                    }
                    match interpreter_expr(&body[j], env, io, host, f) {
                        Ok(_) => (),
                        Err(e) => {
                            return Err(e);
                        },
                    }
                    j = j + 1;
                }
            }
        },
        Expr::Include(lib) => {
            if bytes_eq(
                lib.as_slice(),
                &['r' as u8, 'a' as u8, 'n' as u8, 'd' as u8, 'o' as u8, 'm' as u8],
            ) {
                crate::stdlib::random::load(env);
                Ok(Expr::Void)
            } else if bytes_eq(
                lib.as_slice(),
                &['s' as u8, 't' as u8, 'r' as u8, 'i' as u8, 'n' as u8, 'g' as u8],
            ) {
                crate::stdlib::string::load(env);
                Ok(Expr::Void)
            } else if bytes_eq(lib.as_slice(), &['t' as u8, 'i' as u8, 'm' as u8, 'e' as u8]) {
                crate::stdlib::time::load(env);
                Ok(Expr::Void)
            } else if bytes_eq(lib.as_slice(), &['m' as u8, 'a' as u8, 't' as u8, 'h' as u8]) {
                crate::stdlib::math::load(env);
                Ok(Expr::Void)
            } else if bytes_eq(lib.as_slice(), &['o' as u8, 's' as u8]) {
                crate::stdlib::os::load(env);
                Ok(Expr::Void)
            } else {
                Err(EvalError::UnknownLibraryError(bytes_clone(lib)))
            }
        },
    }
}

} // verus!
