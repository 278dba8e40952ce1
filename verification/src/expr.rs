use vstd::prelude::*;

verus! {

/// A resolved literal value: the leaves of the evaluation tree.
///
/// A float is carried as the bit pattern of an IEEE 754 binary64 value;
/// all float arithmetic goes through the software implementation behind
/// the trusted wrappers in the `floats` module.
#[derive(Debug)]
pub enum Atom {
    Number(i64),
    Float(u64),
    Boolean(bool),
    Name(Vec<u8>),
    String(Vec<u8>),
}

/// A comparison operator.
#[derive(Debug, PartialEq, Eq, Clone, Copy, Structural)]
pub enum Operator {
    Equal,
    NotEqual,
    LessThan,
    LessThanEqual,
    GreaterThan,
    GreaterThanEqual,
}

/// An arithmetic operator.
#[derive(Debug, PartialEq, Eq, Clone, Copy, Structural)]
pub enum BinOp {
    Add,
    Sub,
    Mul,
    Div,
}

/// The identity of a builtin operation.  A builtin value in the
/// environment carries one of these; the evaluator dispatches on it.
#[derive(Debug, PartialEq, Eq, Clone, Copy, Structural)]
pub enum BuiltinId {
    MathAbs,
    MathSqrt,
    MathPow,
    StrLowercase,
    StrUppercase,
    StrLength,
    StrSplit,
    StrReverse,
    StrTrim,
    StrLtrim,
    StrRtrim,
    TimeMs,
    TimeSec,
    OsGetcwd,
    OsListdir,
    OsExists,
    RandomRand,
}

/// The evaluation-ready expression representation.
///
/// The invariant of the representation: `Constant(Atom::Name(_))` is the
/// only form of an unresolved variable reference; every other `Constant`
/// is a resolved literal.
#[derive(Debug)]
pub enum Expr {
    Void,
    Array(Vec<Expr>),
    Constant(Atom),
    Let(Vec<u8>, Box<Expr>),
    Call(Vec<u8>, Vec<Expr>),
    Compare(Box<Expr>, Operator, Box<Expr>),
    Closure(Vec<Vec<u8>>, Vec<Expr>),
    Function(Vec<u8>, Vec<Vec<u8>>, Vec<Expr>),
    If(Box<Expr>, Vec<Expr>, Option<Vec<Expr>>),
    Return(Box<Expr>),
    For(Vec<u8>, Box<Expr>, Vec<Expr>),
    Get(Vec<u8>, usize),
    Until(Box<Expr>, Vec<Expr>),
    Binary(Box<Expr>, BinOp, Box<Expr>),
    Include(Vec<u8>),
    Builtin(BuiltinId),
}

/// The mathematical shape of an `Atom`.
pub enum AtomV {
    Number(i64),
    Float(u64),
    Boolean(bool),
    Name(Seq<u8>),
    String(Seq<u8>),
}

/// The mathematical shape of an `Expr`: the same tree over `Seq` instead
/// of `Vec`.  Contracts speak of this type.
#[verifier::ext_equal]
pub enum ExprV {
    Void,
    Array(Seq<ExprV>),
    Constant(AtomV),
    Let(Seq<u8>, Box<ExprV>),
    Call(Seq<u8>, Seq<ExprV>),
    Compare(Box<ExprV>, Operator, Box<ExprV>),
    Closure(Seq<Seq<u8>>, Seq<ExprV>),
    Function(Seq<u8>, Seq<Seq<u8>>, Seq<ExprV>),
    If(Box<ExprV>, Seq<ExprV>, Option<Seq<ExprV>>),
    Return(Box<ExprV>),
    For(Seq<u8>, Box<ExprV>, Seq<ExprV>),
    Get(Seq<u8>, int),
    Until(Box<ExprV>, Seq<ExprV>),
    Binary(Box<ExprV>, BinOp, Box<ExprV>),
    Include(Seq<u8>),
    Builtin(BuiltinId),
}

impl View for Atom {
    type V = AtomV;

    open spec fn view(&self) -> AtomV {
        match self {
            Atom::Number(n) => AtomV::Number(*n),
            Atom::Float(b) => AtomV::Float(*b),
            Atom::Boolean(b) => AtomV::Boolean(*b),
            Atom::Name(n) => AtomV::Name(n@),
            Atom::String(s) => AtomV::String(s@),
        }
    }
}

/// The views of a list of expressions, elementwise.
pub open spec fn exprs_view(es: Seq<Expr>) -> Seq<ExprV>
    decreases es,
{
    Seq::new(
        es.len(),
        |i: int|
            if 0 <= i < es.len() {
                expr_view(es[i])
            } else {
                ExprV::Void
            },
    )
}

/// The views of a list of names, elementwise.
pub open spec fn names_view(ns: Seq<Vec<u8>>) -> Seq<Seq<u8>> {
    Seq::new(ns.len(), |i: int| ns[i]@)
}

/// The mathematical shape of an expression.
pub open spec fn expr_view(e: Expr) -> ExprV
    decreases e,
{
    match e {
        Expr::Void => ExprV::Void,
        Expr::Array(items) => ExprV::Array(exprs_view(items@)),
        Expr::Constant(a) => ExprV::Constant(a@),
        Expr::Let(n, v) => ExprV::Let(n@, Box::new(expr_view(*v))),
        Expr::Call(n, args) => ExprV::Call(n@, exprs_view(args@)),
        Expr::Compare(l, op, r) => ExprV::Compare(
            Box::new(expr_view(*l)),
            op,
            Box::new(expr_view(*r)),
        ),
        Expr::Closure(params, body) => ExprV::Closure(names_view(params@), exprs_view(body@)),
        Expr::Function(n, params, body) => ExprV::Function(
            n@,
            names_view(params@),
            exprs_view(body@),
        ),
        Expr::If(c, t, e2) => ExprV::If(
            Box::new(expr_view(*c)),
            exprs_view(t@),
            match e2 {
                Some(b) => Some(exprs_view(b@)),
                None => None,
            },
        ),
        Expr::Return(v) => ExprV::Return(Box::new(expr_view(*v))),
        Expr::For(n, it, body) => ExprV::For(n@, Box::new(expr_view(*it)), exprs_view(body@)),
        Expr::Get(n, i) => ExprV::Get(n@, i as int),
        Expr::Until(c, body) => ExprV::Until(Box::new(expr_view(*c)), exprs_view(body@)),
        Expr::Binary(l, op, r) => ExprV::Binary(
            Box::new(expr_view(*l)),
            op,
            Box::new(expr_view(*r)),
        ),
        Expr::Include(n) => ExprV::Include(n@),
        Expr::Builtin(id) => ExprV::Builtin(id),
    }
}

impl View for Expr {
    type V = ExprV;

    open spec fn view(&self) -> ExprV {
        expr_view(*self)
    }
}

/// True when the bytes of two names or strings are the same.
pub fn bytes_eq(a: &[u8], b: &[u8]) -> (r: bool)
    ensures
        r <==> a@ == b@,
{
    if a.len() != b.len() {
        return false;
    }
    let mut i: usize = 0;
    while i < a.len()
        invariant
            i <= a@.len(),
            a@.len() == b@.len(),
            forall|k: int| 0 <= k < i ==> a@[k] == b@[k],
        decreases a@.len() - i,
    {
        if a[i] != b[i] {
            return false;
        }
        i = i + 1;
    }
    proof {
        assert(a@ =~= b@);
    }
    true
}

/// A copy of a byte vector, equal to it in view.
pub fn bytes_clone(v: &Vec<u8>) -> (r: Vec<u8>)
    ensures
        r@ == v@,
{
    let r = v.clone();
    proof {
        assert(r@ =~= v@);
    }
    r
}

fn atom_clone(a: &Atom) -> (r: Atom)
    ensures
        r@ == a@,
{
    match a {
        Atom::Number(n) => Atom::Number(*n),
        Atom::Float(b) => Atom::Float(*b),
        Atom::Boolean(b) => Atom::Boolean(*b),
        Atom::Name(n) => Atom::Name(bytes_clone(n)),
        Atom::String(s) => Atom::String(bytes_clone(s)),
    }
}

/// Copies of a list of names, equal to it in view.
pub fn names_clone(ns: &Vec<Vec<u8>>) -> (r: Vec<Vec<u8>>)
    ensures
        names_view(r@) == names_view(ns@),
{
    let mut out: Vec<Vec<u8>> = Vec::new();
    let mut i: usize = 0;
    while i < ns.len()
        invariant
            i <= ns@.len(),
            out@.len() == i,
            forall|k: int| 0 <= k < i ==> #[trigger] out@[k]@ == ns@[k]@,
        decreases ns@.len() - i,
    {
        out.push(bytes_clone(&ns[i]));
        i = i + 1;
    }
    proof {
        assert(names_view(out@) =~= names_view(ns@));
    }
    out
}

/// Copies of a list of expressions, equal to it in view.
pub fn exprs_clone(es: &Vec<Expr>) -> (r: Vec<Expr>)
    ensures
        exprs_view(r@) == exprs_view(es@),
    decreases es@,
{
    let mut out: Vec<Expr> = Vec::new();
    let mut i: usize = 0;
    while i < es.len()
        invariant
            i <= es@.len(),
            out@.len() == i,
            forall|k: int| 0 <= k < i ==> #[trigger] expr_view(out@[k]) == expr_view(es@[k]),
        decreases es@.len() - i,
    {
        proof {
            assert(decreases_to!(es@ => es@[i as int]));
        }
        out.push(expr_clone(&es[i]));
        i = i + 1;
    }
    proof {
        lemma_exprs_view_elementwise(out@, es@);
    }
    out
}

/// Two expression lists with elementwise equal views have equal views.
proof fn lemma_exprs_view_elementwise(a: Seq<Expr>, b: Seq<Expr>)
    requires
        a.len() == b.len(),
        forall|k: int| 0 <= k < a.len() ==> #[trigger] expr_view(a[k]) == expr_view(b[k]),
    ensures
        exprs_view(a) == exprs_view(b),
{
    assert forall|k: int| 0 <= k < a.len() implies exprs_view(a)[k] == exprs_view(b)[k] by {
        assert(exprs_view(a)[k] == expr_view(a[k]));
        assert(exprs_view(b)[k] == expr_view(b[k]));
    }
    assert(exprs_view(a) =~= exprs_view(b));
}

/// A deep copy of an expression, equal to it in view.  The evaluator
/// copies values freely: out of the environment, into new scopes.
pub fn expr_clone(e: &Expr) -> (r: Expr)
    ensures
        r@ == e@,
    decreases *e,
{
    match e {
        Expr::Void => Expr::Void,
        Expr::Array(items) => Expr::Array(exprs_clone(items)),
        Expr::Constant(a) => Expr::Constant(atom_clone(a)),
        Expr::Let(n, v) => Expr::Let(bytes_clone(n), Box::new(expr_clone(v))),
        Expr::Call(n, args) => Expr::Call(bytes_clone(n), exprs_clone(args)),
        Expr::Compare(l, op, r) => Expr::Compare(
            Box::new(expr_clone(l)),
            *op,
            Box::new(expr_clone(r)),
        ),
        Expr::Closure(params, body) => Expr::Closure(names_clone(params), exprs_clone(body)),
        Expr::Function(n, params, body) => Expr::Function(
            bytes_clone(n),
            names_clone(params),
            exprs_clone(body),
        ),
        Expr::If(c, t, e2) => Expr::If(
            Box::new(expr_clone(c)),
            exprs_clone(t),
            match e2 {
                Some(b) => Some(exprs_clone(b)),
                None => None,
            },
        ),
        Expr::Return(v) => Expr::Return(Box::new(expr_clone(v))),
        Expr::For(n, it, body) => Expr::For(
            bytes_clone(n),
            Box::new(expr_clone(it)),
            exprs_clone(body),
        ),
        Expr::Get(n, i) => Expr::Get(bytes_clone(n), *i),
        Expr::Until(c, body) => Expr::Until(Box::new(expr_clone(c)), exprs_clone(body)),
        Expr::Binary(l, op, r) => Expr::Binary(
            Box::new(expr_clone(l)),
            *op,
            Box::new(expr_clone(r)),
        ),
        Expr::Include(n) => Expr::Include(bytes_clone(n)),
        Expr::Builtin(id) => Expr::Builtin(*id),
    }
}

fn atom_eq(a: &Atom, b: &Atom) -> (r: bool)
    ensures
        r <==> a@ == b@,
{
    match (a, b) {
        (Atom::Number(x), Atom::Number(y)) => x == y,
        (Atom::Float(x), Atom::Float(y)) => x == y,
        (Atom::Boolean(x), Atom::Boolean(y)) => x == y,
        (Atom::Name(x), Atom::Name(y)) => bytes_eq(x.as_slice(), y.as_slice()),
        (Atom::String(x), Atom::String(y)) => bytes_eq(x.as_slice(), y.as_slice()),
        _ => false,
    }
}

fn names_eq(a: &Vec<Vec<u8>>, b: &Vec<Vec<u8>>) -> (r: bool)
    ensures
        r <==> names_view(a@) == names_view(b@),
{
    if a.len() != b.len() {
        proof {
            assert(names_view(a@).len() != names_view(b@).len());
        }
        return false;
    }
    let mut i: usize = 0;
    while i < a.len()
        invariant
            i <= a@.len(),
            a@.len() == b@.len(),
            forall|k: int| 0 <= k < i ==> #[trigger] a@[k]@ == b@[k]@,
        decreases a@.len() - i,
    {
        if !bytes_eq(a[i].as_slice(), b[i].as_slice()) {
            proof {
                assert(names_view(a@)[i as int] != names_view(b@)[i as int]);
            }
            return false;
        }
        i = i + 1;
    }
    proof {
        assert(names_view(a@) =~= names_view(b@));
    }
    true
}

fn exprs_eq(a: &Vec<Expr>, b: &Vec<Expr>) -> (r: bool)
    ensures
        r <==> exprs_view(a@) == exprs_view(b@),
    decreases a@,
{
    if a.len() != b.len() {
        proof {
            assert(exprs_view(a@).len() != exprs_view(b@).len());
        }
        return false;
    }
    let mut i: usize = 0;
    while i < a.len()
        invariant
            i <= a@.len(),
            a@.len() == b@.len(),
            forall|k: int| 0 <= k < i ==> #[trigger] expr_view(a@[k]) == expr_view(b@[k]),
        decreases a@.len() - i,
    {
        proof {
            assert(decreases_to!(a@ => a@[i as int]));
        }
        if !expr_eq(&a[i], &b[i]) {
            proof {
                assert(exprs_view(a@)[i as int] != exprs_view(b@)[i as int]);
            }
            return false;
        }
        i = i + 1;
    }
    proof {
        lemma_exprs_view_elementwise(a@, b@);
    }
    true
}

/// Structural equality of two expressions, byte for byte; this is the
/// test the string-interpolation fixed point stops on.
pub fn expr_eq(a: &Expr, b: &Expr) -> (r: bool)
    ensures
        r <==> a@ == b@,
    decreases *a,
{
    match (a, b) {
        (Expr::Void, Expr::Void) => true,
        (Expr::Array(x), Expr::Array(y)) => exprs_eq(x, y),
        (Expr::Constant(x), Expr::Constant(y)) => atom_eq(x, y),
        (Expr::Let(n1, v1), Expr::Let(n2, v2)) => bytes_eq(n1.as_slice(), n2.as_slice())
            && expr_eq(v1, v2),
        (Expr::Call(n1, a1), Expr::Call(n2, a2)) => bytes_eq(n1.as_slice(), n2.as_slice())
            && exprs_eq(a1, a2),
        (Expr::Compare(l1, o1, r1), Expr::Compare(l2, o2, r2)) => o1 == o2 && expr_eq(l1, l2)
            && expr_eq(r1, r2),
        (Expr::Closure(p1, b1), Expr::Closure(p2, b2)) => names_eq(p1, p2) && exprs_eq(b1, b2),
        (Expr::Function(n1, p1, b1), Expr::Function(n2, p2, b2)) => bytes_eq(
            n1.as_slice(),
            n2.as_slice(),
        ) && names_eq(p1, p2) && exprs_eq(b1, b2),
        (Expr::If(c1, t1, e1), Expr::If(c2, t2, e2)) => {
            let els = match (e1, e2) {
                (None, None) => true,
                (Some(x), Some(y)) => exprs_eq(x, y),
                _ => false,
            };
            els && expr_eq(c1, c2) && exprs_eq(t1, t2)
        },
        (Expr::Return(v1), Expr::Return(v2)) => expr_eq(v1, v2),
        (Expr::For(n1, i1, b1), Expr::For(n2, i2, b2)) => bytes_eq(n1.as_slice(), n2.as_slice())
            && expr_eq(i1, i2) && exprs_eq(b1, b2),
        (Expr::Get(n1, i1), Expr::Get(n2, i2)) => bytes_eq(n1.as_slice(), n2.as_slice()) && i1
            == i2,
        (Expr::Until(c1, b1), Expr::Until(c2, b2)) => expr_eq(c1, c2) && exprs_eq(b1, b2),
        (Expr::Binary(l1, o1, r1), Expr::Binary(l2, o2, r2)) => o1 == o2 && expr_eq(l1, l2)
            && expr_eq(r1, r2),
        (Expr::Include(n1), Expr::Include(n2)) => bytes_eq(n1.as_slice(), n2.as_slice()),
        (Expr::Builtin(i1), Expr::Builtin(i2)) => i1 == i2,
        _ => false,
    }
}

} // verus!
