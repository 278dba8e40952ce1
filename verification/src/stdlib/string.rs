use vstd::prelude::*;
use crate::env::Env;
use crate::expr::{names_view, Atom, AtomV, BuiltinId, Expr, ExprV};
use crate::interp::{name_vec, sub_vec, EvalError};
use crate::literals::seq_rev;

verus! {

/// The environment after the string builtins are loaded into `env0`:
/// each of the eight operations bound to its builtin identity.
pub open spec fn loaded(env0: Map<Seq<u8>, ExprV>) -> Map<Seq<u8>, ExprV> {
    env0.insert(
            seq![108u8, 111u8, 119u8, 101u8, 114u8, 99u8, 97u8, 115u8, 101u8],
            ExprV::Builtin(BuiltinId::StrLowercase),
        ).insert(
            seq![117u8, 112u8, 112u8, 101u8, 114u8, 99u8, 97u8, 115u8, 101u8],
            ExprV::Builtin(BuiltinId::StrUppercase),
        ).insert(
            seq![108u8, 101u8, 110u8, 103u8, 116u8, 104u8],
            ExprV::Builtin(BuiltinId::StrLength),
        ).insert(
            seq![115u8, 112u8, 108u8, 105u8, 116u8],
            ExprV::Builtin(BuiltinId::StrSplit),
        ).insert(
            seq![114u8, 101u8, 118u8, 101u8, 114u8, 115u8, 101u8],
            ExprV::Builtin(BuiltinId::StrReverse),
        ).insert(seq![116u8, 114u8, 105u8, 109u8], ExprV::Builtin(BuiltinId::StrTrim)).insert(
            seq![108u8, 116u8, 114u8, 105u8, 109u8],
            ExprV::Builtin(BuiltinId::StrLtrim),
        ).insert(
            seq![114u8, 116u8, 114u8, 105u8, 109u8],
            ExprV::Builtin(BuiltinId::StrRtrim),
        )
}

/// Loads the string builtins into the environment: `lowercase`,
/// `uppercase`, `length`, `split`, `reverse`, `trim`, `ltrim`, `rtrim`.
pub fn load(env: &mut Env)
    ensures
        final (env)@ == loaded(old(env)@),
{
    let n1 = lowercase_name();
    proof {
        assert(n1@ =~= seq![108u8, 111u8, 119u8, 101u8, 114u8, 99u8, 97u8, 115u8, 101u8]);
    }
    env.insert(n1, Expr::Builtin(BuiltinId::StrLowercase));
    let n2 = uppercase_name();
    proof {
        assert(n2@ =~= seq![117u8, 112u8, 112u8, 101u8, 114u8, 99u8, 97u8, 115u8, 101u8]);
    }
    env.insert(n2, Expr::Builtin(BuiltinId::StrUppercase));
    let n3 = name_vec(&['l' as u8, 'e' as u8, 'n' as u8, 'g' as u8, 't' as u8, 'h' as u8]);
    proof {
        assert(n3@ =~= seq![108u8, 101u8, 110u8, 103u8, 116u8, 104u8]);
    }
    env.insert(n3, Expr::Builtin(BuiltinId::StrLength));
    let n4 = name_vec(&['s' as u8, 'p' as u8, 'l' as u8, 'i' as u8, 't' as u8]);
    proof {
        assert(n4@ =~= seq![115u8, 112u8, 108u8, 105u8, 116u8]);
    }
    env.insert(n4, Expr::Builtin(BuiltinId::StrSplit));
    let n5 = name_vec(
        &['r' as u8, 'e' as u8, 'v' as u8, 'e' as u8, 'r' as u8, 's' as u8, 'e' as u8],
    );
    proof {
        assert(n5@ =~= seq![114u8, 101u8, 118u8, 101u8, 114u8, 115u8, 101u8]);
    }
    env.insert(n5, Expr::Builtin(BuiltinId::StrReverse));
    let n6 = name_vec(&['t' as u8, 'r' as u8, 'i' as u8, 'm' as u8]);
    proof {
        assert(n6@ =~= seq![116u8, 114u8, 105u8, 109u8]);
    }
    env.insert(n6, Expr::Builtin(BuiltinId::StrTrim));
    let n7 = name_vec(&['l' as u8, 't' as u8, 'r' as u8, 'i' as u8, 'm' as u8]);
    proof {
        assert(n7@ =~= seq![108u8, 116u8, 114u8, 105u8, 109u8]);
    }
    env.insert(n7, Expr::Builtin(BuiltinId::StrLtrim));
    let n8 = name_vec(&['r' as u8, 't' as u8, 'r' as u8, 'i' as u8, 'm' as u8]);
    proof {
        assert(n8@ =~= seq![114u8, 116u8, 114u8, 105u8, 109u8]);
    }
    env.insert(n8, Expr::Builtin(BuiltinId::StrRtrim));
}

fn lowercase_name() -> (r: Vec<u8>)
    ensures
        r@ == seq![108u8, 111u8, 119u8, 101u8, 114u8, 99u8, 97u8, 115u8, 101u8],
{
    let r = name_vec(
        &[
            'l' as u8,
            'o' as u8,
            'w' as u8,
            'e' as u8,
            'r' as u8,
            'c' as u8,
            'a' as u8,
            's' as u8,
            'e' as u8,
        ],
    );
    proof {
        assert(r@ =~= seq![108u8, 111u8, 119u8, 101u8, 114u8, 99u8, 97u8, 115u8, 101u8]);
    }
    r
}

fn uppercase_name() -> (r: Vec<u8>)
    ensures
        r@ == seq![117u8, 112u8, 112u8, 101u8, 114u8, 99u8, 97u8, 115u8, 101u8],
{
    let r = name_vec(
        &[
            'u' as u8,
            'p' as u8,
            'p' as u8,
            'e' as u8,
            'r' as u8,
            'c' as u8,
            'a' as u8,
            's' as u8,
            'e' as u8,
        ],
    );
    proof {
        assert(r@ =~= seq![117u8, 112u8, 112u8, 101u8, 114u8, 99u8, 97u8, 115u8, 101u8]);
    }
    r
}

/// The lowercase folding of a byte string, as `str::to_lowercase` folds
/// its text.
pub uninterp spec fn lower_of(s: Seq<u8>) -> Seq<u8>;

/// The uppercase folding of a byte string, as `str::to_uppercase` folds
/// its text.
pub uninterp spec fn upper_of(s: Seq<u8>) -> Seq<u8>;

/// Relies on `str::to_lowercase`: the Unicode lowercase folding of the
/// text; a function of the bytes alone.
#[verifier::external_body]
fn lowercase_bytes(s: &Vec<u8>) -> (r: Vec<u8>)
    ensures
        r@ == lower_of(s@),
{
    String::from_utf8_lossy(s).to_lowercase().into_bytes()
}

/// Relies on `str::to_uppercase`: the Unicode uppercase folding of the
/// text; a function of the bytes alone.
#[verifier::external_body]
fn uppercase_bytes(s: &Vec<u8>) -> (r: Vec<u8>)
    ensures
        r@ == upper_of(s@),
{
    String::from_utf8_lossy(s).to_uppercase().into_bytes()
}

/// A byte the trims remove: the ASCII whitespace characters.
pub open spec fn is_trim_byte(b: u8) -> bool {
    b == 32 || b == 9 || b == 10 || b == 11 || b == 12 || b == 13
}

/// The index where the leading whitespace run of `s` ends.
pub open spec fn ltrim_start(s: Seq<u8>, i: int) -> int
    decreases s.len() - i,
{
    if 0 <= i < s.len() && is_trim_byte(s[i]) {
        ltrim_start(s, i + 1)
    } else {
        i
    }
}

/// The index where the trailing whitespace run of `s` begins.
pub open spec fn rtrim_end(s: Seq<u8>) -> int
    decreases s.len(),
{
    if s.len() > 0 && is_trim_byte(s.last()) {
        rtrim_end(s.drop_last())
    } else {
        s.len() as int
    }
}

/// `s` without its leading whitespace.
pub open spec fn ltrim_spec(s: Seq<u8>) -> Seq<u8> {
    s.subrange(ltrim_start(s, 0), s.len() as int)
}

/// `s` without its trailing whitespace.
pub open spec fn rtrim_spec(s: Seq<u8>) -> Seq<u8> {
    s.subrange(0, rtrim_end(s))
}

fn is_trim(b: u8) -> (r: bool)
    ensures
        r == is_trim_byte(b),
{
    b == 32 || b == 9 || b == 10 || b == 11 || b == 12 || b == 13
}

proof fn lemma_ltrim_start(s: Seq<u8>, i: int)
    requires
        0 <= i <= s.len(),
    ensures
        i <= ltrim_start(s, i) <= s.len(),
    decreases s.len() - i,
{
    if i < s.len() && is_trim_byte(s[i]) {
        lemma_ltrim_start(s, i + 1);
    }
}

/// `s` without its leading ASCII whitespace.
#[verifier::loop_isolation(false)]
pub fn ltrim_bytes(s: &Vec<u8>) -> (r: Vec<u8>)
    ensures
        r@ == ltrim_spec(s@),
{
    proof {
        lemma_ltrim_start(s@, 0);
    }
    let mut i: usize = 0;
    while i < s.len() && is_trim(s[i])
        invariant
            0 <= i <= s@.len(),
            ltrim_start(s@, 0) == ltrim_start(s@, i as int),
        decreases s@.len() - i,
    {
        i = i + 1;
    }
    sub_vec(s.as_slice(), i, s.len())
}

/// `s` without its trailing ASCII whitespace.
#[verifier::loop_isolation(false)]
pub fn rtrim_bytes(s: &Vec<u8>) -> (r: Vec<u8>)
    ensures
        r@ == rtrim_spec(s@),
{
    let ghost whole = s@;
    let mut e: usize = s.len();
    proof {
        assert(s@.subrange(0, s@.len() as int) =~= s@);
    }
    while e > 0 && is_trim(s[e - 1])
        invariant
            0 <= e <= s@.len(),
            rtrim_end(s@) == rtrim_end(s@.subrange(0, e as int)),
        decreases e,
    {
        proof {
            assert(s@.subrange(0, e as int).drop_last() =~= s@.subrange(0, e - 1));
            assert(s@.subrange(0, e as int).last() == s@[e - 1]);
        }
        e = e - 1;
    }
    proof {
        if e > 0 {
            assert(s@.subrange(0, e as int).last() == s@[e - 1]);
        }
        assert(rtrim_end(s@.subrange(0, e as int)) == e);
    }
    sub_vec(s.as_slice(), 0, e)
}

/// Whether the needle `n` occurs in `h` at position `i`.
pub open spec fn match_at(h: Seq<u8>, n: Seq<u8>, i: int) -> bool {
    0 <= i && i + n.len() <= h.len() && h.subrange(i, i + n.len()) == n
}

/// The first occurrence of `n` at or after `i`, or `h.len()` when there
/// is none.
pub open spec fn find_sub(h: Seq<u8>, n: Seq<u8>, i: int) -> int
    decreases h.len() - i,
{
    if 0 <= i && n.len() > 0 && i + n.len() <= h.len() {
        if match_at(h, n, i) {
            i
        } else {
            find_sub(h, n, i + 1)
        }
    } else {
        h.len() as int
    }
}

proof fn lemma_find_sub(h: Seq<u8>, n: Seq<u8>, i: int)
    requires
        0 <= i <= h.len(),
        n.len() > 0,
    ensures
        i <= find_sub(h, n, i) <= h.len(),
        find_sub(h, n, i) < h.len() ==> match_at(h, n, find_sub(h, n, i)),
    decreases h.len() - i,
{
    if i + n.len() <= h.len() && !match_at(h, n, i) {
        lemma_find_sub(h, n, i + 1);
    }
}

/// The pieces of `h` split at each occurrence of a nonempty needle,
/// scanning left to right from `from`: the stretch before the first
/// occurrence, then the pieces of the rest.
pub open spec fn split_from(h: Seq<u8>, n: Seq<u8>, from: int) -> Seq<Seq<u8>>
    decreases h.len() - from,
{
    if 0 <= from <= h.len() && n.len() > 0 {
        let j = find_sub(h, n, from);
        if j < h.len() && from <= j && from < j + n.len() && j + n.len() <= h.len() {
            seq![h.subrange(from, j)] + split_from(h, n, j + n.len())
        } else {
            seq![h.subrange(from, h.len() as int)]
        }
    } else {
        Seq::empty()
    }
}

/// What splitting `h` by `n` yields, as `str::split` splits: for the
/// empty needle, an empty piece, each byte alone, and an empty piece;
/// otherwise the stretches between occurrences of the needle.
pub open spec fn split_spec(h: Seq<u8>, n: Seq<u8>) -> Seq<Seq<u8>> {
    if n.len() == 0 {
        seq![Seq::<u8>::empty()] + Seq::new(h.len(), |i: int| seq![h[i]]) + seq![
            Seq::<u8>::empty(),
        ]
    } else {
        split_from(h, n, 0)
    }
}

/// Whether `n` occurs at position `i` of `h`, tested byte by byte.
#[verifier::loop_isolation(false)]
fn match_at_exec(h: &[u8], n: &[u8], i: usize) -> (r: bool)
    requires
        i + n@.len() <= h@.len(),
    ensures
        r == match_at(h@, n@, i as int),
{
    let hlen = h.len();
    let nlen = n.len();
    let mut k: usize = 0;
    while k < nlen
        invariant
            0 <= k <= n@.len(),
            forall|t: int| 0 <= t < k ==> h@[i + t] == n@[t],
        decreases n@.len() - k,
    {
        if h[i + k] != n[k] {
            proof {
                assert(h@.subrange(i as int, i + n@.len())[k as int] == h@[i + k]);
            }
            return false;
        }
        k = k + 1;
    }
    proof {
        assert(h@.subrange(i as int, i + n@.len()) =~= n@);
    }
    true
}

/// The first occurrence of `n` at or after `from`, or the length.
#[verifier::loop_isolation(false)]
fn find_sub_exec(h: &[u8], n: &[u8], from: usize) -> (r: usize)
    requires
        n@.len() > 0,
        from <= h@.len(),
    ensures
        r == find_sub(h@, n@, from as int),
{
    let mut i = from;
    let hlen = h.len();
    let nlen = n.len();
    while i < hlen && nlen <= hlen - i && !match_at_exec(h, n, i)
        invariant
            from <= i <= hlen,
            hlen == h@.len(),
            nlen == n@.len(),
            find_sub(h@, n@, from as int) == find_sub(h@, n@, i as int),
        decreases hlen - i,
    {
        i = i + 1;
    }
    if i < hlen && nlen <= hlen - i {
        i
    } else {
        hlen
    }
}

/// Splits `h` at each occurrence of `n`, piece views exactly as
/// `split_spec` lists them.
#[verifier::loop_isolation(false)]
fn split_bytes(h: &[u8], n: &[u8]) -> (r: Vec<Vec<u8>>)
    ensures
        names_view(r@) == split_spec(h@, n@),
{
    let mut out: Vec<Vec<u8>> = Vec::new();
    if n.len() == 0 {
        out.push(Vec::new());
        let mut i: usize = 0;
        while i < h.len()
            invariant
                0 <= i <= h@.len(),
                out@.len() == i + 1,
                out@[0]@ == Seq::<u8>::empty(),
                forall|k: int| 1 <= k <= i ==> #[trigger] out@[k]@ == seq![h@[k - 1]],
            decreases h@.len() - i,
        {
            let mut piece: Vec<u8> = Vec::new();
            piece.push(h[i]);
            proof {
                assert(piece@ =~= seq![h@[i as int]]);
            }
            out.push(piece);
            i = i + 1;
        }
        out.push(Vec::new());
        proof {
            let sp = split_spec(h@, n@);
            assert(sp.len() == h@.len() + 2);
            assert(names_view(out@).len() == h@.len() + 2);
            assert forall|j: int| 0 <= j < sp.len() implies names_view(out@)[j] == sp[j] by {
                if j == 0 {
                    assert(sp[0] == Seq::<u8>::empty());
                } else if j <= h@.len() {
                    assert(out@[j]@ == seq![h@[j - 1]]);
                    assert(sp[j] == seq![h@[j - 1]]);
                } else {
                    assert(sp[j] == Seq::<u8>::empty());
                }
            }
            assert(names_view(out@) =~= sp);
        }
        return out;
    }
    let mut from: usize = 0;
    proof {
        assert(names_view(out@) + split_from(h@, n@, 0) =~= split_from(h@, n@, 0));
    }
    loop
        invariant
            0 <= from <= h@.len(),
            split_from(h@, n@, 0) == names_view(out@) + split_from(h@, n@, from as int),
        decreases h@.len() - from,
    {
        let j = find_sub_exec(h, n, from);
        proof {
            lemma_find_sub(h@, n@, from as int);
        }
        if j < h.len() {
            let piece = sub_vec(h, from, j);
            let ghost out0 = out@;
            out.push(piece);
            proof {
                assert(names_view(out@) =~= names_view(out0) + seq![h@.subrange(
                    from as int,
                    j as int,
                )]);
                assert((names_view(out0) + (seq![h@.subrange(from as int, j as int)]
                    + split_from(h@, n@, j + n@.len()))) =~= (names_view(out@) + split_from(
                    h@,
                    n@,
                    j + n@.len(),
                )));
            }
            from = j + n.len();
        } else {
            let piece = sub_vec(h, from, h.len());
            let ghost out0 = out@;
            out.push(piece);
            proof {
                assert(names_view(out@) =~= names_view(out0) + seq![h@.subrange(
                    from as int,
                    h@.len() as int,
                )]);
                assert((names_view(out0) + seq![h@.subrange(from as int, h@.len() as int)])
                    =~= names_view(out@));
            }
            return out;
        }
    }
}

/// Converts a string to lowercase.
pub fn string_lowercase(args: Vec<Expr>) -> (r: Result<Expr, EvalError>)
    ensures
        (if args@.len() == 1 {
            match crate::expr::expr_view(args@[0]) {
                ExprV::Constant(AtomV::String(s)) => r matches Ok(v) && v@ == ExprV::Constant(
                    AtomV::String(lower_of(s)),
                ),
                _ => r matches Err(e) && e is BuiltinError,
            }
        } else {
            r matches Err(e) && e is BuiltinError
        }),
{
    if args.len() != 1 {
        return Err(EvalError::BuiltinError(lowercase_name()));
    }
    match &args[0] {
        Expr::Constant(Atom::String(s)) => Ok(
            Expr::Constant(Atom::String(lowercase_bytes(s))),
        ),
        _ => Err(EvalError::BuiltinError(lowercase_name())),
    }
}

/// Converts a string to uppercase.
pub fn string_uppercase(args: Vec<Expr>) -> (r: Result<Expr, EvalError>)
    ensures
        (if args@.len() == 1 {
            match crate::expr::expr_view(args@[0]) {
                ExprV::Constant(AtomV::String(s)) => r matches Ok(v) && v@ == ExprV::Constant(
                    AtomV::String(upper_of(s)),
                ),
                _ => r matches Err(e) && e is BuiltinError,
            }
        } else {
            r matches Err(e) && e is BuiltinError
        }),
{
    if args.len() != 1 {
        return Err(EvalError::BuiltinError(uppercase_name()));
    }
    match &args[0] {
        Expr::Constant(Atom::String(s)) => Ok(
            Expr::Constant(Atom::String(uppercase_bytes(s))),
        ),
        _ => Err(EvalError::BuiltinError(uppercase_name())),
    }
}

/// The length of a string, in bytes, as a number.
pub fn string_length(args: Vec<Expr>) -> (r: Result<Expr, EvalError>)
    ensures
        (if args@.len() == 1 {
            match crate::expr::expr_view(args@[0]) {
                ExprV::Constant(AtomV::String(s)) => {
                    if s.len() <= i64::MAX {
                        r matches Ok(v) && v@ == ExprV::Constant(
                            AtomV::Number(s.len() as i64),
                        )
                    } else {
                        r matches Err(e) && e is OverflowError
                    }
                },
                _ => r matches Err(e) && e is BuiltinError,
            }
        } else {
            r matches Err(e) && e is BuiltinError
        }),
{
    if args.len() != 1 {
        return Err(
            EvalError::BuiltinError(
                name_vec(&['l' as u8, 'e' as u8, 'n' as u8, 'g' as u8, 't' as u8, 'h' as u8]),
            ),
        );
    }
    match &args[0] {
        Expr::Constant(Atom::String(s)) => {
            let len = s.len();
            if len as u64 <= i64::MAX as u64 {
                Ok(Expr::Constant(Atom::Number(len as i64)))
            } else {
                Err(EvalError::OverflowError)
            }
        },
        _ => Err(
            EvalError::BuiltinError(
                name_vec(&['l' as u8, 'e' as u8, 'n' as u8, 'g' as u8, 't' as u8, 'h' as u8]),
            ),
        ),
    }
}

/// Splits the first string by the second; the result is the array of the
/// pieces, each a string.
pub fn string_split(args: Vec<Expr>) -> (r: Result<Expr, EvalError>)
    ensures
        (if args@.len() == 2 {
            match (crate::expr::expr_view(args@[0]), crate::expr::expr_view(args@[1])) {
                (ExprV::Constant(AtomV::String(a)), ExprV::Constant(AtomV::String(b))) => r
                    matches Ok(v) && v@ == ExprV::Array(
                    split_spec(a, b).map_values(|p: Seq<u8>| ExprV::Constant(AtomV::String(p))),
                ),
                _ => r matches Err(e) && e is BuiltinError,
            }
        } else {
            r matches Err(e) && e is BuiltinError
        }),
{
    if args.len() != 2 {
        return Err(
            EvalError::BuiltinError(
                name_vec(&['s' as u8, 'p' as u8, 'l' as u8, 'i' as u8, 't' as u8]),
            ),
        );
    }
    match (&args[0], &args[1]) {
        (Expr::Constant(Atom::String(a)), Expr::Constant(Atom::String(b))) => {
            let pieces = split_bytes(a.as_slice(), b.as_slice());
            let mut items: Vec<Expr> = Vec::new();
            let mut i: usize = 0;
            while i < pieces.len()
                invariant
                    0 <= i <= pieces@.len(),
                    items@.len() == i,
                    forall|k: int|
                        0 <= k < i ==> #[trigger] crate::expr::expr_view(items@[k])
                            == ExprV::Constant(AtomV::String(names_view(pieces@)[k])),
                decreases pieces@.len() - i,
            {
                items.push(Expr::Constant(Atom::String(crate::expr::bytes_clone(&pieces[i]))));
                i = i + 1;
            }
            proof {
                let sp = split_spec(a@, b@).map_values(
                    |p: Seq<u8>| ExprV::Constant(AtomV::String(p)),
                );
                assert forall|j: int|
                    0 <= j < items@.len() implies crate::expr::exprs_view(items@)[j] == sp[j] by {
                    assert(crate::expr::exprs_view(items@)[j] == crate::expr::expr_view(
                        items@[j],
                    ));
                    assert(names_view(pieces@)[j] == split_spec(a@, b@)[j]);
                }
                assert(crate::expr::exprs_view(items@) =~= sp);
            }
            Ok(Expr::Array(items))
        },
        _ => Err(
            EvalError::BuiltinError(
                name_vec(&['s' as u8, 'p' as u8, 'l' as u8, 'i' as u8, 't' as u8]),
            ),
        ),
    }
}

/// Reverses a string, byte by byte.  On text whose characters are all
/// single bytes this is character reversal; a multi-byte character's
/// bytes come out individually reversed, so such text does not survive
/// the round trip.
pub fn string_reverse(args: Vec<Expr>) -> (r: Result<Expr, EvalError>)
    ensures
        (if args@.len() == 1 {
            match crate::expr::expr_view(args@[0]) {
                ExprV::Constant(AtomV::String(s)) => r matches Ok(v) && v@ == ExprV::Constant(
                    AtomV::String(seq_rev(s)),
                ),
                _ => r matches Err(e) && e is BuiltinError,
            }
        } else {
            r matches Err(e) && e is BuiltinError
        }),
{
    if args.len() != 1 {
        return Err(
            EvalError::BuiltinError(
                name_vec(
                    &['r' as u8, 'e' as u8, 'v' as u8, 'e' as u8, 'r' as u8, 's' as u8, 'e' as u8],
                ),
            ),
        );
    }
    match &args[0] {
        Expr::Constant(Atom::String(s)) => {
            let mut out: Vec<u8> = Vec::new();
            let len = s.len();
            let mut i: usize = 0;
            while i < len
                invariant
                    0 <= i <= len,
                    len == s@.len(),
                    out@.len() == i,
                    forall|k: int| 0 <= k < i ==> out@[k] == s@[len - 1 - k],
                decreases len - i,
            {
                out.push(s[len - 1 - i]);
                i = i + 1;
            }
            proof {
                assert(out@ =~= seq_rev(s@));
            }
            Ok(Expr::Constant(Atom::String(out)))
        },
        _ => Err(
            EvalError::BuiltinError(
                name_vec(
                    &['r' as u8, 'e' as u8, 'v' as u8, 'e' as u8, 'r' as u8, 's' as u8, 'e' as u8],
                ),
            ),
        ),
    }
}

/// Removes ASCII whitespace from both ends of a string.
pub fn string_trim(args: Vec<Expr>) -> (r: Result<Expr, EvalError>)
    ensures
        (if args@.len() == 1 {
            match crate::expr::expr_view(args@[0]) {
                ExprV::Constant(AtomV::String(s)) => r matches Ok(v) && v@ == ExprV::Constant(
                    AtomV::String(rtrim_spec(ltrim_spec(s))),
                ),
                _ => r matches Err(e) && e is BuiltinError,
            }
        } else {
            r matches Err(e) && e is BuiltinError
        }),
{
    if args.len() != 1 {
        return Err(
            EvalError::BuiltinError(name_vec(&['t' as u8, 'r' as u8, 'i' as u8, 'm' as u8])),
        );
    }
    match &args[0] {
        Expr::Constant(Atom::String(s)) => {
            let l = ltrim_bytes(s);
            Ok(Expr::Constant(Atom::String(rtrim_bytes(&l))))
        },
        _ => Err(
            EvalError::BuiltinError(name_vec(&['t' as u8, 'r' as u8, 'i' as u8, 'm' as u8])),
        ),
    }
}

/// Removes leading ASCII whitespace from a string.
pub fn string_ltrim(args: Vec<Expr>) -> (r: Result<Expr, EvalError>)
    ensures
        (if args@.len() == 1 {
            match crate::expr::expr_view(args@[0]) {
                ExprV::Constant(AtomV::String(s)) => r matches Ok(v) && v@ == ExprV::Constant(
                    AtomV::String(ltrim_spec(s)),
                ),
                _ => r matches Err(e) && e is BuiltinError,
            }
        } else {
            r matches Err(e) && e is BuiltinError
        }),
{
    if args.len() != 1 {
        return Err(
            EvalError::BuiltinError(
                name_vec(&['l' as u8, 't' as u8, 'r' as u8, 'i' as u8, 'm' as u8]),
            ),
        );
    }
    match &args[0] {
        Expr::Constant(Atom::String(s)) => Ok(Expr::Constant(Atom::String(ltrim_bytes(s)))),
        _ => Err(
            EvalError::BuiltinError(
                name_vec(&['l' as u8, 't' as u8, 'r' as u8, 'i' as u8, 'm' as u8]),
            ),
        ),
    }
}

/// Removes trailing ASCII whitespace from a string.
pub fn string_rtrim(args: Vec<Expr>) -> (r: Result<Expr, EvalError>)
    ensures
        (if args@.len() == 1 {
            match crate::expr::expr_view(args@[0]) {
                ExprV::Constant(AtomV::String(s)) => r matches Ok(v) && v@ == ExprV::Constant(
                    AtomV::String(rtrim_spec(s)),
                ),
                _ => r matches Err(e) && e is BuiltinError,
            }
        } else {
            r matches Err(e) && e is BuiltinError
        }),
{
    if args.len() != 1 {
        return Err(
            EvalError::BuiltinError(
                name_vec(&['r' as u8, 't' as u8, 'r' as u8, 'i' as u8, 'm' as u8]),
            ),
        );
    }
    match &args[0] {
        Expr::Constant(Atom::String(s)) => Ok(Expr::Constant(Atom::String(rtrim_bytes(s)))),
        _ => Err(
            EvalError::BuiltinError(
                name_vec(&['r' as u8, 't' as u8, 'r' as u8, 'i' as u8, 'm' as u8]),
            ),
        ),
    }
}

} // verus!
