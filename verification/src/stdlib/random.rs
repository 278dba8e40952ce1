use vstd::prelude::*;
use crate::env::Env;
use crate::expr::{Atom, AtomV, BuiltinId, Expr, ExprV};
use crate::interp::{name_vec, EvalError};

verus! {

/// The environment after the random builtins are loaded into `env0`:
/// `rand` bound to its builtin identity.
pub open spec fn loaded(env0: Map<Seq<u8>, ExprV>) -> Map<Seq<u8>, ExprV> {
    env0.insert(seq![114u8, 97u8, 110u8, 100u8], ExprV::Builtin(BuiltinId::RandomRand))
}

/// Loads the random builtins into the environment: `rand`.
pub fn load(env: &mut Env)
    ensures
        final (env)@ == loaded(old(env)@),
{
    let rand_name = name_vec(&['r' as u8, 'a' as u8, 'n' as u8, 'd' as u8]);
    proof {
        assert(rand_name@ =~= seq![114u8, 97u8, 110u8, 100u8]);
    }
    env.insert(rand_name, Expr::Builtin(BuiltinId::RandomRand));
}

/// Relies on `rand::thread_rng` and `Rng::gen_range` over `min..=max`:
/// a uniformly drawn integer of that closed range.  Nothing more than
/// the range can be promised of a random draw.  `gen_range` does not
/// return on an empty range, so the bound order is required here.
#[verifier::external_body]
fn rand_range(min: i64, max: i64) -> (r: i64)
    requires
        min <= max,
    ensures
        min <= r <= max,
{
    rand::Rng::gen_range(&mut rand::thread_rng(), min..=max)
}

/// A random integer between two integer bounds, both included.  The
/// result of a well-formed call lies in the bounds; bad argument count,
/// non-integer bounds, or an empty range are the builtin's own fault.
pub fn random_rand(args: Vec<Expr>) -> (r: Result<Expr, EvalError>)
    ensures
        (if args@.len() == 2 {
            match (crate::expr::expr_view(args@[0]), crate::expr::expr_view(args@[1])) {
                (ExprV::Constant(AtomV::Number(lo)), ExprV::Constant(AtomV::Number(hi))) => {
                    if lo <= hi {
                        r matches Ok(v) && (v@ matches ExprV::Constant(AtomV::Number(n)) && lo <= n
                            <= hi)
                    } else {
                        r matches Err(e) && e is BuiltinError
                    }
                },
                _ => r matches Err(e) && e is BuiltinError,
            }
        } else {
            r matches Err(e) && e is BuiltinError
        }),
{
    if args.len() != 2 {
        return Err(EvalError::BuiltinError(name_vec(&['r' as u8, 'a' as u8, 'n' as u8, 'd' as u8])));
    }
    let lo = match &args[0] {
        Expr::Constant(Atom::Number(n)) => *n,
        _ => {
            return Err(
                EvalError::BuiltinError(name_vec(&['r' as u8, 'a' as u8, 'n' as u8, 'd' as u8])),
            );
        },
    };
    let hi = match &args[1] {
        Expr::Constant(Atom::Number(n)) => *n,
        _ => {
            return Err(
                EvalError::BuiltinError(name_vec(&['r' as u8, 'a' as u8, 'n' as u8, 'd' as u8])),
            );
        },
    };
    if lo > hi {
        return Err(EvalError::BuiltinError(name_vec(&['r' as u8, 'a' as u8, 'n' as u8, 'd' as u8])));
    }
    Ok(Expr::Constant(Atom::Number(rand_range(lo, hi))))
}

} // verus!
