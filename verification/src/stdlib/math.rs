use vstd::prelude::*;
use crate::env::Env;
use crate::expr::{Atom, AtomV, BuiltinId, Expr, ExprV};
use crate::floats::f64_mag;
use crate::interp::{name_vec, EvalError};

verus! {

/// The environment after the math builtins are loaded into `env0`:
/// `abs`, `sqrt` and `pow` bound to their builtin identities.
pub open spec fn loaded(env0: Map<Seq<u8>, ExprV>) -> Map<Seq<u8>, ExprV> {
    env0.insert(seq![97u8, 98u8, 115u8], ExprV::Builtin(BuiltinId::MathAbs)).insert(
        seq![115u8, 113u8, 114u8, 116u8],
        ExprV::Builtin(BuiltinId::MathSqrt),
    ).insert(seq![112u8, 111u8, 119u8], ExprV::Builtin(BuiltinId::MathPow))
}

/// Loads the math builtins into the environment: `abs`, `sqrt`, `pow`.
pub fn load(env: &mut Env)
    ensures
        final (env)@ == loaded(old(env)@),
{
    let abs_name = name_vec(&['a' as u8, 'b' as u8, 's' as u8]);
    proof {
        assert(abs_name@ =~= seq![97u8, 98u8, 115u8]);
    }
    env.insert(abs_name, Expr::Builtin(BuiltinId::MathAbs));
    let sqrt_name = name_vec(&['s' as u8, 'q' as u8, 'r' as u8, 't' as u8]);
    proof {
        assert(sqrt_name@ =~= seq![115u8, 113u8, 114u8, 116u8]);
    }
    env.insert(sqrt_name, Expr::Builtin(BuiltinId::MathSqrt));
    let pow_name = name_vec(&['p' as u8, 'o' as u8, 'w' as u8]);
    proof {
        assert(pow_name@ =~= seq![112u8, 111u8, 119u8]);
    }
    env.insert(pow_name, Expr::Builtin(BuiltinId::MathPow));
}

/// The absolute value of one numeric argument: on an integer, the
/// mathematical absolute value where it fits; on a float, the encoding
/// with its sign bit cleared, which is exactly binary64 `abs`.
pub fn math_abs(args: Vec<Expr>) -> (r: Result<Expr, EvalError>)
    ensures
        (if args@.len() == 1 {
            match crate::expr::expr_view(args@[0]) {
                ExprV::Constant(AtomV::Number(n)) => {
                    if n == i64::MIN {
                        r matches Err(e) && e is OverflowError
                    } else {
                        r matches Ok(v) && v@ == ExprV::Constant(
                            AtomV::Number((if n < 0 { -n } else { n as int }) as i64),
                        )
                    }
                },
                ExprV::Constant(AtomV::Float(b)) => r matches Ok(v) && v@ == ExprV::Constant(
                    AtomV::Float(f64_mag(b)),
                ),
                _ => r matches Err(e) && e is BuiltinError,
            }
        } else {
            r matches Err(e) && e is BuiltinError
        }),
{
    if args.len() != 1 {
        return Err(EvalError::BuiltinError(name_vec(&['a' as u8, 'b' as u8, 's' as u8])));
    }
    match &args[0] {
        Expr::Constant(Atom::Number(n)) => {
            if *n == i64::MIN {
                Err(EvalError::OverflowError)
            } else if *n < 0 {
                Ok(Expr::Constant(Atom::Number(-*n)))
            } else {
                Ok(Expr::Constant(Atom::Number(*n)))
            }
        },
        Expr::Constant(Atom::Float(b)) => Ok(
            Expr::Constant(Atom::Float(crate::floats::float_abs(*b))),
        ),
        _ => Err(EvalError::BuiltinError(name_vec(&['a' as u8, 'b' as u8, 's' as u8]))),
    }
}

} // verus!
