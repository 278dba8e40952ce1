use vstd::prelude::*;
use crate::env::Env;
use crate::expr::{Atom, AtomV, BuiltinId, Expr, ExprV};
use crate::floats::{float_div, float_from_int};
use crate::interp::{name_vec, EvalError};

verus! {

/// The binary64 encoding of one thousand, the millisecond-to-second
/// divisor.
pub const F64_THOUSAND_BITS: u64 = 0x408F400000000000;

/// The environment after the time builtins are loaded into `env0`:
/// `time_ms` and `time_sec` bound to their builtin identities.
pub open spec fn loaded(env0: Map<Seq<u8>, ExprV>) -> Map<Seq<u8>, ExprV> {
    env0.insert(
        seq![116u8, 105u8, 109u8, 101u8, 95u8, 109u8, 115u8],
        ExprV::Builtin(BuiltinId::TimeMs),
    ).insert(
        seq![116u8, 105u8, 109u8, 101u8, 95u8, 115u8, 101u8, 99u8],
        ExprV::Builtin(BuiltinId::TimeSec),
    )
}

/// Loads the time builtins into the environment: `time_ms`, `time_sec`.
pub fn load(env: &mut Env)
    ensures
        final (env)@ == loaded(old(env)@),
{
    let ms_name = name_vec(
        &['t' as u8, 'i' as u8, 'm' as u8, 'e' as u8, '_' as u8, 'm' as u8, 's' as u8],
    );
    proof {
        assert(ms_name@ =~= seq![116u8, 105u8, 109u8, 101u8, 95u8, 109u8, 115u8]);
    }
    env.insert(ms_name, Expr::Builtin(BuiltinId::TimeMs));
    let sec_name = name_vec(
        &[
            't' as u8,
            'i' as u8,
            'm' as u8,
            'e' as u8,
            '_' as u8,
            's' as u8,
            'e' as u8,
            'c' as u8,
        ],
    );
    proof {
        assert(sec_name@ =~= seq![116u8, 105u8, 109u8, 101u8, 95u8, 115u8, 101u8, 99u8]);
    }
    env.insert(sec_name, Expr::Builtin(BuiltinId::TimeSec));
}

/// Relies on `std::time::SystemTime::now`, read as the number of whole
/// milliseconds since the Unix epoch.  Of a clock reading, only the sign
/// can be promised; a clock before the epoch reads as zero.
#[verifier::external_body]
fn now_millis() -> (r: i64)
    ensures
        r >= 0,
{
    match std::time::SystemTime::now().duration_since(std::time::UNIX_EPOCH) {
        Err(_) => 0,
        Ok(d) => {
            let ms = d.as_millis();
            if ms > i64::MAX as u128 {
                i64::MAX
            } else {
                ms as i64
            }
        },
    }
}

/// The current time in whole milliseconds since the Unix epoch, as a
/// number.  Takes no arguments.
pub fn time_ms(args: Vec<Expr>) -> (r: Result<Expr, EvalError>)
    ensures
        args@.len() != 0 ==> (r matches Err(e) && e is BuiltinError),
        args@.len() == 0 ==> (r matches Ok(v) && (v@ matches ExprV::Constant(AtomV::Number(n))
            && n >= 0)),
{
    if args.len() != 0 {
        return Err(
            EvalError::BuiltinError(
                name_vec(
                    &['t' as u8, 'i' as u8, 'm' as u8, 'e' as u8, '_' as u8, 'm' as u8, 's' as u8],
                ),
            ),
        );
    }
    Ok(Expr::Constant(Atom::Number(now_millis())))
}

/// The current time in seconds since the Unix epoch, as a float: the
/// millisecond reading divided by one thousand in binary64.  Takes no
/// arguments.
pub fn time_sec(args: Vec<Expr>) -> (r: Result<Expr, EvalError>)
    ensures
        args@.len() != 0 ==> (r matches Err(e) && e is BuiltinError),
        args@.len() == 0 ==> (r matches Ok(v) && v@ matches ExprV::Constant(AtomV::Float(_))),
{
    if args.len() != 0 {
        return Err(
            EvalError::BuiltinError(
                name_vec(
                    &[
                        't' as u8,
                        'i' as u8,
                        'm' as u8,
                        'e' as u8,
                        '_' as u8,
                        's' as u8,
                        'e' as u8,
                        'c' as u8,
                    ],
                ),
            ),
        );
    }
    let ms = now_millis();
    Ok(Expr::Constant(Atom::Float(float_div(float_from_int(ms), F64_THOUSAND_BITS))))
}

} // verus!
