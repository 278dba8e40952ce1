use vstd::prelude::*;
use crate::env::Env;
use crate::expr::{BuiltinId, Expr, ExprV};
use crate::interp::name_vec;

verus! {

/// The environment after the operating-system builtins are loaded into
/// `env0`: `getcwd`, `listdir` and `exists` bound to their identities.
pub open spec fn loaded(env0: Map<Seq<u8>, ExprV>) -> Map<Seq<u8>, ExprV> {
    env0.insert(
        seq![103u8, 101u8, 116u8, 99u8, 119u8, 100u8],
        ExprV::Builtin(BuiltinId::OsGetcwd),
    ).insert(
        seq![108u8, 105u8, 115u8, 116u8, 100u8, 105u8, 114u8],
        ExprV::Builtin(BuiltinId::OsListdir),
    ).insert(seq![101u8, 120u8, 105u8, 115u8, 116u8, 115u8], ExprV::Builtin(BuiltinId::OsExists))
}

/// Loads the operating-system builtins into the environment: `getcwd`,
/// `listdir`, `exists`.
///
/// Only the registration lives here.  The bodies of these builtins read
/// the host file system, which the verified library cannot reach, so a
/// call of any of them reports the builtin unavailable; host-side
/// implementations stand with the embedding application.
pub fn load(env: &mut Env)
    ensures
        final (env)@ == loaded(old(env)@),
{
    let getcwd_name = name_vec(
        &['g' as u8, 'e' as u8, 't' as u8, 'c' as u8, 'w' as u8, 'd' as u8],
    );
    proof {
        assert(getcwd_name@ =~= seq![103u8, 101u8, 116u8, 99u8, 119u8, 100u8]);
    }
    env.insert(getcwd_name, Expr::Builtin(BuiltinId::OsGetcwd));
    let listdir_name = name_vec(
        &['l' as u8, 'i' as u8, 's' as u8, 't' as u8, 'd' as u8, 'i' as u8, 'r' as u8],
    );
    proof {
        assert(listdir_name@ =~= seq![108u8, 105u8, 115u8, 116u8, 100u8, 105u8, 114u8]);
    }
    env.insert(listdir_name, Expr::Builtin(BuiltinId::OsListdir));
    let exists_name = name_vec(
        &['e' as u8, 'x' as u8, 'i' as u8, 's' as u8, 't' as u8, 's' as u8],
    );
    proof {
        assert(exists_name@ =~= seq![101u8, 120u8, 105u8, 115u8, 116u8, 115u8]);
    }
    env.insert(exists_name, Expr::Builtin(BuiltinId::OsExists));
}

} // verus!
