use vstd::prelude::*;
use crate::expr::{bytes_clone, bytes_eq, expr_clone, Expr, ExprV};

verus! {

/// The mapping an entry list denotes: an entry shadows every later
/// entry with the same name, so the front of the list wins.
pub open spec fn map_of(entries: Seq<(Vec<u8>, Expr)>) -> Map<Seq<u8>, ExprV>
    decreases entries,
{
    if entries.len() == 0 {
        Map::empty()
    } else {
        map_of(entries.skip(1)).insert(entries[0].0@, entries[0].1@)
    }
}

/// The variable environment: a mapping from identifier name to value,
/// one lexical scope.  A new binding is put in front and shadows any
/// older binding of the same name; the view is the resulting map.
pub struct Env {
    entries: Vec<(Vec<u8>, Expr)>,
}

impl View for Env {
    type V = Map<Seq<u8>, ExprV>;

    closed spec fn view(&self) -> Map<Seq<u8>, ExprV> {
        map_of(self.entries@)
    }
}

proof fn lemma_map_of_skip(entries: Seq<(Vec<u8>, Expr)>, name: Seq<u8>, i: int)
    requires
        0 <= i <= entries.len(),
        forall|k: int| 0 <= k < i ==> (#[trigger] entries[k]).0@ != name,
    ensures
        map_of(entries).contains_key(name) == map_of(entries.skip(i)).contains_key(name),
        map_of(entries).contains_key(name) ==> map_of(entries)[name] == map_of(
            entries.skip(i),
        )[name],
    decreases i,
{
    if i > 0 {
        lemma_map_of_skip(entries, name, i - 1);
        assert(entries.skip(i - 1)[0] == entries[i - 1]);
        assert(entries.skip(i - 1).skip(1) =~= entries.skip(i));
    } else {
        assert(entries.skip(0) =~= entries);
    }
}

impl Env {
    /// The empty environment.
    pub fn new() -> (r: Env)
        ensures
            r@ == Map::<Seq<u8>, ExprV>::empty(),
    {
        Env { entries: Vec::new() }
    }

    /// The value bound to `name`, copied out, or `None` when `name` is
    /// unbound.
    #[verifier::loop_isolation(false)]
    pub fn lookup(&self, name: &[u8]) -> (r: Option<Expr>)
        ensures
            match r {
                Some(v) => self@.contains_key(name@) && v@ == self@[name@],
                None => !self@.contains_key(name@),
            },
    {
        let mut i: usize = 0;
        while i < self.entries.len()
            invariant
                0 <= i <= self.entries@.len(),
                forall|k: int| 0 <= k < i ==> (#[trigger] self.entries@[k]).0@ != name@,
            decreases self.entries@.len() - i,
        {
            if bytes_eq(self.entries[i].0.as_slice(), name) {
                proof {
                    lemma_map_of_skip(self.entries@, name@, i as int);
                    assert(self.entries@.skip(i as int)[0] == self.entries@[i as int]);
                    assert(self.entries@.skip(i as int).skip(1) =~= self.entries@.skip(i + 1));
                }
                return Some(expr_clone(&self.entries[i].1));
            }
            i = i + 1;
        }
        proof {
            lemma_map_of_skip(self.entries@, name@, self.entries@.len() as int);
            assert(self.entries@.skip(self.entries@.len() as int) =~= Seq::<(
                Vec<u8>,
                Expr,
            )>::empty());
        }
        None
    }

    /// Whether `name` is bound.
    pub fn contains(&self, name: &[u8]) -> (r: bool)
        ensures
            r == self@.contains_key(name@),
    {
        match self.lookup(name) {
            Some(_) => true,
            None => false,
        }
    }

    /// Binds `name` to `value`, shadowing any earlier binding.
    pub fn insert(&mut self, name: Vec<u8>, value: Expr)
        ensures
            final (self)@ == old(self)@.insert(name@, value@),
    {
        self.entries.insert(0, (name, value));
        proof {
            assert(self.entries@.skip(1) =~= old(self).entries@);
        }
    }

    /// An independent copy: the scope the evaluator opens for a call or
    /// a loop, whose later mutations never reach this environment.
    #[verifier::loop_isolation(false)]
    pub fn clone_env(&self) -> (r: Env)
        ensures
            r@ == self@,
    {
        let mut out: Vec<(Vec<u8>, Expr)> = Vec::new();
        let mut i: usize = 0;
        while i < self.entries.len()
            invariant
                0 <= i <= self.entries@.len(),
                out@.len() == i,
                forall|k: int|
                    0 <= k < i ==> (#[trigger] out@[k]).0@ == self.entries@[k].0@ && out@[k].1@
                        == self.entries@[k].1@,
            decreases self.entries@.len() - i,
        {
            let name = bytes_clone(&self.entries[i].0);
            let value = expr_clone(&self.entries[i].1);
            out.push((name, value));
            i = i + 1;
        }
        proof {
            lemma_map_of_congruent(out@, self.entries@);
        }
        Env { entries: out }
    }
}

proof fn lemma_map_of_congruent(a: Seq<(Vec<u8>, Expr)>, b: Seq<(Vec<u8>, Expr)>)
    requires
        a.len() == b.len(),
        forall|k: int|
            0 <= k < a.len() ==> (#[trigger] a[k]).0@ == b[k].0@ && a[k].1@ == b[k].1@,
    ensures
        map_of(a) == map_of(b),
    decreases a,
{
    if a.len() > 0 {
        assert(a.skip(1).len() == b.skip(1).len());
        assert(forall|k: int|
            0 <= k < a.skip(1).len() ==> (#[trigger] a.skip(1)[k]).0@ == b.skip(1)[k].0@ && a.skip(
                1,
            )[k].1@ == b.skip(1)[k].1@) by {
            assert(forall|k: int| 0 <= k < a.skip(1).len() ==> a.skip(1)[k] == a[k + 1]);
            assert(forall|k: int| 0 <= k < b.skip(1).len() ==> b.skip(1)[k] == b[k + 1]);
        }
        lemma_map_of_congruent(a.skip(1), b.skip(1));
        assert(map_of(a) =~= map_of(b));
    } else {
        assert(map_of(a) =~= map_of(b));
    }
}

} // verus!
