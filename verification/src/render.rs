use vstd::prelude::*;
use crate::expr::{Atom, AtomV, Expr, ExprV};
use crate::floats::{float_render, float_text_of};
use crate::literals::{format_i64, int_text};
use crate::lower::{false_bytes, true_bytes};

verus! {

/// The text an atom renders to: a number as its canonical decimal
/// literal, a float as its decimal rendering, a boolean as its keyword,
/// a name or string as its own bytes.
pub open spec fn atom_text(a: AtomV) -> Seq<u8> {
    match a {
        AtomV::Number(n) => int_text(n as int),
        AtomV::Float(b) => float_text_of(b),
        AtomV::Boolean(b) => if b {
            true_bytes()
        } else {
            false_bytes()
        },
        AtomV::Name(s) => s,
        AtomV::String(s) => s,
    }
}

/// The text an evaluated expression renders to: a constant by its atom,
/// an array as its bracketed, comma-separated items, and every other
/// form as nothing.
pub open spec fn expr_text(e: ExprV) -> Seq<u8>
    decreases e,
{
    match e {
        ExprV::Constant(a) => atom_text(a),
        ExprV::Array(items) => seq![91u8] + items_text(items) + seq![93u8],
        _ => Seq::empty(),
    }
}

/// The items of an array rendering, joined by a comma and a space.
pub open spec fn items_text(items: Seq<ExprV>) -> Seq<u8>
    decreases items,
{
    if items.len() == 0 {
        Seq::empty()
    } else if items.len() == 1 {
        expr_text(items[0])
    } else {
        expr_text(items[0]) + seq![44u8, 32u8] + items_text(items.skip(1))
    }
}

/// Renders an atom as the text `println` prints for it.
pub fn render_atom(a: &Atom) -> (r: Vec<u8>)
    ensures
        r@ == atom_text(a@),
{
    match a {
        Atom::Number(n) => format_i64(*n),
        Atom::Float(b) => float_render(*b),
        Atom::Boolean(b) => {
            let mut out: Vec<u8> = Vec::new();
            if *b {
                out.push(116);
                out.push(114);
                out.push(117);
                out.push(101);
                proof {
                    assert(out@ =~= true_bytes());
                }
            } else {
                out.push(102);
                out.push(97);
                out.push(108);
                out.push(115);
                out.push(101);
                proof {
                    assert(out@ =~= false_bytes());
                }
            }
            out
        },
        Atom::Name(s) => crate::expr::bytes_clone(s),
        Atom::String(s) => crate::expr::bytes_clone(s),
    }
}

/// Renders an evaluated expression as `println` prints one: exactly the
/// text `expr_text` describes.
#[verifier::loop_isolation(false)]
pub fn render_expr(e: &Expr) -> (r: Vec<u8>)
    ensures
        r@ == expr_text(e@),
    decreases *e,
{
    match e {
        Expr::Constant(a) => render_atom(a),
        Expr::Array(items) => {
            let mut out: Vec<u8> = Vec::new();
            out.push(91);  // [
            proof {
                assert(out@ =~= seq![91u8]);
                assert(crate::expr::exprs_view(items@).skip(0) =~= crate::expr::exprs_view(
                    items@,
                ));
            }
            let mut i: usize = 0;
            while i < items.len()
                invariant
                    0 <= i <= items@.len(),
                    seq![91u8] + items_text(crate::expr::exprs_view(items@)) == out@ + items_text(
                        crate::expr::exprs_view(items@).skip(i as int),
                    ),
                decreases items@.len() - i,
            {
                proof {
                    assert(decreases_to!(*e => *items));
                    assert(decreases_to!(*items => items@));
                    assert(decreases_to!(items@ => items@[i as int]));
                    assert(crate::expr::exprs_view(items@).skip(i as int)[0]
                        == crate::expr::exprs_view(items@)[i as int]);
                    assert(crate::expr::exprs_view(items@)[i as int] == crate::expr::expr_view(
                        items@[i as int],
                    ));
                    assert(crate::expr::exprs_view(items@).skip(i as int).skip(1)
                        =~= crate::expr::exprs_view(items@).skip(i + 1));
                }
                let ghost out0 = out@;
                let ghost rem = crate::expr::exprs_view(items@).skip(i as int);
                let piece = render_expr(&items[i]);
                let mut j: usize = 0;
                while j < piece.len()
                    invariant
                        0 <= j <= piece@.len(),
                        out@ == out0 + piece@.subrange(0, j as int),
                    decreases piece@.len() - j,
                {
                    out.push(piece[j]);
                    proof {
                        assert(out@ =~= out0 + piece@.subrange(0, j + 1));
                    }
                    j = j + 1;
                }
                proof {
                    assert(piece@.subrange(0, piece@.len() as int) =~= piece@);
                }
                if i + 1 < items.len() {
                    out.push(44);  // ,
                    out.push(32);  // space
                    proof {
                        assert(rem.len() >= 2);
                        assert(items_text(rem) == expr_text(rem[0]) + seq![44u8, 32u8]
                            + items_text(rem.skip(1)));
                        assert(out@ =~= (out0 + piece@) + seq![44u8, 32u8]);
                        assert((out0 + (expr_text(rem[0]) + seq![44u8, 32u8] + items_text(
                            rem.skip(1),
                        ))) =~= (((out0 + piece@) + seq![44u8, 32u8]) + items_text(rem.skip(1))));
                    }
                } else {
                    proof {
                        assert(rem.len() == 1);
                        assert(items_text(rem) == expr_text(rem[0]));
                        assert(items_text(crate::expr::exprs_view(items@).skip(i + 1))
                            == Seq::<u8>::empty());
                        assert((out0 + expr_text(rem[0])) + Seq::<u8>::empty() =~= out0
                            + expr_text(rem[0]));
                    }
                }
                i = i + 1;
            }
            proof {
                assert(items_text(crate::expr::exprs_view(items@).skip(items@.len() as int))
                    == Seq::<u8>::empty());
                assert(out@ + Seq::<u8>::empty() =~= out@);
            }
            out.push(93);  // ]
            proof {
                assert(out@ =~= (seq![91u8] + items_text(crate::expr::exprs_view(items@)))
                    + seq![93u8]);
            }
            out
        },
        _ => {
            let r: Vec<u8> = Vec::new();
            proof {
                assert(r@ =~= expr_text(e@));
            }
            r
        },
    }
}

} // verus!
