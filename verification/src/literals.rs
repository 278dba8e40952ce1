use vstd::prelude::*;
use crate::lexer::{is_digit_byte, B_MINUS};

verus! {

/// Every byte of `s` is an ASCII decimal digit.
pub open spec fn is_digit_seq(s: Seq<u8>) -> bool {
    forall|k: int| 0 <= k < s.len() ==> is_digit_byte(#[trigger] s[k])
}

/// The value of a string of decimal digits, most significant first.
pub open spec fn dec_val(s: Seq<u8>) -> int
    decreases s.len(),
{
    if s.len() == 0 {
        0
    } else {
        dec_val(s.drop_last()) * 10 + (s.last() - 48)
    }
}

/// The value of a string of decimal digits, least significant first.
pub open spec fn dec_val_lsd(s: Seq<u8>) -> int
    decreases s.len(),
{
    if s.len() == 0 {
        0
    } else {
        (s[0] - 48) + 10 * dec_val_lsd(s.skip(1))
    }
}

/// `s` spells an integer literal: an optional minus sign, then one or
/// more digits.
pub open spec fn is_int_lit(s: Seq<u8>) -> bool {
    if s.len() > 0 && s[0] == B_MINUS {
        s.len() >= 2 && is_digit_seq(s.skip(1))
    } else {
        s.len() >= 1 && is_digit_seq(s)
    }
}

/// The integer an integer literal spells.
pub open spec fn int_lit_value(s: Seq<u8>) -> int {
    if s.len() > 0 && s[0] == B_MINUS {
        -dec_val(s.skip(1))
    } else {
        dec_val(s)
    }
}

/// The canonical decimal digits of `m`, most significant first: no
/// leading zero except for zero itself.
pub open spec fn u_text(m: nat) -> Seq<u8>
    decreases m,
{
    if m < 10 {
        seq![(48 + m) as u8]
    } else {
        u_text(m / 10).push((48 + (m % 10)) as u8)
    }
}

/// The canonical decimal text of `n`: a minus sign for a negative
/// value, then its digits.
pub open spec fn int_text(n: int) -> Seq<u8> {
    if n < 0 {
        seq![B_MINUS] + u_text((-n) as nat)
    } else {
        u_text(n as nat)
    }
}

/// Ten to the `k`.
pub open spec fn pow10(k: nat) -> int
    decreases k,
{
    if k == 0 {
        1
    } else {
        10 * pow10((k - 1) as nat)
    }
}

proof fn lemma_dec_val_nonneg(s: Seq<u8>)
    requires
        is_digit_seq(s),
    ensures
        dec_val(s) >= 0,
    decreases s.len(),
{
    if s.len() > 0 {
        assert(is_digit_seq(s.drop_last())) by {
            assert(forall|k: int|
                0 <= k < s.len() - 1 ==> #[trigger] s.drop_last()[k] == s[k]);
        }
        lemma_dec_val_nonneg(s.drop_last());
    }
}

/// Extending a digit string cannot decrease its value.
proof fn lemma_dec_val_extend(s: Seq<u8>, a: int, i: int, j: int)
    requires
        0 <= a <= i <= j <= s.len(),
        forall|k: int| a <= k < j ==> is_digit_byte(#[trigger] s[k]),
    ensures
        dec_val(s.subrange(a, j)) >= dec_val(s.subrange(a, i)),
        dec_val(s.subrange(a, j)) >= 0,
    decreases j - i,
{
    assert(is_digit_seq(s.subrange(a, i)));
    lemma_dec_val_nonneg(s.subrange(a, i));
    if i < j {
        assert(s.subrange(a, i + 1).drop_last() =~= s.subrange(a, i));
        assert(dec_val(s.subrange(a, i + 1)) == dec_val(s.subrange(a, i)) * 10 + (s[i] - 48));
        lemma_dec_val_extend(s, a, i + 1, j);
    }
}

/// Parses a decimal integer literal into a 64-bit signed integer.
/// Returns the value exactly when `s` has the literal shape and its value
/// fits; malformed text and out-of-range values give `None`.
#[verifier::loop_isolation(false)]
pub fn parse_i64(s: &[u8]) -> (r: Option<i64>)
    ensures
        r is Some <==> is_int_lit(s@) && i64::MIN <= int_lit_value(s@) <= i64::MAX,
        r matches Some(v) ==> v == int_lit_value(s@),
{
    let len = s.len();
    if len == 0 {
        return None;
    }
    let neg = s[0] == B_MINUS;
    let start: usize = if neg {
        1
    } else {
        0
    };
    if start >= len {
        return None;
    }
    let limit: u64 = if neg {
        9223372036854775808
    } else {
        9223372036854775807
    };
    let ghost digs = if neg {
        s@.skip(1)
    } else {
        s@
    };
    proof {
        assert(digs =~= s@.subrange(start as int, len as int));
    }
    let mut acc: u64 = 0;
    let mut i: usize = start;
    while i < len
        invariant
            start <= i <= len,
            len == s@.len(),
            start == if neg { 1int } else { 0int },
            neg ==> limit == 9223372036854775808,
            !neg ==> limit == 9223372036854775807,
            forall|k: int| start <= k < i ==> is_digit_byte(#[trigger] s@[k]),
            acc == dec_val(s@.subrange(start as int, i as int)),
            acc <= limit,
        decreases len - i,
    {
        let b = s[i];
        if !(48 <= b && b <= 57) {
            proof {
                assert(!is_digit_seq(digs)) by {
                    assert(digs[i - start] == s@[i as int]);
                }
            }
            return None;
        }
        let d: u64 = (b - 48) as u64;
        proof {
            assert(s@.subrange(start as int, i + 1).drop_last() =~= s@.subrange(
                start as int,
                i as int,
            ));
            assert(dec_val(s@.subrange(start as int, i + 1)) == acc * 10 + d);
        }
        let next = match acc.checked_mul(10) {
            Some(x) => x.checked_add(d),
            None => None,
        };
        let overflowed = match next {
            Some(x) => x > limit,
            None => true,
        };
        if overflowed {
            proof {
                if is_int_lit(s@) {
                    assert(forall|k: int| start <= k < len ==> is_digit_byte(#[trigger] s@[k]))
                        by {
                        assert(forall|k: int|
                            start <= k < len ==> digs[k - start] == #[trigger] s@[k]);
                    }
                    lemma_dec_val_extend(s@, start as int, i + 1, len as int);
                    assert(dec_val(digs) >= dec_val(s@.subrange(start as int, i + 1)));
                    assert(dec_val(digs) > limit);
                }
            }
            return None;
        }
        acc = match next {
            Some(x) => x,
            None => 0,
        };
        i = i + 1;
    }
    proof {
        assert(digs =~= s@.subrange(start as int, len as int));
        assert(is_int_lit(s@));
        assert(acc == dec_val(digs));
    }
    if neg {
        if acc == 9223372036854775808 {
            Some(i64::MIN)
        } else {
            Some(-(acc as i64))
        }
    } else {
        Some(acc as i64)
    }
}

/// The sequence read back to front.
pub open spec fn seq_rev(s: Seq<u8>) -> Seq<u8> {
    Seq::new(s.len(), |i: int| s[s.len() - 1 - i])
}

proof fn lemma_dec_val_rev(s: Seq<u8>)
    ensures
        dec_val(seq_rev(s)) == dec_val_lsd(s),
    decreases s.len(),
{
    if s.len() > 0 {
        assert(seq_rev(s).drop_last() =~= seq_rev(s.skip(1)));
        assert(seq_rev(s).last() == s[0]);
        lemma_dec_val_rev(s.skip(1));
        assert(dec_val(seq_rev(s)) == dec_val_lsd(s.skip(1)) * 10 + (s[0] - 48));
    }
}

#[verifier::rlimit(50)]
proof fn lemma_dec_val_lsd_push(s: Seq<u8>, d: u8)
    ensures
        dec_val_lsd(s.push(d)) == dec_val_lsd(s) + (d - 48) * pow10(s.len()),
    decreases s.len(),
{
    let p = s.push(d);
    if s.len() == 0 {
        assert(p[0] == d);
        assert(p.skip(1) =~= Seq::<u8>::empty());
        assert(dec_val_lsd(p) == (d - 48) + 10 * dec_val_lsd(Seq::<u8>::empty()));
    } else {
        assert(p[0] == s[0]);
        assert(p.skip(1) =~= s.skip(1).push(d));
        lemma_dec_val_lsd_push(s.skip(1), d);
        let t = dec_val_lsd(s.skip(1));
        let q = pow10(s.skip(1).len());
        assert(dec_val_lsd(p) == (s[0] - 48) + 10 * (t + (d - 48) * q));
        assert(10 * (t + (d - 48) * q) == 10 * t + (d - 48) * (10 * q)) by (nonlinear_arith);
        assert(s.skip(1).len() == s.len() - 1);
        assert(pow10(s.len()) == 10 * q);
        assert(dec_val_lsd(s) == (s[0] - 48) + 10 * t);
        assert(dec_val_lsd(p) == dec_val_lsd(s) + (d - 48) * pow10(s.len()))
            by (nonlinear_arith)
            requires
                dec_val_lsd(p) == (s[0] - 48) + 10 * (t + (d - 48) * q),
                dec_val_lsd(s) == (s[0] - 48) + 10 * t,
                pow10(s.len()) == 10 * q,
        ;
    }
}

/// Writes a 64-bit signed integer as its decimal literal text: the text
/// it produces has the integer-literal shape and spells exactly `n`.
#[verifier::loop_isolation(false)]
#[verifier::rlimit(100)]
pub fn format_i64(n: i64) -> (r: Vec<u8>)
    ensures
        r@ == int_text(n as int),
        is_int_lit(r@),
        int_lit_value(r@) == n,
{
    if n == 0 {
        let mut out: Vec<u8> = Vec::new();
        out.push(48);
        proof {
            assert(out@.drop_last() =~= Seq::<u8>::empty());
            assert(out@.len() == 1);
            assert(out@[0] == 48);
            assert(out@.last() == 48);
            assert(dec_val(Seq::<u8>::empty()) == 0);
            assert(dec_val(out@) == dec_val(out@.drop_last()) * 10 + (out@.last() - 48));
            assert(is_digit_seq(out@));
        }
        proof {
            assert(out@ =~= int_text(0));
        }
        return out;
    }
    let neg = n < 0;
    let mut m: u64 = if neg {
        if n == i64::MIN {
            9223372036854775808
        } else {
            (-n) as u64
        }
    } else {
        n as u64
    };
    let ghost m0: int = m as int;
    let mut digits: Vec<u8> = Vec::new();
    proof {
        assert(seq_rev(digits@) =~= Seq::<u8>::empty());
        assert(u_text(m0 as nat) + seq_rev(digits@) =~= u_text(m0 as nat));
    }
    while m > 0
        invariant
            m0 == m * pow10(digits@.len()) + dec_val_lsd(digits@),
            is_digit_seq(digits@),
            dec_val_lsd(digits@) >= 0,
            m == 0 ==> digits@.len() > 0,
            m0 >= 1,
            m > 0 ==> u_text(m0 as nat) == u_text(m as nat) + seq_rev(digits@),
            m == 0 ==> u_text(m0 as nat) == seq_rev(digits@),
        decreases m,
    {
        let d: u8 = ((m % 10) + 48) as u8;
        let ghost k = digits@.len();
        proof {
            assert(seq_rev(digits@.push(d)) =~= seq![d] + seq_rev(digits@));
            if m >= 10 {
                assert(u_text(m as nat) == u_text((m / 10) as nat).push(d));
                assert(u_text((m / 10) as nat).push(d) =~= u_text((m / 10) as nat) + seq![d]);
                assert((u_text((m / 10) as nat) + seq![d]) + seq_rev(digits@) =~= u_text(
                    (m / 10) as nat,
                ) + (seq![d] + seq_rev(digits@)));
            } else {
                assert(u_text(m as nat) =~= seq![d]);
            }
            lemma_dec_val_lsd_push(digits@, d);
            assert((m / 10) * pow10(k + 1) == ((m / 10) * 10) * pow10(k)) by (nonlinear_arith);
            assert(m0 == (m / 10) * pow10(k + 1) + (dec_val_lsd(digits@) + (d - 48) * pow10(k)))
                by {
                assert(m == (m / 10) * 10 + (m % 10));
                assert(((m / 10) * 10) * pow10(k) + (m % 10) * pow10(k) == m * pow10(k))
                    by (nonlinear_arith);
            }
            assert(pow10(k) >= 1) by {
                lemma_pow10_pos(k);
            }
            assert((d - 48) * pow10(k) >= 0) by (nonlinear_arith)
                requires
                    d >= 48,
                    pow10(k) >= 1,
            ;
        }
        digits.push(d);
        m = m / 10;
    }
    let mut out: Vec<u8> = Vec::new();
    if neg {
        out.push(B_MINUS);
    }
    let dlen = digits.len();
    let mut j: usize = 0;
    let ghost head: int = if neg {
        1int
    } else {
        0int
    };
    while j < dlen
        invariant
            j <= dlen,
            dlen == digits@.len(),
            out@.len() == head + j,
            neg ==> out@[0] == B_MINUS,
            head == if neg { 1int } else { 0int },
            is_digit_seq(digits@),
            forall|k: int| 0 <= k < j ==> out@[head + k] == seq_rev(digits@)[k],
        decreases dlen - j,
    {
        out.push(digits[dlen - 1 - j]);
        j = j + 1;
    }
    proof {
        lemma_dec_val_rev(digits@);
        assert(m0 == dec_val_lsd(digits@)) by (nonlinear_arith)
            requires
                m0 == (m as int) * pow10(digits@.len()) + dec_val_lsd(digits@),
                m == 0,
        ;
        if neg {
            assert(int_text(n as int) =~= seq![B_MINUS] + u_text(m0 as nat));
        } else {
            assert(int_text(n as int) == u_text(m0 as nat));
        }
        if neg {
            assert(out@.skip(1) =~= seq_rev(digits@));
            assert(is_digit_seq(out@.skip(1))) by {
                assert(forall|k: int|
                    0 <= k < digits@.len() ==> is_digit_byte(#[trigger] seq_rev(digits@)[k]));
            }
            assert(out@[0] == B_MINUS);
            assert(int_lit_value(out@) == -dec_val_lsd(digits@));
        } else {
            assert(out@ =~= seq_rev(digits@));
            assert(is_digit_seq(out@)) by {
                assert(forall|k: int|
                    0 <= k < digits@.len() ==> is_digit_byte(#[trigger] seq_rev(digits@)[k]));
            }
            assert(out@.len() > 0);
            assert(out@[0] != B_MINUS) by {
                assert(is_digit_byte(out@[0]));
            }
            assert(int_lit_value(out@) == dec_val_lsd(digits@));
        }
    }
    out
}

proof fn lemma_pow10_pos(k: nat)
    ensures
        pow10(k) >= 1,
    decreases k,
{
    if k > 0 {
        lemma_pow10_pos((k - 1) as nat);
    }
}

} // verus!
