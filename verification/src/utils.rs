use vstd::prelude::*;

use crate::amount::{text_len, Amount};
use crate::decimal::{decimal, lemma_decimal, lemma_pow10_positive, pow10, trunc_div};

verus! {

/// Every integer's text has at least one character.
pub proof fn lemma_text_len_positive(v: int)
    ensures
        text_len(v) >= 1,
{
    if v < 0 {
        lemma_decimal((-v) as nat);
    } else {
        lemma_decimal(v as nat);
    }
}

/// Dividing by `10^k` and then by ten, both rounding toward zero, divides by `10^(k+1)`.
pub proof fn lemma_trunc_div_step(v: int, k: nat)
    ensures
        trunc_div(trunc_div(v, pow10(k)), 10) == trunc_div(v, pow10(k + 1)),
{
    let p = pow10(k);
    lemma_pow10_positive(k);
    assert(pow10(k + 1) == 10 * p);
    if v >= 0 {
        vstd::arithmetic::div_mod::lemma_div_denominator(v, p as int, 10);
        vstd::arithmetic::div_mod::lemma_div_pos_is_pos(v, p as int);
    } else {
        let m = -v;
        vstd::arithmetic::div_mod::lemma_div_denominator(m, p as int, 10);
        vstd::arithmetic::div_mod::lemma_div_pos_is_pos(m, p as int);
    }
}

/// Dividing by `10^0` changes nothing.
pub proof fn lemma_trunc_div_one(v: int)
    ensures
        trunc_div(v, pow10(0)) == v,
{
    assert(pow10(0) == 1);
}

/// The pair that `make_same_digits` returns for `a` and `b`: the one whose text is longer is
/// divided by ten (rounding toward zero) once for each character that it has more than the other.
pub open spec fn same_digits(a: int, b: int) -> (int, int) {
    let l1 = text_len(a);
    let l2 = text_len(b);
    (
        trunc_div(a, pow10(if l1 > l2 { (l1 - l2) as nat } else { 0 })),
        trunc_div(b, pow10(if l2 > l1 { (l2 - l1) as nat } else { 0 })),
    )
}

/// Dividing by ten (rounding toward zero) takes one character off a text of two or more.
pub proof fn lemma_text_len_div_ten(v: int)
    ensures
        text_len(trunc_div(v, 10)) == (if text_len(v) >= 2 {
            (text_len(v) - 1) as nat
        } else {
            1nat
        }),
{
    if v >= 0 {
        let n = v as nat;
        lemma_decimal(n);
        lemma_decimal(n / 10);
        if n >= 10 {
            assert(decimal(n) == decimal(n / 10).push(crate::decimal::digit_char(n % 10)));
        } else {
            assert(n / 10 == 0);
        }
    } else {
        let m = (-v) as nat;
        lemma_decimal(m);
        lemma_decimal(m / 10);
        lemma_decimal(0);
        if m >= 10 {
            assert(decimal(m) == decimal(m / 10).push(crate::decimal::digit_char(m % 10)));
            assert(m / 10 > 0);
        } else {
            assert(m / 10 == 0);
        }
    }
}

/// Dividing by `10^k` (rounding toward zero) takes `k` characters off the text, leaving at
/// least one.
pub proof fn lemma_text_len_trunc_div(v: int, k: nat)
    ensures
        text_len(trunc_div(v, pow10(k))) == (if text_len(v) > k {
            (text_len(v) - k) as nat
        } else {
            1nat
        }),
    decreases k,
{
    lemma_text_len_positive(v);
    if k == 0 {
        lemma_trunc_div_one(v);
    } else {
        let k0 = (k - 1) as nat;
        lemma_text_len_trunc_div(v, k0);
        lemma_trunc_div_step(v, k0);
        lemma_text_len_div_ten(trunc_div(v, pow10(k0)));
    }
}

/// Law: the two amounts that `make_same_digits` returns have texts of equal length, that of
/// the shorter input.
pub proof fn lemma_same_digits_equal_length(a: int, b: int)
    ensures
        text_len(same_digits(a, b).0) == text_len(same_digits(a, b).1),
        text_len(same_digits(a, b).0) == (if text_len(a) < text_len(b) {
            text_len(a)
        } else {
            text_len(b)
        }),
{
    let l1 = text_len(a);
    let l2 = text_len(b);
    lemma_text_len_positive(a);
    lemma_text_len_positive(b);
    lemma_text_len_trunc_div(a, if l1 > l2 { (l1 - l2) as nat } else { 0 });
    lemma_text_len_trunc_div(b, if l2 > l1 { (l2 - l1) as nat } else { 0 });
}

/// Law: the input whose text is not the longer one comes back unchanged.
pub proof fn lemma_same_digits_keeps_shorter(a: int, b: int)
    ensures
        text_len(a) <= text_len(b) ==> same_digits(a, b).0 == a,
        text_len(b) <= text_len(a) ==> same_digits(a, b).1 == b,
{
    lemma_trunc_div_one(a);
    lemma_trunc_div_one(b);
}

/// Law: `make_same_digits` is idempotent: on its own result it changes nothing.
pub proof fn lemma_same_digits_idempotent(a: int, b: int)
    ensures
        same_digits(same_digits(a, b).0, same_digits(a, b).1) == same_digits(a, b),
{
    let r = same_digits(a, b);
    lemma_same_digits_equal_length(a, b);
    lemma_same_digits_keeps_shorter(r.0, r.1);
}

/// Cuts digits off the end of the amount whose text is longer (dividing it by ten, rounding
/// toward zero, once per character) until both texts are equally long; the other amount is kept.
pub fn make_same_digits(big_int1: Amount, big_int2: Amount) -> (r: (Amount, Amount))
    ensures
        (r.0@, r.1@) == same_digits(big_int1@, big_int2@),
        text_len(r.0@) == text_len(r.1@),
{
    let ghost a = big_int1@;
    let ghost b = big_int2@;
    let ghost l1 = text_len(a);
    let ghost l2 = text_len(b);
    let mut x = big_int1;
    let mut y = big_int2;
    let ghost mut k1: nat = 0;
    let ghost mut k2: nat = 0;
    proof {
        lemma_trunc_div_one(a);
        lemma_trunc_div_one(b);
    }
    loop
        invariant
            x@ == trunc_div(a, pow10(k1)),
            y@ == trunc_div(b, pow10(k2)),
            text_len(x@) + k1 == l1,
            text_len(y@) + k2 == l2,
            l1 >= l2 ==> k2 == 0 && text_len(x@) >= l2,
            l1 < l2 ==> k1 == 0 && text_len(y@) >= l1,
        ensures
            x@ == trunc_div(a, pow10(k1)),
            y@ == trunc_div(b, pow10(k2)),
            text_len(x@) + k1 == l1,
            text_len(y@) + k2 == l2,
            text_len(x@) == text_len(y@),
            l1 >= l2 ==> k2 == 0,
            l1 < l2 ==> k1 == 0,
        decreases text_len(x@) + text_len(y@),
    {
        proof {
            lemma_text_len_positive(x@);
            lemma_text_len_positive(y@);
        }
        if x.text_longer(&y) {
            proof {
                lemma_trunc_div_step(a, k1);
            }
            x = x.div_ten();
            proof {
                k1 = k1 + 1;
            }
        } else if y.text_longer(&x) {
            proof {
                lemma_trunc_div_step(b, k2);
            }
            y = y.div_ten();
            proof {
                k2 = k2 + 1;
            }
        } else {
            break;
        }
    }
    (x, y)
}

} // verus!
