use std::str::FromStr;
use vstd::prelude::*;

use crate::decimal::{
    all_digits, canonical_digits, decimal, digits_less, digits_value, is_digit, lemma_canonical_decimal,
    lemma_decimal, lemma_digits_value_lower, trunc_div,
};
use crate::decimal::decimal_u128;

verus! {

/// The text that `to_string` gives for the integer `v`: a `-` for negative numbers, then the
/// decimal numeral of its magnitude.
pub open spec fn int_text(v: int) -> Seq<char> {
    if v < 0 {
        seq!['-'] + decimal((-v) as nat)
    } else {
        decimal(v as nat)
    }
}

/// The sign that `BigInt::from_str` reads: a leading `-` counts unless a `+` follows it.
pub open spec fn bigint_sign_split(s: Seq<char>) -> (bool, Seq<char>) {
    if s.len() > 0 && s[0] == '-' && !(s.len() > 1 && s[1] == '+') {
        (true, s.drop_first())
    } else {
        (false, s)
    }
}

/// What is left of `s` for the digits once `BigInt::from_str` has read the sign: one leading
/// `+` is dropped unless a second `+` follows it.
pub open spec fn bigint_unsigned_part(s: Seq<char>) -> Seq<char> {
    let t = bigint_sign_split(s).1;
    if t.len() > 0 && t[0] == '+' && !(t.len() > 1 && t[1] == '+') {
        t.drop_first()
    } else {
        t
    }
}

/// Whether `BigInt::from_str` accepts `s`: after the sign, a digit first, then digits and
/// underscores.
pub open spec fn bigint_text_valid(s: Seq<char>) -> bool {
    let u = bigint_unsigned_part(s);
    &&& u.len() > 0
    &&& u[0] != '_'
    &&& forall|i: int| 0 <= i < u.len() ==> is_digit(#[trigger] u[i]) || u[i] == '_'
}

/// `s` without its underscores.
pub open spec fn without_underscores(s: Seq<char>) -> Seq<char>
    decreases s.len(),
{
    if s.len() == 0 {
        s
    } else if s.last() == '_' {
        without_underscores(s.drop_last())
    } else {
        without_underscores(s.drop_last()).push(s.last())
    }
}

/// The integer that `BigInt::from_str` reads from an accepted `s`.
pub open spec fn bigint_text_value(s: Seq<char>) -> int {
    let m = digits_value(without_underscores(bigint_unsigned_part(s))) as int;
    if bigint_sign_split(s).0 {
        -m
    } else {
        m
    }
}

/// The message of the error that `BigInt::from_str` gives for a refused `s`.
pub open spec fn bigint_parse_error(s: Seq<char>) -> Seq<char> {
    if bigint_unsigned_part(s).len() == 0 {
        "cannot parse integer from empty string"@
    } else {
        "invalid digit found in string"@
    }
}

/// Calls `num_bigint::BigInt::from_str` (base 10) and hands back the parsed number as the text
/// `to_string` writes for it, or the error's message.
/// Trusted: the accepted inputs, the number read and the two messages are those of
/// num-bigint's `from_str_radix` and `Display` as its source writes them.
#[verifier::external_body]
fn bigint_from_str(s: &str) -> (r: Result<String, String>)
    ensures
        r is Ok <==> bigint_text_valid(s@),
        r matches Ok(t) ==> t@ == int_text(bigint_text_value(s@)),
        r matches Err(m) ==> m@ == bigint_parse_error(s@),
{
    match num_bigint::BigInt::from_str(s) {
        Ok(v) => Ok(v.to_string()),
        Err(e) => Err(e.to_string()),
    }
}

/// Calls `-` on the `num_bigint::BigInt`s that `BigInt::from_str` reads from `a` and `b`, and
/// hands back the difference as the text `to_string` writes for it.
/// Trusted: `BigInt` subtraction is exact, and its `Display` writes the decimal numeral with a
/// `-` before negative numbers, as num-bigint's source writes them.
#[verifier::external_body]
fn bigint_sub(a: &str, b: &str) -> (r: String)
    requires
        bigint_text_valid(a@),
        bigint_text_valid(b@),
    ensures
        r@ == int_text(bigint_text_value(a@) - bigint_text_value(b@)),
{
    (num_bigint::BigInt::from_str(a).unwrap() - num_bigint::BigInt::from_str(b).unwrap()).to_string()
}

/// An arbitrary-precision integer amount of tokens, kept as its sign and canonical decimal digits.
pub struct Amount {
    negative: bool,
    digits: Vec<char>,
}

impl View for Amount {
    type V = int;

    closed spec fn view(&self) -> int {
        if self.negative {
            -(digits_value(self.digits@) as int)
        } else {
            digits_value(self.digits@) as int
        }
    }
}

/// The length of the text of `v`, which is what `v.to_string().len()` counts.
pub open spec fn text_len(v: int) -> nat {
    int_text(v).len()
}

impl Amount {
    #[verifier::type_invariant]
    spec fn well_formed(self) -> bool {
        &&& canonical_digits(self.digits@)
        &&& self.negative ==> self.digits@ != seq!['0']
    }

    proof fn lemma_text(&self)
        requires
            self.well_formed(),
        ensures
            self.digits@ == decimal(digits_value(self.digits@)),
            self.negative ==> digits_value(self.digits@) > 0,
            int_text(self@) == (if self.negative {
                seq!['-'] + self.digits@
            } else {
                self.digits@
            }),
    {
        lemma_canonical_decimal(self.digits@);
        lemma_decimal(digits_value(self.digits@));
        if self.negative && self.digits@.len() > 1 {
            lemma_digits_value_lower(self.digits@);
        }
    }

    /// Builds the amount of a non-negative canonical numeral.
    fn from_digits(negative: bool, digits: Vec<char>) -> (a: Amount)
        requires
            canonical_digits(digits@),
            negative ==> digits@ != seq!['0'],
        ensures
            a@ == (if negative {
                -(digits_value(digits@) as int)
            } else {
                digits_value(digits@) as int
            }),
    {
        Amount { negative, digits }
    }

    /// Zero, as `BigInt::zero()` and `BigInt::default()`.
    pub fn zero() -> (a: Amount)
        ensures
            a@ == 0,
    {
        let mut digits = Vec::new();
        digits.push('0');
        proof {
            lemma_decimal(0);
            assert(digits@ =~= decimal(0));
        }
        Amount::from_digits(false, digits)
    }

    /// The amount `n`, as `BigInt::from(n)`.
    pub fn from_u128(n: u128) -> (a: Amount)
        ensures
            a@ == n as int,
    {
        let digits = decimal_u128(n);
        proof {
            lemma_decimal(n as nat);
        }
        Amount::from_digits(false, digits)
    }

    /// Reads a decimal integer as `BigInt::from_str` does; the error is that function's message.
    pub fn parse(s: &str) -> (r: Result<Amount, String>)
        ensures
            r is Ok <==> bigint_text_valid(s@),
            r matches Ok(a) ==> a@ == bigint_text_value(s@),
            r matches Err(m) ==> m@ == bigint_parse_error(s@),
    {
        match bigint_from_str(s) {
            Ok(t) => {
                let chars = crate::text::chars_of(t.as_str());
                let ghost v = bigint_text_value(s@);
                proof {
                    if v < 0 {
                        lemma_decimal((-v) as nat);
                    } else {
                        lemma_decimal(v as nat);
                    }
                }
                if chars.len() > 0 && chars[0] == '-' {
                    let mut digits = Vec::new();
                    let mut i: usize = 1;
                    while i < chars.len()
                        invariant
                            1 <= i <= chars@.len(),
                            digits@ == chars@.subrange(1, i as int),
                        decreases chars@.len() - i,
                    {
                        digits.push(chars[i]);
                        assert(chars@.subrange(1, i + 1) =~= chars@.subrange(1, i as int).push(
                            chars@[i as int],
                        ));
                        i = i + 1;
                    }
                    proof {
                        if v >= 0 {
                            assert(is_digit(decimal(v as nat)[0]));
                        }
                        assert(digits@ =~= decimal((-v) as nat));
                    }
                    Ok(Amount::from_digits(true, digits))
                } else {
                    proof {
                        if v < 0 {
                            assert(chars@[0] == '-');
                        }
                    }
                    Ok(Amount::from_digits(false, chars))
                }
            },
            Err(m) => Err(m),
        }
    }

    /// The text of the amount, as `to_string` writes it.
    pub fn to_text(&self) -> (s: String)
        ensures
            s@ == int_text(self@),
    {
        proof {
            use_type_invariant(self);
            self.lemma_text();
        }
        let mut s = String::new();
        if self.negative {
            s.push('-');
        }
        let mut i: usize = 0;
        while i < self.digits.len()
            invariant
                i <= self.digits@.len(),
                s@ == (if self.negative { seq!['-'] } else { Seq::<char>::empty() }) + self.digits@.take(
                    i as int,
                ),
            decreases self.digits@.len() - i,
        {
            s.push(self.digits[i]);
            assert(self.digits@.take(i + 1) =~= self.digits@.take(i as int).push(self.digits@[i as int]));
            i = i + 1;
        }
        assert(self.digits@.take(self.digits@.len() as int) =~= self.digits@);
        s
    }

    /// Whether the text of `self` is longer than the text of `other`
    /// (`self.to_string().len() > other.to_string().len()`).
    pub fn text_longer(&self, other: &Amount) -> (r: bool)
        ensures
            r == (text_len(self@) > text_len(other@)),
    {
        proof {
            use_type_invariant(self);
            use_type_invariant(other);
            self.lemma_text();
            other.lemma_text();
        }
        let la = self.digits.len();
        let lb = other.digits.len();
        if self.negative == other.negative {
            la > lb
        } else if self.negative {
            la >= lb
        } else {
            la - 1 > lb
        }
    }

    /// Whether `self > other`, as `BigInt` compares.
    pub fn gt(&self, other: &Amount) -> (r: bool)
        ensures
            r == (self@ > other@),
    {
        proof {
            use_type_invariant(self);
            use_type_invariant(other);
            self.lemma_text();
            other.lemma_text();
        }
        if self.negative {
            if other.negative {
                digits_less(&self.digits, &other.digits)
            } else {
                false
            }
        } else if other.negative {
            true
        } else {
            digits_less(&other.digits, &self.digits)
        }
    }

    /// Whether `self > 0`.
    pub fn is_positive(&self) -> (r: bool)
        ensures
            r == (self@ > 0),
    {
        self.gt(&Amount::zero())
    }

    /// `self / 10`, rounding toward zero as `BigInt` division does. The text loses its last
    /// digit (and its sign with it when no digit is left), except a one-character text.
    pub fn div_ten(self) -> (r: Amount)
        ensures
            r@ == trunc_div(self@, 10),
            text_len(r@) == (if text_len(self@) >= 2 {
                (text_len(self@) - 1) as nat
            } else {
                1nat
            }),
    {
        proof {
            use_type_invariant(&self);
            self.lemma_text();
        }
        let negative = self.negative;
        let mut digits = self.digits;
        let ghost old_digits = digits@;
        if digits.len() == 1 {
            proof {
                assert(is_digit(old_digits[0]));
                assert(old_digits.drop_last() =~= Seq::<char>::empty());
                assert(digits_value(Seq::<char>::empty()) == 0);
                assert(digits_value(old_digits) < 10);
            }
            let z = Amount::zero();
            proof {
                use_type_invariant(&z);
                z.lemma_text();
                lemma_decimal(0);
            }
            z
        } else {
            digits.pop();
            proof {
                assert(digits@ =~= old_digits.drop_last());
                assert(digits@[0] == old_digits[0]);
                assert(all_digits(digits@));
                assert(is_digit(old_digits.last()));
                vstd::arithmetic::div_mod::lemma_fundamental_div_mod_converse(
                    digits_value(old_digits) as int,
                    10,
                    digits_value(digits@) as int,
                    crate::decimal::digit_value(old_digits.last()) as int,
                );
                if digits@.len() == 1 && digits@[0] == '0' {
                    assert(false);
                }
            }
            let r = Amount::from_digits(negative, digits);
            proof {
                use_type_invariant(&r);
                r.lemma_text();
            }
            r
        }
    }

    /// `self - other`, as `BigInt` subtracts.
    pub fn sub(&self, other: &Amount) -> (r: Amount)
        ensures
            r@ == self@ - other@,
    {
        let a = self.to_text();
        let b = other.to_text();
        proof {
            lemma_amount_text_round_trip(self@);
            lemma_amount_text_round_trip(other@);
            lemma_amount_text_round_trip(self@ - other@);
        }
        let d = bigint_sub(a.as_str(), b.as_str());
        match Amount::parse(d.as_str()) {
            Ok(r) => r,
            Err(_) => {
                proof {
                    assert(false);
                }
                Amount::zero()
            },
        }
    }

    /// A copy of the amount (`BigInt::clone`).
    pub fn copy(&self) -> (r: Amount)
        ensures
            r@ == self@,
    {
        proof {
            use_type_invariant(self);
        }
        Amount { negative: self.negative, digits: crate::text::copy_chars(&self.digits) }
    }
}

/// A string without underscores keeps all its characters.
pub proof fn lemma_without_underscores_none(s: Seq<char>)
    requires
        forall|i: int| 0 <= i < s.len() ==> s[i] != '_',
    ensures
        without_underscores(s) == s,
    decreases s.len(),
{
    if s.len() > 0 {
        lemma_without_underscores_none(s.drop_last());
        assert(s.drop_last().push(s.last()) =~= s);
    }
}

/// Law: `BigInt::from_str` reads back every text that `to_string` writes, as the same number
/// (so `Amount::parse` of `to_text` gives the amount back).
pub proof fn lemma_amount_text_round_trip(v: int)
    ensures
        bigint_text_valid(int_text(v)),
        bigint_text_value(int_text(v)) == v,
{
    let n: nat = if v < 0 { (-v) as nat } else { v as nat };
    let d = decimal(n);
    lemma_decimal(n);
    assert(is_digit(d[0]));
    let t = int_text(v);
    if v < 0 {
        assert(t[0] == '-');
        assert(t.drop_first() =~= d);
        if t.len() > 1 {
            assert(t[1] == d[0]);
        }
    }
    assert(bigint_sign_split(t).1 == d);
    assert(bigint_unsigned_part(t) == d);
    assert forall|i: int| 0 <= i < d.len() implies d[i] != '_' by {
        assert(is_digit(d[i]));
    }
    lemma_without_underscores_none(d);
}

} // verus!
