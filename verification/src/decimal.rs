use vstd::prelude::*;

verus! {

/// Whether `c` is one of `'0'..='9'`.
pub open spec fn is_digit(c: char) -> bool {
    '0' <= c && c <= '9'
}

/// Whether every character of `s` is a decimal digit.
pub open spec fn all_digits(s: Seq<char>) -> bool {
    forall|i: int| 0 <= i < s.len() ==> is_digit(#[trigger] s[i])
}

/// The number a digit character stands for.
pub open spec fn digit_value(c: char) -> nat {
    ((c as int) - 48) as nat
}

/// The ASCII digit character of `d` (`d < 10`).
pub open spec fn digit_char(d: nat) -> char {
    (d + 48) as char
}

/// The number that the digit string `s` denotes (most significant digit first).
pub open spec fn digits_value(s: Seq<char>) -> nat
    decreases s.len(),
{
    if s.len() == 0 {
        0
    } else {
        digits_value(s.drop_last()) * 10 + digit_value(s.last())
    }
}

/// Ten to the power `n`.
pub open spec fn pow10(n: nat) -> nat
    decreases n,
{
    if n == 0 {
        1
    } else {
        10 * pow10((n - 1) as nat)
    }
}

/// A non-empty digit string without leading zeros (the only one starting with `'0'` is `"0"`).
pub open spec fn canonical_digits(s: Seq<char>) -> bool {
    &&& s.len() > 0
    &&& all_digits(s)
    &&& s.len() > 1 ==> s[0] != '0'
}

/// The decimal numeral of `n`, without sign or leading zeros.
pub open spec fn decimal(n: nat) -> Seq<char>
    decreases n,
{
    if n < 10 {
        seq![digit_char(n)]
    } else {
        decimal(n / 10).push(digit_char(n % 10))
    }
}

/// Division of an integer by a positive number, rounding toward zero (as Rust's `/` does).
pub open spec fn trunc_div(v: int, d: nat) -> int {
    if v >= 0 {
        v / (d as int)
    } else {
        -((-v) / (d as int))
    }
}

pub proof fn lemma_digit_char(d: nat)
    requires
        d < 10,
    ensures
        is_digit(digit_char(d)),
        digit_value(digit_char(d)) == d,
        digit_char(d) == '0' <==> d == 0,
{
}

pub proof fn lemma_digits_value_push(s: Seq<char>, c: char)
    ensures
        digits_value(s.push(c)) == digits_value(s) * 10 + digit_value(c),
{
    assert(s.push(c).drop_last() =~= s);
}

/// `decimal(n)` is canonical and denotes `n`.
pub proof fn lemma_decimal(n: nat)
    ensures
        canonical_digits(decimal(n)),
        digits_value(decimal(n)) == n,
        decimal(n).len() >= 1,
        decimal(n) == seq!['0'] <==> n == 0,
        n >= 10 ==> decimal(n).len() >= 2,
    decreases n,
{
    if n < 10 {
        lemma_digit_char(n);
        assert(seq![digit_char(n)].drop_last() =~= Seq::<char>::empty());
        assert(digits_value(Seq::<char>::empty()) == 0);
        if decimal(n) == seq!['0'] {
            assert(decimal(n)[0] == '0');
        }
    } else {
        let m = n / 10;
        lemma_decimal(m);
        lemma_digit_char(n % 10);
        lemma_digits_value_push(decimal(m), digit_char(n % 10));
        if decimal(m).len() == 1 {
            assert(m < 10);
            lemma_digit_char(m);
        }
        assert(decimal(n)[0] == decimal(m)[0]);
        assert(decimal(n).len() > 1);
    }
}

pub proof fn lemma_pow10_positive(n: nat)
    ensures
        pow10(n) >= 1,
    decreases n,
{
    if n > 0 {
        lemma_pow10_positive((n - 1) as nat);
    }
}

pub proof fn lemma_pow10_monotone(a: nat, b: nat)
    requires
        a <= b,
    ensures
        pow10(a) <= pow10(b),
    decreases b,
{
    lemma_pow10_positive(b);
    if a < b {
        lemma_pow10_monotone(a, (b - 1) as nat);
        lemma_pow10_positive((b - 1) as nat);
    }
}

/// A digit string of length `n` denotes a number below `10^n`.
pub proof fn lemma_digits_value_upper(s: Seq<char>)
    requires
        all_digits(s),
    ensures
        digits_value(s) < pow10(s.len()),
    decreases s.len(),
{
    if s.len() > 0 {
        assert(all_digits(s.drop_last()));
        lemma_digits_value_upper(s.drop_last());
        assert(is_digit(s[s.len() - 1]));
    }
}

/// A digit string of length `n` that does not start with `'0'` denotes at least `10^(n-1)`.
pub proof fn lemma_digits_value_lower(s: Seq<char>)
    requires
        all_digits(s),
        s.len() > 0,
        s[0] != '0',
    ensures
        digits_value(s) >= pow10((s.len() - 1) as nat),
    decreases s.len(),
{
    if s.len() == 1 {
        assert(is_digit(s[0]));
        assert(s.drop_last().len() == 0);
    } else {
        let t = s.drop_last();
        assert(t[0] == s[0]);
        assert(all_digits(t));
        lemma_digits_value_lower(t);
    }
}

/// The numeral of the number that a canonical digit string denotes is that string.
pub proof fn lemma_canonical_decimal(s: Seq<char>)
    requires
        canonical_digits(s),
    ensures
        decimal(digits_value(s)) == s,
    decreases s.len(),
{
    if s.len() == 1 {
        assert(is_digit(s[0]));
        assert(s.drop_last().len() == 0);
        let d = digit_value(s[0]);
        assert(d < 10);
        assert(digit_char(d) == s[0]);
        assert(decimal(d) =~= s);
        assert(s.drop_last() =~= Seq::<char>::empty());
        assert(digits_value(Seq::<char>::empty()) == 0);
        assert(digits_value(s) == d);
    } else {
        let t = s.drop_last();
        assert(t[0] == s[0]);
        assert(all_digits(t));
        assert(canonical_digits(t));
        lemma_canonical_decimal(t);
        lemma_digits_value_lower(s);
        lemma_pow10_monotone(1, (s.len() - 1) as nat);
        assert(pow10(1) == 10) by {
            reveal_with_fuel(pow10, 2);
        }
        let n = digits_value(s);
        assert(is_digit(s.last()));
        assert(n >= 10);
        assert(n / 10 == digits_value(t) && n % 10 == digit_value(s.last())) by {
            vstd::arithmetic::div_mod::lemma_fundamental_div_mod_converse(
                n as int,
                10,
                digits_value(t) as int,
                digit_value(s.last()) as int,
            );
        }
        assert(digit_char(digit_value(s.last())) == s.last());
        assert(decimal(n) =~= t.push(s.last()));
        assert(t.push(s.last()) =~= s);
    }
}

/// Digit strings of equal length that agree up to `i` and differ first at `i` are ordered by
/// that digit, and so are all their longer prefixes.
pub proof fn lemma_digits_first_difference(a: Seq<char>, b: Seq<char>, i: int, j: int)
    requires
        a.len() == b.len(),
        all_digits(a),
        all_digits(b),
        0 <= i < j <= a.len(),
        a.take(i) == b.take(i),
        a[i] < b[i],
    ensures
        digits_value(a.take(j)) < digits_value(b.take(j)),
    decreases j,
{
    let pa = a.take(j);
    let pb = b.take(j);
    assert(pa.drop_last() =~= a.take(j - 1));
    assert(pb.drop_last() =~= b.take(j - 1));
    assert(is_digit(a[j - 1]) && is_digit(b[j - 1]));
    if j == i + 1 {
        assert(digits_value(a.take(i)) == digits_value(b.take(i)));
    } else {
        lemma_digits_first_difference(a, b, i, j - 1);
    }
}

/// Compares the numbers that two canonical digit strings denote.
pub fn digits_less(a: &Vec<char>, b: &Vec<char>) -> (r: bool)
    requires
        canonical_digits(a@),
        canonical_digits(b@),
    ensures
        r == (digits_value(a@) < digits_value(b@)),
{
    if a.len() != b.len() {
        proof {
            lemma_digits_value_upper(a@);
            lemma_digits_value_upper(b@);
            if a@.len() < b@.len() {
                lemma_digits_value_lower(b@);
                lemma_pow10_monotone(a@.len(), (b@.len() - 1) as nat);
            } else {
                lemma_digits_value_lower(a@);
                lemma_pow10_monotone(b@.len(), (a@.len() - 1) as nat);
            }
        }
        return a.len() < b.len();
    }
    let n = a.len();
    let mut i: usize = 0;
    while i < n && a[i] == b[i]
        invariant
            n == a@.len(),
            n == b@.len(),
            i <= n,
            a@.take(i as int) == b@.take(i as int),
        decreases n - i,
    {
        assert(a@.take(i + 1) =~= a@.take(i as int).push(a@[i as int]));
        assert(b@.take(i + 1) =~= b@.take(i as int).push(b@[i as int]));
        i = i + 1;
    }
    if i == n {
        assert(a@ =~= a@.take(n as int));
        assert(b@ =~= b@.take(n as int));
        false
    } else if a[i] < b[i] {
        proof {
            lemma_digits_first_difference(a@, b@, i as int, n as int);
            assert(a@ =~= a@.take(n as int));
            assert(b@ =~= b@.take(n as int));
        }
        true
    } else {
        proof {
            lemma_digits_first_difference(b@, a@, i as int, n as int);
            assert(a@ =~= a@.take(n as int));
            assert(b@ =~= b@.take(n as int));
        }
        false
    }
}

fn digit_of(d: u8) -> (c: char)
    requires
        d < 10,
    ensures
        c == digit_char(d as nat),
{
    ((d + 48) as char)
}

/// The decimal numeral of `n`, as `n.to_string()` writes it.
pub fn decimal_u128(n: u128) -> (s: Vec<char>)
    ensures
        s@ == decimal(n as nat),
    decreases n,
{
    if n < 10 {
        let mut s = Vec::new();
        s.push(digit_of(n as u8));
        s
    } else {
        let mut s = decimal_u128(n / 10);
        s.push(digit_of((n % 10) as u8));
        s
    }
}

/// The digits that Rust's unsigned `from_str` reads: `s` without one leading `+`.
pub open spec fn unsigned_digits(s: Seq<char>) -> Seq<char> {
    if s.len() > 0 && s[0] == '+' {
        s.drop_first()
    } else {
        s
    }
}

/// What `s.parse()` gives for an unsigned integer type whose largest value is `max`: the
/// number, when `s` is an optional `+` followed by at least one digit and nothing else, and the
/// number fits.
pub open spec fn parse_unsigned(s: Seq<char>, max: nat) -> Option<nat> {
    let d = unsigned_digits(s);
    if d.len() > 0 && all_digits(d) && digits_value(d) <= max {
        Some(digits_value(d))
    } else {
        None
    }
}

/// A longer prefix of a digit string never denotes a smaller number.
pub proof fn lemma_digits_value_prefix_monotone(s: Seq<char>, i: int, j: int)
    requires
        all_digits(s),
        0 <= i <= j <= s.len(),
    ensures
        digits_value(s.take(i)) <= digits_value(s.take(j)),
    decreases j - i,
{
    if i < j {
        lemma_digits_value_prefix_monotone(s, i, j - 1);
        assert(s.take(j).drop_last() =~= s.take(j - 1));
    }
}

/// Reads an unsigned decimal integer no greater than `max`, as `s.parse::<uN>()` does for the
/// type whose largest value is `max`.
pub fn parse_unsigned_bounded(s: &str, max: u128) -> (r: Option<u128>)
    ensures
        r is Some <==> parse_unsigned(s@, max as nat) is Some,
        r matches Some(n) ==> parse_unsigned(s@, max as nat) == Some(n as nat),
{
    let v = crate::text::chars_of(s);
    let mut i: usize = 0;
    if v.len() > 0 && v[0] == '+' {
        i = 1;
    }
    let ghost d = unsigned_digits(s@);
    assert(d =~= v@.skip(i as int));
    if i == v.len() {
        return None;
    }
    let start = i;
    let mut acc: u128 = 0;
    while i < v.len()
        invariant
            v@ == s@,
            d == unsigned_digits(s@),
            d == v@.skip(start as int),
            start <= i <= v@.len(),
            all_digits(v@.subrange(start as int, i as int)),
            acc as nat == digits_value(v@.subrange(start as int, i as int)),
            acc <= max,
        decreases v@.len() - i,
    {
        let c = v[i];
        if !('0' <= c && c <= '9') {
            assert(d[i - start] == c);
            assert(!is_digit(d[i - start]));
            return None;
        }
        let digit = ((c as u32) - 48) as u128;
        assert(v@.subrange(start as int, i + 1) =~= v@.subrange(start as int, i as int).push(c));
        proof {
            lemma_digits_value_push(v@.subrange(start as int, i as int), c);
        }
        let next = match acc.checked_mul(10) {
            Some(m) => m.checked_add(digit),
            None => None,
        };
        match next {
            Some(n) if n <= max => {
                acc = n;
            },
            _ => {
                proof {
                    let p = v@.subrange(start as int, i + 1);
                    assert(digits_value(p) == acc * 10 + digit);
                    assert(digits_value(p) > max);
                    assert(p =~= d.take(i + 1 - start));
                    if all_digits(d) {
                        lemma_digits_value_prefix_monotone(d, i + 1 - start, d.len() as int);
                        assert(d.take(d.len() as int) =~= d);
                    }
                }
                return None;
            },
        }
        i = i + 1;
    }
    assert(v@.subrange(start as int, v@.len() as int) =~= d);
    Some(acc)
}

/// Law: `parse` reads back the numeral that `to_string` writes, as long as the number fits.
pub proof fn lemma_parse_unsigned_decimal(n: nat, max: nat)
    ensures
        parse_unsigned(decimal(n), max) == (if n <= max {
            Some(n)
        } else {
            None::<nat>
        }),
{
    lemma_decimal(n);
    assert(is_digit(decimal(n)[0]));
    assert(unsigned_digits(decimal(n)) == decimal(n));
}

} // verus!
