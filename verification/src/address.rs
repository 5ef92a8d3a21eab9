use std::str::FromStr;
use vstd::prelude::*;

verus! {

/// A 20-byte account or contract address (ethers' `Address`, an `H160`).
#[derive(Clone, Copy, Debug)]
pub struct Address {
    pub bytes: [u8; 20],
}

/// The lower-case hexadecimal digit of `d` (`d < 16`).
pub open spec fn hex_digit(d: nat) -> char {
    if d < 10 {
        (d + 48) as char
    } else {
        (d + 87) as char
    }
}

/// Two lower-case hexadecimal digits per byte, as `format!("{:x}", address)` writes them.
pub open spec fn hex_lower(b: Seq<u8>) -> Seq<char>
    decreases b.len(),
{
    if b.len() == 0 {
        Seq::empty()
    } else {
        hex_lower(b.drop_last()) + seq![hex_digit(b.last() as nat / 16), hex_digit(b.last() as nat % 16)]
    }
}

/// Whether `c` is a hexadecimal digit, in either case.
pub open spec fn is_hex_digit(c: char) -> bool {
    ('0' <= c && c <= '9') || ('a' <= c && c <= 'f') || ('A' <= c && c <= 'F')
}

/// The number that a hexadecimal digit stands for.
pub open spec fn hex_value(c: char) -> nat {
    if '0' <= c && c <= '9' {
        ((c as int) - 48) as nat
    } else if 'a' <= c && c <= 'f' {
        ((c as int) - 87) as nat
    } else {
        ((c as int) - 55) as nat
    }
}

/// The white space that the hexadecimal reader behind `H160::from_str` skips.
pub open spec fn is_hex_space(c: char) -> bool {
    c == ' ' || c == '\r' || c == '\n' || c == '\t'
}

/// `s` without that white space.
pub open spec fn without_hex_space(s: Seq<char>) -> Seq<char>
    decreases s.len(),
{
    if s.len() == 0 {
        s
    } else if is_hex_space(s.last()) {
        without_hex_space(s.drop_last())
    } else {
        without_hex_space(s.drop_last()).push(s.last())
    }
}

/// `s` without one leading `0x`.
pub open spec fn strip_0x(s: Seq<char>) -> Seq<char> {
    if s.len() >= 2 && s[0] == '0' && s[1] == 'x' {
        s.skip(2)
    } else {
        s
    }
}

/// The bytes that pairs of hexadecimal digits stand for.
pub open spec fn hex_bytes(h: Seq<char>) -> Seq<u8> {
    Seq::new(h.len() / 2, |i: int| (hex_value(h[2 * i]) * 16 + hex_value(h[2 * i + 1])) as u8)
}

/// Whether `H160::from_str` accepts `s`: after an optional `0x`, nothing but hexadecimal digits
/// and skipped white space, with exactly forty digits.
pub open spec fn address_text_valid(s: Seq<char>) -> bool {
    let t = strip_0x(s);
    &&& forall|i: int| 0 <= i < t.len() ==> is_hex_digit(#[trigger] t[i]) || is_hex_space(t[i])
    &&& without_hex_space(t).len() == 40
}

/// The message of the error that `H160::from_str` gives for a refused `s`.
pub uninterp spec fn address_parse_error(s: Seq<char>) -> Seq<char>;

/// Calls `ethers_core::types::Address::from_str` and hands back the address's bytes, or the
/// error's message.
/// Trusted: which inputs are accepted and the bytes read are those of fixed-hash's `from_str`
/// (over rustc-hex's `FromHexIter`) as their source writes them; the message is only named.
#[verifier::external_body]
fn address_from_str(s: &str) -> (r: Result<[u8; 20], String>)
    ensures
        r is Ok <==> address_text_valid(s@),
        r matches Ok(b) ==> b@ == hex_bytes(without_hex_space(strip_0x(s@))),
        r matches Err(m) ==> m@ == address_parse_error(s@),
{
    match ethers_core::types::Address::from_str(s) {
        Ok(a) => Ok(a.0),
        Err(e) => Err(e.to_string()),
    }
}

fn hex_digit_of(d: u8) -> (c: char)
    requires
        d < 16,
    ensures
        c == hex_digit(d as nat),
{
    if d < 10 {
        ((d + 48) as char)
    } else {
        ((d + 87) as char)
    }
}

impl Address {
    /// The address whose bytes are all zero (`Address::zero()`).
    pub fn zero() -> (a: Address)
        ensures
            forall|i: int| 0 <= i < 20 ==> a.bytes@[i] == 0,
    {
        Address { bytes: [0u8; 20] }
    }

    /// Forty lower-case hexadecimal digits, without `0x` (`format!("{:x}", address)`).
    pub fn to_hex(&self) -> (s: String)
        ensures
            s@ == hex_lower(self.bytes@),
    {
        let mut s = String::new();
        let mut i: usize = 0;
        while i < 20
            invariant
                i <= 20,
                self.bytes@.len() == 20,
                s@ == hex_lower(self.bytes@.take(i as int)),
            decreases 20 - i,
        {
            let b = self.bytes[i];
            s.push(hex_digit_of(b / 16));
            s.push(hex_digit_of(b % 16));
            assert(self.bytes@.take(i + 1).drop_last() =~= self.bytes@.take(i as int));
            assert(s@ =~= hex_lower(self.bytes@.take(i + 1)));
            i = i + 1;
        }
        assert(self.bytes@.take(20) =~= self.bytes@);
        s
    }

    /// Reads an address as `Address::from_str` does; the error is that function's message.
    pub fn parse(s: &str) -> (r: Result<Address, String>)
        ensures
            r is Ok <==> address_text_valid(s@),
            r matches Ok(a) ==> a.bytes@ == hex_bytes(without_hex_space(strip_0x(s@))),
            r matches Err(m) ==> m@ == address_parse_error(s@),
    {
        match address_from_str(s) {
            Ok(bytes) => Ok(Address { bytes }),
            Err(m) => Err(m),
        }
    }
}

proof fn lemma_hex_digit(d: nat)
    requires
        d < 16,
    ensures
        is_hex_digit(hex_digit(d)),
        !is_hex_space(hex_digit(d)),
        hex_value(hex_digit(d)) == d,
        hex_digit(d) != 'x',
{
}

proof fn lemma_hex_lower(b: Seq<u8>)
    ensures
        hex_lower(b).len() == 2 * b.len(),
        forall|i: int|
            0 <= i < hex_lower(b).len() ==> is_hex_digit(#[trigger] hex_lower(b)[i]) && !is_hex_space(
                hex_lower(b)[i],
            ) && hex_lower(b)[i] != 'x',
        forall|i: int|
            0 <= i < b.len() ==> hex_lower(b)[2 * i] == hex_digit(#[trigger] b[i] as nat / 16) && hex_lower(
                b,
            )[2 * i + 1] == hex_digit(b[i] as nat % 16),
    decreases b.len(),
{
    if b.len() > 0 {
        let p = b.drop_last();
        lemma_hex_lower(p);
        lemma_hex_digit(b.last() as nat / 16);
        lemma_hex_digit(b.last() as nat % 16);
        assert forall|i: int| 0 <= i < b.len() implies hex_lower(b)[2 * i] == hex_digit(
            #[trigger] b[i] as nat / 16,
        ) && hex_lower(b)[2 * i + 1] == hex_digit(b[i] as nat % 16) by {
            if i < b.len() - 1 {
                assert(p[i] == b[i]);
            }
        }
    }
}

proof fn lemma_without_hex_space_none(s: Seq<char>)
    requires
        forall|i: int| 0 <= i < s.len() ==> !is_hex_space(s[i]),
    ensures
        without_hex_space(s) == s,
    decreases s.len(),
{
    if s.len() > 0 {
        lemma_without_hex_space_none(s.drop_last());
        assert(s.drop_last().push(s.last()) =~= s);
    }
}

proof fn lemma_hex_bytes_of_hex_lower(b: Seq<u8>)
    ensures
        hex_bytes(hex_lower(b)) == b,
{
    lemma_hex_lower(b);
    let h = hex_lower(b);
    assert forall|i: int| 0 <= i < b.len() implies #[trigger] hex_bytes(h)[i] == b[i] by {
        lemma_hex_digit(b[i] as nat / 16);
        lemma_hex_digit(b[i] as nat % 16);
        vstd::arithmetic::div_mod::lemma_fundamental_div_mod(b[i] as int, 16);
    }
    assert(hex_bytes(h) =~= b);
}

/// Law: `Address::from_str` reads back the forty hexadecimal digits that `to_hex` writes, with
/// or without `0x` in front, as the same address.
pub proof fn lemma_address_hex_round_trip(a: Address)
    ensures
        address_text_valid(hex_lower(a.bytes@)),
        hex_bytes(without_hex_space(strip_0x(hex_lower(a.bytes@)))) == a.bytes@,
        address_text_valid("0x"@ + hex_lower(a.bytes@)),
        hex_bytes(without_hex_space(strip_0x("0x"@ + hex_lower(a.bytes@)))) == a.bytes@,
{
    let h = hex_lower(a.bytes@);
    lemma_hex_lower(a.bytes@);
    lemma_without_hex_space_none(h);
    lemma_hex_bytes_of_hex_lower(a.bytes@);
    if h.len() >= 2 {
        assert(h[1] != 'x');
    }
    assert(strip_0x(h) == h);
    reveal_strlit("0x");
    let g = "0x"@ + h;
    assert(g[0] == '0' && g[1] == 'x');
    assert(g.skip(2) =~= h);
    assert(strip_0x(g) == h);
}

} // verus!
