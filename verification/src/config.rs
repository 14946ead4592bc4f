use vstd::prelude::*;

use vstd::string::StringSliceAdditionalSpecFns;

use crate::text::{decimal, digit_char};

verus! {

/// Every byte is an ASCII digit.
pub open spec fn all_digits(b: Seq<u8>) -> bool {
    forall|i: int| 0 <= i < b.len() ==> 48 <= #[trigger] b[i] <= 57
}

/// No byte lies below the digit `'0'`, so that subtracting `'0'` from each
/// stays in range.
pub open spec fn from_zero_digit(b: Seq<u8>) -> bool {
    forall|i: int| 0 <= i < b.len() ==> 48 <= #[trigger] b[i]
}

/// The number that a string of ASCII digits spells in decimal (0 for none);
/// each byte counts as its distance from `'0'`.
pub open spec fn digits_value(b: Seq<u8>) -> nat
    decreases b.len(),
{
    if b.len() == 0 {
        0
    } else {
        digits_value(b.drop_last()) * 10 + (b.last() - 48) as nat
    }
}

proof fn lemma_digits_value_prefix(b: Seq<u8>, i: int)
    requires
        from_zero_digit(b),
        0 <= i <= b.len(),
    ensures
        digits_value(b.take(i)) <= digits_value(b),
    decreases b.len() - i,
{
    if i < b.len() {
        lemma_digits_value_prefix(b, i + 1);
        assert(b.take(i + 1).drop_last() =~= b.take(i));
    } else {
        assert(b.take(i) =~= b);
    }
}

/// The value of a build-time setting written in decimal digits, such as a
/// brightness or an hour. Bytes above `'9'` are not rejected: they count as
/// their distance from `'0'`.
pub fn env_u16(s: &str) -> (v: u16)
    requires
        from_zero_digit(s.spec_bytes()),
        digits_value(s.spec_bytes()) <= u16::MAX,
    ensures
        v == digits_value(s.spec_bytes()),
{
    let b = s.as_bytes();
    let mut i: usize = 0;
    let mut acc: u16 = 0;
    while i < b.len()
        invariant
            b@ == s.spec_bytes(),
            from_zero_digit(b@),
            digits_value(b@) <= u16::MAX,
            i <= b@.len(),
            acc == digits_value(b@.take(i as int)),
        decreases b@.len() - i,
    {
        proof {
            assert(b@.take(i + 1).drop_last() =~= b@.take(i as int));
            lemma_digits_value_prefix(b@, i + 1);
        }
        acc = acc * 10 + (b[i] - 48u8) as u16;
        i += 1;
    }
    assert(b@.take(b@.len() as int) =~= b@);
    acc
}

/// A decimal setting narrowed to a byte, as `env_u16(s) as u8` does.
pub fn env_u8(s: &str) -> (v: u8)
    requires
        from_zero_digit(s.spec_bytes()),
        digits_value(s.spec_bytes()) <= u16::MAX,
    ensures
        v == digits_value(s.spec_bytes()) % 256,
{
    let w = env_u16(s);
    assert(w as u8 == w % 256) by (bit_vector);
    w as u8
}

/// The bytes of a string of ASCII characters.
pub open spec fn ascii_bytes(s: Seq<char>) -> Seq<u8> {
    s.map_values(|c: char| c as u8)
}

/// Reading back a number written in decimal gives the number: the settings
/// parser inverts the decimal formatter.
pub proof fn law_decimal_round_trip(n: nat)
    ensures
        all_digits(ascii_bytes(decimal(n))),
        digits_value(ascii_bytes(decimal(n))) == n,
    decreases n,
{
    let b = ascii_bytes(decimal(n));
    let d = (n % 10) as nat;
    assert(((48 + d) as char) as u8 == 48 + d);
    if n < 10 {
        assert(decimal(n) == seq![digit_char(n)]);
        assert(b =~= seq![(48 + n) as u8]);
        assert(b.drop_last() =~= Seq::<u8>::empty());
        assert(digits_value(b.drop_last()) == 0);
        assert(digits_value(b) == n);
    } else {
        law_decimal_round_trip(n / 10);
        let b0 = ascii_bytes(decimal(n / 10));
        assert(decimal(n) == decimal(n / 10).push(digit_char(d)));
        assert(b =~= b0.push((48 + d) as u8));
        assert(b.drop_last() =~= b0);
        assert(digits_value(b) == digits_value(b0) * 10 + d);
    }
}

} // verus!
