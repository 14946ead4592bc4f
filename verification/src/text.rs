use vstd::prelude::*;

verus! {

/// The ASCII digit for `d` (0 to 9).
pub open spec fn digit_char(d: nat) -> char {
    (48 + d) as char
}

/// Decimal digits of `n`, most significant first, without leading zeros.
pub open spec fn decimal(n: nat) -> Seq<char>
    decreases n,
{
    if n < 10 {
        seq![digit_char(n)]
    } else {
        decimal(n / 10).push(digit_char(n % 10))
    }
}

/// `s` right-aligned in a field of `width`, filled with `'0'` on the left.
pub open spec fn zero_pad(s: Seq<char>, width: nat) -> Seq<char> {
    if s.len() >= width {
        s
    } else {
        Seq::new((width - s.len()) as nat, |i: int| '0') + s
    }
}

/// `format!("{:0>2}", n)` for an unsigned number.
pub open spec fn fmt_pad2(n: nat) -> Seq<char> {
    zero_pad(decimal(n), 2)
}

/// `format!("{:02}", n)` for a signed number: the sign counts toward the
/// width and the zeros go between sign and digits.
pub open spec fn fmt_signed2(n: int) -> Seq<char> {
    if n < 0 {
        seq!['-'] + zero_pad(decimal((-n) as nat), 1)
    } else {
        zero_pad(decimal(n as nat), 2)
    }
}

/// `"HH:MM"` as `format!("{:0>2}:{:0>2}", hour, minute)` writes it.
pub open spec fn fmt_time(hour: u8, minute: u8) -> Seq<char> {
    fmt_pad2(hour as nat) + seq![':'] + fmt_pad2(minute as nat)
}

/// `"DD.MM.YYYY"` as `format!("{:0>2}.{:0>2}.{}", day, month, year)` writes it.
pub open spec fn fmt_date(day: u8, month: u8, year: u16) -> Seq<char> {
    fmt_pad2(day as nat) + seq!['.'] + fmt_pad2(month as nat) + seq!['.'] + decimal(year as nat)
}

fn digit(d: u32) -> (c: char)
    requires
        d < 10,
    ensures
        c == digit_char(d as nat),
{
    ((48 + d) as u8) as char
}

/// Appends the decimal digits of `n`.
pub fn push_decimal(out: &mut Vec<char>, n: u32)
    ensures
        final(out)@ == old(out)@ + decimal(n as nat),
    decreases n,
{
    if n >= 10 {
        push_decimal(out, n / 10);
    }
    out.push(digit(n % 10));
    proof {
        if n >= 10 {
            assert(old(out)@ + decimal(n as nat) =~= old(out)@ + decimal((n / 10) as nat) + seq![
                digit_char((n % 10) as nat),
            ]);
        } else {
            assert(old(out)@ + decimal(n as nat) =~= old(out)@ + seq![digit_char(n as nat)]);
        }
    }
}

pub proof fn lemma_decimal_len(n: nat)
    ensures
        1 <= decimal(n).len(),
        n < 10 <==> decimal(n).len() == 1,
    decreases n,
{
    if n >= 10 {
        lemma_decimal_len(n / 10);
    }
}

/// Appends `n` as `{:0>2}` writes it.
pub fn push_pad2(out: &mut Vec<char>, n: u32)
    ensures
        final(out)@ == old(out)@ + fmt_pad2(n as nat),
{
    proof {
        lemma_decimal_len(n as nat);
    }
    if n < 10 {
        out.push('0');
    }
    push_decimal(out, n);
    proof {
        if n < 10 {
            assert(fmt_pad2(n as nat) =~= seq!['0'] + decimal(n as nat));
        }
        assert(final(out)@ =~= old(out)@ + fmt_pad2(n as nat));
    }
}

/// Appends `n` as `{:02}` writes it.
pub fn push_signed2(out: &mut Vec<char>, n: i32)
    ensures
        final(out)@ == old(out)@ + fmt_signed2(n as int),
{
    proof {
        lemma_decimal_len((if n < 0 { -(n as int) } else { n as int }) as nat);
    }
    if n < 0 {
        out.push('-');
        let m: u32 = if n == i32::MIN { 2147483648u32 } else { (-n) as u32 };
        push_decimal(out, m);
        assert(final(out)@ =~= old(out)@ + fmt_signed2(n as int));
    } else {
        push_pad2(out, n as u32);
        assert(final(out)@ =~= old(out)@ + fmt_signed2(n as int));
    }
}

/// The text of a time of day, `"HH:MM"`.
pub fn format_time(hour: u8, minute: u8) -> (s: Vec<char>)
    ensures
        s@ == fmt_time(hour, minute),
{
    let mut s = Vec::new();
    push_pad2(&mut s, hour as u32);
    s.push(':');
    push_pad2(&mut s, minute as u32);
    assert(s@ =~= fmt_time(hour, minute));
    s
}

/// The text of a date, `"DD.MM.YYYY"`.
pub fn format_date(day: u8, month: u8, year: u16) -> (s: Vec<char>)
    ensures
        s@ == fmt_date(day, month, year),
{
    let mut s = Vec::new();
    push_pad2(&mut s, day as u32);
    s.push('.');
    push_pad2(&mut s, month as u32);
    s.push('.');
    push_decimal(&mut s, year as u32);
    assert(s@ =~= fmt_date(day, month, year));
    s
}


/// A number below 100 takes exactly two characters in `{:0>2}`: its tens
/// and its units digit.
pub proof fn law_pad2_two_digits(n: nat)
    requires
        n < 100,
    ensures
        fmt_pad2(n) == seq![digit_char(n / 10), digit_char(n % 10)],
{
    if n < 10 {
        assert(fmt_pad2(n) =~= seq![digit_char(0), digit_char(n)]);
    } else {
        assert(decimal(n / 10) == seq![digit_char(n / 10)]);
        assert(fmt_pad2(n) =~= seq![digit_char(n / 10), digit_char(n % 10)]);
    }
}

/// A time of day is always written as five characters, `HH:MM`.
pub proof fn law_time_is_five_chars(hour: u8, minute: u8)
    requires
        hour < 100,
        minute < 100,
    ensures
        fmt_time(hour, minute).len() == 5,
        fmt_time(hour, minute)[2] == ':',
{
    law_pad2_two_digits(hour as nat);
    law_pad2_two_digits(minute as nat);
}

} // verus!
