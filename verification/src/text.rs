//! Decimal rendering of time values.
//!
//! Every time value handed to the external tool is a millisecond count
//! rendered as seconds with exactly three decimal places, so the rendering
//! loses nothing: `sec_chars` is the specification of that text.

use vstd::prelude::*;
use vstd::string::StringExecFns;

verus! {

broadcast use vstd::string::group_string_axioms;

/// The decimal digit character for `d` (`0 <= d <= 9`).
pub open spec fn digit_char(d: int) -> char
    recommends
        0 <= d <= 9,
{
    if d == 0 {
        '0'
    } else if d == 1 {
        '1'
    } else if d == 2 {
        '2'
    } else if d == 3 {
        '3'
    } else if d == 4 {
        '4'
    } else if d == 5 {
        '5'
    } else if d == 6 {
        '6'
    } else if d == 7 {
        '7'
    } else if d == 8 {
        '8'
    } else {
        '9'
    }
}

/// Decimal digit characters of `n`, most significant first, without leading
/// zeros (a single `'0'` for zero).
pub open spec fn dec_chars(n: nat) -> Seq<char>
    decreases n,
{
    if n < 10 {
        seq![digit_char(n as int)]
    } else {
        dec_chars(n / 10) + seq![digit_char((n % 10) as int)]
    }
}

/// Exactly three digit characters for `n < 1000`, zero-padded.
pub open spec fn pad3_chars(n: nat) -> Seq<char>
    recommends
        n < 1000,
{
    seq![digit_char((n / 100) as int), digit_char(((n / 10) % 10) as int), digit_char((n % 10) as int)]
}

/// A non-negative millisecond count rendered as seconds with exactly three
/// decimal places: whole seconds, `'.'`, then the milliseconds zero-padded.
pub open spec fn sec_chars_nat(ms: nat) -> Seq<char> {
    dec_chars(ms / 1000) + seq!['.'] + pad3_chars(ms % 1000)
}

/// A millisecond count rendered as seconds with exactly three decimal places,
/// with a leading `'-'` for negative values.
pub open spec fn sec_chars(ms: int) -> Seq<char> {
    if ms < 0 {
        seq!['-'] + sec_chars_nat((-ms) as nat)
    } else {
        sec_chars_nat(ms as nat)
    }
}

/// The numeric value of a decimal digit character.
pub open spec fn digit_val(c: char) -> nat
    recommends
        '0' <= c <= '9',
{
    if c == '0' {
        0
    } else if c == '1' {
        1
    } else if c == '2' {
        2
    } else if c == '3' {
        3
    } else if c == '4' {
        4
    } else if c == '5' {
        5
    } else if c == '6' {
        6
    } else if c == '7' {
        7
    } else if c == '8' {
        8
    } else {
        9
    }
}

/// The numeric value of a string of decimal digit characters.
pub open spec fn chars_value(s: Seq<char>) -> nat
    decreases s.len(),
{
    if s.len() == 0 {
        0
    } else {
        chars_value(s.drop_last()) * 10 + digit_val(s.last())
    }
}

/// Reading the decimal rendering back gives the number it was rendered
/// from: the rendering loses nothing.
pub proof fn lemma_dec_chars_roundtrip(n: nat)
    ensures
        chars_value(dec_chars(n)) == n,
    decreases n,
{
    if n < 10 {
        let s = dec_chars(n);
        assert(s == seq![digit_char(n as int)]);
        assert(s.drop_last() =~= Seq::<char>::empty());
        assert(chars_value(Seq::<char>::empty()) == 0);
        assert(digit_val(digit_char(n as int)) == n);
    } else {
        lemma_dec_chars_roundtrip(n / 10);
        let s = dec_chars(n);
        assert(s == dec_chars(n / 10) + seq![digit_char((n % 10) as int)]);
        assert(s.drop_last() =~= dec_chars(n / 10));
        assert(s.last() == digit_char((n % 10) as int));
        assert(digit_val(digit_char((n % 10) as int)) == n % 10);
        assert(chars_value(s) == (n / 10) * 10 + n % 10);
    }
}

/// Reading the three-digit zero-padded rendering back gives the number.
pub proof fn lemma_pad3_roundtrip(r: nat)
    requires
        r < 1000,
    ensures
        chars_value(pad3_chars(r)) == r,
{
    let s = pad3_chars(r);
    let two = seq![digit_char((r / 100) as int), digit_char(((r / 10) % 10) as int)];
    let one = seq![digit_char((r / 100) as int)];
    assert(s.drop_last() =~= two);
    assert(two.drop_last() =~= one);
    assert(one.drop_last() =~= Seq::<char>::empty());
    assert(chars_value(Seq::<char>::empty()) == 0);
    assert(digit_val(digit_char((r / 100) as int)) == r / 100);
    assert(digit_val(digit_char(((r / 10) % 10) as int)) == (r / 10) % 10);
    assert(digit_val(digit_char((r % 10) as int)) == r % 10);
    assert(chars_value(one) == r / 100);
    assert(chars_value(two) == (r / 100) * 10 + (r / 10) % 10);
    assert(s.last() == digit_char((r % 10) as int));
    assert(chars_value(s) == chars_value(two) * 10 + (r % 10));
    assert((r / 100) * 100 + ((r / 10) % 10) * 10 + r % 10 == r);
}

/// The seconds rendering is exact to the millisecond: two millisecond
/// counts that render as the same text are the same count, so no precision
/// is lost between a requested duration and the text handed to the external
/// tool.
pub proof fn lemma_sec_chars_exact(ms1: nat, ms2: nat)
    requires
        sec_chars_nat(ms1) == sec_chars_nat(ms2),
    ensures
        ms1 == ms2,
{
    let s = sec_chars_nat(ms1);
    let q1 = ms1 / 1000;
    let r1 = ms1 % 1000;
    let q2 = ms2 / 1000;
    let r2 = ms2 % 1000;
    assert(s.len() == dec_chars(q1).len() + 4);
    assert(s.len() == dec_chars(q2).len() + 4);
    let k = dec_chars(q1).len() as int;
    assert(dec_chars(q1) =~= s.subrange(0, k));
    assert(dec_chars(q2) =~= s.subrange(0, k));
    lemma_dec_chars_roundtrip(q1);
    lemma_dec_chars_roundtrip(q2);
    assert(q1 == q2);
    assert(pad3_chars(r1) =~= s.subrange(k + 1, s.len() as int));
    assert(pad3_chars(r2) =~= s.subrange(k + 1, s.len() as int));
    lemma_pad3_roundtrip(r1);
    lemma_pad3_roundtrip(r2);
    assert(r1 == r2);
}

fn append_digit(out: &mut String, d: u64)
    requires
        d < 10,
    ensures
        final(out)@ == old(out)@ + seq![digit_char(d as int)],
{
    proof {
        reveal_strlit("0");
        reveal_strlit("1");
        reveal_strlit("2");
        reveal_strlit("3");
        reveal_strlit("4");
        reveal_strlit("5");
        reveal_strlit("6");
        reveal_strlit("7");
        reveal_strlit("8");
        reveal_strlit("9");
    }
    match d {
        0 => out.append("0"),
        1 => out.append("1"),
        2 => out.append("2"),
        3 => out.append("3"),
        4 => out.append("4"),
        5 => out.append("5"),
        6 => out.append("6"),
        7 => out.append("7"),
        8 => out.append("8"),
        _ => out.append("9"),
    }
    proof {
        assert(final(out)@ =~= old(out)@ + seq![digit_char(d as int)]);
    }
}

fn append_dec(out: &mut String, n: u64)
    ensures
        final(out)@ == old(out)@ + dec_chars(n as nat),
    decreases n,
{
    if n < 10 {
        append_digit(out, n);
    } else {
        append_dec(out, n / 10);
        append_digit(out, n % 10);
        proof {
            assert(final(out)@ =~= old(out)@ + dec_chars(n as nat));
        }
    }
}

fn append_pad3(out: &mut String, n: u64)
    requires
        n < 1000,
    ensures
        final(out)@ == old(out)@ + pad3_chars(n as nat),
{
    append_digit(out, n / 100);
    append_digit(out, (n / 10) % 10);
    append_digit(out, n % 10);
    proof {
        assert(final(out)@ =~= old(out)@ + pad3_chars(n as nat));
    }
}

/// The decimal digits of `n` as a fresh string.
pub fn dec_string(n: u64) -> (r: String)
    ensures
        r@ == dec_chars(n as nat),
{
    let mut out = String::new();
    append_dec(&mut out, n);
    proof {
        assert(out@ =~= dec_chars(n as nat));
    }
    out
}

/// `ms` milliseconds rendered as seconds with three decimal places.
pub fn sec_string(ms: i64) -> (r: String)
    requires
        ms > i64::MIN,
    ensures
        r@ == sec_chars(ms as int),
{
    proof {
        reveal_strlit("-");
        reveal_strlit(".");
    }
    let mut out = String::new();
    let m: u64 = if ms < 0 {
        out.append("-");
        (-ms) as u64
    } else {
        ms as u64
    };
    append_dec(&mut out, m / 1000);
    out.append(".");
    append_pad3(&mut out, m % 1000);
    proof {
        assert("-"@ =~= seq!['-']);
        assert("."@ =~= seq!['.']);
        assert(out@ =~= sec_chars(ms as int));
    }
    out
}

} // verus!
