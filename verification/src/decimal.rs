//! ASCII decimal numbers: how ids and pids are written to `/proc` and to the
//! pidfile, and how a pidfile is read back.

use vstd::prelude::*;

verus! {

/// The ASCII digit for a value below ten.
pub open spec fn digit(d: nat) -> u8 {
    (48 + d) as u8
}

/// The decimal numeral of `n`, without sign or leading zeros.
pub open spec fn decimal(n: nat) -> Seq<u8>
    decreases n,
{
    if n < 10 {
        seq![digit(n)]
    } else {
        decimal(n / 10).push(digit(n % 10))
    }
}

/// The decimal numeral of an integer: a minus sign in front of a negative one.
pub open spec fn decimal_int(i: int) -> Seq<u8> {
    if i < 0 {
        seq![45u8] + decimal((-i) as nat)
    } else {
        decimal(i as nat)
    }
}

/// Whether `b` is an ASCII digit.
pub open spec fn is_digit(b: u8) -> bool {
    48 <= b <= 57
}

/// Whether every byte of `s` is an ASCII digit.
pub open spec fn all_digits(s: Seq<u8>) -> bool {
    forall|k: int| 0 <= k < s.len() ==> is_digit(#[trigger] s[k])
}

/// The number that a string of digits denotes; leading zeros count for nothing.
pub open spec fn digits_value(s: Seq<u8>) -> nat
    decreases s.len(),
{
    if s.len() == 0 {
        0
    } else {
        digits_value(s.drop_last()) * 10 + (s.last() - 48) as nat
    }
}

/// The integer that `s` denotes: an optional `+` or `-`, then at least one
/// digit and nothing else.
pub open spec fn parse_int(s: Seq<u8>) -> Option<int> {
    let signed = s.len() > 0 && (s[0] == 45 || s[0] == 43);
    let body = if signed {
        s.skip(1)
    } else {
        s
    };
    if body.len() == 0 || !all_digits(body) {
        None
    } else if s[0] == 45 {
        Some(-(digits_value(body) as int))
    } else {
        Some(digits_value(body) as int)
    }
}

/// The `i32` that `s` denotes, if it denotes an integer in range.
pub open spec fn parse_i32_spec(s: Seq<u8>) -> Option<i32> {
    match parse_int(s) {
        Some(v) => if i32::MIN <= v <= i32::MAX {
            Some(v as i32)
        } else {
            None
        },
        None => None,
    }
}

/// A numeral is made of digits, is never empty, and denotes its number.
pub proof fn lemma_decimal(n: nat)
    ensures
        decimal(n).len() >= 1,
        all_digits(decimal(n)),
        digits_value(decimal(n)) == n,
    decreases n,
{
    if n < 10 {
        assert(decimal(n).drop_last() =~= Seq::<u8>::empty());
        assert(digits_value(decimal(n).drop_last()) == 0);
    } else {
        lemma_decimal(n / 10);
        assert(decimal(n).drop_last() =~= decimal(n / 10));
    }
}

/// Reading back what was written gives the integer that was written.
pub proof fn lemma_parse_decimal_int(i: int)
    ensures
        parse_int(decimal_int(i)) == Some(i),
{
    if i < 0 {
        let body = decimal((-i) as nat);
        lemma_decimal((-i) as nat);
        assert(decimal_int(i).skip(1) =~= body);
    } else {
        lemma_decimal(i as nat);
        let s = decimal(i as nat);
        assert(is_digit(s[0]));
    }
}

/// Reading back a written `i32` gives that `i32`.
pub proof fn lemma_parse_decimal_i32(i: i32)
    ensures
        parse_i32_spec(decimal_int(i as int)) == Some(i),
{
    lemma_parse_decimal_int(i as int);
}

/// A longer string of digits denotes at least what its front part denotes.
pub proof fn lemma_digits_value_grows(s: Seq<u8>, k: int)
    requires
        0 <= k <= s.len(),
        all_digits(s),
    ensures
        digits_value(s.take(k)) <= digits_value(s),
    decreases s.len() - k,
{
    if k == s.len() {
        assert(s.take(k) =~= s);
    } else {
        lemma_digits_value_grows(s, k + 1);
        assert(s.take(k + 1).drop_last() =~= s.take(k));
        assert(is_digit(s[k]));
        assert(s.take(k + 1).last() == s[k]);
    }
}

/// Appends the decimal numeral of `n` to `out`.
pub fn push_decimal(out: &mut Vec<u8>, n: u64)
    ensures
        final(out)@ == old(out)@ + decimal(n as nat),
    decreases n,
{
    if n >= 10 {
        push_decimal(out, n / 10);
    }
    let d: u8 = (n % 10) as u8;
    out.push(48 + d);
    proof {
        if n >= 10 {
            assert(final(out)@ =~= old(out)@ + decimal(n as nat));
        } else {
            assert(final(out)@ =~= old(out)@ + decimal(n as nat));
        }
    }
}

/// The decimal numeral of `n`.
pub fn format_u64(n: u64) -> (out: Vec<u8>)
    ensures
        out@ == decimal(n as nat),
{
    let mut out: Vec<u8> = Vec::new();
    push_decimal(&mut out, n);
    assert(Seq::<u8>::empty() + decimal(n as nat) =~= decimal(n as nat));
    out
}

/// The decimal numeral of `i`, with a minus sign if it is negative.
pub fn format_i32(i: i32) -> (out: Vec<u8>)
    ensures
        out@ == decimal_int(i as int),
{
    let mut out: Vec<u8> = Vec::new();
    if i < 0 {
        out.push(45u8);
        let magnitude: u64 = (-(i as i64)) as u64;
        push_decimal(&mut out, magnitude);
        assert(out@ =~= decimal_int(i as int));
    } else {
        push_decimal(&mut out, i as u64);
        assert(out@ =~= decimal_int(i as int));
    }
    out
}

/// Reads an `i32` from `s`: an optional sign, then digits and nothing else.
pub fn parse_i32(s: &Vec<u8>) -> (out: Option<i32>)
    ensures
        out == parse_i32_spec(s@),
{
    let n = s.len();
    let signed = n > 0 && (s[0] == 45 || s[0] == 43);
    let negative = n > 0 && s[0] == 45;
    let first: usize = if signed {
        1
    } else {
        0
    };
    if first == n {
        return None;
    }
    let ghost body = if signed {
        s@.skip(1)
    } else {
        s@
    };
    let mut acc: u64 = 0;
    let mut i: usize = first;
    assert(body.take(0) =~= Seq::<u8>::empty());
    while i < n
        invariant
            first <= i <= n,
            first < n,
            n == s.len(),
            signed == (s@[0] == 45 || s@[0] == 43),
            negative == (s@[0] == 45),
            first == (if signed { 1usize } else { 0usize }),
            body == (if signed { s@.skip(1) } else { s@ }),
            all_digits(body.take(i - first)),
            acc == digits_value(body.take(i - first)),
            acc <= 0x8000_0000,
        decreases n - i,
    {
        let b = s[i];
        assert(body[i - first] == b);
        if b < 48 || b > 57 {
            assert(!all_digits(body));
            return None;
        }
        let next: u64 = acc * 10 + (b - 48) as u64;
        proof {
            assert(body.take(i + 1 - first).drop_last() =~= body.take(i - first));
            assert(body.take(i + 1 - first).last() == b);
            assert forall|k: int| 0 <= k < i + 1 - first implies is_digit(
                #[trigger] body.take(i + 1 - first)[k],
            ) by {
                if k < i - first {
                    assert(body.take(i - first)[k] == body[k]);
                }
            }
        }
        if next > 0x8000_0000 {
            proof {
                if all_digits(body) {
                    lemma_digits_value_grows(body, i + 1 - first);
                }
            }
            return None;
        }
        acc = next;
        i += 1;
    }
    assert(body.take(n - first) =~= body);
    if negative {
        Some((-(acc as i64)) as i32)
    } else if acc > 0x7fff_ffff {
        None
    } else {
        Some(acc as i32)
    }
}

} // verus!
