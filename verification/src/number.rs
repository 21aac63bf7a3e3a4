use vstd::prelude::*;
use vstd::string::*;

use crate::lexer::is_digit_char;
use crate::token::push_char;

verus! {

/// The numeric value of a decimal digit character.
pub open spec fn digit_val(c: char) -> int
    recommends
        is_digit_char(c),
{
    c as u32 - '0' as u32
}

/// True when every character of `s` is a decimal digit.
pub open spec fn is_digit_seq(s: Seq<char>) -> bool {
    forall|i: int| 0 <= i < s.len() ==> is_digit_char(#[trigger] s[i])
}

/// The value of a run of decimal digits, most significant first.
pub open spec fn digits_val(s: Seq<char>) -> int
    recommends
        is_digit_seq(s),
    decreases s.len(),
{
    if s.len() == 0 {
        0
    } else {
        digits_val(s.drop_last()) * 10 + digit_val(s.last())
    }
}

/// What parsing a string as a 64-bit signed integer in the lexer's number
/// format yields: the digits' value when the string is a non-empty run of
/// decimal digits whose value fits, nothing otherwise.
pub open spec fn spec_parse_i64(s: Seq<char>) -> Option<i64> {
    if s.len() > 0 && is_digit_seq(s) && digits_val(s) <= i64::MAX {
        Some(digits_val(s) as i64)
    } else {
        None
    }
}

pub proof fn lemma_digits_val_nonneg(s: Seq<char>)
    requires
        is_digit_seq(s),
    ensures
        digits_val(s) >= 0,
    decreases s.len(),
{
    if s.len() > 0 {
        assert(is_digit_seq(s.drop_last())) by {
            assert(forall|i: int|
                0 <= i < s.len() - 1 ==> is_digit_char(#[trigger] s.drop_last()[i]));
        }
        lemma_digits_val_nonneg(s.drop_last());
        assert(is_digit_char(s.last()));
    }
}

/// Extending a digit run on the right never decreases its value.
pub proof fn lemma_digits_val_prefix(s: Seq<char>, j: int)
    requires
        is_digit_seq(s),
        0 <= j <= s.len(),
    ensures
        digits_val(s) >= digits_val(s.subrange(0, j)),
    decreases s.len() - j,
{
    if j == s.len() {
        assert(s.subrange(0, j) =~= s);
    } else {
        let p = s.subrange(0, j);
        let q = s.subrange(0, j + 1);
        assert(q.drop_last() =~= p);
        assert(q.last() == s[j]);
        assert(is_digit_seq(p)) by {
            assert(forall|i: int| 0 <= i < j ==> is_digit_char(#[trigger] p[i]));
        }
        lemma_digits_val_nonneg(p);
        assert(digits_val(q) == digits_val(p) * 10 + digit_val(s[j]));
        assert(digit_val(s[j]) >= 0);
        assert(digits_val(q) >= digits_val(p));
        lemma_digits_val_prefix(s, j + 1);
    }
}

/// True when `c` is a decimal digit.
fn is_digit_exec(c: char) -> (r: bool)
    ensures
        r == is_digit_char(c),
{
    '0' <= c && c <= '9'
}

/// The numeric value of a digit character.
fn digit_value(c: char) -> (d: u64)
    requires
        is_digit_char(c),
    ensures
        d == digit_val(c),
        d <= 9,
{
    ((c as u32) - ('0' as u32)) as u64
}

/// Parse a string in the lexer's integer format: a non-empty run of decimal
/// digits, with no sign, decimal point or exponent. Returns nothing when the
/// string is empty, holds a non-digit, or names a value above `i64::MAX`.
pub fn parse_i64(s: &str) -> (r: Option<i64>)
    ensures
        r == spec_parse_i64(s@),
{
    let n = s.unicode_len();
    if n == 0 {
        return None;
    }
    let mut i: usize = 0;
    let mut acc: u64 = 0;
    while i < n
        invariant
            0 <= i <= n,
            n == s@.len(),
            is_digit_seq(s@.subrange(0, i as int)),
            acc as int == digits_val(s@.subrange(0, i as int)),
            acc <= i64::MAX as u64,
        decreases n - i,
    {
        let c = s.get_char(i);
        if !is_digit_exec(c) {
            assert(!is_digit_seq(s@));
            return None;
        }
        let d = digit_value(c);
        let ghost p = s@.subrange(0, i as int);
        let ghost q = s@.subrange(0, i + 1);
        proof {
            assert(q.drop_last() =~= p);
            assert(q.last() == s@[i as int]);
            assert(is_digit_seq(q)) by {
                assert(forall|k: int|
                    0 <= k < q.len() ==> is_digit_char(#[trigger] q[k]));
            }
            assert(digits_val(q) == acc * 10 + d);
        }
        let wide: u128 = (acc as u128) * 10 + (d as u128);
        if wide > i64::MAX as u128 {
            proof {
                assert(s@.subrange(0, n as int) =~= s@);
                if is_digit_seq(s@) {
                    lemma_digits_val_prefix(s@, i + 1);
                    assert(digits_val(s@) >= digits_val(q));
                }
            }
            return None;
        }
        acc = wide as u64;
        i = i + 1;
    }
    proof {
        assert(s@.subrange(0, n as int) =~= s@);
    }
    Some(acc as i64)
}

/// The character for a decimal digit value.
pub open spec fn dec_digit_char(d: int) -> char
    recommends
        0 <= d <= 9,
{
    if d == 0 {
        '0'
    } else if d == 1 {
        '1'
    } else if d == 2 {
        '2'
    } else if d == 3 {
        '3'
    } else if d == 4 {
        '4'
    } else if d == 5 {
        '5'
    } else if d == 6 {
        '6'
    } else if d == 7 {
        '7'
    } else if d == 8 {
        '8'
    } else {
        '9'
    }
}

/// The decimal notation of a non-negative integer, without sign or leading
/// zeros (a lone zero for 0).
pub open spec fn dec_str_nat(n: int) -> Seq<char>
    recommends
        n >= 0,
    decreases n,
{
    if n < 10 {
        seq![dec_digit_char(n)]
    } else {
        dec_str_nat(n / 10) + seq![dec_digit_char(n % 10)]
    }
}

/// The decimal notation of a 64-bit signed integer: a minus sign and the
/// magnitude's digits for negative values, the digits alone otherwise.
pub open spec fn dec_str_i64(v: int) -> Seq<char> {
    if v < 0 {
        seq!['-'] + dec_str_nat(-v)
    } else {
        dec_str_nat(v)
    }
}

/// The digit character for a digit value.
fn digit_char_of(d: u64) -> (c: char)
    requires
        d <= 9,
    ensures
        c == dec_digit_char(d as int),
{
    match d {
        0 => '0',
        1 => '1',
        2 => '2',
        3 => '3',
        4 => '4',
        5 => '5',
        6 => '6',
        7 => '7',
        8 => '8',
        _ => '9',
    }
}

/// Append the decimal digits of `m` to `s`.
fn push_dec_u64(s: &mut String, m: u64)
    ensures
        final(s)@ == old(s)@ + dec_str_nat(m as int),
    decreases m,
{
    if m < 10 {
        push_char(s, digit_char_of(m));
    } else {
        push_dec_u64(s, m / 10);
        push_char(s, digit_char_of(m % 10));
        proof {
            assert(old(s)@ + dec_str_nat((m / 10) as int) + seq![dec_digit_char((m % 10) as int)]
                =~= old(s)@ + dec_str_nat(m as int));
        }
    }
}

/// The decimal notation of a 64-bit signed integer.
pub fn i64_to_string(v: i64) -> (r: String)
    ensures
        r@ == dec_str_i64(v as int),
{
    let mut s = String::new();
    if v < 0 {
        s.append("-");
        let m: u64 = (-(v as i128)) as u64;
        push_dec_u64(&mut s, m);
        proof {
            reveal_strlit("-");
            assert(Seq::<char>::empty() + "-"@ + dec_str_nat(m as int) =~= dec_str_i64(v as int));
        }
    } else {
        push_dec_u64(&mut s, v as u64);
        proof {
            assert(Seq::<char>::empty() + dec_str_nat(v as int) =~= dec_str_i64(v as int));
        }
    }
    s
}

} // verus!
