// SPDX-License-Identifier: GPL-3.0-or-later
//! Numbers in text.

use vstd::prelude::*;
use vstd::slice::slice_subrange;

verus! {

/// What a digit stands for.
pub open spec fn digit(c: char, radix: int) -> Option<int> {
    let d = if '0' <= c <= '9' {
        c as int - '0' as int
    } else if 'a' <= c <= 'z' {
        c as int - 'a' as int + 10
    } else if 'A' <= c <= 'Z' {
        c as int - 'A' as int + 10
    } else {
        -1
    };
    if 0 <= d < radix {
        Some(d)
    } else {
        None
    }
}

/// What a run of digits stands for.
pub open spec fn digits_value(s: Seq<char>, radix: int) -> Option<int>
    decreases s.len(),
{
    if s.len() == 0 {
        Some(0)
    } else {
        match (digits_value(s.drop_last(), radix), digit(s.last(), radix)) {
            (Some(v), Some(d)) => Some(v * radix + d),
            _ => None,
        }
    }
}

/// The number no larger than `max` that a text stands for: digits, perhaps after
/// a plus sign.
pub open spec fn number(s: Seq<char>, radix: int, max: int) -> Option<int> {
    let body = if s.len() > 0 && s[0] == '+' {
        s.skip(1)
    } else {
        s
    };
    if body.len() == 0 {
        None
    } else {
        match digits_value(body, radix) {
            Some(v) => if v <= max {
                Some(v)
            } else {
                None
            },
            None => None,
        }
    }
}

/// More digits never make a number smaller.
proof fn lemma_digits_grow(s: Seq<char>, radix: int, k: int)
    requires
        1 < radix,
        0 <= k <= s.len(),
        digits_value(s, radix) is Some,
    ensures
        digits_value(s.take(k), radix) is Some,
        0 <= digits_value(s.take(k), radix)->0 <= digits_value(s, radix)->0,
    decreases s.len(),
{
    if k == s.len() {
        assert(s.take(k) =~= s);
        if s.len() > 0 {
            lemma_digits_grow(s.drop_last(), radix, s.len() - 1);
            let v = digits_value(s.drop_last(), radix)->0;
            assert(v * radix >= 0) by (nonlinear_arith)
                requires
                    v >= 0,
                    radix > 1,
            ;
        }
    } else {
        lemma_digits_grow(s.drop_last(), radix, k);
        assert(s.drop_last().take(k) =~= s.take(k));
        let v = digits_value(s.drop_last(), radix)->0;
        assert(v * radix >= v) by (nonlinear_arith)
            requires
                v >= 0,
                radix > 1,
        ;
    }
}

/// A number is never negative and never larger than it may be.
pub proof fn law_number_is_in_range(s: Seq<char>, radix: int, max: int)
    requires
        1 < radix,
    ensures
        number(s, radix, max) matches Some(v) ==> 0 <= v <= max,
{
    if number(s, radix, max) is Some {
        let body = if s[0] == '+' {
            s.skip(1)
        } else {
            s
        };
        lemma_digits_grow(body, radix, 0);
    }
}

/// What a digit stands for.
fn digit_of(c: char, radix: u32) -> (r: Option<u32>)
    requires
        radix <= 36,
    ensures
        match r {
            Some(d) => digit(c, radix as int) == Some(d as int),
            None => digit(c, radix as int) is None,
        },
{
    let d: u32 = if '0' <= c && c <= '9' {
        c as u32 - '0' as u32
    } else if 'a' <= c && c <= 'z' {
        c as u32 - 'a' as u32 + 10
    } else if 'A' <= c && c <= 'Z' {
        c as u32 - 'A' as u32 + 10
    } else {
        return None;
    };
    if d < radix {
        Some(d)
    } else {
        None
    }
}

/// The number no larger than `max` that `s` stands for.
pub fn parse_number(s: &[char], radix: u32, max: u64) -> (r: Option<u64>)
    requires
        2 <= radix <= 36,
    ensures
        match r {
            Some(v) => number(s@, radix as int, max as int) == Some(v as int),
            None => number(s@, radix as int, max as int) is None,
        },
{
    let from: usize = if s.len() > 0 && s[0] == '+' {
        1
    } else {
        0
    };
    let body = slice_subrange(s, from, s.len());
    proof {
        if from == 1 {
            assert(body@ =~= s@.skip(1));
        } else {
            assert(body@ =~= s@);
        }
    }
    if body.len() == 0 {
        return None;
    }
    let mut value: u64 = 0;
    let mut i: usize = 0;
    assert(digits_value(body@.take(0), radix as int) == Some(0int));
    while i < body.len()
        invariant
            i <= body@.len(),
            2 <= radix <= 36,
            value <= max,
            digits_value(body@.take(i as int), radix as int) == Some(value as int),
            number(s@, radix as int, max as int) is Some ==> digits_value(
                body@,
                radix as int,
            ) is Some && digits_value(body@, radix as int)->0 <= max,
        decreases body@.len() - i,
    {
        let ghost next = body@.take(i + 1);
        proof {
            assert(next.drop_last() =~= body@.take(i as int));
            if digits_value(body@, radix as int) is Some {
                lemma_digits_grow(body@, radix as int, i + 1);
            }
        }
        let d: u32 = match digit_of(body[i], radix) {
            Some(d) => d,
            None => {
                return None;
            },
        };
        assert(0 <= value * radix <= 36 * u64::MAX) by (nonlinear_arith)
            requires
                0 <= value <= u64::MAX,
                0 <= radix <= 36,
        ;
        let grown: u128 = value as u128 * radix as u128 + d as u128;
        if grown > max as u128 {
            return None;
        }
        value = grown as u64;
        i = i + 1;
    }
    assert(body@.take(i as int) =~= body@);
    Some(value)
}

/// The character of a decimal digit.
pub open spec fn digit_char(d: int) -> char {
    (48 + d) as char
}

/// A number in decimal digits, without leading zeros.
pub open spec fn decimal(n: nat) -> Seq<char>
    decreases n,
{
    if n < 10 {
        seq![digit_char(n as int)]
    } else {
        decimal(n / 10).push(digit_char((n % 10) as int))
    }
}

/// A number in decimal digits, after a minus sign where it is negative.
pub open spec fn signed(n: int) -> Seq<char> {
    if n < 0 {
        seq!['-'] + decimal((-n) as nat)
    } else {
        decimal(n as nat)
    }
}

/// Reading what was written gives the number back, at every radix-ten size.
pub proof fn law_decimal_reads_back(n: nat, max: int)
    requires
        n <= max,
    ensures
        number(decimal(n), 10, max) == Some(n as int),
{
    lemma_decimal(n);
}

/// Written numbers hold digits only, as many as the number needs, and no leading
/// zero.
pub proof fn lemma_decimal(n: nat)
    ensures
        digits_value(decimal(n), 10) == Some(n as int),
        decimal(n).len() > 0,
        forall|i: int| 0 <= i < decimal(n).len() ==> '0' <= #[trigger] decimal(n)[i] <= '9',
        decimal(n).len() > 1 ==> decimal(n)[0] != '0',
        n < 1000 ==> decimal(n).len() <= 3,
        n < 100 ==> decimal(n).len() <= 2,
        n < 10 ==> decimal(n).len() <= 1,
        n > 0 ==> decimal(n)[0] != '0',
    decreases n,
{
    let s = decimal(n);
    if n < 10 {
        reveal_with_fuel(digits_value, 2);
        assert(s.drop_last() =~= Seq::<char>::empty());
        assert(s.last() == digit_char(n as int));
    } else {
        lemma_decimal(n / 10);
        assert(s.drop_last() =~= decimal(n / 10));
        assert(s.last() == digit_char((n % 10) as int));
    }
}

/// The character of a decimal digit.
fn digit_text(d: u8) -> (r: char)
    requires
        d < 10,
    ensures
        r == digit_char(d as int),
{
    match d {
        0 => '0',
        1 => '1',
        2 => '2',
        3 => '3',
        4 => '4',
        5 => '5',
        6 => '6',
        7 => '7',
        8 => '8',
        _ => '9',
    }
}

/// Append `n` in decimal digits.
pub fn push_decimal(out: &mut String, n: u64)
    ensures
        final(out)@ == old(out)@ + decimal(n as nat),
    decreases n,
{
    if n >= 10 {
        push_decimal(out, n / 10);
    }
    let ghost before = out@;
    out.push(digit_text((n % 10) as u8));
    proof {
        if n >= 10 {
            assert(out@ =~= old(out)@ + decimal(n as nat));
        } else {
            assert(out@ =~= old(out)@ + decimal(n as nat));
        }
    }
}

/// Append `n` in decimal digits, after a minus sign where it is negative.
pub fn push_signed(out: &mut String, n: i32)
    ensures
        final(out)@ == old(out)@ + signed(n as int),
{
    if n < 0 {
        out.push('-');
        let ghost before = out@;
        push_decimal(out, (-(n as i64)) as u64);
        assert(out@ =~= old(out)@ + signed(n as int));
    } else {
        push_decimal(out, n as u64);
    }
}

} // verus!
