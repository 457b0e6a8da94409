// SPDX-License-Identifier: GPL-3.0-or-later
//! Trimming, splitting and searching text, and numbers in it.

use crate::number::{decimal, digit, digits_value, lemma_decimal, number};
use crate::seqs::{index_where, lemma_index_where, lemma_index_where_is};
use crate::text::{
    drop_end_while, drop_while, found_at, is_char, is_white, joined, lemma_joined_push,
    lemma_split_first, lemma_word_bounds, lines, not_white, occurs, split_all, split_once, stripped,
    trimmed, white, words,
};
use vstd::prelude::*;

verus! {

/// White space is exactly what Unicode lists as such.
pub proof fn law_white_space(c: char)
    ensures
        white(c) <==> {
            let n = c as u32;
            ||| n == 9 || n == 10 || n == 11 || n == 12 || n == 13 || n == 32
            ||| n == 0x85 || n == 0xa0 || n == 0x1680
            ||| 0x2000 <= n && n <= 0x200a
            ||| n == 0x2028 || n == 0x2029 || n == 0x202f || n == 0x205f || n == 0x3000
        },
{
}

/// Whether `p` holds of every character.
pub open spec fn all_are(s: Seq<char>, p: spec_fn(char) -> bool) -> bool {
    forall|i: int| 0 <= i < s.len() ==> p(#[trigger] s[i])
}

/// Whether `p` holds of neither end.
pub open spec fn bare(s: Seq<char>, p: spec_fn(char) -> bool) -> bool {
    s.len() > 0 ==> !p(s[0]) && !p(s[s.len() - 1])
}

/// Stripping takes off what stands at either end, all of it and nothing else.
pub proof fn law_stripped(
    before: Seq<char>,
    s: Seq<char>,
    after: Seq<char>,
    p: spec_fn(char) -> bool,
)
    requires
        all_are(before, p),
        all_are(after, p),
        bare(s, p),
    ensures
        stripped(before + s + after, p) == s,
        drop_end_while(before + s + after, p) == if s.len() == 0 {
            Seq::empty()
        } else {
            before + s
        },
{
    let whole = before + s + after;
    let tail = s + after;
    let not_p = |c: char| !p(c);
    if s.len() == 0 {
        assert forall|j: int| 0 <= j < whole.len() implies !not_p(#[trigger] whole[j]) by {
            if j < before.len() {
                assert(p(before[j]));
            } else {
                assert(p(after[j - before.len()]));
            }
        }
        lemma_index_where_is(whole, not_p, whole.len() as int);
        assert(drop_while(whole, p) =~= Seq::<char>::empty());
        assert(s =~= Seq::<char>::empty());
        lemma_drop_end(Seq::empty(), whole, p);
        assert(Seq::<char>::empty() + whole =~= whole);
    } else {
        assert forall|j: int| 0 <= j < before.len() implies !not_p(#[trigger] whole[j]) by {
            assert(p(before[j]));
        }
        assert(whole[before.len() as int] == s[0]);
        lemma_index_where_is(whole, not_p, before.len() as int);
        assert(whole.skip(before.len() as int) =~= tail);
        lemma_drop_end(s, after, p);
        assert((before + s)[(before + s).len() - 1] == s[s.len() - 1]);
        lemma_drop_end(before + s, after, p);
    }
}

proof fn lemma_drop_end(s: Seq<char>, after: Seq<char>, p: spec_fn(char) -> bool)
    requires
        all_are(after, p),
        s.len() > 0 ==> !p(s[s.len() - 1]),
    ensures
        drop_end_while(s + after, p) == s,
    decreases after.len(),
{
    if after.len() == 0 {
        assert(s + after =~= s);
    } else {
        assert((s + after).last() == after.last());
        assert(p(after[after.len() - 1]));
        assert((s + after).drop_last() =~= s + after.drop_last());
        lemma_drop_end(s, after.drop_last(), p);
    }
}

/// Trimming takes white space off both ends, and nothing else.
pub proof fn law_trimmed(before: Seq<char>, s: Seq<char>, after: Seq<char>)
    requires
        all_are(before, |c: char| white(c)),
        all_are(after, |c: char| white(c)),
        bare(s, |c: char| white(c)),
    ensures
        trimmed(before + s + after) == s,
{
    assert forall|i: int| 0 <= i < before.len() implies is_white()(#[trigger] before[i]) by {
        assert((|c: char| white(c))(before[i]));
    }
    assert forall|i: int| 0 <= i < after.len() implies is_white()(#[trigger] after[i]) by {
        assert((|c: char| white(c))(after[i]));
    }
    law_stripped(before, s, after, is_white());
}

/// A text is split once, at the first separator: everything before it and
/// everything after it, further separators included.
pub proof fn law_split_once(before: Seq<char>, after: Seq<char>, sep: char)
    requires
        all_are(before, |c: char| c != sep),
    ensures
        split_once(before + seq![sep] + after, sep) == Some((before, after)),
        split_once(before, sep) is None,
{
    let whole = before + seq![sep] + after;
    let n = before.len() as int;
    assert forall|j: int| 0 <= j < n implies !is_char(sep)(#[trigger] before[j]) by {
        assert((|c: char| c != sep)(before[j]));
    }
    assert forall|j: int| 0 <= j < n implies !is_char(sep)(#[trigger] whole[j]) by {
        assert(!is_char(sep)(before[j]));
    }
    assert(whole[n] == sep);
    lemma_index_where_is(whole, is_char(sep), n);
    lemma_index_where_is(before, is_char(sep), n);
    assert(whole.take(n) =~= before);
    assert(whole.skip(n + 1) =~= after);
}

/// A text is split at every separator: the first piece ends at the first one, and
/// what follows is split in the same way.
pub proof fn law_split_all(piece: Seq<char>, rest: Seq<char>, sep: char)
    requires
        all_are(piece, |c: char| c != sep),
    ensures
        split_all(piece + seq![sep] + rest, sep) == seq![piece] + split_all(rest, sep),
        split_all(piece, sep) == seq![piece],
{
    assert forall|i: int| 0 <= i < piece.len() implies #[trigger] piece[i] != sep by {
        assert((|c: char| c != sep)(piece[i]));
    }
    lemma_split_first(piece, rest, sep);
}

/// Lines end at line feeds; a carriage return right before one goes with it, any
/// other stays. The last line need not end.
pub proof fn law_lines(line: Seq<char>, rest: Seq<char>)
    requires
        all_are(line, |c: char| c != '\n'),
    ensures
        lines(line + seq!['\r', '\n'] + rest) == seq![line] + lines(rest),
        line.len() == 0 || line[line.len() - 1] != '\r' ==> lines(line + seq!['\n'] + rest) == seq![
            line,
        ] + lines(rest),
        line.len() > 0 ==> lines(line) == seq![line],
        lines(Seq::empty()) == Seq::<Seq<char>>::empty(),
{
    let n = line.len() as int;
    assert forall|j: int| 0 <= j < n implies !is_char('\n')(#[trigger] line[j]) by {
        assert((|c: char| c != '\n')(line[j]));
    }
    lemma_index_where_is(line, is_char('\n'), n);
    let a = line + seq!['\r', '\n'] + rest;
    assert forall|j: int| 0 <= j < n + 1 implies !is_char('\n')(#[trigger] a[j]) by {
        if j < n {
            assert(!is_char('\n')(line[j]));
        }
    }
    assert(a[n + 1] == '\n');
    lemma_index_where_is(a, is_char('\n'), n + 1);
    assert(a.take(n + 1).drop_last() =~= line);
    assert(a.take(n + 1).last() == '\r');
    assert(a.skip(n + 2) =~= rest);
    let b = line + seq!['\n'] + rest;
    assert forall|j: int| 0 <= j < n implies !is_char('\n')(#[trigger] b[j]) by {
        assert(!is_char('\n')(line[j]));
    }
    assert(b[n] == '\n');
    lemma_index_where_is(b, is_char('\n'), n);
    assert(b.take(n) =~= line);
    assert(b.skip(n + 1) =~= rest);
}

/// Words are what white space parts: a word ends where white space begins, and
/// white space in front of one makes no difference.
pub proof fn law_words(word: Seq<char>, space: char, rest: Seq<char>)
    requires
        white(space),
        word.len() > 0,
        all_are(word, |c: char| !white(c)),
    ensures
        words(word + seq![space] + rest) == seq![word] + words(rest),
        words(seq![space] + rest) == words(rest),
        words(word) == seq![word],
        words(Seq::empty()) == Seq::<Seq<char>>::empty(),
{
    lemma_words_skip(space, rest);
    let n = word.len() as int;
    assert forall|j: int| 0 <= j < n implies !white(#[trigger] word[j]) by {
        assert((|c: char| !white(c))(word[j]));
    }
    let a = word + seq![space] + rest;
    assert(a[0] == word[0]);
    lemma_index_where_is(a, not_white(), 0);
    assert(a.skip(0) =~= a);
    assert forall|j: int| 0 <= j < n implies !is_white()(#[trigger] a[j]) by {
        assert(!white(word[j]));
    }
    assert(a[n] == space);
    lemma_index_where_is(a, is_white(), n);
    assert(a.take(n) =~= word);
    assert(a.skip(n) =~= seq![space] + rest);
    lemma_index_where_is(word, not_white(), 0);
    assert(word.skip(0) =~= word);
    lemma_index_where_is(word, is_white(), n);
    assert(word.take(n) =~= word);
    assert(word.skip(n) =~= Seq::<char>::empty());
    assert(words(Seq::empty()) =~= Seq::<Seq<char>>::empty()) by {
        lemma_index_where(Seq::<char>::empty(), not_white());
    }
    assert(seq![word] + Seq::<Seq<char>>::empty() =~= seq![word]);
}

proof fn lemma_words_skip(space: char, rest: Seq<char>)
    requires
        white(space),
    ensures
        words(seq![space] + rest) == words(rest),
{
    let s = seq![space] + rest;
    lemma_word_bounds(s);
    lemma_word_bounds(rest);
    let k = index_where(rest, not_white());
    lemma_index_where(rest, not_white());
    assert forall|j: int| 0 <= j < k + 1 implies !not_white()(#[trigger] s[j]) by {
        if j > 0 {
            assert(!not_white()(rest[j - 1]));
        }
    }
    if k < rest.len() {
        assert(s[k + 1] == rest[k]);
    }
    lemma_index_where_is(s, not_white(), k + 1);
    assert(s.skip(k + 1) =~= rest.skip(k));
}

/// A pattern is found where it first stands, and nowhere if it stands nowhere.
pub proof fn law_found(s: Seq<char>, pat: Seq<char>)
    ensures
        occurs(s, pat) <==> exists|i: int|
            0 <= i <= s.len() - pat.len() && #[trigger] s.subrange(i, i + pat.len()) == pat,
        found_at(s, pat) matches Some(i) ==> {
            &&& 0 <= i <= s.len() - pat.len()
            &&& s.subrange(i, i + pat.len()) == pat
            &&& forall|j: int|
                0 <= j < i ==> #[trigger] s.subrange(j, j + pat.len()) != pat
        },
    decreases s.len(),
{
    let n = pat.len() as int;
    if pat.is_prefix_of(s) {
        assert(s.subrange(0, 0 + n) =~= pat);
    } else if s.len() == 0 {
        assert forall|i: int| 0 <= i <= s.len() - n implies #[trigger] s.subrange(i, i + n) != pat by {
            if s.subrange(i, i + n) == pat {
                assert(pat =~= s);
                assert(pat.is_prefix_of(s));
            }
        }
    } else {
        let t = s.drop_first();
        law_found(t, pat);
        assert(s.subrange(0, 0 + n) != pat || n > s.len());
        assert forall|i: int| 1 <= i <= s.len() - n implies #[trigger] s.subrange(i, i + n)
            == t.subrange(i - 1, i - 1 + n) by {
            assert(s.subrange(i, i + n) =~= t.subrange(i - 1, i - 1 + n));
        }
        if occurs(s, pat) {
            let i = found_at(t, pat)->0;
            assert(s.subrange(i + 1, i + 1 + n) == pat);
        }
        if exists|i: int| 0 <= i <= s.len() - n && #[trigger] s.subrange(i, i + n) == pat {
            let i = choose|i: int| 0 <= i <= s.len() - n && #[trigger] s.subrange(i, i + n) == pat;
            if i == 0 {
                assert(s.take(n) =~= s.subrange(0, n));
                assert(pat.is_prefix_of(s));
            }
            assert(t.subrange(i - 1, i - 1 + n) == pat);
        }
    }
}

/// A pattern is found where it stands, if it stands nowhere before that.
pub proof fn law_found_first(s: Seq<char>, pat: Seq<char>, n: int)
    requires
        0 <= n <= s.len() - pat.len(),
        s.subrange(n, n + pat.len()) == pat,
        forall|j: int| 0 <= j < n ==> #[trigger] s.subrange(j, j + pat.len()) != pat,
    ensures
        found_at(s, pat) == Some(n),
{
    law_found(s, pat);
    let i = found_at(s, pat)->0;
    if i < n {
        assert(s.subrange(i, i + pat.len()) != pat);
    }
    if n < i {
        assert(s.subrange(n, n + pat.len()) != pat);
    }
}

/// Digits count by their place: what stands in front counts a power of the radix
/// for each digit behind it.
pub proof fn law_digits_by_place(a: Seq<char>, b: Seq<char>, radix: int)
    ensures
        digits_value(a + b, radix) == match (digits_value(a, radix), digits_value(b, radix)) {
            (Some(x), Some(y)) => Some(x * vstd::arithmetic::power::pow(radix, b.len()) + y),
            _ => None::<int>,
        },
    decreases b.len(),
{
    vstd::arithmetic::power::lemma_pow0(radix);
    if b.len() == 0 {
        assert(a + b =~= a);
        if let Some(x) = digits_value(a, radix) {
            assert(x * 1 == x);
        }
    } else {
        assert((a + b).drop_last() =~= a + b.drop_last());
        assert((a + b).last() == b.last());
        law_digits_by_place(a, b.drop_last(), radix);
        reveal(vstd::arithmetic::power::pow);
        let p = vstd::arithmetic::power::pow(radix, (b.len() - 1) as nat);
        if let (Some(x), Some(y)) = (digits_value(a, radix), digits_value(b.drop_last(), radix)) {
            assert((x * p + y) * radix == x * (radix * p) + y * radix) by (nonlinear_arith);
        }
    }
}

/// A single decimal or hexadecimal digit stands for its value, in either case.
pub proof fn law_single_digit(c: char)
    ensures
        digits_value(seq![c], 10) == if '0' <= c && c <= '9' {
            Some(c as int - 48)
        } else {
            None::<int>
        },
        digits_value(seq![c], 16) == if '0' <= c && c <= '9' {
            Some(c as int - 48)
        } else if 'a' <= c && c <= 'f' {
            Some(c as int - 87)
        } else if 'A' <= c && c <= 'F' {
            Some(c as int - 55)
        } else {
            None::<int>
        },
{
    reveal_with_fuel(digits_value, 2);
    assert(seq![c].drop_last() =~= Seq::<char>::empty());
    assert(seq![c].last() == c);
}

/// A number is a run of digits that is not too large, perhaps after one plus sign;
/// an empty text is none.
pub proof fn law_number(s: Seq<char>, radix: int, max: int)
    requires
        2 <= radix <= 36,
    ensures
        number(Seq::empty(), radix, max) is None,
        s.len() > 0 && s[0] != '+' ==> number(s, radix, max) == match digits_value(s, radix) {
            Some(v) => if v <= max {
                Some(v)
            } else {
                None::<int>
            },
            None => None,
        },
        s.len() > 0 && s[0] != '+' ==> number(seq!['+'] + s, radix, max) == number(s, radix, max),
        number(seq!['+'], radix, max) is None,
        number(seq!['+', '+'] + s, radix, max) is None,
{
    assert((seq!['+'] + s).skip(1) =~= s);
    assert(seq!['+'].skip(1) =~= Seq::<char>::empty());
    let t = seq!['+'] + s;
    let two = seq!['+', '+'] + s;
    assert(two.skip(1) =~= t);
    lemma_bad_digit(Seq::empty(), '+', s, radix);
    assert(Seq::<char>::empty() + seq!['+'] + s =~= t);
}

/// One character that is no digit spoils a number.
proof fn lemma_bad_digit(a: Seq<char>, c: char, b: Seq<char>, radix: int)
    requires
        digit(c, radix) is None,
    ensures
        digits_value(a + seq![c] + b, radix) is None,
    decreases b.len(),
{
    let s = a + seq![c] + b;
    if b.len() == 0 {
        assert(s.last() == c);
    } else {
        assert(s.drop_last() =~= a + seq![c] + b.drop_last());
        lemma_bad_digit(a, c, b.drop_last(), radix);
    }
}

/// Joined pieces stand one after the other, with the separator between each two
/// and nowhere else.
pub proof fn law_joined(parts: Seq<Seq<char>>, part: Seq<char>, sep: Seq<char>)
    ensures
        joined(Seq::empty(), sep) == Seq::<char>::empty(),
        joined(seq![part], sep) == part,
        parts.len() > 0 ==> joined(parts.push(part), sep) == joined(parts, sep) + sep + part,
{
    lemma_joined_push(parts, part, sep);
}

/// A decimal number is written in digits that stand for it, without a leading
/// zero.
pub proof fn law_decimal(n: nat)
    ensures
        digits_value(decimal(n), 10) == Some(n as int),
        all_are(decimal(n), |c: char| '0' <= c && c <= '9'),
        decimal(n).len() > 0,
        decimal(n).len() > 1 ==> decimal(n)[0] != '0',
{
    lemma_decimal(n);
}

} // verus!
