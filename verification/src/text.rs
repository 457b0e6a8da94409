// SPDX-License-Identifier: GPL-3.0-or-later
//! Text, character by character: what it means to trim, split and search it.
//!
//! Every function works on a slice of characters, so that what it does can be
//! said and proved of the characters themselves.

use crate::seqs::{index_where, lemma_index_where, lemma_index_where_is};
use vstd::prelude::*;
use vstd::slice::slice_subrange;

verus! {

/// `String::push` appends one character.
pub assume_specification[ String::push ](s: &mut String, c: char)
    ensures
        final(s)@ == old(s)@.push(c),
;

/// White space, as Unicode has it.
pub open spec fn white(c: char) -> bool {
    ||| '\u{9}' <= c <= '\u{d}'
    ||| c == ' '
    ||| c == '\u{85}'
    ||| c == '\u{a0}'
    ||| c == '\u{1680}'
    ||| '\u{2000}' <= c <= '\u{200a}'
    ||| c == '\u{2028}'
    ||| c == '\u{2029}'
    ||| c == '\u{202f}'
    ||| c == '\u{205f}'
    ||| c == '\u{3000}'
}

/// Recognises white space.
pub open spec fn is_white() -> spec_fn(char) -> bool {
    |c: char| white(c)
}

/// Recognises everything else.
pub open spec fn not_white() -> spec_fn(char) -> bool {
    |c: char| !white(c)
}

/// Recognises one character.
pub open spec fn is_char(x: char) -> spec_fn(char) -> bool {
    |c: char| c == x
}

/// The text without its leading characters that satisfy `p`.
pub open spec fn drop_while(s: Seq<char>, p: spec_fn(char) -> bool) -> Seq<char> {
    s.skip(index_where(s, |c: char| !p(c)))
}

/// The text without its trailing characters that satisfy `p`.
pub open spec fn drop_end_while(s: Seq<char>, p: spec_fn(char) -> bool) -> Seq<char>
    decreases s.len(),
{
    if s.len() > 0 && p(s.last()) {
        drop_end_while(s.drop_last(), p)
    } else {
        s
    }
}

/// The text without the characters at both ends that satisfy `p`.
pub open spec fn stripped(s: Seq<char>, p: spec_fn(char) -> bool) -> Seq<char> {
    drop_end_while(drop_while(s, p), p)
}

/// The text without white space at either end.
pub open spec fn trimmed(s: Seq<char>) -> Seq<char> {
    stripped(s, is_white())
}

/// What stands before and after the first `sep`.
pub open spec fn split_once(s: Seq<char>, sep: char) -> Option<(Seq<char>, Seq<char>)> {
    let i = index_where(s, is_char(sep));
    if i < s.len() {
        Some((s.take(i), s.skip(i + 1)))
    } else {
        None
    }
}

/// The pieces between the separators.
pub open spec fn split_all(s: Seq<char>, sep: char) -> Seq<Seq<char>>
    decreases s.len(),
{
    let i = index_where(s, is_char(sep));
    proof {
        lemma_index_where(s, is_char(sep));
    }
    if i >= s.len() {
        seq![s]
    } else {
        seq![s.take(i)] + split_all(s.skip(i + 1), sep)
    }
}

/// A line without the carriage return that its line feed came with.
pub open spec fn without_return(line: Seq<char>) -> Seq<char> {
    if line.len() > 0 && line.last() == '\r' {
        line.drop_last()
    } else {
        line
    }
}

/// The lines of a text: each ends at a line feed, the last one perhaps not.
pub open spec fn lines(s: Seq<char>) -> Seq<Seq<char>>
    decreases s.len(),
{
    let i = index_where(s, is_char('\n'));
    proof {
        lemma_index_where(s, is_char('\n'));
    }
    if s.len() == 0 {
        Seq::empty()
    } else if i >= s.len() {
        seq![s]
    } else {
        seq![without_return(s.take(i))] + lines(s.skip(i + 1))
    }
}

/// The words of a text: its longest runs without white space.
pub open spec fn words(s: Seq<char>) -> Seq<Seq<char>>
    decreases s.len(),
{
    let start = index_where(s, not_white());
    let rest = s.skip(start);
    let end = index_where(rest, is_white());
    proof {
        lemma_word_bounds(s);
    }
    if start >= s.len() {
        Seq::empty()
    } else {
        seq![rest.take(end)] + words(rest.skip(end))
    }
}

/// The pieces with `sep` between them.
pub open spec fn joined(parts: Seq<Seq<char>>, sep: Seq<char>) -> Seq<char>
    decreases parts.len(),
{
    if parts.len() == 0 {
        Seq::empty()
    } else if parts.len() == 1 {
        parts[0]
    } else {
        joined(parts.drop_last(), sep) + sep + parts.last()
    }
}

/// The first position at which `pat` stands in `s`.
pub open spec fn found_at(s: Seq<char>, pat: Seq<char>) -> Option<int>
    decreases s.len(),
{
    if pat.is_prefix_of(s) {
        Some(0)
    } else if s.len() == 0 {
        None
    } else {
        match found_at(s.drop_first(), pat) {
            Some(i) => Some(i + 1),
            None => None,
        }
    }
}

/// Whether `pat` stands somewhere in `s`.
pub open spec fn occurs(s: Seq<char>, pat: Seq<char>) -> bool {
    found_at(s, pat) is Some
}

/// The characters of `s`.
pub fn chars_of(s: &str) -> (r: Vec<char>)
    ensures
        r@ == s@,
{
    let mut r: Vec<char> = Vec::new();
    for c in it: s.chars()
        invariant
            it.seq() == s@,
            r@ == s@.take(it.index() as int),
    {
        r.push(c);
        assert(s@.take(it.index() + 1) =~= s@.take(it.index() as int).push(c));
    }
    assert(s@.take(s@.len() as int) =~= s@);
    r
}

/// The text that the characters of `s` make.
pub fn string_of(s: &[char]) -> (r: String)
    ensures
        r@ == s@,
{
    let mut r = String::new();
    let mut i: usize = 0;
    while i < s.len()
        invariant
            i <= s@.len(),
            r@ == s@.take(i as int),
        decreases s@.len() - i,
    {
        r.push(s[i]);
        assert(s@.take(i + 1) =~= s@.take(i as int).push(s@[i as int]));
        i = i + 1;
    }
    assert(s@.take(s@.len() as int) =~= s@);
    r
}

/// Whether `s` reads `text`.
pub fn reads(s: &[char], text: &str) -> (r: bool)
    ensures
        r == (s@ == text@),
{
    let t = chars_of(text);
    same(s, t.as_slice())
}

/// Whether two texts are the same.
pub fn same(a: &[char], b: &[char]) -> (r: bool)
    ensures
        r == (a@ == b@),
{
    if a.len() != b.len() {
        return false;
    }
    let mut i: usize = 0;
    while i < a.len()
        invariant
            i <= a@.len() == b@.len(),
            forall|j: int| 0 <= j < i ==> a@[j] == b@[j],
        decreases a@.len() - i,
    {
        if a[i] != b[i] {
            return false;
        }
        i = i + 1;
    }
    assert(a@ =~= b@);
    true
}

/// Whether two strings are the same.
pub fn str_same(a: &str, b: &str) -> (r: bool)
    ensures
        r == (a@ == b@),
{
    let v = chars_of(a);
    reads(v.as_slice(), b)
}

pub fn is_whitespace(c: char) -> (r: bool)
    ensures
        r == white(c),
{
    ('\u{9}' <= c && c <= '\u{d}') || c == ' ' || c == '\u{85}' || c == '\u{a0}' || c == '\u{1680}'
        || ('\u{2000}' <= c && c <= '\u{200a}') || c == '\u{2028}' || c == '\u{2029}' || c
        == '\u{202f}' || c == '\u{205f}' || c == '\u{3000}'
}

/// The position of the first `x`, or the length.
pub fn position(s: &[char], x: char) -> (r: usize)
    ensures
        r == index_where(s@, is_char(x)),
        r <= s@.len(),
{
    let mut i: usize = 0;
    while i < s.len() && s[i] != x
        invariant
            i <= s@.len(),
            forall|j: int| 0 <= j < i ==> s@[j] != x,
        decreases s@.len() - i,
    {
        i = i + 1;
    }
    proof {
        lemma_index_where_is(s@, is_char(x), i as int);
    }
    i
}

/// The text without white space at either end.
pub fn trim(s: &[char]) -> (r: &[char])
    ensures
        r@ == trimmed(s@),
{
    let mut start: usize = 0;
    while start < s.len() && is_whitespace(s[start])
        invariant
            start <= s@.len(),
            forall|j: int| 0 <= j < start ==> white(s@[j]),
        decreases s@.len() - start,
    {
        start = start + 1;
    }
    let ghost rest = drop_while(s@, is_white());
    proof {
        lemma_index_where_is(s@, |c: char| !is_white()(c), start as int);
        assert(rest == s@.skip(start as int));
    }
    let mut end: usize = s.len();
    assert(s@.subrange(start as int, end as int) =~= rest);
    while start < end && is_whitespace(s[end - 1])
        invariant
            start <= end <= s@.len(),
            drop_end_while(rest, is_white()) == drop_end_while(
                s@.subrange(start as int, end as int),
                is_white(),
            ),
        decreases end,
    {
        proof {
            let t = s@.subrange(start as int, end as int);
            assert(t.drop_last() =~= s@.subrange(start as int, end - 1));
        }
        end = end - 1;
    }
    slice_subrange(s, start, end)
}

/// The text without any `x` at either end.
pub fn trim_matches(s: &[char], x: char) -> (r: &[char])
    ensures
        r@ == stripped(s@, is_char(x)),
{
    let mut start: usize = 0;
    while start < s.len() && s[start] == x
        invariant
            start <= s@.len(),
            forall|j: int| 0 <= j < start ==> s@[j] == x,
        decreases s@.len() - start,
    {
        start = start + 1;
    }
    let ghost rest = drop_while(s@, is_char(x));
    proof {
        lemma_index_where_is(s@, |c: char| !is_char(x)(c), start as int);
        assert(rest == s@.skip(start as int));
    }
    let mut end: usize = s.len();
    assert(s@.subrange(start as int, end as int) =~= rest);
    while start < end && s[end - 1] == x
        invariant
            start <= end <= s@.len(),
            drop_end_while(rest, is_char(x)) == drop_end_while(
                s@.subrange(start as int, end as int),
                is_char(x),
            ),
        decreases end,
    {
        proof {
            let t = s@.subrange(start as int, end as int);
            assert(t.drop_last() =~= s@.subrange(start as int, end - 1));
        }
        end = end - 1;
    }
    slice_subrange(s, start, end)
}

/// The text without white space at its end.
pub fn trim_end(s: &[char]) -> (r: &[char])
    ensures
        r@ == drop_end_while(s@, is_white()),
{
    let mut end: usize = s.len();
    assert(s@.take(end as int) =~= s@);
    while 0 < end && is_whitespace(s[end - 1])
        invariant
            end <= s@.len(),
            drop_end_while(s@, is_white()) == drop_end_while(s@.take(end as int), is_white()),
        decreases end,
    {
        proof {
            assert(s@.take(end as int).drop_last() =~= s@.take(end - 1));
        }
        end = end - 1;
    }
    assert(s@.take(end as int) =~= s@.subrange(0, end as int));
    slice_subrange(s, 0, end)
}

/// What stands before and after the first `sep`.
pub fn cut(s: &[char], sep: char) -> (r: Option<(&[char], &[char])>)
    ensures
        match (r, split_once(s@, sep)) {
            (Some((a, b)), Some((x, y))) => a@ == x && b@ == y,
            (None, None) => true,
            _ => false,
        },
{
    let i: usize = position(s, sep);
    if i < s.len() {
        assert(s@.take(i as int) =~= s@.subrange(0, i as int));
        assert(s@.skip(i + 1) =~= s@.subrange(i + 1, s@.len() as int));
        Some((slice_subrange(s, 0, i), slice_subrange(s, i + 1, s.len())))
    } else {
        None
    }
}

/// Whether `s` starts with `prefix`.
pub fn starts_with(s: &[char], prefix: &[char]) -> (r: bool)
    ensures
        r == prefix@.is_prefix_of(s@),
{
    if prefix.len() > s.len() {
        return false;
    }
    assert(s@.subrange(0, prefix@.len() as int) =~= s@.take(prefix@.len() as int));
    same(slice_subrange(s, 0, prefix.len()), prefix)
}

/// Whether `s` starts with `prefix`.
pub fn str_starts_with(s: &str, prefix: &str) -> (r: bool)
    ensures
        r == prefix@.is_prefix_of(s@),
{
    let a = chars_of(s);
    let b = chars_of(prefix);
    starts_with(a.as_slice(), b.as_slice())
}

/// The first position at which `pat` stands in `s`.
pub fn find(s: &[char], pat: &[char]) -> (r: Option<usize>)
    ensures
        match r {
            Some(i) => found_at(s@, pat@) == Some(i as int) && i + pat@.len() <= s@.len(),
            None => found_at(s@, pat@) is None,
        },
{
    let mut i: usize = 0;
    assert(s@.skip(0) =~= s@);
    while i <= s.len()
        invariant
            i <= s@.len() + 1,
            i <= s@.len() ==> found_at(s@, pat@) == match found_at(s@.skip(i as int), pat@) {
                Some(k) => Some(k + i),
                None => None::<int>,
            },
            i == s@.len() + 1 ==> found_at(s@, pat@) is None,
        decreases s@.len() + 1 - i,
    {
        let rest = slice_subrange(s, i, s.len());
        assert(rest@ =~= s@.skip(i as int));
        if starts_with(rest, pat) {
            return Some(i);
        }
        proof {
            if i < s@.len() {
                assert(s@.skip(i as int).drop_first() =~= s@.skip(i + 1));
            }
        }
        if i == s.len() {
            return None;
        }
        i = i + 1;
    }
    None
}

/// Whether `pat` stands somewhere in `s`.
pub fn contains(s: &[char], pat: &str) -> (r: bool)
    ensures
        r == occurs(s@, pat@),
{
    let p = chars_of(pat);
    find(s, p.as_slice()).is_some()
}

/// What a list of texts reads.
pub open spec fn texts(v: Seq<&[char]>) -> Seq<Seq<char>> {
    v.map_values(|s: &[char]| s@)
}

/// The lines of a text.
pub fn lines_of<'a>(s: &'a [char]) -> (r: Vec<&'a [char]>)
    ensures
        texts(r@) == lines(s@),
{
    let mut r: Vec<&'a [char]> = Vec::new();
    let mut at: usize = 0;
    assert(s@.skip(0) =~= s@);
    assert(texts(r@) + lines(s@) =~= lines(s@));
    while at < s.len()
        invariant
            at <= s@.len(),
            texts(r@) + lines(s@.skip(at as int)) == lines(s@),
        decreases s@.len() - at,
    {
        let rest = slice_subrange(s, at, s.len());
        assert(rest@ =~= s@.skip(at as int));
        let i: usize = position(rest, '\n');
        let ghost before = texts(r@);
        if i >= rest.len() {
            r.push(rest);
            proof {
                assert(texts(r@) =~= before.push(rest@));
                assert(before + seq![rest@] =~= before.push(rest@));
                assert(lines(s@.skip(s@.len() as int)) =~= Seq::<Seq<char>>::empty());
                assert(texts(r@) + Seq::<Seq<char>>::empty() =~= texts(r@));
            }
            at = s.len();
        } else {
            let mut end: usize = i;
            if end > 0 && rest[end - 1] == '\r' {
                end = end - 1;
            }
            let line = slice_subrange(rest, 0, end);
            proof {
                assert(line@ =~= without_return(rest@.take(i as int)));
            }
            r.push(line);
            proof {
                assert(texts(r@) =~= before.push(line@));
                assert(rest@.skip(i + 1) =~= s@.skip(at + i + 1));
                assert(before.push(line@) + lines(s@.skip(at + i + 1)) =~= before + (seq![line@]
                    + lines(rest@.skip(i + 1))));
            }
            at = at + i + 1;
        }
    }
    proof {
        assert(s@.skip(at as int) =~= Seq::<char>::empty());
        assert(texts(r@) + Seq::<Seq<char>>::empty() =~= texts(r@));
    }
    r
}

/// A word starts where white space ends and is at least one character long.
pub proof fn lemma_word_bounds(s: Seq<char>)
    ensures
        ({
            let start = index_where(s, not_white());
            let rest = s.skip(start);
            let end = index_where(rest, is_white());
            0 <= start <= s.len() && (start < s.len() ==> 0 < end <= rest.len() && start
                + rest.len() == s.len())
        }),
{
    let start = index_where(s, not_white());
    lemma_index_where(s, not_white());
    let rest = s.skip(start);
    lemma_index_where(rest, is_white());
    if start < s.len() {
        assert(rest[0] == s[start]);
    }
}

/// The words of a text.
pub fn words_of<'a>(s: &'a [char]) -> (r: Vec<&'a [char]>)
    ensures
        texts(r@) == words(s@),
{
    let mut r: Vec<&'a [char]> = Vec::new();
    let mut at: usize = 0;
    assert(s@.skip(0) =~= s@);
    assert(texts(r@) + words(s@) =~= words(s@));
    while at < s.len()
        invariant
            at <= s@.len(),
            texts(r@) + words(s@.skip(at as int)) == words(s@),
        decreases s@.len() - at,
    {
        let ghost tail = s@.skip(at as int);
        let mut start: usize = at;
        while start < s.len() && is_whitespace(s[start])
            invariant
                at <= start <= s@.len(),
                forall|j: int| at <= j < start ==> white(s@[j]),
            decreases s@.len() - start,
        {
            start = start + 1;
        }
        proof {
            lemma_word_bounds(tail);
            lemma_index_where_is(tail, not_white(), start - at);
            assert(tail.skip(start - at) =~= s@.skip(start as int));
        }
        if start >= s.len() {
            at = s.len();
            proof {
                lemma_word_bounds(s@.skip(at as int));
                lemma_index_where(s@.skip(at as int), not_white());
                assert(words(tail) =~= Seq::<Seq<char>>::empty());
                assert(words(s@.skip(at as int)) =~= Seq::<Seq<char>>::empty());
            }
        } else {
            let mut end: usize = start;
            while end < s.len() && !is_whitespace(s[end])
                invariant
                    start <= end <= s@.len(),
                    forall|j: int| start <= j < end ==> !white(s@[j]),
                decreases s@.len() - end,
            {
                end = end + 1;
            }
            let ghost rest = s@.skip(start as int);
            let ghost before = texts(r@);
            let word = slice_subrange(s, start, end);
            proof {
                lemma_index_where_is(rest, is_white(), end - start);
                assert(word@ =~= rest.take(end - start));
                assert(rest.skip(end - start) =~= s@.skip(end as int));
            }
            r.push(word);
            proof {
                assert(texts(r@) =~= before.push(word@));
                assert(before.push(word@) + words(s@.skip(end as int)) =~= before + (seq![word@]
                    + words(rest.skip(end - start))));
            }
            at = end;
        }
    }
    proof {
        lemma_word_bounds(s@.skip(at as int));
        lemma_index_where(s@.skip(at as int), not_white());
        assert(words(s@.skip(at as int)) =~= Seq::<Seq<char>>::empty());
        assert(texts(r@) + Seq::<Seq<char>>::empty() =~= texts(r@));
    }
    r
}

/// The pieces between the separators.
pub fn pieces_of<'a>(s: &'a [char], sep: char) -> (r: Vec<&'a [char]>)
    ensures
        texts(r@) == split_all(s@, sep),
{
    let mut r: Vec<&'a [char]> = Vec::new();
    let mut at: usize = 0;
    assert(s@.skip(0) =~= s@);
    assert(texts(r@) + split_all(s@, sep) =~= split_all(s@, sep));
    loop
        invariant
            at <= s@.len(),
            texts(r@) + split_all(s@.skip(at as int), sep) == split_all(s@, sep),
        decreases s@.len() + 1 - at,
    {
        let rest = slice_subrange(s, at, s.len());
        assert(rest@ =~= s@.skip(at as int));
        let i: usize = position(rest, sep);
        let ghost before = texts(r@);
        if i >= rest.len() {
            r.push(rest);
            proof {
                assert(texts(r@) =~= before.push(rest@));
                assert(before + seq![rest@] =~= before.push(rest@));
            }
            return r;
        }
        let piece = slice_subrange(rest, 0, i);
        proof {
            assert(piece@ =~= rest@.take(i as int));
        }
        r.push(piece);
        proof {
            assert(texts(r@) =~= before.push(piece@));
            assert(rest@.skip(i + 1) =~= s@.skip(at + i + 1));
            assert(before.push(piece@) + split_all(s@.skip(at + i + 1), sep) =~= before + (
            seq![piece@] + split_all(rest@.skip(i + 1), sep)));
        }
        at = at + i + 1;
    }
}

/// A piece without the separator in it is split off whole.
pub proof fn lemma_split_first(piece: Seq<char>, rest: Seq<char>, sep: char)
    requires
        forall|i: int| 0 <= i < piece.len() ==> #[trigger] piece[i] != sep,
    ensures
        split_all(piece + seq![sep] + rest, sep) == seq![piece] + split_all(rest, sep),
        split_all(piece, sep) == seq![piece],
{
    let all = piece + seq![sep] + rest;
    assert(forall|i: int| 0 <= i < piece.len() ==> all[i] == piece[i]);
    assert(all[piece.len() as int] == sep);
    lemma_index_where_is(all, is_char(sep), piece.len() as int);
    assert(all.take(piece.len() as int) =~= piece);
    assert(all.skip(piece.len() as int + 1) =~= rest);
    lemma_index_where_is(piece, is_char(sep), piece.len() as int);
}

/// Joining one piece more puts the separator and the piece behind the rest.
pub proof fn lemma_joined_push(parts: Seq<Seq<char>>, part: Seq<char>, sep: Seq<char>)
    ensures
        joined(parts.push(part), sep) == if parts.len() == 0 {
            part
        } else {
            joined(parts, sep) + sep + part
        },
{
    assert(parts.push(part).drop_last() =~= parts);
}

/// Joining works from the front as well.
pub proof fn lemma_joined_front(parts: Seq<Seq<char>>, sep: Seq<char>)
    requires
        parts.len() > 1,
    ensures
        joined(parts, sep) == parts[0] + sep + joined(parts.drop_first(), sep),
    decreases parts.len(),
{
    let rest = parts.drop_first();
    let init = parts.drop_last();
    if parts.len() == 2 {
        reveal_with_fuel(joined, 2);
        assert(init =~= seq![parts[0]]);
        assert(rest =~= seq![parts[1]]);
    } else {
        lemma_joined_front(init, sep);
        assert(init.drop_first() =~= rest.drop_last());
        assert(joined(rest, sep) =~= joined(rest.drop_last(), sep) + sep + rest.last());
        assert(joined(parts, sep) =~= parts[0] + sep + joined(rest, sep));
    }
}

/// Pieces without the separator in them come apart as they were put together.
pub proof fn lemma_split_joined(parts: Seq<Seq<char>>, sep: char)
    requires
        parts.len() > 0,
        forall|k: int, j: int|
            0 <= k < parts.len() && 0 <= j < parts[k].len() ==> #[trigger] parts[k][j] != sep,
    ensures
        split_all(joined(parts, seq![sep]), sep) == parts,
    decreases parts.len(),
{
    let rest = parts.drop_first();
    assert forall|j: int| 0 <= j < parts[0].len() implies #[trigger] parts[0][j] != sep by {}
    if parts.len() == 1 {
        lemma_split_first(parts[0], parts[0], sep);
        assert(parts =~= seq![parts[0]]);
    } else {
        assert forall|k: int, j: int|
            0 <= k < rest.len() && 0 <= j < rest[k].len() implies #[trigger] rest[k][j] != sep by {
            assert(parts[k + 1][j] != sep);
        }
        lemma_joined_front(parts, seq![sep]);
        lemma_split_joined(rest, sep);
        lemma_split_first(parts[0], joined(rest, seq![sep]), sep);
        assert(seq![parts[0]] + rest =~= parts);
    }
}

} // verus!
