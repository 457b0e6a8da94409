// SPDX-License-Identifier: GPL-3.0-or-later
//! IPv4 addresses in dotted-decimal text.

use crate::number::{
    decimal, law_decimal_reads_back, lemma_decimal, number, parse_number, push_decimal,
};
use crate::text::{chars_of, lemma_split_first, pieces_of, split_all, texts};
use vstd::prelude::*;

verus! {

/// An IPv4 address.
#[derive(Debug, Clone, Copy, PartialEq, Eq, Structural)]
pub struct Ipv4 {
    pub a: u8,
    pub b: u8,
    pub c: u8,
    pub d: u8,
}

/// One octet of an address: up to three digits, no leading zero, at most 255.
pub open spec fn octet(s: Seq<char>) -> Option<int> {
    if 1 <= s.len() <= 3 && '0' <= s[0] <= '9' && (s.len() == 1 || s[0] != '0') {
        number(s, 10, 255)
    } else {
        None
    }
}

/// The address that a text stands for: four octets with dots between them.
pub open spec fn address(s: Seq<char>) -> Option<Ipv4> {
    let p = split_all(s, '.');
    if p.len() != 4 {
        None
    } else {
        match (octet(p[0]), octet(p[1]), octet(p[2]), octet(p[3])) {
            (Some(a), Some(b), Some(c), Some(d)) => Some(
                Ipv4 { a: a as u8, b: b as u8, c: c as u8, d: d as u8 },
            ),
            _ => None,
        }
    }
}

/// The address as text.
pub open spec fn address_text(x: Ipv4) -> Seq<char> {
    decimal(x.a as nat) + seq!['.'] + decimal(x.b as nat) + seq!['.'] + decimal(x.c as nat) + seq![
        '.',
    ] + decimal(x.d as nat)
}

fn parse_octet(s: &[char]) -> (r: Option<u8>)
    ensures
        match r {
            Some(v) => octet(s@) == Some(v as int),
            None => octet(s@) is None,
        },
{
    if 1 <= s.len() && s.len() <= 3 && '0' <= s[0] && s[0] <= '9' && (s.len() == 1 || s[0] != '0') {
        match parse_number(s, 10, 255) {
            Some(v) => Some(v as u8),
            None => None,
        }
    } else {
        None
    }
}

impl Ipv4 {
    pub fn new(a: u8, b: u8, c: u8, d: u8) -> (r: Self)
        ensures
            r == (Ipv4 { a, b, c, d }),
    {
        Ipv4 { a, b, c, d }
    }

    /// The address that `s` stands for.
    pub fn from_chars(s: &[char]) -> (r: Option<Self>)
        ensures
            r == address(s@),
    {
        let p = pieces_of(s, '.');
        assert(forall|i: int| 0 <= i < p@.len() ==> texts(p@)[i] == #[trigger] p@[i]@);
        if p.len() != 4 {
            return None;
        }
        match (parse_octet(p[0]), parse_octet(p[1]), parse_octet(p[2]), parse_octet(p[3])) {
            (Some(a), Some(b), Some(c), Some(d)) => Some(Ipv4 { a, b, c, d }),
            _ => None,
        }
    }

    /// The address that `s` stands for.
    pub fn parse(s: &str) -> (r: Option<Self>)
        ensures
            r == address(s@),
    {
        let v = chars_of(s);
        Self::from_chars(v.as_slice())
    }

    /// Append the address as text.
    pub fn push_text(&self, out: &mut String)
        ensures
            final(out)@ == old(out)@ + address_text(*self),
    {
        push_decimal(out, self.a as u64);
        out.push('.');
        push_decimal(out, self.b as u64);
        out.push('.');
        push_decimal(out, self.c as u64);
        out.push('.');
        push_decimal(out, self.d as u64);
        assert(out@ =~= old(out)@ + address_text(*self));
    }

    /// The address as text.
    pub fn text(&self) -> (r: String)
        ensures
            r@ == address_text(*self),
    {
        let mut r = String::new();
        self.push_text(&mut r);
        assert(Seq::<char>::empty() + address_text(*self) =~= address_text(*self));
        r
    }
}

/// The first of the addresses found that is one; the others are of another kind.
pub fn first_ipv4(found: &[Option<Ipv4>]) -> (r: Option<Ipv4>)
    ensures
        match r {
            Some(x) => exists|i: int|
                0 <= i < found@.len() && #[trigger] found@[i] == Some(x) && forall|j: int|
                    0 <= j < i ==> #[trigger] found@[j] is None,
            None => forall|i: int| 0 <= i < found@.len() ==> #[trigger] found@[i] is None,
        },
{
    let mut i: usize = 0;
    while i < found.len()
        invariant
            i <= found@.len(),
            forall|j: int| 0 <= j < i ==> #[trigger] found@[j] is None,
        decreases found@.len() - i,
    {
        if let Some(x) = found[i] {
            assert(found@[i as int] == Some(x));
            return Some(x);
        }
        i = i + 1;
    }
    None
}

/// Written octets are read back.
proof fn lemma_octet(n: u8)
    ensures
        octet(decimal(n as nat)) == Some(n as int),
        forall|i: int| 0 <= i < decimal(n as nat).len() ==> #[trigger] decimal(n as nat)[i] != '.',
{
    lemma_decimal(n as nat);
    law_decimal_reads_back(n as nat, 255);
}

/// Four pieces with dots between them are split into those.
proof fn lemma_split_four(a: Seq<char>, b: Seq<char>, c: Seq<char>, d: Seq<char>)
    requires
        forall|i: int| 0 <= i < a.len() ==> #[trigger] a[i] != '.',
        forall|i: int| 0 <= i < b.len() ==> #[trigger] b[i] != '.',
        forall|i: int| 0 <= i < c.len() ==> #[trigger] c[i] != '.',
        forall|i: int| 0 <= i < d.len() ==> #[trigger] d[i] != '.',
    ensures
        split_all(a + seq!['.'] + b + seq!['.'] + c + seq!['.'] + d, '.') == seq![a, b, c, d],
{
    let cd = c + seq!['.'] + d;
    let bcd = b + seq!['.'] + cd;
    lemma_split_first(c, d, '.');
    lemma_split_first(d, d, '.');
    assert(split_all(cd, '.') =~= seq![c, d]);
    lemma_split_first(b, cd, '.');
    assert(split_all(bcd, '.') =~= seq![b, c, d]);
    lemma_split_first(a, bcd, '.');
    assert(split_all(a + seq!['.'] + bcd, '.') =~= seq![a, b, c, d]);
    assert(a + seq!['.'] + b + seq!['.'] + c + seq!['.'] + d =~= a + seq!['.'] + bcd);
}

/// The text of an address is split into its octets.
pub proof fn lemma_split_address(x: Ipv4)
    ensures
        split_all(address_text(x), '.') == seq![
            decimal(x.a as nat),
            decimal(x.b as nat),
            decimal(x.c as nat),
            decimal(x.d as nat),
        ],
{
    lemma_octet(x.a);
    lemma_octet(x.b);
    lemma_octet(x.c);
    lemma_octet(x.d);
    lemma_split_four(
        decimal(x.a as nat),
        decimal(x.b as nat),
        decimal(x.c as nat),
        decimal(x.d as nat),
    );
}

/// The text of an address stands for that address.
pub proof fn law_address_reads_back(x: Ipv4)
    ensures
        address(address_text(x)) == Some(x),
{
    let (a, b, c, d) = (
        decimal(x.a as nat),
        decimal(x.b as nat),
        decimal(x.c as nat),
        decimal(x.d as nat),
    );
    lemma_octet(x.a);
    lemma_octet(x.b);
    lemma_octet(x.c);
    lemma_octet(x.d);
    lemma_split_four(a, b, c, d);
    let p = split_all(address_text(x), '.');
    assert(p[0] == a && p[1] == b && p[2] == c && p[3] == d);
}

} // verus!
