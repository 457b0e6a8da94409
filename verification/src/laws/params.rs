// SPDX-License-Identifier: GPL-3.0-or-later
//! What the gateway's configuration says, and how addresses and netmasks read.

use crate::address::{address, address_text, law_address_reads_back, octet, Ipv4};
use crate::fortinet::xml::{
    attribute, dns_of, first_tagged, mask_prefix, masks, params_of, prefix_mask, prefix_of, route_of,
    routes_of, suffix_of, AttributeView, MaskError, NodeView,
};
use crate::laws::plans::{dotted, law_address_notation};
use crate::number::{decimal, digit, digits_value, law_decimal_reads_back, lemma_decimal, number};
use crate::provider::{ParamsView, Route};
use crate::seqs::{index_where, lemma_index_where};
use crate::text::{is_char, joined, lemma_joined_front, split_all};
use vstd::arithmetic::power2::pow2;
use vstd::prelude::*;

verus! {

/// Digits without a leading zero are how their value is written.
pub proof fn law_digits_are_canonical(s: Seq<char>, v: int)
    requires
        s.len() > 0,
        s.len() == 1 || s[0] != '0',
        digits_value(s, 10) == Some(v),
    ensures
        v >= 0,
        s == decimal(v as nat),
    decreases s.len(),
{
    let t = s.drop_last();
    let c = s.last();
    if s.len() == 1 {
        assert(t =~= Seq::<char>::empty());
        reveal_with_fuel(digits_value, 2);
        assert(digit(c, 10) == Some(v));
        assert(s =~= seq![c]);
        assert(decimal(v as nat) =~= seq![c]);
    } else {
        let u = digits_value(t, 10)->0;
        assert(t[0] == s[0]);
        law_digits_are_canonical(t, u);
        lemma_decimal(u as nat);
        if u == 0 {
            assert(decimal(0)[0] == '0');
        }
        let d = digit(c, 10)->0;
        assert(v == u * 10 + d);
        assert((v as nat) / 10 == u && (v as nat) % 10 == d);
        assert(decimal(v as nat) =~= t.push(c));
        assert(s =~= t.push(c));
    }
}

/// What is split at every separator is put together again by it.
pub proof fn law_joined_again(s: Seq<char>, sep: char)
    ensures
        split_all(s, sep).len() > 0,
        joined(split_all(s, sep), seq![sep]) == s,
    decreases s.len(),
{
    let i = index_where(s, is_char(sep));
    lemma_index_where(s, is_char(sep));
    let parts = split_all(s, sep);
    if i < s.len() {
        let rest = s.skip(i + 1);
        law_joined_again(rest, sep);
        lemma_joined_front(parts, seq![sep]);
        assert(parts.drop_first() =~= split_all(rest, sep));
        assert(s[i] == sep);
        assert(s =~= s.take(i) + seq![sep] + rest);
    }
}

/// A text is an address if and only if it is how that address is written: four
/// numbers up to 255, none with a leading zero or a sign, and dots between them.
pub proof fn law_address(s: Seq<char>, x: Ipv4)
    ensures
        address(s) == Some(x) <==> s == dotted(x),
{
    law_address_reads_back(x);
    law_address_notation(x, 0);
    if address(s) == Some(x) {
        let p = split_all(s, '.');
        law_joined_again(s, '.');
        lemma_octet_text(p[0]);
        lemma_octet_text(p[1]);
        lemma_octet_text(p[2]);
        lemma_octet_text(p[3]);
        lemma_four(p);
        assert(s =~= address_text(x));
    }
}

proof fn lemma_octet_text(s: Seq<char>)
    requires
        octet(s) is Some,
    ensures
        0 <= octet(s)->0 <= 255,
        s == decimal(octet(s)->0 as nat),
{
    law_digits_are_canonical(s, octet(s)->0);
}

proof fn lemma_four(p: Seq<Seq<char>>)
    requires
        p.len() == 4,
    ensures
        joined(p, seq!['.']) == p[0] + seq!['.'] + p[1] + seq!['.'] + p[2] + seq!['.'] + p[3],
{
    reveal_with_fuel(joined, 4);
    let a = p.drop_last();
    let b = a.drop_last();
    assert(b.drop_last()[0] == p[0]);
    assert(a.last() == p[2]);
    assert(b.last() == p[1]);
}

/// The prefix length of a netmask is how many ones it starts with, if all that
/// follows is zeros; any other mask has none. So for every mask, however its
/// numbers come.
pub proof fn law_netmask(x: Ipv4, p: u8)
    ensures
        ({
            let m = x.a * 0x100_0000 + x.b * 0x1_0000 + x.c * 0x100 + x.d;
            &&& p <= 32 ==> (mask_prefix(dotted(x)) == Ok::<u8, MaskError>(p) <==> m == pow2(32)
                - pow2((32 - p) as nat))
            &&& (forall|q: nat|
                #![trigger pow2((32 - q) as nat)]
                q <= 32 ==> m != pow2(32) - pow2((32 - q) as nat)) ==> mask_prefix(
                dotted(x),
            ) == Err::<u8, MaskError>(MaskError::NonContiguous)
        }),
{
    let m = x.a * 0x100_0000 + x.b * 0x1_0000 + x.c * 0x100 + x.d;
    law_address_notation(x, 0);
    law_address_reads_back(x);
    let parts = split_all(address_text(x), '.');
    lemma_mask_parts(x);
    assert(m == ((x.a * 256 + x.b) * 256 + x.c) * 256 + x.d);
    if p <= 32 && m == pow2(32) - pow2((32 - p) as nat) {
        assert(masks(m, p as int));
        crate::fortinet::xml::law_prefix_reads_back(p as int);
        assert(prefix_mask(p as int) == m);
    }
    if let Some(n) = prefix_of(m) {
        let q = choose|q: int| #[trigger] masks(m, q);
        assert(masks(m, q));
        crate::fortinet::xml::law_prefix_reads_back(q);
        assert(m == pow2(32) - pow2((32 - (q as nat)) as nat));
    }
}

proof fn lemma_mask_parts(x: Ipv4)
    ensures
        ({
            let p = split_all(address_text(x), '.');
            &&& p.len() == 4
            &&& number(p[0], 10, 255) == Some(x.a as int)
            &&& number(p[1], 10, 255) == Some(x.b as int)
            &&& number(p[2], 10, 255) == Some(x.c as int)
            &&& number(p[3], 10, 255) == Some(x.d as int)
        }),
{
    crate::address::lemma_split_address(x);
    law_decimal_reads_back(x.a as nat, 255);
    law_decimal_reads_back(x.b as nat, 255);
    law_decimal_reads_back(x.c as nat, 255);
    law_decimal_reads_back(x.d as nat, 255);
}

/// A netmask with a piece that is no number up to 255 is malformed; one whose
/// pieces are, but are not four, has the wrong count.
pub proof fn law_bad_netmask(s: Seq<char>, i: int)
    ensures
        0 <= i < split_all(s, '.').len() && number(split_all(s, '.')[i], 10, 255) is None
            ==> mask_prefix(s) == Err::<u8, MaskError>(MaskError::Format),
        split_all(s, '.').len() != 4 && (forall|j: int|
            0 <= j < split_all(s, '.').len() ==> number(
                #[trigger] split_all(s, '.')[j],
                10,
                255,
            ) is Some) ==> mask_prefix(s) == Err::<u8, MaskError>(MaskError::Count),
{
}

/// The attribute of a name is the first one of that name that is in no namespace.
pub proof fn law_attribute(
    before: Seq<AttributeView>,
    a: AttributeView,
    after: Seq<AttributeView>,
    name: Seq<char>,
)
    requires
        forall|i: int|
            0 <= i < before.len() ==> (#[trigger] before[i]).name != name || before[i].namespace is Some,
    ensures
        a.name == name && a.namespace is None ==> attribute(before + seq![a] + after, name) == Some(
            a.value,
        ),
        attribute(before, name) is None,
    decreases before.len(),
{
    let all = before + seq![a] + after;
    if before.len() > 0 {
        let rest = before.drop_first();
        assert(before[0].name != name || before[0].namespace is Some);
        assert forall|i: int| 0 <= i < rest.len() implies (#[trigger] rest[i]).name != name
            || rest[i].namespace is Some by {
            assert(rest[i] == before[i + 1]);
        }
        law_attribute(rest, a, after, name);
        assert(all.drop_first() =~= rest + seq![a] + after);
        assert(all[0] == before[0]);
    } else {
        assert(all[0] == a);
    }
}

/// The address in an attribute, where there is one.
pub open spec fn address_in(node: NodeView, name: Seq<char>) -> Option<Ipv4> {
    match attribute(node.attributes, name) {
        Some(text) => address(text),
        None => None,
    }
}

/// Every `dns` element with an address names a server, in the order of the
/// document; no other element does.
pub proof fn law_dns_servers(nodes: Seq<NodeView>, node: NodeView)
    ensures
        dns_of(Seq::empty()) == Seq::<Ipv4>::empty(),
        dns_of(nodes.push(node)) == dns_of(nodes) + if node.tag == "dns"@ && address_in(
            node,
            "ip"@,
        ) is Some {
            seq![address_in(node, "ip"@)->0]
        } else {
            Seq::empty()
        },
{
    assert(nodes.push(node).drop_last() =~= nodes);
    assert(nodes.push(node).last() == node);
}

/// The search domain is the first one of a `dns` element that is not empty.
pub proof fn law_search_domain(nodes: Seq<NodeView>, node: NodeView)
    ensures
        suffix_of(Seq::empty()) is None,
        suffix_of(nodes) is Some ==> suffix_of(nodes.push(node)) == suffix_of(nodes),
        suffix_of(nodes) is None ==> suffix_of(nodes.push(node)) == match attribute(
            node.attributes,
            "domain"@,
        ) {
            Some(d) => if node.tag == "dns"@ && d.len() > 0 {
                Some(d)
            } else {
                None
            },
            None => None,
        },
{
    assert(nodes.push(node).drop_last() =~= nodes);
    assert(nodes.push(node).last() == node);
}

/// Every `addr` child of the split-tunnel element with an address and a netmask is
/// a route to that address with that mask's prefix length, in the order of the
/// document; one with a bad netmask spoils them all, and no other node counts.
pub proof fn law_split_routes(nodes: Seq<NodeView>, node: NodeView, split: usize)
    requires
        routes_of(nodes, split as int) is Ok,
    ensures
        ({
            let before = routes_of(nodes, split as int)->Ok_0;
            let dest = address_in(node, "ip"@);
            let mask = attribute(node.attributes, "mask"@);
            let counts = node.tag == "addr"@ && node.parent == Some(split) && dest is Some
                && mask is Some;
            &&& !counts ==> routes_of(nodes.push(node), split as int) == Ok::<
                Seq<Route>,
                MaskError,
            >(before)
            &&& counts ==> match mask_prefix(mask->0) {
                Ok(prefix) => routes_of(nodes.push(node), split as int) == Ok::<
                    Seq<Route>,
                    MaskError,
                >(before + seq![Route { dest: dest->0, prefix }]),
                Err(e) => routes_of(nodes.push(node), split as int) == Err::<
                    Seq<Route>,
                    MaskError,
                >(e),
            }
        }),
        routes_of(Seq::empty(), split as int) == Ok::<Seq<Route>, MaskError>(Seq::empty()),
{
    assert(nodes.push(node).drop_last() =~= nodes);
    assert(nodes.push(node).last() == node);
    let before = routes_of(nodes, split as int)->Ok_0;
    if let Some(Ok(route)) = route_of(node) {
        assert(before.push(route) =~= before + seq![route]);
    }
}

/// Once spoiled, routes stay so.
pub proof fn law_spoiled_routes(nodes: Seq<NodeView>, node: NodeView, split: int)
    requires
        routes_of(nodes, split) is Err,
    ensures
        routes_of(nodes.push(node), split) == routes_of(nodes, split),
{
    assert(nodes.push(node).drop_last() =~= nodes);
}

proof fn lemma_first_tagged(nodes: Seq<NodeView>, tag: Seq<char>, i: int)
    requires
        0 <= i <= nodes.len(),
        forall|j: int| 0 <= j < i ==> (#[trigger] nodes[j]).tag != tag,
        i < nodes.len() ==> nodes[i].tag == tag,
    ensures
        first_tagged(nodes, tag) == i,
    decreases nodes.len(),
{
    if nodes.len() > 0 && i > 0 {
        assert(nodes[0].tag != tag);
        let rest = nodes.drop_first();
        assert forall|j: int| 0 <= j < i - 1 implies (#[trigger] rest[j]).tag != tag by {
            assert(rest[j] == nodes[j + 1]);
        }
        lemma_first_tagged(rest, tag, i - 1);
    }
}

/// The parameters of a tunnel: the address in the first `assigned-addr` element, the
/// servers and the search domain, and the routes below the first
/// `split-tunnel-info` element; without that element there are none.
pub proof fn law_tunnel_parameters(nodes: Seq<NodeView>, i: int, k: int)
    requires
        0 <= i <= nodes.len(),
        forall|j: int| 0 <= j < i ==> (#[trigger] nodes[j]).tag != "assigned-addr"@,
        i < nodes.len() ==> nodes[i].tag == "assigned-addr"@,
        0 <= k <= nodes.len(),
        forall|j: int| 0 <= j < k ==> (#[trigger] nodes[j]).tag != "split-tunnel-info"@,
        k < nodes.len() ==> nodes[k].tag == "split-tunnel-info"@,
    ensures
        ({
            let addr = if i < nodes.len() {
                address_in(nodes[i], "ipv4"@)
            } else {
                None
            };
            let with = |routes: Seq<Route>|
                ParamsView {
                    assigned_addr: addr,
                    dns: dns_of(nodes),
                    dns_suffix: suffix_of(nodes),
                    routes,
                    mtu: None,
                };
            &&& k == nodes.len() ==> params_of(nodes) == Ok::<ParamsView, MaskError>(
                with(Seq::empty()),
            )
            &&& k < nodes.len() ==> match routes_of(nodes, k) {
                Ok(routes) => params_of(nodes) == Ok::<ParamsView, MaskError>(with(routes)),
                Err(e) => params_of(nodes) == Err::<ParamsView, MaskError>(e),
            }
        }),
{
    lemma_first_tagged(nodes, "assigned-addr"@, i);
    lemma_first_tagged(nodes, "split-tunnel-info"@, k);
}

} // verus!
