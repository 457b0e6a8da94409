// SPDX-License-Identifier: GPL-3.0-or-later
//! Reads the gateway's `fortisslvpn_xml` configuration into provider-neutral
//! tunnel parameters.

use crate::address::{address, Ipv4};
use crate::number::{number, parse_number};
use crate::provider::{ParamsView, Route, TunnelParams};
use crate::text::{chars_of, pieces_of, split_all, str_same, texts};
use vstd::arithmetic::power2::{lemma2_to64, lemma_pow2_strictly_increases, lemma_pow2_unfold, pow2};
use vstd::prelude::*;

verus! {

/// Why a netmask has no prefix length.
#[derive(Debug, Clone, Copy, PartialEq, Eq, Structural)]
pub enum MaskError {
    /// A piece between the dots is no octet.
    Format,
    /// There are not four octets.
    Count,
    /// The ones do not stand together at the front.
    NonContiguous,
}

/// The netmask of a prefix length: that many ones, then zeros.
pub open spec fn prefix_mask(p: int) -> int {
    pow2(32) - pow2((32 - p) as nat)
}

/// Whether `p` is the prefix length of the mask `m`.
pub open spec fn masks(m: int, p: int) -> bool {
    0 <= p <= 32 && prefix_mask(p) == m
}

/// The prefix length of a mask, where it has one.
pub open spec fn prefix_of(m: int) -> Option<u8> {
    if exists|p: int| #[trigger] masks(m, p) {
        Some((choose|p: int| #[trigger] masks(m, p)) as u8)
    } else {
        None
    }
}

/// The octets between the dots, where each is a number up to 255.
pub open spec fn octets(p: Seq<Seq<char>>) -> bool {
    forall|i: int| 0 <= i < p.len() ==> number(#[trigger] p[i], 10, 255) is Some
}

/// The prefix length of a netmask in dotted-decimal text.
pub open spec fn mask_prefix(mask: Seq<char>) -> Result<u8, MaskError> {
    let p = split_all(mask, '.');
    if !octets(p) {
        Err(MaskError::Format)
    } else if p.len() != 4 {
        Err(MaskError::Count)
    } else {
        let m = ((number(p[0], 10, 255)->0 * 256 + number(p[1], 10, 255)->0) * 256 + number(
            p[2],
            10,
            255,
        )->0) * 256 + number(p[3], 10, 255)->0;
        match prefix_of(m) {
            Some(n) => Ok(n),
            None => Err(MaskError::NonContiguous),
        }
    }
}

/// No mask has two prefix lengths.
pub proof fn law_prefix_is_unique(m: int, p: int, q: int)
    requires
        masks(m, p),
        masks(m, q),
    ensures
        p == q,
{
    if p < q {
        lemma_pow2_strictly_increases((32 - q) as nat, (32 - p) as nat);
    } else if q < p {
        lemma_pow2_strictly_increases((32 - p) as nat, (32 - q) as nat);
    }
}

/// The netmask of every prefix length from 0 to 32 has that prefix length.
pub proof fn law_prefix_reads_back(p: int)
    requires
        0 <= p <= 32,
    ensures
        prefix_of(prefix_mask(p)) == Some(p as u8),
{
    assert(masks(prefix_mask(p), p));
    let q = choose|q: int| #[trigger] masks(prefix_mask(p), q);
    law_prefix_is_unique(prefix_mask(p), p, q);
}

/// The prefix length of a mask.
fn prefix_len(mask: u32) -> (r: Option<u8>)
    ensures
        r == prefix_of(mask as int),
{
    let mut p: u8 = 0;
    let mut low: u64 = 0x1_0000_0000;
    proof {
        lemma2_to64();
    }
    while p <= 32
        invariant
            p <= 33,
            pow2(32) == 0x1_0000_0000,
            p <= 32 ==> low == pow2((32 - p) as nat),
            low <= 0x1_0000_0000,
            forall|q: int| 0 <= q < p ==> !#[trigger] masks(mask as int, q),
        decreases 33 - p,
    {
        if 0x1_0000_0000 - low == mask as u64 {
            proof {
                assert(masks(mask as int, p as int));
                let q = choose|q: int| #[trigger] masks(mask as int, q);
                law_prefix_is_unique(mask as int, p as int, q);
            }
            return Some(p);
        }
        assert(!masks(mask as int, p as int));
        proof {
            if p < 32 {
                lemma_pow2_unfold((32 - p) as nat);
            }
        }
        low = low / 2;
        p = p + 1;
    }
    None
}

/// Convert a dotted-decimal netmask to a CIDR prefix length.
pub fn mask_to_prefix(mask: &str) -> (r: Result<u8, MaskError>)
    ensures
        r == mask_prefix(mask@),
{
    let chars = chars_of(mask);
    let pieces = pieces_of(chars.as_slice(), '.');
    let ghost p = split_all(mask@, '.');
    let mut value: u64 = 0;
    let mut i: usize = 0;
    while i < pieces.len()
        invariant
            i <= pieces@.len(),
            texts(pieces@) == p,
            p == split_all(mask@, '.'),
            forall|j: int| 0 <= j < i ==> number(#[trigger] p[j], 10, 255) is Some,
            i <= 4 ==> value < pow2_8(i as int),
            i == 0 ==> value == 0,
            i == 1 ==> value == number(p[0], 10, 255)->0,
            i == 2 ==> value == number(p[0], 10, 255)->0 * 256 + number(p[1], 10, 255)->0,
            i == 3 ==> value == (number(p[0], 10, 255)->0 * 256 + number(p[1], 10, 255)->0) * 256
                + number(p[2], 10, 255)->0,
            i == 4 ==> value == ((number(p[0], 10, 255)->0 * 256 + number(p[1], 10, 255)->0) * 256
                + number(p[2], 10, 255)->0) * 256 + number(p[3], 10, 255)->0,
        decreases pieces@.len() - i,
    {
        assert(p[i as int] == pieces@[i as int]@);
        match parse_number(pieces[i], 10, 255) {
            Some(v) => {
                if i < 4 {
                    value = value * 256 + v;
                }
            },
            None => {
                return Err(MaskError::Format);
            },
        }
        i = i + 1;
    }
    if pieces.len() != 4 {
        return Err(MaskError::Count);
    }
    match prefix_len(value as u32) {
        Some(n) => Ok(n),
        None => Err(MaskError::NonContiguous),
    }
}

/// Two hundred and fifty-six to the power `i`, for the few `i` that matter here.
spec fn pow2_8(i: int) -> int {
    if i == 0 {
        1
    } else if i == 1 {
        0x100
    } else if i == 2 {
        0x1_0000
    } else if i == 3 {
        0x100_0000
    } else {
        0x1_0000_0000
    }
}

/// An attribute of an element.
pub struct XmlAttribute {
    pub namespace: Option<String>,
    pub name: String,
    pub value: String,
}

/// A node of a document. Nodes that are no elements have an empty tag.
pub struct XmlNode {
    pub tag: String,
    pub parent: Option<usize>,
    pub attributes: Vec<XmlAttribute>,
}

/// An attribute as plain values.
#[verifier::ext_equal]
pub struct AttributeView {
    pub namespace: Option<Seq<char>>,
    pub name: Seq<char>,
    pub value: Seq<char>,
}

/// A node as plain values.
#[verifier::ext_equal]
pub struct NodeView {
    pub tag: Seq<char>,
    pub parent: Option<usize>,
    pub attributes: Seq<AttributeView>,
}

impl DeepView for XmlAttribute {
    type V = AttributeView;

    open spec fn deep_view(&self) -> AttributeView {
        AttributeView {
            namespace: self.namespace.deep_view(),
            name: self.name@,
            value: self.value@,
        }
    }
}

impl DeepView for XmlNode {
    type V = NodeView;

    open spec fn deep_view(&self) -> NodeView {
        NodeView {
            tag: self.tag@,
            parent: self.parent,
            attributes: self.attributes.deep_view(),
        }
    }
}

/// The error of an XML parse, carried through as it is.
#[verifier::external_type_specification]
#[verifier::external_body]
pub struct ExXmlError(roxmltree::Error);

/// The nodes of the document that `xml` holds, in document order; `None` where it
/// holds none.
pub uninterp spec fn document_nodes(xml: Seq<char>) -> Option<Seq<NodeView>>;

/// `roxmltree::Document::parse` reads an XML document. Its nodes come in document
/// order, so that a parent is named by its position; of an element the local name
/// is kept, and its attributes in order, each with its namespace. The parser calls
/// itself for each level of nesting and sets no limit to that, so how deep a text
/// may nest rests on the stack.
#[verifier::external_body]
fn parse_document(xml: &str) -> (r: Result<Vec<XmlNode>, roxmltree::Error>)
    ensures
        match r {
            Ok(nodes) => document_nodes(xml@) == Some(nodes.deep_view()),
            Err(_) => document_nodes(xml@) is None,
        },
{
    let doc = roxmltree::Document::parse(xml)?;
    Ok(doc.descendants().map(|n| XmlNode {
        tag: n.tag_name().name().to_string(),
        parent: n.parent().map(|p| p.id().get_usize()),
        attributes: n.attributes().map(|a| XmlAttribute {
            namespace: a.namespace().map(str::to_string),
            name: a.name().to_string(),
            value: a.value().to_string(),
        }).collect(),
    }).collect())
}

/// Why a configuration gives no parameters.
#[derive(Debug)]
pub enum ParamsError {
    BadXml(roxmltree::Error),
    BadMask(MaskError),
}

/// The value of the attribute `name` that is in no namespace.
pub open spec fn attribute(attrs: Seq<AttributeView>, name: Seq<char>) -> Option<Seq<char>>
    decreases attrs.len(),
{
    if attrs.len() == 0 {
        None
    } else if attrs[0].namespace is None && attrs[0].name == name {
        Some(attrs[0].value)
    } else {
        attribute(attrs.drop_first(), name)
    }
}

/// The address that the attribute `name` holds.
pub open spec fn address_at(node: NodeView, name: Seq<char>) -> Option<Ipv4> {
    match attribute(node.attributes, name) {
        Some(text) => address(text),
        None => None,
    }
}

/// The DNS servers, in document order.
pub open spec fn dns_of(nodes: Seq<NodeView>) -> Seq<Ipv4>
    decreases nodes.len(),
{
    if nodes.len() == 0 {
        Seq::empty()
    } else {
        let before = dns_of(nodes.drop_last());
        match address_at(nodes.last(), "ip"@) {
            Some(a) => if nodes.last().tag == "dns"@ {
                before.push(a)
            } else {
                before
            },
            None => before,
        }
    }
}

/// The first search domain that is not empty.
pub open spec fn suffix_of(nodes: Seq<NodeView>) -> Option<Seq<char>>
    decreases nodes.len(),
{
    if nodes.len() == 0 {
        None
    } else {
        match suffix_of(nodes.drop_last()) {
            Some(s) => Some(s),
            None => match attribute(nodes.last().attributes, "domain"@) {
                Some(d) => if nodes.last().tag == "dns"@ && d.len() > 0 {
                    Some(d)
                } else {
                    None
                },
                None => None,
            },
        }
    }
}

/// The position of the first element with this tag, or the length.
pub open spec fn first_tagged(nodes: Seq<NodeView>, tag: Seq<char>) -> int
    decreases nodes.len(),
{
    if nodes.len() == 0 || nodes[0].tag == tag {
        0
    } else {
        1 + first_tagged(nodes.drop_first(), tag)
    }
}

/// The route that a child of the split-tunnel element asks for; `None` where it
/// asks for none.
pub open spec fn route_of(node: NodeView) -> Option<Result<Route, MaskError>> {
    match (address_at(node, "ip"@), attribute(node.attributes, "mask"@)) {
        (Some(dest), Some(mask)) => Some(
            match mask_prefix(mask) {
                Ok(prefix) => Ok(Route { dest, prefix }),
                Err(e) => Err(e),
            },
        ),
        _ => None,
    }
}

/// Whether a node is an address range of the split-tunnel element at `split`.
pub open spec fn is_range(node: NodeView, split: int) -> bool {
    node.tag == "addr"@ && (node.parent matches Some(p) && p == split)
}

/// The routes that the children of the element at `split` ask for, in document
/// order; the first bad netmask spoils them all.
pub open spec fn routes_of(nodes: Seq<NodeView>, split: int) -> Result<Seq<Route>, MaskError>
    decreases nodes.len(),
{
    if nodes.len() == 0 {
        Ok(Seq::empty())
    } else {
        match routes_of(nodes.drop_last(), split) {
            Err(e) => Err(e),
            Ok(before) => if is_range(nodes.last(), split) {
                match route_of(nodes.last()) {
                    Some(Ok(route)) => Ok(before.push(route)),
                    Some(Err(e)) => Err(e),
                    None => Ok(before),
                }
            } else {
                Ok(before)
            },
        }
    }
}

/// The parameters that a document gives.
pub open spec fn params_of(nodes: Seq<NodeView>) -> Result<ParamsView, MaskError> {
    let addr = first_tagged(nodes, "assigned-addr"@);
    let split = first_tagged(nodes, "split-tunnel-info"@);
    let routes = if split < nodes.len() {
        routes_of(nodes, split)
    } else {
        Ok(Seq::empty())
    };
    match routes {
        Err(e) => Err(e),
        Ok(routes) => Ok(
            ParamsView {
                assigned_addr: if addr < nodes.len() {
                    address_at(nodes[addr], "ipv4"@)
                } else {
                    None
                },
                dns: dns_of(nodes),
                dns_suffix: suffix_of(nodes),
                routes,
                mtu: None,
            },
        ),
    }
}

impl XmlNode {
    fn attribute(&self, name: &str) -> (r: Option<&str>)
        ensures
            match r {
                Some(v) => attribute(self.deep_view().attributes, name@) == Some(v@),
                None => attribute(self.deep_view().attributes, name@) is None,
            },
    {
        let ghost attrs = self.deep_view().attributes;
        let mut i: usize = 0;
        assert(attrs.skip(0) =~= attrs);
        while i < self.attributes.len()
            invariant
                i <= self.attributes@.len(),
                attrs == self.attributes.deep_view(),
                attribute(attrs, name@) == attribute(attrs.skip(i as int), name@),
            decreases self.attributes@.len() - i,
        {
            let a = &self.attributes[i];
            proof {
                assert(attrs.skip(i as int)[0] == a.deep_view());
                assert(attrs.skip(i as int).drop_first() =~= attrs.skip(i + 1));
            }
            if a.namespace.is_none() && str_same(a.name.as_str(), name) {
                return Some(a.value.as_str());
            }
            i = i + 1;
        }
        None
    }

    fn address_at(&self, name: &str) -> (r: Option<Ipv4>)
        ensures
            r == address_at(self.deep_view(), name@),
    {
        match self.attribute(name) {
            Some(text) => Ipv4::parse(text),
            None => None,
        }
    }

    fn has_tag(&self, tag: &str) -> (r: bool)
        ensures
            r == (self.deep_view().tag == tag@),
    {
        str_same(self.tag.as_str(), tag)
    }
}

fn find_tagged(nodes: &[XmlNode], tag: &str) -> (r: usize)
    ensures
        r == first_tagged(nodes.deep_view(), tag@),
        r <= nodes@.len(),
{
    let ghost all = nodes.deep_view();
    let mut i: usize = 0;
    assert(all.skip(0) =~= all);
    while i < nodes.len()
        invariant
            i <= nodes@.len(),
            all == nodes.deep_view(),
            first_tagged(all, tag@) == i + first_tagged(all.skip(i as int), tag@),
        decreases nodes@.len() - i,
    {
        proof {
            assert(all.skip(i as int)[0] == nodes@[i as int].deep_view());
            assert(all.skip(i as int).drop_first() =~= all.skip(i + 1));
        }
        if nodes[i].has_tag(tag) {
            return i;
        }
        i = i + 1;
    }
    i
}

/// The routes that the children of the element at `split` ask for.
fn read_routes(nodes: &[XmlNode], split: usize) -> (r: Result<Vec<Route>, MaskError>)
    ensures
        match routes_of(nodes.deep_view(), split as int) {
            Ok(routes) => r matches Ok(v) && v@ == routes,
            Err(e) => r == Err::<Vec<Route>, MaskError>(e),
        },
{
    let ghost all = nodes.deep_view();
    let mut routes: Vec<Route> = Vec::new();
    let mut i: usize = 0;
    proof {
        assert forall|k: int|
            0 <= k <= all.len() && routes_of(#[trigger] all.take(k), split as int) is Err implies routes_of(
            all,
            split as int,
        ) == routes_of(all.take(k), split as int) by {
            lemma_routes_error(all, k, split as int);
        }
    }
    while i < nodes.len()
        invariant
            i <= nodes@.len(),
            all == nodes.deep_view(),
            routes_of(all.take(i as int), split as int) == Ok::<Seq<Route>, MaskError>(routes@),
            forall|k: int|
                0 <= k <= all.len() && routes_of(#[trigger] all.take(k), split as int) is Err
                    ==> routes_of(all, split as int) == routes_of(all.take(k), split as int),
        decreases nodes@.len() - i,
    {
        let node = &nodes[i];
        proof {
            assert(all.take(i + 1).drop_last() =~= all.take(i as int));
            assert(all.take(i + 1).last() == node.deep_view());
        }
        let in_split: bool = match node.parent {
            Some(p) => p == split,
            None => false,
        };
        if in_split && node.has_tag("addr") {
            if let (Some(dest), Some(mask)) = (node.address_at("ip"), node.attribute("mask")) {
                match mask_to_prefix(mask) {
                    Ok(prefix) => routes.push(Route { dest, prefix }),
                    Err(e) => {
                        return Err(e);
                    },
                }
            }
        }
        i = i + 1;
    }
    assert(all.take(i as int) =~= all);
    Ok(routes)
}

/// A bad netmask spoils whatever follows it.
proof fn lemma_routes_error(all: Seq<NodeView>, k: int, split: int)
    requires
        0 <= k <= all.len(),
        routes_of(all.take(k), split) is Err,
    ensures
        routes_of(all, split) == routes_of(all.take(k), split),
    decreases all.len(),
{
    if k < all.len() {
        assert(all.drop_last().take(k) =~= all.take(k));
        lemma_routes_error(all.drop_last(), k, split);
    } else {
        assert(all.take(k) =~= all);
    }
}

/// The parameters that the nodes of a document give.
pub fn tunnel_params_from_nodes(nodes: &[XmlNode]) -> (r: Result<TunnelParams, MaskError>)
    ensures
        match params_of(nodes.deep_view()) {
            Ok(params) => r matches Ok(p) && p@ == params,
            Err(e) => r matches Err(x) && x == e,
        },
{
    let mut params = TunnelParams::default();
    let ghost all = nodes.deep_view();
    let mut i: usize = 0;
    assert(dns_of(all.take(0)) =~= Seq::<Ipv4>::empty());
    while i < nodes.len()
        invariant
            i <= nodes@.len(),
            all == nodes.deep_view(),
            params.dns@ == dns_of(all.take(i as int)),
            params.dns_suffix.deep_view() == suffix_of(all.take(i as int)),
            params.assigned_addr is None,
            params.routes@ == Seq::<Route>::empty(),
            params.mtu is None,
        decreases nodes@.len() - i,
    {
        let node = &nodes[i];
        proof {
            assert(all.take(i + 1).drop_last() =~= all.take(i as int));
            assert(all.take(i + 1).last() == node.deep_view());
        }
        if node.has_tag("dns") {
            if let Some(addr) = node.address_at("ip") {
                params.dns.push(addr);
            }
            if params.dns_suffix.is_none() {
                if let Some(domain) = node.attribute("domain") {
                    if !domain.is_empty() {
                        params.dns_suffix = Some(domain.to_owned());
                    }
                }
            }
        }
        i = i + 1;
    }
    assert(all.take(i as int) =~= all);

    let addr: usize = find_tagged(nodes, "assigned-addr");
    if addr < nodes.len() {
        assert(all[addr as int] == nodes@[addr as int].deep_view());
        params.assigned_addr = nodes[addr].address_at("ipv4");
    }
    let split: usize = find_tagged(nodes, "split-tunnel-info");
    if split < nodes.len() {
        match read_routes(nodes, split) {
            Ok(routes) => {
                params.routes = routes;
            },
            Err(e) => {
                return Err(e);
            },
        }
    }
    Ok(params)
}

/// The parameters that a configuration document gives.
pub fn parse_tunnel_params(xml: &str) -> (r: Result<TunnelParams, ParamsError>)
    ensures
        match document_nodes(xml@) {
            None => r matches Err(ParamsError::BadXml(_)),
            Some(nodes) => match params_of(nodes) {
                Ok(params) => r matches Ok(p) && p@ == params,
                Err(e) => r matches Err(ParamsError::BadMask(x)) && x == e,
            },
        },
{
    match parse_document(xml) {
        Err(e) => Err(ParamsError::BadXml(e)),
        Ok(nodes) => match tunnel_params_from_nodes(nodes.as_slice()) {
            Ok(params) => Ok(params),
            Err(e) => Err(ParamsError::BadMask(e)),
        },
    }
}

} // verus!
