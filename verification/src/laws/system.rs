// SPDX-License-Identifier: GPL-3.0-or-later
//! Reading the state of the host: its default route and its interfaces.

use crate::address::Ipv4;
use crate::net::{after_looks, bsd, linux, looks, IfaceWait};
use crate::net::linux::DefaultRouteView;
use crate::number::{law_number_is_in_range, number};
use crate::text::{lines, occurs, words};
use vstd::prelude::*;

verus! {

/// A line of the kernel's routing table describes a default route if it has all its
/// columns, goes to anywhere and is flagged as going through a gateway. The gateway
/// is the address whose bytes the column holds, the first in the lowest place; the
/// interface is the first column.
pub proof fn law_linux_default_line(line: Seq<char>, r: DefaultRouteView)
    ensures
        ({
            let f = words(line);
            let gateway = number(f[2], 16, 0xffff_ffff);
            let flags = number(f[3], 16, 0xffff_ffff);
            linux::default_on(line) == Some(r) <==> {
                &&& f.len() >= 8
                &&& f[1] == "00000000"@
                &&& flags is Some && flags->0 / 2 % 2 == 1
                &&& gateway == Some(
                    r.gateway.a + 0x100 * r.gateway.b + 0x1_0000 * r.gateway.c + 0x100_0000
                        * r.gateway.d,
                )
                &&& r.iface == f[0]
            }
        }),
{
    let f = words(line);
    law_number_is_in_range(f[2], 16, 0xffff_ffff);
    law_number_is_in_range(f[3], 16, 0xffff_ffff);
    if let Some(gw) = number(f[2], 16, 0xffff_ffff) {
        lemma_four_bytes(gw, r.gateway);
    }
}

/// Four bytes are found again in the number that they make up.
proof fn lemma_four_bytes(n: int, g: Ipv4)
    requires
        0 <= n <= 0xffff_ffff,
    ensures
        n == g.a + 0x100 * g.b + 0x1_0000 * g.c + 0x100_0000 * g.d <==> {
            &&& g.a == n % 256
            &&& g.b == n / 256 % 256
            &&& g.c == n / 65536 % 256
            &&& g.d == n / 16777216 % 256
        },
{
    let n1 = n / 256;
    let n2 = n1 / 256;
    let n3 = n2 / 256;
    assert(n2 == n / 65536);
    assert(n3 == n / 16777216);
    assert(n3 % 256 == n3);
    if n == g.a + 0x100 * g.b + 0x1_0000 * g.c + 0x100_0000 * g.d {
        assert(n1 == g.b + 0x100 * g.c + 0x1_0000 * g.d);
        assert(n2 == g.c + 0x100 * g.d);
        assert(n3 == g.d);
    }
}

/// The default route is the one of the first line behind the header that describes
/// any.
pub proof fn law_linux_default_route(
    content: Seq<char>,
    header: Seq<char>,
    before: Seq<Seq<char>>,
    line: Seq<char>,
    after: Seq<Seq<char>>,
)
    requires
        forall|i: int| 0 <= i < before.len() ==> linux::default_on(#[trigger] before[i]) is None,
    ensures
        lines(content) == seq![header] + before + seq![line] + after && linux::default_on(line)
            is Some ==> linux::default_route(content) == linux::default_on(line),
        lines(content) == seq![header] + before ==> linux::default_route(content) is None,
        lines(content).len() == 0 ==> linux::default_route(content) is None,
{
    if lines(content) == seq![header] + before + seq![line] + after {
        assert(lines(content).drop_first() =~= before + seq![line] + after);
        lemma_linux_first(before, seq![line] + after);
        assert(before + (seq![line] + after) =~= before + seq![line] + after);
        assert((seq![line] + after)[0] == line);
    }
    if lines(content) == seq![header] + before {
        assert(lines(content).drop_first() =~= before + Seq::empty());
        lemma_linux_first(before, Seq::empty());
    }
}

proof fn lemma_linux_first(before: Seq<Seq<char>>, rest: Seq<Seq<char>>)
    requires
        forall|i: int| 0 <= i < before.len() ==> linux::default_on(#[trigger] before[i]) is None,
    ensures
        linux::first_default(before + rest) == linux::first_default(rest),
    decreases before.len(),
{
    if before.len() == 0 {
        assert(before + rest =~= rest);
    } else {
        assert((before + rest)[0] == before[0]);
        assert((before + rest).drop_first() =~= before.drop_first() + rest);
        lemma_linux_first(before.drop_first(), rest);
    }
}

/// A line of `netstat -rn` describes the default route if it starts with the word
/// for it and has four columns; the gateway is the second.
pub proof fn law_bsd_default_line(line: Seq<char>)
    ensures
        ({
            let f = words(line);
            let found = bsd::default_on(line);
            &&& found is Some <==> f.len() >= 4 && f[0] == "default"@
            &&& found is Some ==> (found->0).0 == f[1]
        }),
{
}

/// The interface is the first column behind the gateway with a digit and no dot in
/// it, or the last column if none is like that.
pub proof fn law_bsd_interface(line: Seq<char>, n: int)
    requires
        words(line).len() >= 4,
        words(line)[0] == "default"@,
        2 <= n <= words(line).len(),
        forall|j: int, k: int|
            2 <= j < n && 0 <= k < words(line)[j].len() && '0' <= (#[trigger] words(line)[j][k])
                && words(line)[j][k] <= '9' ==> words(line)[j].contains('.'),
    ensures
        ({
            let f = words(line);
            let iface = (bsd::default_on(line)->0).1;
            &&& n == f.len() ==> iface == f[f.len() - 1]
            &&& n < f.len() && !f[n].contains('.') && (exists|k: int|
                0 <= k < f[n].len() && '0' <= (#[trigger] f[n][k]) && f[n][k] <= '9') ==> iface
                == f[n]
        }),
{
    let f = words(line);
    lemma_skips(f, 2, n);
    if n < f.len() && !f[n].contains('.') && (exists|k: int|
        0 <= k < f[n].len() && '0' <= (#[trigger] f[n][k]) && f[n][k] <= '9') {
        assert forall|i: int| 0 <= i < f[n].len() implies #[trigger] f[n][i] != '.' by {
            assert(f[n].contains(f[n][i]));
        }
        assert(bsd::names_iface(f[n]));
    }
}

proof fn lemma_skips(f: Seq<Seq<char>>, from: int, n: int)
    requires
        2 <= from <= n <= f.len(),
        forall|j: int, k: int|
            2 <= j < n && 0 <= k < f[j].len() && '0' <= (#[trigger] f[j][k]) && f[j][k] <= '9'
                ==> f[j].contains('.'),
    ensures
        bsd::iface_column(f, from) == bsd::iface_column(f, n),
    decreases n - from,
{
    if from < n {
        if bsd::names_iface(f[from]) {
            let k = choose|i: int| 0 <= i < f[from].len() && '0' <= #[trigger] f[from][i] <= '9';
            assert(f[from].contains('.'));
            let d = choose|i: int| 0 <= i < f[from].len() && f[from][i] == '.';
            assert(f[from][d] == '.');
        }
        lemma_skips(f, from + 1, n);
    }
}

/// The default route is that of the first line that describes it.
pub proof fn law_bsd_default_route(before: Seq<Seq<char>>, line: Seq<char>, after: Seq<Seq<char>>)
    requires
        forall|i: int| 0 <= i < before.len() ==> bsd::default_on(#[trigger] before[i]) is None,
    ensures
        bsd::default_on(line) is Some ==> bsd::first_default(before + seq![line] + after)
            == bsd::default_on(line),
        bsd::first_default(before) is None,
    decreases before.len(),
{
    let whole = before + seq![line] + after;
    if before.len() == 0 {
        assert(whole[0] == line);
    } else {
        assert(whole[0] == before[0]);
        assert(whole.drop_first() =~= before.drop_first() + seq![line] + after);
        law_bsd_default_route(before.drop_first(), line, after);
    }
}

/// An interface is up where the tools of the platform say so in these words.
pub proof fn law_interface_is_up(s: Seq<char>)
    ensures
        occurs(s, "state UP"@) ==> linux::link_up(s),
        occurs(s, "state UNKNOWN"@) && occurs(s, "UP"@) && occurs(s, "LOWER_UP"@)
            ==> linux::link_up(s),
        !occurs(s, "state UP"@) && !occurs(s, "state UNKNOWN"@) ==> !linux::link_up(s),
        !occurs(s, "state UP"@) && !occurs(s, "LOWER_UP"@) ==> !linux::link_up(s),
        bsd::iface_up(s) <==> occurs(s, "inet "@) && (occurs(s, "RUNNING"@) || occurs(s, "UP"@)),
{
}

/// An interface is looked at once every half second of the time there is, and at
/// least once. The first look that shows it up ends the wait well, whatever comes
/// after.
pub proof fn law_interface_wait(
    timeout_ms: u64,
    downs: Seq<bool>,
    rest: Seq<bool>,
)
    requires
        forall|i: int| 0 <= i < downs.len() ==> !#[trigger] downs[i],
    ensures
        timeout_ms < 1000 ==> looks(timeout_ms) == 1,
        timeout_ms >= 500 ==> 500 * looks(timeout_ms) <= timeout_ms && timeout_ms < 500 * looks(
            timeout_ms,
        ) + 500,
        ({
            let start = IfaceWait::Again { left: looks(timeout_ms) as u64 };
            &&& downs.len() < looks(timeout_ms) ==> after_looks(start, downs + seq![true] + rest)
                == IfaceWait::Ready
            &&& downs.len() >= looks(timeout_ms) ==> after_looks(start, downs + rest)
                == IfaceWait::TimedOut
        }),
{
    let start = IfaceWait::Again { left: looks(timeout_ms) as u64 };
    crate::net::law_wait_is_bounded(looks(timeout_ms) as u64, downs);
    assert((downs + seq![true]).drop_last() =~= downs);
    assert((downs + seq![true]).last());
    if downs.len() < looks(timeout_ms) {
        lemma_over(start, downs + seq![true], rest);
    } else {
        lemma_over(start, downs, rest);
    }
}

proof fn lemma_over(w: IfaceWait, first: Seq<bool>, rest: Seq<bool>)
    requires
        !(after_looks(w, first) is Again),
    ensures
        after_looks(w, first + rest) == after_looks(w, first),
    decreases rest.len(),
{
    if rest.len() == 0 {
        assert(first + rest =~= first);
    } else {
        lemma_over(w, first, rest.drop_last());
        assert((first + rest).drop_last() =~= first + rest.drop_last());
    }
}

} // verus!
