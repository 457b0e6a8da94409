// SPDX-License-Identifier: GPL-3.0-or-later
//! What is done to the system for a tunnel, command by command, and what undoes it.

use crate::address::{address_text, Ipv4};
use crate::cli::ConfigView;
use crate::net::bsd;
use crate::net::linux;
use crate::net::linux::{DefaultRouteView, DnsBackend};
use crate::net::{
    full_tunnel, nameserver_lines, resolver_lines, taken, undos, wants_dns, ActionView, OnFailure,
    StepView,
};
use crate::number::decimal;
use crate::path::lossy_text;
use crate::provider::{cidr_text, ParamsView};
use vstd::prelude::*;
use vstd::utf8::encode_utf8;

verus! {

/// Running a program with arguments.
pub open spec fn run(program: Seq<char>, args: Seq<Seq<char>>) -> ActionView {
    ActionView::Run { program, args }
}

/// Four numbers with dots between them.
pub open spec fn dotted(x: Ipv4) -> Seq<char> {
    decimal(x.a as nat) + "."@ + decimal(x.b as nat) + "."@ + decimal(x.c as nat) + "."@ + decimal(
        x.d as nat,
    )
}

/// Addresses are four numbers with dots between them, ranges have a slash and the
/// prefix length behind that.
pub proof fn law_address_notation(x: Ipv4, prefix: u8)
    ensures
        address_text(x) == dotted(x),
        cidr_text(x, prefix) == dotted(x) + "/"@ + decimal(prefix as nat),
{
    reveal_strlit(".");
    reveal_strlit("/");
    assert("."@ =~= seq!['.']);
    assert("/"@ =~= seq!['/']);
}

/// The address goes to the interface unless somebody else owns it, with `ip addr`,
/// and is taken away again; without it there is no going on.
pub proof fn law_linux_address(p: ParamsView, ifname: Seq<char>, c: ConfigView)
    ensures
        ({
            let plan = linux::address_plan(p, ifname, c);
            match p.assigned_addr {
                Some(addr) => if c.set_ip {
                    let range = dotted(addr) + "/32"@;
                    &&& plan.len() == 1
                    &&& plan[0].action == run(
                        "ip"@,
                        seq!["addr"@, "add"@, range, "dev"@, ifname],
                    )
                    &&& plan[0].undo == Some(
                        run("ip"@, seq!["addr"@, "del"@, range, "dev"@, ifname]),
                    )
                    &&& plan[0].on_failure == OnFailure::Abort
                } else {
                    plan.len() == 0
                },
                None => plan.len() == 0,
            }
        }),
{
    if let Some(addr) = p.assigned_addr {
        lemma_host_range(addr);
    }
}

proof fn lemma_host_range(x: Ipv4)
    ensures
        cidr_text(x, 32) == dotted(x) + "/32"@,
{
    law_address_notation(x, 32);
    reveal_strlit("/");
    reveal_strlit("/32");
    reveal_with_fuel(decimal, 2);
    assert("/"@ + decimal(32) =~= "/32"@);
    assert(dotted(x) + "/"@ + decimal(32) =~= dotted(x) + ("/"@ + decimal(32)));
}

/// Every split-tunnel route is set, each by one command, in the order of the list,
/// and each is taken away again; one that fails does not keep the others back. On
/// Linux and on BSD.
pub proof fn law_every_route_is_set(
    p: ParamsView,
    ifname: Seq<char>,
    c: ConfigView,
    old: Option<DefaultRouteView>,
    old_bsd: Option<Seq<char>>,
    gateway: Option<Ipv4>,
    i: int,
)
    requires
        c.set_routes,
        p.routes.len() > 0,
        0 <= i < p.routes.len(),
    ensures
        ({
            let range = dotted(p.routes[i].dest) + "/"@ + decimal(p.routes[i].prefix as nat);
            let on_linux = linux::routes_plan(p, ifname, c, old, gateway);
            let on_bsd = bsd::routes_plan(p, ifname, c, old_bsd, gateway);
            &&& on_linux.len() == p.routes.len()
            &&& on_linux[i].action == run("ip"@, seq!["route"@, "add"@, range, "dev"@, ifname])
            &&& on_linux[i].undo == Some(
                run("ip"@, seq!["route"@, "del"@, range, "dev"@, ifname]),
            )
            &&& on_linux[i].on_failure == OnFailure::Warn
            &&& on_bsd.len() == p.routes.len()
            &&& on_bsd[i].action == run(
                "route"@,
                seq!["-n"@, "add"@, "-net"@, range, "-interface"@, ifname],
            )
            &&& on_bsd[i].undo == Some(run("route"@, seq!["-n"@, "delete"@, "-net"@, range]))
            &&& on_bsd[i].on_failure == OnFailure::Warn
        }),
{
    law_address_notation(p.routes[i].dest, p.routes[i].prefix);
}

/// Without routes of its own the tunnel takes everything, on Linux: the route to
/// the gateway is kept on the old default route, where both are known, and then
/// either the default route is replaced, to be put back as it was, or two halves
/// of the internet are routed.
pub proof fn law_linux_full_tunnel(
    p: ParamsView,
    ifname: Seq<char>,
    c: ConfigView,
    old: Option<DefaultRouteView>,
    gateway: Option<Ipv4>,
)
    requires
        c.set_routes,
        p.routes.len() == 0,
    ensures
        ({
            let plan = linux::routes_plan(p, ifname, c, old, gateway);
            let k: int = if old is Some && gateway is Some {
                1
            } else {
                0
            };
            let halves = seq!["0.0.0.0/1"@, "128.0.0.0/1"@];
            &&& k == 1 ==> {
                let host = dotted(gateway->0) + "/32"@;
                &&& plan[0].action == run(
                    "ip"@,
                    seq![
                        "route"@,
                        "add"@,
                        host,
                        "via"@,
                        dotted(old->0.gateway),
                        "dev"@,
                        old->0.iface,
                    ],
                )
                &&& plan[0].undo == Some(run("ip"@, seq!["route"@, "del"@, host]))
                &&& plan[0].on_failure == OnFailure::Warn
            }
            &&& c.half_internet_routes ==> {
                &&& plan.len() == k + 2
                &&& forall|j: int|
                    0 <= j < 2 ==> {
                        let step = #[trigger] plan[k + j];
                        &&& step.action == run(
                            "ip"@,
                            seq!["route"@, "add"@, halves[j], "dev"@, ifname],
                        )
                        &&& step.undo == Some(
                            run("ip"@, seq!["route"@, "del"@, halves[j], "dev"@, ifname]),
                        )
                        &&& step.on_failure == OnFailure::Ignore
                    }
            }
            &&& !c.half_internet_routes ==> {
                &&& plan.len() == k + 1
                &&& plan[k].action == run(
                    "ip"@,
                    seq!["route"@, "replace"@, "default"@, "dev"@, ifname],
                )
                &&& plan[k].on_failure == OnFailure::Abort
                &&& plan[k].undo == Some(
                    match old {
                        Some(route) => run(
                            "ip"@,
                            seq![
                                "route"@,
                                "replace"@,
                                "default"@,
                                "via"@,
                                dotted(route.gateway),
                                "dev"@,
                                route.iface,
                            ],
                        ),
                        None => run("ip"@, seq!["route"@, "del"@, "default"@]),
                    },
                )
            }
        }),
{
    if let Some(route) = old {
        law_address_notation(route.gateway, 32);
    }
    if let Some(x) = gateway {
        lemma_host_range(x);
    }
}

/// Without routes of its own the tunnel takes everything, on BSD: the route to the
/// gateway is kept on the old default route, where both are known, and then either
/// the default route is removed, to be put back whatever happens, and one through
/// the tunnel added, or two halves of the internet are routed.
pub proof fn law_bsd_full_tunnel(
    p: ParamsView,
    ifname: Seq<char>,
    c: ConfigView,
    old: Option<Seq<char>>,
    gateway: Option<Ipv4>,
)
    requires
        c.set_routes,
        p.routes.len() == 0,
    ensures
        ({
            let plan = bsd::routes_plan(p, ifname, c, old, gateway);
            let k: int = if old is Some && gateway is Some {
                1
            } else {
                0
            };
            let halves = seq!["0.0.0.0/1"@, "128.0.0.0/1"@];
            &&& plan.len() == k + 2
            &&& k == 1 ==> {
                let host = dotted(gateway->0);
                &&& plan[0].action == run("route"@, seq!["-n"@, "add"@, "-host"@, host, old->0])
                &&& plan[0].undo == Some(run("route"@, seq!["-n"@, "delete"@, "-host"@, host]))
                &&& plan[0].on_failure == OnFailure::Warn
            }
            &&& c.half_internet_routes ==> forall|j: int|
                0 <= j < 2 ==> {
                    let step = #[trigger] plan[k + j];
                    &&& step.action == run(
                        "route"@,
                        seq!["-n"@, "add"@, "-net"@, halves[j], "-interface"@, ifname],
                    )
                    &&& step.undo == Some(
                        run("route"@, seq!["-n"@, "delete"@, "-net"@, halves[j]]),
                    )
                    &&& step.on_failure == OnFailure::Ignore
                }
            &&& !c.half_internet_routes ==> {
                &&& plan[k].action == run("route"@, seq!["-n"@, "delete"@, "default"@])
                &&& plan[k].on_failure == OnFailure::Regardless
                &&& plan[k].undo == match old {
                    Some(gw) => Some(run("route"@, seq!["-n"@, "add"@, "default"@, gw])),
                    None => None,
                }
                &&& plan[k + 1].action == run(
                    "route"@,
                    seq!["-n"@, "add"@, "default"@, "-interface"@, ifname],
                )
                &&& plan[k + 1].on_failure == OnFailure::Abort
                &&& plan[k + 1].undo == Some(run("route"@, seq!["-n"@, "delete"@, "default"@]))
            }
        }),
{
    if let Some(x) = gateway {
        law_address_notation(x, 32);
    }
}

/// Routes are left alone where they are not ours to set; whether the tunnel takes
/// everything depends on there being no routes.
pub proof fn law_routes_are_ours(
    p: ParamsView,
    ifname: Seq<char>,
    c: ConfigView,
    old: Option<DefaultRouteView>,
    old_bsd: Option<Seq<char>>,
    gateway: Option<Ipv4>,
)
    ensures
        !c.set_routes ==> linux::routes_plan(p, ifname, c, old, gateway).len() == 0,
        !c.set_routes ==> bsd::routes_plan(p, ifname, c, old_bsd, gateway).len() == 0,
        full_tunnel(c, p) <==> c.set_routes && p.routes.len() == 0,
{
}

/// DNS is set where it is ours to set, pppd does not do so, and there is a server;
/// in no other case is it touched.
pub proof fn law_dns_is_ours(
    p: ParamsView,
    ifname: Seq<char>,
    c: ConfigView,
    backend: DnsBackend,
    original: Seq<u8>,
)
    ensures
        wants_dns(c, p) <==> c.set_dns && !c.pppd_use_peerdns && p.dns.len() > 0,
        (linux::dns_plan(p, ifname, c, backend, original).len() > 0) <==> c.set_dns
            && !c.pppd_use_peerdns && p.dns.len() > 0,
        (bsd::dns_plan(p, c, original).len() > 0) <==> c.set_dns && !c.pppd_use_peerdns
            && p.dns.len() > 0,
{
}

/// systemd-resolved is told every server, in order, and the search domain where
/// there is one; reverting the interface undoes both.
pub proof fn law_resolvectl(
    p: ParamsView,
    ifname: Seq<char>,
    c: ConfigView,
    original: Seq<u8>,
    i: int,
)
    requires
        c.set_dns,
        !c.pppd_use_peerdns,
        0 <= i < p.dns.len(),
    ensures
        ({
            let plan = linux::dns_plan(p, ifname, c, DnsBackend::Resolvectl, original);
            &&& plan[0].action is Run
            &&& plan[0].action->Run_program == "resolvectl"@
            &&& plan[0].action->Run_args.len() == p.dns.len() + 2
            &&& plan[0].action->Run_args[0] == "dns"@
            &&& plan[0].action->Run_args[1] == ifname
            &&& plan[0].action->Run_args[i + 2] == dotted(p.dns[i])
            &&& plan[0].undo == Some(run("resolvectl"@, seq!["revert"@, ifname]))
            &&& plan[0].on_failure == OnFailure::Abort
            &&& match p.dns_suffix {
                Some(domain) => {
                    &&& plan.len() == 2
                    &&& plan[1].action == run("resolvectl"@, seq!["domain"@, ifname, domain])
                    &&& plan[1].undo is None
                    &&& plan[1].on_failure == OnFailure::Ignore
                },
                None => plan.len() == 1,
            }
        }),
{
    law_address_notation(p.dns[i], 0);
}

/// The lines for the resolver: the search domain first, where there is one, then
/// one line for each server, in order.
pub proof fn law_resolver_lines(dns: Seq<Ipv4>, server: Ipv4, domain: Seq<char>)
    ensures
        resolver_lines(Seq::empty(), None) == Seq::<char>::empty(),
        resolver_lines(dns.push(server), None) == resolver_lines(dns, None) + "nameserver "@
            + dotted(server) + "\n"@,
        resolver_lines(dns, Some(domain)) == "search "@ + domain + "\n"@ + resolver_lines(
            dns,
            None,
        ),
{
    law_address_notation(server, 0);
    assert(dns.push(server).drop_last() =~= dns);
    assert(Seq::<char>::empty() + nameserver_lines(dns) =~= nameserver_lines(dns));
    assert(resolver_lines(dns.push(server), None) =~= nameserver_lines(dns) + "nameserver "@ + dotted(
        server,
    ) + "\n"@);
    assert(nameserver_lines(Seq::<Ipv4>::empty()) =~= Seq::<char>::empty());
}

/// Without systemd-resolved the lines go to resolvconf, to be deleted again, or in
/// front of what the resolver's file says, which is put back byte by byte.
pub proof fn law_resolver_backends(
    p: ParamsView,
    ifname: Seq<char>,
    c: ConfigView,
    original: Seq<u8>,
)
    requires
        c.set_dns,
        !c.pppd_use_peerdns,
        p.dns.len() > 0,
    ensures
        ({
            let text = resolver_lines(p.dns, p.dns_suffix);
            let conf = linux::dns_plan(p, ifname, c, DnsBackend::Resolvconf, original);
            let file = linux::dns_plan(p, ifname, c, DnsBackend::File, original);
            &&& conf.len() == 1
            &&& conf[0].action == (ActionView::Feed {
                program: "resolvconf"@,
                args: seq!["-a"@, ifname],
                input: text,
            })
            &&& conf[0].undo == Some(run("resolvconf"@, seq!["-d"@, ifname]))
            &&& conf[0].on_failure == OnFailure::Abort
            &&& file.len() == 1
            &&& file[0].action == (ActionView::Write {
                path: "/etc/resolv.conf"@,
                contents: encode_utf8(text + lossy_text(original)),
            })
            &&& file[0].undo == Some(
                ActionView::Write { path: "/etc/resolv.conf"@, contents: original },
            )
            &&& file[0].on_failure == OnFailure::Abort
            &&& bsd::dns_plan(p, c, original) == file
        }),
{
}

/// resolvconf is used where it is there and either preferred or all there is,
/// systemd-resolved where it is there otherwise, and the file where neither is.
pub proof fn law_dns_backend(c: ConfigView)
    ensures
        linux::dns_backend(c, false, false) == DnsBackend::File,
        linux::dns_backend(c, true, false) == DnsBackend::Resolvconf,
        linux::dns_backend(c, false, true) == DnsBackend::Resolvectl,
        linux::dns_backend(c, true, true) == if c.use_resolvconf {
            DnsBackend::Resolvconf
        } else {
            DnsBackend::Resolvectl
        },
{
}

/// Addresses come before routes and routes before DNS; nothing else is done.
pub proof fn law_linux_plan(
    p: ParamsView,
    ifname: Seq<char>,
    c: ConfigView,
    old: Option<DefaultRouteView>,
    gateway: Option<Ipv4>,
    backend: DnsBackend,
    file: Seq<u8>,
)
    ensures
        ({
            let all = linux::network_plan(p, ifname, c, old, gateway, backend, file);
            let a = linux::address_plan(p, ifname, c);
            let b = linux::routes_plan(p, ifname, c, old, gateway);
            let d = linux::dns_plan(p, ifname, c, backend, file);
            &&& all.len() == a.len() + b.len() + d.len()
            &&& all.subrange(0, a.len() as int) == a
            &&& all.subrange(a.len() as int, (a.len() + b.len()) as int) == b
            &&& all.subrange((a.len() + b.len()) as int, all.len() as int) == d
        }),
{
    let all = linux::network_plan(p, ifname, c, old, gateway, backend, file);
    let a = linux::address_plan(p, ifname, c);
    let b = linux::routes_plan(p, ifname, c, old, gateway);
    let d = linux::dns_plan(p, ifname, c, backend, file);
    assert(all.subrange(0, a.len() as int) =~= a);
    assert(all.subrange(a.len() as int, (a.len() + b.len()) as int) =~= b);
    assert(all.subrange((a.len() + b.len()) as int, all.len() as int) =~= d);
}

/// A step that succeeded is undone, one that failed is not, unless it is undone
/// regardless; a failure ends the work only where it says so. What was to be
/// undone before stays, and comes last.
pub proof fn law_undo(step: StepView, ok: bool, rest: Seq<StepView>, oks: Seq<bool>)
    ensures
        ({
            let register = step.undo is Some && (ok || step.on_failure == OnFailure::Regardless);
            let ends = !ok && step.on_failure == OnFailure::Abort;
            let first = if register {
                seq![step.undo->0]
            } else {
                Seq::empty()
            };
            undos(seq![step] + rest, seq![ok] + oks) == if ends {
                first
            } else {
                first + undos(rest, oks)
            }
        }),
        undos(Seq::empty(), oks) == Seq::<ActionView>::empty(),
        undos(rest, Seq::empty()) == Seq::<ActionView>::empty(),
{
    let (steps, outcomes) = (seq![step] + rest, seq![ok] + oks);
    assert(steps.drop_first() =~= rest);
    assert(outcomes.drop_first() =~= oks);
    assert(steps[0] == step && outcomes[0] == ok);
}

/// Undoing takes the actions in reverse, and all of them.
pub proof fn law_taken(pending: Seq<ActionView>, i: int)
    requires
        0 <= i < pending.len(),
    ensures
        taken(pending).len() == pending.len(),
        taken(pending)[i] == pending[pending.len() - 1 - i],
{
    crate::net::law_cleanups_run_in_reverse(pending);
}

} // verus!
