// SPDX-License-Identifier: GPL-3.0-or-later
//! BSD and macOS network configuration (`route`, `netstat`, `ifconfig`).
//!
//! Addressing is left to the `ppp` daemon, which negotiates it over IPCP, so this
//! backend configures routes and DNS.

use crate::address::{address_text, Ipv4};
use crate::cli::{Config, ConfigView};
use crate::net::{
    command, full_tunnel, resolver_file, resolver_file_step, runs, strs, undos, views, wants_dns, Action,
    ActionView, OnFailure, Step, StepView,
};
use crate::provider::{cidr, cidr_text, ParamsView, Route, TunnelParams};
use crate::text::{
    chars_of, contains, lines, lines_of, occurs, reads, string_of, texts, words, words_of,
};
use vstd::prelude::*;
use vstd::string::StringExecFns;

verus! {

/// A default route: the gateway it goes through, on which interface.
pub struct DefaultGateway {
    pub gateway: String,
    pub iface: String,
}

/// The default route as plain values, where there is one.
pub open spec fn maybe_gateway(g: Option<DefaultGateway>) -> Option<(Seq<char>, Seq<char>)> {
    match g {
        Some(g) => Some((g.gateway@, g.iface@)),
        None => None,
    }
}

/// The gateway of the default route, where there is one.
pub open spec fn old_gateway(g: Option<DefaultGateway>) -> Option<Seq<char>> {
    match g {
        Some(g) => Some(g.gateway@),
        None => None,
    }
}

/// Running the `route` command.
pub open spec fn route(args: Seq<Seq<char>>) -> ActionView {
    runs("route"@, args)
}

fn run_route(args: &[&str]) -> (r: Action)
    ensures
        r@ == route(strs(args@)),
{
    command("route", args)
}

/// Adding a network route through the tunnel.
pub open spec fn net_step(
    cidr: Seq<char>,
    ifname: Seq<char>,
    on_failure: OnFailure,
) -> StepView {
    StepView {
        action: route(seq!["-n"@, "add"@, "-net"@, cidr, "-interface"@, ifname]),
        undo: Some(route(seq!["-n"@, "delete"@, "-net"@, cidr])),
        on_failure,
        context: "adding route "@ + cidr,
    }
}

/// Keeping encrypted traffic to the gateway on the old default route.
pub open spec fn protect_step(old: Seq<char>, gateway: Ipv4) -> StepView {
    let host = address_text(gateway);
    StepView {
        action: route(seq!["-n"@, "add"@, "-host"@, host, old]),
        undo: Some(route(seq!["-n"@, "delete"@, "-host"@, host])),
        on_failure: OnFailure::Warn,
        context: "protecting gateway route "@ + host,
    }
}

/// Removing the default route. Where there was one it is put back later, whether
/// removing it succeeded or not.
pub open spec fn remove_default_step(old: Option<Seq<char>>) -> StepView {
    StepView {
        action: route(seq!["-n"@, "delete"@, "default"@]),
        undo: match old {
            Some(gw) => Some(route(seq!["-n"@, "add"@, "default"@, gw])),
            None => None,
        },
        on_failure: OnFailure::Regardless,
        context: "removing the default route"@,
    }
}

/// Adding a default route through the tunnel.
pub open spec fn redirect_step(ifname: Seq<char>) -> StepView {
    StepView {
        action: route(seq!["-n"@, "add"@, "default"@, "-interface"@, ifname]),
        undo: Some(route(seq!["-n"@, "delete"@, "default"@])),
        on_failure: OnFailure::Abort,
        context: "redirecting default route through the tunnel"@,
    }
}

/// Protecting the route to the gateway, where both it and the old default route
/// are known.
pub open spec fn protect_plan(old: Option<Seq<char>>, gateway: Option<Ipv4>) -> Seq<StepView> {
    match (old, gateway) {
        (Some(old), Some(gateway)) => seq![protect_step(old, gateway)],
        _ => Seq::empty(),
    }
}

/// Sending everything through the tunnel: by two half-internet routes, or by the
/// default route.
pub open spec fn redirect_plan(
    ifname: Seq<char>,
    c: ConfigView,
    old: Option<Seq<char>>,
) -> Seq<StepView> {
    if c.half_internet_routes {
        seq![
            net_step("0.0.0.0/1"@, ifname, OnFailure::Ignore),
            net_step("128.0.0.0/1"@, ifname, OnFailure::Ignore),
        ]
    } else {
        seq![remove_default_step(old), redirect_step(ifname)]
    }
}

/// Full-tunnel mode: the route to the gateway first, then everything else.
pub open spec fn full_tunnel_plan(
    ifname: Seq<char>,
    c: ConfigView,
    old: Option<Seq<char>>,
    gateway: Option<Ipv4>,
) -> Seq<StepView> {
    protect_plan(old, gateway) + redirect_plan(ifname, c, old)
}

/// The routes to set, if it is ours to do so: the split-tunnel routes, or all.
pub open spec fn routes_plan(
    p: ParamsView,
    ifname: Seq<char>,
    c: ConfigView,
    old: Option<Seq<char>>,
    gateway: Option<Ipv4>,
) -> Seq<StepView> {
    if !c.set_routes {
        Seq::empty()
    } else if p.routes.len() == 0 {
        full_tunnel_plan(ifname, c, old, gateway)
    } else {
        p.routes.map_values(
            |r: Route| net_step(cidr_text(r.dest, r.prefix), ifname, OnFailure::Warn),
        )
    }
}

/// The DNS servers to set, if it is ours to do so.
pub open spec fn dns_plan(p: ParamsView, c: ConfigView, original: Seq<u8>) -> Seq<StepView> {
    if wants_dns(c, p) {
        seq![resolver_file_step(p, original)]
    } else {
        Seq::empty()
    }
}

fn add_net(cidr: &str, ifname: &str, on_failure: OnFailure) -> (r: Step)
    ensures
        r@ == net_step(cidr@, ifname@, on_failure),
{
    let add = ["-n", "add", "-net", cidr, "-interface", ifname];
    let del = ["-n", "delete", "-net", cidr];
    proof {
        assert(strs(add@) =~= seq!["-n"@, "add"@, "-net"@, cidr@, "-interface"@, ifname@]);
        assert(strs(del@) =~= seq!["-n"@, "delete"@, "-net"@, cidr@]);
    }
    Step {
        action: run_route(add.as_slice()),
        undo: Some(run_route(del.as_slice())),
        on_failure,
        context: "adding route ".to_owned().concat(cidr),
    }
}

fn protect(old: &str, gateway: Ipv4) -> (r: Step)
    ensures
        r@ == protect_step(old@, gateway),
{
    let host = gateway.text();
    let add = ["-n", "add", "-host", host.as_str(), old];
    let del = ["-n", "delete", "-host", host.as_str()];
    proof {
        assert(strs(add@) =~= seq!["-n"@, "add"@, "-host"@, host@, old@]);
        assert(strs(del@) =~= seq!["-n"@, "delete"@, "-host"@, host@]);
    }
    Step {
        action: run_route(add.as_slice()),
        undo: Some(run_route(del.as_slice())),
        on_failure: OnFailure::Warn,
        context: "protecting gateway route ".to_owned().concat(host.as_str()),
    }
}

fn remove_default(old: &Option<DefaultGateway>) -> (r: Step)
    ensures
        r@ == remove_default_step(old_gateway(*old)),
{
    let del = ["-n", "delete", "default"];
    assert(strs(del@) =~= seq!["-n"@, "delete"@, "default"@]);
    let undo = match old {
        Some(old) => {
            let add = ["-n", "add", "default", old.gateway.as_str()];
            assert(strs(add@) =~= seq!["-n"@, "add"@, "default"@, old.gateway@]);
            Some(run_route(add.as_slice()))
        },
        None => None,
    };
    Step {
        action: run_route(del.as_slice()),
        undo,
        on_failure: OnFailure::Regardless,
        context: "removing the default route".to_owned(),
    }
}

fn redirect(ifname: &str) -> (r: Step)
    ensures
        r@ == redirect_step(ifname@),
{
    let add = ["-n", "add", "default", "-interface", ifname];
    let del = ["-n", "delete", "default"];
    proof {
        assert(strs(add@) =~= seq!["-n"@, "add"@, "default"@, "-interface"@, ifname@]);
        assert(strs(del@) =~= seq!["-n"@, "delete"@, "default"@]);
    }
    Step {
        action: run_route(add.as_slice()),
        undo: Some(run_route(del.as_slice())),
        on_failure: OnFailure::Abort,
        context: "redirecting default route through the tunnel".to_owned(),
    }
}

/// Full-tunnel mode: protect the route to the VPN gateway, then redirect the
/// default route, or add the two half-internet routes, through the tunnel.
pub fn apply_full_tunnel(
    ifname: &str,
    config: &Config,
    old: &Option<DefaultGateway>,
    gateway: Option<Ipv4>,
) -> (r: Vec<Step>)
    ensures
        views(r@) == full_tunnel_plan(ifname@, config@, old_gateway(*old), gateway),
{
    let mut steps: Vec<Step> = Vec::new();
    if let (Some(old), Some(gateway)) = (old, gateway) {
        steps.push(protect(old.gateway.as_str(), gateway));
    }
    assert(views(steps@) =~= protect_plan(old_gateway(*old), gateway));
    let ghost before = views(steps@);
    if config.half_internet_routes {
        steps.push(add_net("0.0.0.0/1", ifname, OnFailure::Ignore));
        steps.push(add_net("128.0.0.0/1", ifname, OnFailure::Ignore));
    } else {
        steps.push(remove_default(old));
        steps.push(redirect(ifname));
    }
    assert(views(steps@) =~= before + redirect_plan(ifname@, config@, old_gateway(*old)));
    steps
}

/// The BSD and macOS backend.
pub struct BsdNet;

impl BsdNet {
    /// Whether the default route and the gateway's address have to be known to
    /// plan the routes.
    pub fn is_full_tunnel(&self, params: &TunnelParams, config: &Config) -> (r: bool)
        ensures
            r == full_tunnel(config@, params@),
    {
        config.set_routes && params.routes.len() == 0
    }

    /// How to set the routes. `old` is the default route and `gateway` the VPN
    /// gateway's address, as far as they are known.
    pub fn route_steps(
        &self,
        params: &TunnelParams,
        ifname: &str,
        config: &Config,
        old: &Option<DefaultGateway>,
        gateway: Option<Ipv4>,
    ) -> (r: Vec<Step>)
        ensures
            views(r@) == routes_plan(params@, ifname@, config@, old_gateway(*old), gateway),
    {
        let mut steps: Vec<Step> = Vec::new();
        if !config.set_routes {
            assert(views(steps@) =~= Seq::<StepView>::empty());
            return steps;
        }
        if params.routes.len() == 0 {
            return apply_full_tunnel(ifname, config, old, gateway);
        }
        let ghost f = |r: Route| net_step(cidr_text(r.dest, r.prefix), ifname@, OnFailure::Warn);
        let ghost plan = params.routes@.map_values(f);
        let mut i: usize = 0;
        while i < params.routes.len()
            invariant
                i <= params.routes@.len(),
                plan == params.routes@.map_values(f),
                f == (|r: Route|
                    net_step(cidr_text(r.dest, r.prefix), ifname@, OnFailure::Warn)),
                views(steps@) =~= plan.take(i as int),
            decreases params.routes@.len() - i,
        {
            let ghost before = views(steps@);
            let r = params.routes[i];
            let cidr = cidr(r.dest, r.prefix);
            let step = add_net(cidr.as_str(), ifname, OnFailure::Warn);
            steps.push(step);
            proof {
                assert(views(steps@) =~= before.push(step@));
                assert(plan[i as int] == step@);
            }
            i = i + 1;
        }
        assert(plan.take(i as int) =~= plan);
        steps
    }

    /// Whether there is DNS to configure.
    pub fn wants_dns(&self, params: &TunnelParams, config: &Config) -> (r: bool)
        ensures
            r == wants_dns(config@, params@),
    {
        config.set_dns && !config.pppd_use_peerdns && params.dns.len() > 0
    }

    /// How to set the DNS servers. `original` is what the resolver's configuration
    /// file holds.
    pub fn dns_steps(&self, params: &TunnelParams, config: &Config, original: Vec<u8>) -> (r: Vec<
        Step,
    >)
        ensures
            views(r@) == dns_plan(params@, config@, original@),
    {
        let mut steps: Vec<Step> = Vec::new();
        if self.wants_dns(params, config) {
            steps.push(resolver_file(params, original));
        }
        assert(views(steps@) =~= dns_plan(params@, config@, original@));
        steps
    }
}

/// What has to be known of the system to configure it: the default route and the
/// VPN gateway's address for a full tunnel, what the resolver's configuration file
/// holds for DNS. What is not needed may be left out.
pub struct NetFacts {
    pub old: Option<DefaultGateway>,
    pub gateway: Option<Ipv4>,
    pub resolv_conf: Vec<u8>,
}

impl BsdNet {
    /// How to configure the network for the tunnel, in order: routes, then DNS.
    pub fn apply(
        &self,
        params: &TunnelParams,
        ifname: &str,
        config: &Config,
        facts: NetFacts,
    ) -> (r: Vec<Step>)
        ensures
            views(r@) == routes_plan(
                params@,
                ifname@,
                config@,
                old_gateway(facts.old),
                facts.gateway,
            ) + dns_plan(params@, config@, facts.resolv_conf@),
    {
        let mut steps = self.route_steps(params, ifname, config, &facts.old, facts.gateway);
        let mut dns = self.dns_steps(params, config, facts.resolv_conf);
        let ghost (a, b) = (steps@, dns@);
        steps.append(&mut dns);
        assert(views(steps@) =~= views(a) + views(b));
        steps
    }
}

/// The tunnel never swallows its own transport: where the old default route and
/// the gateway's address are known, the route to the gateway is protected before
/// anything is sent through the tunnel.
pub proof fn law_gateway_is_protected_first(
    ifname: Seq<char>,
    c: ConfigView,
    old: Seq<char>,
    gateway: Ipv4,
)
    ensures
        ({
            let plan = full_tunnel_plan(ifname, c, Some(old), Some(gateway));
            &&& plan.len() > 1
            &&& plan[0] == protect_step(old, gateway)
            &&& plan.skip(1) == redirect_plan(ifname, c, Some(old))
        }),
{
    let plan = full_tunnel_plan(ifname, c, Some(old), Some(gateway));
    assert(plan.skip(1) =~= redirect_plan(ifname, c, Some(old)));
}

/// Whatever fails on the way, the old default route is put back, and that is the
/// last of what redirecting has to undo.
pub proof fn law_default_route_comes_back(
    ifname: Seq<char>,
    c: ConfigView,
    old: Seq<char>,
    ok: Seq<bool>,
)
    requires
        !c.half_internet_routes,
        ok.len() > 0,
    ensures
        ({
            let left = undos(redirect_plan(ifname, c, Some(old)), ok);
            left.len() > 0 && left[0] == route(seq!["-n"@, "add"@, "default"@, old])
        }),
{
}

/// Every change has an undo, except that where no default route is known there is
/// none to put back.
pub proof fn law_every_step_has_an_undo(
    p: ParamsView,
    ifname: Seq<char>,
    c: ConfigView,
    old: Option<Seq<char>>,
    gateway: Option<Ipv4>,
    original: Seq<u8>,
    i: int,
)
    ensures
        0 <= i < routes_plan(p, ifname, c, old, gateway).len() ==> routes_plan(
            p,
            ifname,
            c,
            old,
            gateway,
        )[i].undo is Some || (old is None && routes_plan(p, ifname, c, old, gateway)[i]
            == remove_default_step(None)),
        0 <= i < dns_plan(p, c, original).len() ==> dns_plan(p, c, original)[i].undo is Some,
{
}

/// Nothing is changed that the user has reserved for an external manager.
pub proof fn law_delegated_is_left_alone(
    p: ParamsView,
    ifname: Seq<char>,
    c: ConfigView,
    old: Option<Seq<char>>,
    gateway: Option<Ipv4>,
    original: Seq<u8>,
)
    ensures
        !c.set_routes ==> routes_plan(p, ifname, c, old, gateway).len() == 0,
        !c.set_dns || c.pppd_use_peerdns ==> dns_plan(p, c, original).len() == 0,
{
}

/// Whether a column looks like the name of an interface: a digit in it and no
/// dot.
pub open spec fn names_iface(s: Seq<char>) -> bool {
    (exists|i: int| 0 <= i < s.len() && '0' <= #[trigger] s[i] <= '9') && forall|i: int|
        0 <= i < s.len() ==> #[trigger] s[i] != '.'
}

/// The first column from `from` on that names an interface, else the last column.
pub open spec fn iface_column(f: Seq<Seq<char>>, from: int) -> Seq<char>
    decreases f.len() - from,
{
    if from >= f.len() {
        f.last()
    } else if names_iface(f[from]) {
        f[from]
    } else {
        iface_column(f, from + 1)
    }
}

/// The default route that a line of `netstat -rn` describes.
pub open spec fn default_on(line: Seq<char>) -> Option<(Seq<char>, Seq<char>)> {
    let f = words(line);
    if f.len() >= 4 && f[0] == "default"@ {
        Some((f[1], iface_column(f, 2)))
    } else {
        None
    }
}

/// The first default route among the lines.
pub open spec fn first_default(ls: Seq<Seq<char>>) -> Option<(Seq<char>, Seq<char>)>
    decreases ls.len(),
{
    if ls.len() == 0 {
        None
    } else {
        match default_on(ls[0]) {
            Some(r) => Some(r),
            None => first_default(ls.drop_first()),
        }
    }
}

fn looks_like_iface(s: &[char]) -> (r: bool)
    ensures
        r == names_iface(s@),
{
    let mut digit: bool = false;
    let mut i: usize = 0;
    while i < s.len()
        invariant
            i <= s@.len(),
            digit == exists|j: int| 0 <= j < i && '0' <= #[trigger] s@[j] <= '9',
            forall|j: int| 0 <= j < i ==> #[trigger] s@[j] != '.',
        decreases s@.len() - i,
    {
        if s[i] == '.' {
            return false;
        }
        if '0' <= s[i] && s[i] <= '9' {
            digit = true;
        }
        i = i + 1;
    }
    digit
}

/// Parse `netstat -rn` output for the default route's gateway and interface.
pub fn parse_default_gateway(output: &str) -> (r: Option<DefaultGateway>)
    ensures
        maybe_gateway(r) == first_default(lines(output@)),
{
    let text = chars_of(output);
    let all = lines_of(text.as_slice());
    let ghost ls = lines(output@);
    let mut i: usize = 0;
    assert(ls.skip(0) =~= ls);
    while i < all.len()
        invariant
            i <= all@.len(),
            texts(all@) == ls,
            ls == lines(output@),
            first_default(ls) == first_default(ls.skip(i as int)),
        decreases all@.len() - i,
    {
        proof {
            assert(ls.skip(i as int)[0] == all@[i as int]@);
            assert(ls.skip(i as int).drop_first() =~= ls.skip(i + 1));
        }
        let f = words_of(all[i]);
        let ghost w = words(all@[i as int]@);
        assert(forall|j: int| 0 <= j < f@.len() ==> w[j] == #[trigger] f@[j]@);
        assert(f@.len() == w.len());
        if f.len() >= 4 && reads(f[0], "default") {
            let mut k: usize = 2;
            while k < f.len() && !looks_like_iface(f[k])
                invariant
                    2 <= k <= f@.len(),
                    f@.len() == w.len(),
                    forall|j: int| 0 <= j < f@.len() ==> w[j] == #[trigger] f@[j]@,
                    iface_column(w, 2) == iface_column(w, k as int),
                decreases f@.len() - k,
            {
                k = k + 1;
            }
            let at: usize = if k < f.len() {
                k
            } else {
                f.len() - 1
            };
            return Some(
                DefaultGateway { gateway: string_of(f[1]), iface: string_of(f[at]) },
            );
        }
        i = i + 1;
    }
    None
}

/// What `ifconfig` says of an interface that is up and carries an address.
pub open spec fn iface_up(s: Seq<char>) -> bool {
    occurs(s, "inet "@) && (occurs(s, "RUNNING"@) || occurs(s, "UP"@))
}

/// Whether the output of `ifconfig` says that the interface is up and carries an
/// address.
pub fn iface_is_up(output: &str) -> (r: bool)
    ensures
        r == iface_up(output@),
{
    let v = chars_of(output);
    let s = v.as_slice();
    contains(s, "inet ") && (contains(s, "RUNNING") || contains(s, "UP"))
}

} // verus!
