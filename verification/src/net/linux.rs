// SPDX-License-Identifier: GPL-3.0-or-later
//! Linux network configuration.
//!
//! Routes and addresses are changed with the `ip` command; DNS with `resolvectl`,
//! `resolvconf`, or by editing `/etc/resolv.conf`. Every change comes with its
//! undo.

use crate::address::{address_text, Ipv4};
use crate::cli::{Config, ConfigView};
use crate::net::{
    after_looks, command, full_tunnel, law_wait_is_bounded, owned, render_resolv, resolver_file, resolver_file_step,
    resolver_lines, runs, strs, views, wants_dns, Action, ActionView, IfaceWait, OnFailure, Step, StepView,
};
use crate::number::{number, parse_number};
use crate::provider::{cidr, cidr_text, ParamsView, Route, TunnelParams};
use crate::text::{
    chars_of, contains, lines, lines_of, occurs, reads, split_all, string_of, texts, words, words_of,
};
use vstd::prelude::*;
use vstd::string::StringExecFns;

verus! {

/// A default route: the gateway it goes through, on which interface.
pub struct DefaultRoute {
    pub gateway: Ipv4,
    pub iface: String,
}

/// A default route as plain values.
#[verifier::ext_equal]
pub struct DefaultRouteView {
    pub gateway: Ipv4,
    pub iface: Seq<char>,
}

impl View for DefaultRoute {
    type V = DefaultRouteView;

    open spec fn view(&self) -> DefaultRouteView {
        DefaultRouteView { gateway: self.gateway, iface: self.iface@ }
    }
}

/// A default route as plain values, where there is one.
pub open spec fn maybe_route(r: Option<DefaultRoute>) -> Option<DefaultRouteView> {
    match r {
        Some(r) => Some(r@),
        None => None,
    }
}

/// Running the `ip` command.
pub open spec fn ip(args: Seq<Seq<char>>) -> ActionView {
    runs("ip"@, args)
}

/// Running the `ip` command.
fn run_ip(args: &[&str]) -> (r: Action)
    ensures
        r@ == ip(strs(args@)),
{
    command("ip", args)
}

/// Assigning an address to the interface.
pub open spec fn address_step(addr: Ipv4, ifname: Seq<char>) -> StepView {
    let cidr = cidr_text(addr, 32);
    StepView {
        action: ip(seq!["addr"@, "add"@, cidr, "dev"@, ifname]),
        undo: Some(ip(seq!["addr"@, "del"@, cidr, "dev"@, ifname])),
        on_failure: OnFailure::Abort,
        context: "adding address "@ + cidr,
    }
}

/// Assigning the tunnel's address, unless an external manager owns it.
pub open spec fn address_plan(p: ParamsView, ifname: Seq<char>, c: ConfigView) -> Seq<StepView> {
    match p.assigned_addr {
        Some(addr) => if c.set_ip {
            seq![address_step(addr, ifname)]
        } else {
            Seq::empty()
        },
        None => Seq::empty(),
    }
}

/// Adding a route through the tunnel.
pub open spec fn route_step(r: Route, ifname: Seq<char>) -> StepView {
    let cidr = cidr_text(r.dest, r.prefix);
    StepView {
        action: ip(seq!["route"@, "add"@, cidr, "dev"@, ifname]),
        undo: Some(ip(seq!["route"@, "del"@, cidr, "dev"@, ifname])),
        on_failure: OnFailure::Warn,
        context: "adding route "@ + cidr,
    }
}

/// Keeping encrypted traffic to the gateway on the old default route.
pub open spec fn protect_step(old: DefaultRouteView, gateway: Ipv4) -> StepView {
    let cidr = cidr_text(gateway, 32);
    StepView {
        action: ip(
            seq!["route"@, "add"@, cidr, "via"@, address_text(old.gateway), "dev"@, old.iface],
        ),
        undo: Some(ip(seq!["route"@, "del"@, cidr])),
        on_failure: OnFailure::Warn,
        context: "protecting gateway route "@ + cidr,
    }
}

/// Routing one half of the internet through the tunnel.
pub open spec fn half_step(half: Seq<char>, ifname: Seq<char>) -> StepView {
    StepView {
        action: ip(seq!["route"@, "add"@, half, "dev"@, ifname]),
        undo: Some(ip(seq!["route"@, "del"@, half, "dev"@, ifname])),
        on_failure: OnFailure::Ignore,
        context: "adding route "@ + half,
    }
}

/// Redirecting the default route through the tunnel.
pub open spec fn redirect_step(old: Option<DefaultRouteView>, ifname: Seq<char>) -> StepView {
    StepView {
        action: ip(seq!["route"@, "replace"@, "default"@, "dev"@, ifname]),
        undo: Some(
            match old {
                Some(old) => ip(
                    seq![
                        "route"@,
                        "replace"@,
                        "default"@,
                        "via"@,
                        address_text(old.gateway),
                        "dev"@,
                        old.iface,
                    ],
                ),
                None => ip(seq!["route"@, "del"@, "default"@]),
            },
        ),
        on_failure: OnFailure::Abort,
        context: "redirecting default route through the tunnel"@,
    }
}

/// Protecting the route to the gateway, where both it and the old default route
/// are known.
pub open spec fn protect_plan(old: Option<DefaultRouteView>, gateway: Option<Ipv4>) -> Seq<
    StepView,
> {
    match (old, gateway) {
        (Some(old), Some(gateway)) => seq![protect_step(old, gateway)],
        _ => Seq::empty(),
    }
}

/// Sending everything through the tunnel: by two half-internet routes, or by the
/// default route.
pub open spec fn redirect_plan(
    ifname: Seq<char>,
    c: ConfigView,
    old: Option<DefaultRouteView>,
) -> Seq<StepView> {
    if c.half_internet_routes {
        seq![half_step("0.0.0.0/1"@, ifname), half_step("128.0.0.0/1"@, ifname)]
    } else {
        seq![redirect_step(old, ifname)]
    }
}

/// Full-tunnel mode: the route to the gateway first, then everything else.
pub open spec fn full_tunnel_plan(
    ifname: Seq<char>,
    c: ConfigView,
    old: Option<DefaultRouteView>,
    gateway: Option<Ipv4>,
) -> Seq<StepView> {
    protect_plan(old, gateway) + redirect_plan(ifname, c, old)
}

/// The routes to set, if it is ours to do so: the split-tunnel routes, or all.
pub open spec fn routes_plan(
    p: ParamsView,
    ifname: Seq<char>,
    c: ConfigView,
    old: Option<DefaultRouteView>,
    gateway: Option<Ipv4>,
) -> Seq<StepView> {
    if !c.set_routes {
        Seq::empty()
    } else if p.routes.len() == 0 {
        full_tunnel_plan(ifname, c, old, gateway)
    } else {
        p.routes.map_values(|r: Route| route_step(r, ifname))
    }
}

/// How DNS is configured.
#[derive(Debug, Clone, Copy, PartialEq, Eq, Structural)]
pub enum DnsBackend {
    Resolvectl,
    Resolvconf,
    File,
}

/// The backend to use, given what is installed.
pub open spec fn dns_backend(c: ConfigView, resolvconf: bool, resolvectl: bool) -> DnsBackend {
    if resolvconf && (c.use_resolvconf || !resolvectl) {
        DnsBackend::Resolvconf
    } else if resolvectl {
        DnsBackend::Resolvectl
    } else {
        DnsBackend::File
    }
}

impl DnsBackend {
    /// The backend to use, given which of the two commands exist.
    pub fn detect(config: &Config, resolvconf: bool, resolvectl: bool) -> (r: Self)
        ensures
            r == dns_backend(config@, resolvconf, resolvectl),
    {
        if config.use_resolvconf && resolvconf {
            return DnsBackend::Resolvconf;
        }
        if resolvectl {
            DnsBackend::Resolvectl
        } else if resolvconf {
            DnsBackend::Resolvconf
        } else {
            DnsBackend::File
        }
    }
}

/// Telling systemd-resolved: the servers, then the search domain. Reverting the
/// interface undoes both.
pub open spec fn resolvectl_plan(p: ParamsView, ifname: Seq<char>) -> Seq<StepView> {
    let servers = StepView {
        action: runs(
            "resolvectl"@,
            seq!["dns"@, ifname] + p.dns.map_values(|d: Ipv4| address_text(d)),
        ),
        undo: Some(runs("resolvectl"@, seq!["revert"@, ifname])),
        on_failure: OnFailure::Abort,
        context: Seq::empty(),
    };
    match p.dns_suffix {
        Some(s) => seq![
            servers,
            StepView {
                action: runs("resolvectl"@, seq!["domain"@, ifname, s]),
                undo: None,
                on_failure: OnFailure::Ignore,
                context: "setting the search domain"@,
            },
        ],
        None => seq![servers],
    }
}

/// Telling resolvconf.
pub open spec fn resolvconf_step(p: ParamsView, ifname: Seq<char>) -> StepView {
    StepView {
        action: ActionView::Feed {
            program: "resolvconf"@,
            args: seq!["-a"@, ifname],
            input: resolver_lines(p.dns, p.dns_suffix),
        },
        undo: Some(runs("resolvconf"@, seq!["-d"@, ifname])),
        on_failure: OnFailure::Abort,
        context: Seq::empty(),
    }
}

/// The DNS servers to set, if it is ours to do so.
pub open spec fn dns_plan(
    p: ParamsView,
    ifname: Seq<char>,
    c: ConfigView,
    backend: DnsBackend,
    original: Seq<u8>,
) -> Seq<StepView> {
    if !wants_dns(c, p) {
        Seq::empty()
    } else {
        match backend {
            DnsBackend::Resolvectl => resolvectl_plan(p, ifname),
            DnsBackend::Resolvconf => seq![resolvconf_step(p, ifname)],
            DnsBackend::File => seq![resolver_file_step(p, original)],
        }
    }
}

/// Adding a route.
fn add_route(what: &str, cidr: &str, ifname: &str, on_failure: OnFailure) -> (r: Step)
    ensures
        r@ == (StepView {
            action: ip(seq!["route"@, "add"@, cidr@, "dev"@, ifname@]),
            undo: Some(ip(seq!["route"@, "del"@, cidr@, "dev"@, ifname@])),
            on_failure,
            context: what@ + cidr@,
        }),
{
    let add = ["route", "add", cidr, "dev", ifname];
    let del = ["route", "del", cidr, "dev", ifname];
    proof {
        assert(strs(add@) =~= seq!["route"@, "add"@, cidr@, "dev"@, ifname@]);
        assert(strs(del@) =~= seq!["route"@, "del"@, cidr@, "dev"@, ifname@]);
    }
    Step {
        action: run_ip(add.as_slice()),
        undo: Some(run_ip(del.as_slice())),
        on_failure,
        context: what.to_owned().concat(cidr),
    }
}

fn protect(old: &DefaultRoute, gateway: Ipv4) -> (r: Step)
    ensures
        r@ == protect_step(old@, gateway),
{
    let gw_cidr = cidr(gateway, 32);
    let via = old.gateway.text();
    let add = ["route", "add", gw_cidr.as_str(), "via", via.as_str(), "dev", old.iface.as_str()];
    let del = ["route", "del", gw_cidr.as_str()];
    proof {
        assert(strs(add@) =~= seq![
            "route"@,
            "add"@,
            gw_cidr@,
            "via"@,
            via@,
            "dev"@,
            old.iface@,
        ]);
        assert(strs(del@) =~= seq!["route"@, "del"@, gw_cidr@]);
    }
    Step {
        action: run_ip(add.as_slice()),
        undo: Some(run_ip(del.as_slice())),
        on_failure: OnFailure::Warn,
        context: "protecting gateway route ".to_owned().concat(gw_cidr.as_str()),
    }
}

fn redirect(old: &Option<DefaultRoute>, ifname: &str) -> (r: Step)
    ensures
        r@ == redirect_step(maybe_route(*old), ifname@),
{
    let replace = ["route", "replace", "default", "dev", ifname];
    assert(strs(replace@) =~= seq!["route"@, "replace"@, "default"@, "dev"@, ifname@]);
    let undo = match old {
        Some(old) => {
            let via = old.gateway.text();
            let back = [
                "route",
                "replace",
                "default",
                "via",
                via.as_str(),
                "dev",
                old.iface.as_str(),
            ];
            assert(strs(back@) =~= seq![
                "route"@,
                "replace"@,
                "default"@,
                "via"@,
                via@,
                "dev"@,
                old.iface@,
            ]);
            run_ip(back.as_slice())
        },
        None => {
            let del = ["route", "del", "default"];
            assert(strs(del@) =~= seq!["route"@, "del"@, "default"@]);
            run_ip(del.as_slice())
        },
    };
    Step {
        action: run_ip(replace.as_slice()),
        undo: Some(undo),
        on_failure: OnFailure::Abort,
        context: "redirecting default route through the tunnel".to_owned(),
    }
}

/// Full-tunnel mode: protect the route to the VPN gateway, then redirect the
/// default route, or add the two half-internet routes, through the tunnel.
pub fn apply_full_tunnel(
    ifname: &str,
    config: &Config,
    old: &Option<DefaultRoute>,
    gateway: Option<Ipv4>,
) -> (r: Vec<Step>)
    ensures
        views(r@) == full_tunnel_plan(ifname@, config@, maybe_route(*old), gateway),
{
    let mut steps: Vec<Step> = Vec::new();
    if let (Some(old), Some(gateway)) = (old, gateway) {
        steps.push(protect(old, gateway));
    }
    assert(views(steps@) =~= protect_plan(maybe_route(*old), gateway));
    let ghost before = views(steps@);
    if config.half_internet_routes {
        steps.push(add_route("adding route ", "0.0.0.0/1", ifname, OnFailure::Ignore));
        steps.push(add_route("adding route ", "128.0.0.0/1", ifname, OnFailure::Ignore));
    } else {
        steps.push(redirect(old, ifname));
    }
    assert(views(steps@) =~= before + redirect_plan(ifname@, config@, maybe_route(*old)));
    steps
}

/// The Linux backend.
pub struct LinuxNet;

impl LinuxNet {
    /// How to assign the tunnel's address.
    pub fn address_steps(&self, params: &TunnelParams, ifname: &str, config: &Config) -> (r: Vec<
        Step,
    >)
        ensures
            views(r@) == address_plan(params@, ifname@, config@),
    {
        let mut steps: Vec<Step> = Vec::new();
        if let Some(addr) = params.assigned_addr {
            if config.set_ip {
                let cidr = cidr(addr, 32);
                let add = ["addr", "add", cidr.as_str(), "dev", ifname];
                let del = ["addr", "del", cidr.as_str(), "dev", ifname];
                proof {
                    assert(strs(add@) =~= seq!["addr"@, "add"@, cidr@, "dev"@, ifname@]);
                    assert(strs(del@) =~= seq!["addr"@, "del"@, cidr@, "dev"@, ifname@]);
                }
                steps.push(
                    Step {
                        action: run_ip(add.as_slice()),
                        undo: Some(run_ip(del.as_slice())),
                        on_failure: OnFailure::Abort,
                        context: "adding address ".to_owned().concat(cidr.as_str()),
                    },
                );
            }
        }
        assert(views(steps@) =~= address_plan(params@, ifname@, config@));
        steps
    }

    /// Whether the default route and the gateway's address have to be known to
    /// plan the routes.
    pub fn is_full_tunnel(&self, params: &TunnelParams, config: &Config) -> (r: bool)
        ensures
            r == full_tunnel(config@, params@),
    {
        config.set_routes && params.routes.len() == 0
    }

    /// How to set the routes. `old` is the default route and `gateway` the VPN
    /// gateway's address, as far as they are known.
    pub fn route_steps(
        &self,
        params: &TunnelParams,
        ifname: &str,
        config: &Config,
        old: &Option<DefaultRoute>,
        gateway: Option<Ipv4>,
    ) -> (r: Vec<Step>)
        ensures
            views(r@) == routes_plan(params@, ifname@, config@, maybe_route(*old), gateway),
    {
        let mut steps: Vec<Step> = Vec::new();
        if !config.set_routes {
            assert(views(steps@) =~= Seq::<StepView>::empty());
            return steps;
        }
        if params.routes.len() == 0 {
            return apply_full_tunnel(ifname, config, old, gateway);
        }
        let ghost f = |r: Route| route_step(r, ifname@);
        let ghost plan = params.routes@.map_values(f);
        let mut i: usize = 0;
        while i < params.routes.len()
            invariant
                i <= params.routes@.len(),
                plan == params.routes@.map_values(f),
                f == (|r: Route| route_step(r, ifname@)),
                views(steps@) =~= plan.take(i as int),
            decreases params.routes@.len() - i,
        {
            let ghost before = views(steps@);
            let route = params.routes[i];
            let cidr = cidr(route.dest, route.prefix);
            let step = add_route("adding route ", cidr.as_str(), ifname, OnFailure::Warn);
            steps.push(step);
            proof {
                assert(views(steps@) =~= before.push(step@));
                assert(plan[i as int] == step@);
            }
            i = i + 1;
        }
        assert(plan.take(i as int) =~= plan);
        steps
    }

    /// Whether there is DNS to configure.
    pub fn wants_dns(&self, params: &TunnelParams, config: &Config) -> (r: bool)
        ensures
            r == wants_dns(config@, params@),
    {
        config.set_dns && !config.pppd_use_peerdns && params.dns.len() > 0
    }

    /// How to set the DNS servers. `original` is what the resolver's configuration
    /// file holds; only [`DnsBackend::File`] needs it.
    pub fn dns_steps(
        &self,
        params: &TunnelParams,
        ifname: &str,
        config: &Config,
        backend: DnsBackend,
        original: Vec<u8>,
    ) -> (r: Vec<Step>)
        ensures
            views(r@) == dns_plan(params@, ifname@, config@, backend, original@),
    {
        let mut steps: Vec<Step> = Vec::new();
        if !self.wants_dns(params, config) {
            assert(views(steps@) =~= Seq::<StepView>::empty());
            return steps;
        }
        match backend {
            DnsBackend::Resolvectl => {
                steps.push(set_servers(params, ifname));
                if let Some(sfx) = &params.dns_suffix {
                    let args = ["domain", ifname, sfx.as_str()];
                    assert(strs(args@) =~= seq!["domain"@, ifname@, sfx@]);
                    steps.push(
                        Step {
                            action: command("resolvectl", args.as_slice()),
                            undo: None,
                            on_failure: OnFailure::Ignore,
                            context: "setting the search domain".to_owned(),
                        },
                    );
                }
            },
            DnsBackend::Resolvconf => {
                let add = ["-a", ifname];
                let del = ["-d", ifname];
                proof {
                    assert(strs(add@) =~= seq!["-a"@, ifname@]);
                    assert(strs(del@) =~= seq!["-d"@, ifname@]);
                }
                steps.push(
                    Step {
                        action: Action::Feed {
                            program: "resolvconf".to_owned(),
                            args: owned(add.as_slice()),
                            input: render_resolv(params.dns.as_slice(), &params.dns_suffix),
                        },
                        undo: Some(command("resolvconf", del.as_slice())),
                        on_failure: OnFailure::Abort,
                        context: String::new(),
                    },
                );
            },
            DnsBackend::File => {
                steps.push(resolver_file(params, original));
            },
        }
        assert(views(steps@) =~= dns_plan(params@, ifname@, config@, backend, original@));
        steps
    }
}

/// What has to be known of the system to configure it: the default route and the
/// VPN gateway's address for a full tunnel, the DNS backend and what the resolver's
/// configuration file holds for DNS. What is not needed may be left out.
pub struct NetFacts {
    pub old: Option<DefaultRoute>,
    pub gateway: Option<Ipv4>,
    pub backend: DnsBackend,
    pub resolv_conf: Vec<u8>,
}

/// Everything there is to configure: the address, then routes, then DNS.
pub open spec fn network_plan(
    p: ParamsView,
    ifname: Seq<char>,
    c: ConfigView,
    old: Option<DefaultRouteView>,
    gateway: Option<Ipv4>,
    backend: DnsBackend,
    resolv_conf: Seq<u8>,
) -> Seq<StepView> {
    address_plan(p, ifname, c) + routes_plan(p, ifname, c, old, gateway) + dns_plan(
        p,
        ifname,
        c,
        backend,
        resolv_conf,
    )
}

impl LinuxNet {
    /// How to configure the network for the tunnel, in order.
    pub fn apply(
        &self,
        params: &TunnelParams,
        ifname: &str,
        config: &Config,
        facts: NetFacts,
    ) -> (r: Vec<Step>)
        ensures
            views(r@) == network_plan(
                params@,
                ifname@,
                config@,
                maybe_route(facts.old),
                facts.gateway,
                facts.backend,
                facts.resolv_conf@,
            ),
    {
        let mut steps = self.address_steps(params, ifname, config);
        let mut routes = self.route_steps(params, ifname, config, &facts.old, facts.gateway);
        let mut dns = self.dns_steps(params, ifname, config, facts.backend, facts.resolv_conf);
        let ghost (a, b, c) = (steps@, routes@, dns@);
        steps.append(&mut routes);
        steps.append(&mut dns);
        assert(views(steps@) =~= views(a) + views(b) + views(c));
        steps
    }
}

/// Telling systemd-resolved the servers.
fn set_servers(params: &TunnelParams, ifname: &str) -> (r: Step)
    ensures
        r@ == resolvectl_plan(params@, ifname@)[0],
{
    let head = ["dns", ifname];
    let revert = ["revert", ifname];
    let mut args = owned(head.as_slice());
    let ghost f = |d: Ipv4| address_text(d);
    let ghost texts = params.dns@.map_values(f);
    let ghost start = seq!["dns"@, ifname@];
    proof {
        assert(strs(head@) =~= start);
        assert(strs(revert@) =~= seq!["revert"@, ifname@]);
    }
    let mut i: usize = 0;
    while i < params.dns.len()
        invariant
            i <= params.dns@.len(),
            texts == params.dns@.map_values(f),
            f == (|d: Ipv4| address_text(d)),
            args.deep_view() =~= start + texts.take(i as int),
        decreases params.dns@.len() - i,
    {
        let ghost before = args.deep_view();
        let text = params.dns[i].text();
        args.push(text);
        assert(args.deep_view() =~= before.push(text@));
        assert(texts.take(i + 1) =~= texts.take(i as int).push(texts[i as int]));
        i = i + 1;
    }
    assert(texts.take(i as int) =~= texts);
    Step {
        action: Action::Run { program: "resolvectl".to_owned(), args },
        undo: Some(command("resolvectl", revert.as_slice())),
        on_failure: OnFailure::Abort,
        context: String::new(),
    }
}

/// The tunnel never swallows its own transport: where the old default route and
/// the gateway's address are known, the route to the gateway is protected before
/// anything is sent through the tunnel.
pub proof fn law_gateway_is_protected_first(
    ifname: Seq<char>,
    c: ConfigView,
    old: DefaultRouteView,
    gateway: Ipv4,
)
    ensures
        ({
            let plan = full_tunnel_plan(ifname, c, Some(old), Some(gateway));
            &&& plan.len() > 1
            &&& plan[0] == protect_step(old, gateway)
            &&& plan.skip(1) == redirect_plan(ifname, c, Some(old))
        }),
{
    let plan = full_tunnel_plan(ifname, c, Some(old), Some(gateway));
    assert(plan.skip(1) =~= redirect_plan(ifname, c, Some(old)));
}

/// Every change to addresses and routes has an undo, and so has every change to
/// DNS but the search domain, which goes when its servers do.
pub proof fn law_every_step_has_an_undo(
    p: ParamsView,
    ifname: Seq<char>,
    c: ConfigView,
    old: Option<DefaultRouteView>,
    gateway: Option<Ipv4>,
    backend: DnsBackend,
    original: Seq<u8>,
    i: int,
)
    ensures
        0 <= i < address_plan(p, ifname, c).len() ==> address_plan(p, ifname, c)[i].undo is Some,
        0 <= i < routes_plan(p, ifname, c, old, gateway).len() ==> routes_plan(
            p,
            ifname,
            c,
            old,
            gateway,
        )[i].undo is Some,
        0 <= i < dns_plan(p, ifname, c, backend, original).len() && i != 1 ==> dns_plan(
            p,
            ifname,
            c,
            backend,
            original,
        )[i].undo is Some,
        dns_plan(p, ifname, c, backend, original).len() > 1 ==> dns_plan(
            p,
            ifname,
            c,
            backend,
            original,
        )[0].undo == Some(runs("resolvectl"@, seq!["revert"@, ifname])),
{
}

/// Nothing is changed that the user has reserved for an external manager.
pub proof fn law_delegated_is_left_alone(
    p: ParamsView,
    ifname: Seq<char>,
    c: ConfigView,
    old: Option<DefaultRouteView>,
    gateway: Option<Ipv4>,
    backend: DnsBackend,
    original: Seq<u8>,
)
    ensures
        !c.set_ip ==> address_plan(p, ifname, c).len() == 0,
        !c.set_routes ==> routes_plan(p, ifname, c, old, gateway).len() == 0,
        !c.set_dns || c.pppd_use_peerdns ==> dns_plan(p, ifname, c, backend, original).len() == 0,
{
}

/// Whether a flag word has the gateway bit.
pub open spec fn has_gateway_bit(flags: int) -> bool {
    (flags / 2) % 2 == 1
}

/// The default route that a line of the routing table describes: enough columns,
/// an all-zero destination, the gateway flag, and a gateway in little-endian hex.
pub open spec fn default_on(line: Seq<char>) -> Option<DefaultRouteView> {
    let f = words(line);
    if f.len() < 8 || f[1] != "00000000"@ {
        None
    } else {
        let flags = match number(f[3], 16, u32::MAX as int) {
            Some(v) => v,
            None => 0,
        };
        match number(f[2], 16, u32::MAX as int) {
            Some(gw) => if has_gateway_bit(flags) {
                Some(
                    DefaultRouteView {
                        gateway: Ipv4 {
                            a: (gw % 256) as u8,
                            b: (gw / 256 % 256) as u8,
                            c: (gw / 65536 % 256) as u8,
                            d: (gw / 16777216 % 256) as u8,
                        },
                        iface: f[0],
                    },
                )
            } else {
                None
            },
            None => None,
        }
    }
}

/// The first default route among the lines.
pub open spec fn first_default(ls: Seq<Seq<char>>) -> Option<DefaultRouteView>
    decreases ls.len(),
{
    if ls.len() == 0 {
        None
    } else {
        match default_on(ls[0]) {
            Some(r) => Some(r),
            None => first_default(ls.drop_first()),
        }
    }
}

/// The default route of a routing table, whose first line is a header.
pub open spec fn default_route(content: Seq<char>) -> Option<DefaultRouteView> {
    let ls = lines(content);
    if ls.len() == 0 {
        None
    } else {
        first_default(ls.drop_first())
    }
}

fn parse_route_line(line: &[char]) -> (r: Option<DefaultRoute>)
    ensures
        maybe_route(r) == default_on(line@),
{
    let f = words_of(line);
    let ghost w = words(line@);
    assert(forall|i: int| 0 <= i < f@.len() ==> w[i] == #[trigger] f@[i]@);
    assert(f@.len() == w.len());
    if f.len() < 8 || !reads(f[1], "00000000") {
        return None;
    }
    let flags: u32 = match parse_number(f[3], 16, u32::MAX as u64) {
        Some(v) => v as u32,
        None => 0,
    };
    match parse_number(f[2], 16, u32::MAX as u64) {
        Some(v) => {
            let gw: u32 = v as u32;
            assert((flags & 0x2 != 0) == ((flags / 2) % 2 == 1)) by (bit_vector);
            if flags & 0x2 != 0 {
                Some(
                    DefaultRoute {
                        gateway: Ipv4 {
                            a: (gw % 256) as u8,
                            b: (gw / 256 % 256) as u8,
                            c: (gw / 65536 % 256) as u8,
                            d: (gw / 16777216 % 256) as u8,
                        },
                        iface: string_of(f[0]),
                    },
                )
            } else {
                None
            }
        },
        None => None,
    }
}

/// Parse `/proc/net/route` content for the default route. Addresses are stored as
/// little-endian hex; flags bit 0x2 (RTF_GATEWAY) and a `00000000` destination
/// identify the default route.
pub fn parse_default_route(content: &str) -> (r: Option<DefaultRoute>)
    ensures
        maybe_route(r) == default_route(content@),
{
    let text = chars_of(content);
    let all = lines_of(text.as_slice());
    let ghost ls = lines(content@);
    if all.len() == 0 {
        return None;
    }
    let mut i: usize = 1;
    assert(ls.skip(1) =~= ls.drop_first());
    while i < all.len()
        invariant
            1 <= i <= all@.len(),
            texts(all@) == ls,
            ls == lines(content@),
            ls.len() > 0,
            default_route(content@) == first_default(ls.skip(i as int)),
        decreases all@.len() - i,
    {
        proof {
            assert(ls.skip(i as int)[0] == all@[i as int]@);
            assert(ls.skip(i as int).drop_first() =~= ls.skip(i + 1));
        }
        let found = parse_route_line(all[i]);
        if found.is_some() {
            return found;
        }
        i = i + 1;
    }
    None
}

/// What `ip addr show` says of a link that is up.
pub open spec fn link_up(s: Seq<char>) -> bool {
    occurs(s, "state UP"@) || (occurs(s, "state UNKNOWN"@) && occurs(s, "UP"@) && occurs(
        s,
        "LOWER_UP"@,
    ))
}

/// Whether the output of `ip addr show` says that the interface is up and carries
/// an address.
pub fn link_is_up(output: &str) -> (r: bool)
    ensures
        r == (link_up(output@) && occurs(output@, "inet "@)),
{
    let v = chars_of(output);
    let s = v.as_slice();
    contains(s, "inet ") && (contains(s, "state UP") || (contains(s, "state UNKNOWN") && contains(
        s,
        "UP",
    ) && contains(s, "LOWER_UP")))
}

/// Waiting never ends well without an address: as long as every look shows none,
/// whatever the state of the link, the interface is looked at as often as there is
/// time for, and given up then.
pub proof fn law_no_address_is_waited_for(left: u64, outputs: Seq<Seq<char>>)
    requires
        left >= 1,
        forall|i: int| 0 <= i < outputs.len() ==> !occurs(#[trigger] outputs[i], "inet "@),
    ensures
        after_looks(
            IfaceWait::Again { left },
            outputs.map_values(|s: Seq<char>| link_up(s) && occurs(s, "inet "@)),
        ) == if outputs.len() < left {
            IfaceWait::Again { left: (left - outputs.len()) as u64 }
        } else {
            IfaceWait::TimedOut
        },
{
    let ups = outputs.map_values(|s: Seq<char>| link_up(s) && occurs(s, "inet "@));
    assert forall|i: int| 0 <= i < ups.len() implies !#[trigger] ups[i] by {
        assert(!occurs(outputs[i], "inet "@));
    }
    law_wait_is_bounded(left, ups);
}

/// Where to look for a command: on the search path, then in the places that are
/// not always on it.
pub fn search_dirs(path: Option<&str>) -> (r: Vec<String>)
    ensures
        r.deep_view() == (match path {
            Some(p) => split_all(p@, ':'),
            None => Seq::empty(),
        }) + seq!["/usr/bin"@, "/bin"@, "/usr/sbin"@, "/sbin"@],
{
    let mut r = match path {
        Some(p) => crate::net::browser::path_dirs(p),
        None => Vec::new(),
    };
    let ghost head = r.deep_view();
    let fixed = ["/usr/bin", "/bin", "/usr/sbin", "/sbin"];
    let mut rest = owned(fixed.as_slice());
    assert(strs(fixed@) =~= seq!["/usr/bin"@, "/bin"@, "/usr/sbin"@, "/sbin"@]);
    let ghost tail = rest.deep_view();
    r.append(&mut rest);
    assert(r.deep_view() =~= head + tail);
    r
}

} // verus!
