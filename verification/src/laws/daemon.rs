// SPDX-License-Identifier: GPL-3.0-or-later
//! How the PPP daemon is told what to do, and what its end means.

use crate::address::{address_text, Ipv4};
use crate::cli::ConfigView;
use crate::laws::plans::{dotted, law_address_notation};
use crate::number::{decimal, signed};
use crate::provider::{cidr_text, ParamsView, Route};
use crate::text::lemma_joined_push;
use crate::transport::ppp::{
    crosswire_vars, dns_text, env_text, exit_code, exit_meaning, ppp_direct_args, pppd_args,
    reap_action, reap_phase, routes_text, Ending, Look, Probe, ReapAction, ReapPhase,
};
use vstd::prelude::*;
use vstd::utf8::{decode_utf8, valid_utf8};

verus! {

/// pppd is told, in this order: how to behave as the tunnel needs it, on which
/// interface; to ask its peer for DNS, if that is wanted; where to log, never on
/// the descriptor that carries packets; and the plugin, the parameter and the
/// system that are configured. Nothing else.
pub proof fn law_pppd_is_told(c: ConfigView, ifname: Seq<char>)
    ensures
        ({
            let base = seq![
                "/usr/sbin/pppd"@,
                "230400"@,
                ":169.254.2.1"@,
                "noipdefault"@,
                "ipcp-accept-local"@,
                "noaccomp"@,
                "noauth"@,
                "default-asyncmap"@,
                "nopcomp"@,
                "receive-all"@,
                "nodefaultroute"@,
                "nodetach"@,
                "lcp-max-configure"@,
                "40"@,
                "mru"@,
                "1354"@,
                "ifname"@,
                ifname,
            ];
            let dns = if c.pppd_use_peerdns {
                seq!["usepeerdns"@]
            } else {
                Seq::empty()
            };
            let log = if c.pppd_log is Some && valid_utf8(c.pppd_log->0) {
                seq!["debug"@, "logfile"@, decode_utf8(c.pppd_log->0)]
            } else {
                seq!["logfd"@, "2"@]
            };
            let plugin = if c.pppd_plugin is Some && valid_utf8(c.pppd_plugin->0) {
                seq!["plugin"@, decode_utf8(c.pppd_plugin->0)]
            } else {
                Seq::empty()
            };
            let ipparam = match c.pppd_ipparam {
                Some(v) => seq!["ipparam"@, v],
                None => Seq::empty(),
            };
            let system = match c.pppd_system {
                Some(v) => seq!["system"@, v],
                None => Seq::empty(),
            };
            pppd_args(c, ifname) == base + dns + log + plugin + ipparam + system
        }),
{
}

/// On BSD the daemon is told the profile to use: the configured one, else that of
/// the interface.
pub proof fn law_ppp_is_told(c: ConfigView, ifname: Seq<char>)
    ensures
        ppp_direct_args(c, ifname).len() == 3,
        ppp_direct_args(c, ifname)[0] == "/usr/sbin/ppp"@,
        ppp_direct_args(c, ifname)[1] == "-direct"@,
        c.pppd_system is None ==> ppp_direct_args(c, ifname)[2] == ifname,
        c.pppd_system is Some ==> ppp_direct_args(c, ifname)[2] == c.pppd_system->0,
{
}

/// A plugin is handed the routes, the servers and, where there is one, the search
/// domain, each under its name.
pub proof fn law_plugin_variables(p: ParamsView)
    ensures
        crosswire_vars(p).len() == if p.dns_suffix is Some {
            3int
        } else {
            2
        },
        crosswire_vars(p)[0] == "CROSSWIRE_ROUTES="@ + routes_text(p.routes),
        crosswire_vars(p)[1] == "CROSSWIRE_DNS="@ + dns_text(p.dns),
        p.dns_suffix is Some ==> crosswire_vars(p)[2] == "CROSSWIRE_DNS_SUFFIX="@ + p.dns_suffix->0,
{
}

/// Every route and every server is in its list, in order, with commas between.
pub proof fn law_plugin_lists(routes: Seq<Route>, r: Route, dns: Seq<Ipv4>, d: Ipv4)
    ensures
        routes_text(Seq::empty()) == Seq::<char>::empty(),
        routes_text(seq![r]) == dotted(r.dest) + "/"@ + decimal(r.prefix as nat),
        routes.len() > 0 ==> routes_text(routes.push(r)) == routes_text(routes) + ","@ + (dotted(
            r.dest,
        ) + "/"@ + decimal(r.prefix as nat)),
        dns_text(Seq::empty()) == Seq::<char>::empty(),
        dns_text(seq![d]) == dotted(d),
        dns.len() > 0 ==> dns_text(dns.push(d)) == dns_text(dns) + ","@ + dotted(d),
{
    law_address_notation(r.dest, r.prefix);
    law_address_notation(d, 0);
    let f = |r: Route| cidr_text(r.dest, r.prefix);
    let h = |d: Ipv4| address_text(d);
    assert(seq![r].map_values(f) =~= seq![f(r)]);
    assert(seq![d].map_values(h) =~= seq![h(d)]);
    assert(routes.push(r).map_values(f) =~= routes.map_values(f).push(f(r)));
    assert(dns.push(d).map_values(h) =~= dns.map_values(h).push(h(d)));
    lemma_joined_push(routes.map_values(f), f(r), ","@);
    lemma_joined_push(dns.map_values(h), h(d), ","@);
    assert(Seq::<Route>::empty().map_values(f) =~= Seq::<Seq<char>>::empty());
    assert(Seq::<Ipv4>::empty().map_values(h) =~= Seq::<Seq<char>>::empty());
}

/// An inherited variable is handed on as its name, an equals sign and its value.
pub proof fn law_variable(name: Seq<u8>, value: Seq<u8>)
    ensures
        env_text(name, value) == decode_utf8(name) + "="@ + decode_utf8(value),
{
}

/// The code is that of a daemon that exited by itself; one that was killed has none.
pub proof fn law_exit_code(code: i32)
    ensures
        exit_code(Ending::Exited(code)) == Some(code),
        exit_code(Ending::Signaled) is None,
        exit_code(Ending::Other) is None,
{
}

/// A daemon is asked to end first, and looked at every tenth of a second. If it is
/// still there after two seconds it is killed, once. Its end is reported with its
/// code, a failed look without one; an interrupted look is taken again. After the
/// end nothing changes any more.
pub proof fn law_reaping(looks: Seq<Look>, at: int, code: i32)
    ensures
        reap_phase(Seq::empty()) == ReapPhase::Terminating,
        reap_action(Seq::empty()) == ReapAction::Terminate,
        reap_phase(looks) != ReapPhase::Reaped ==> {
            let ended = looks.push(Look { probe: Probe::Ended(Ending::Exited(code)), at });
            let killed = looks.push(Look { probe: Probe::Ended(Ending::Signaled), at });
            let failed = looks.push(Look { probe: Probe::Failed, at });
            let again = looks.push(Look { probe: Probe::Interrupted, at });
            &&& reap_phase(ended) == ReapPhase::Reaped
            &&& reap_action(ended) == (ReapAction::Done { code: Some(code) })
            &&& reap_phase(killed) == ReapPhase::Reaped
            &&& reap_action(killed) == (ReapAction::Done { code: None })
            &&& reap_phase(failed) == ReapPhase::Reaped
            &&& reap_action(failed) == (ReapAction::Done { code: None })
            &&& reap_phase(again) == reap_phase(looks)
            &&& reap_action(again) == ReapAction::Retry
        },
        ({
            let alive = looks.push(Look { probe: Probe::StillAlive, at });
            &&& reap_phase(looks) == ReapPhase::Terminating && at < 2000 ==> reap_phase(alive)
                == ReapPhase::Terminating && reap_action(alive) == (ReapAction::Sleep {
                millis: 100,
            })
            &&& reap_phase(looks) == ReapPhase::Terminating && at >= 2000 ==> reap_phase(alive)
                == ReapPhase::Killed && reap_action(alive) == ReapAction::Kill
            &&& reap_phase(looks) == ReapPhase::Killed ==> reap_phase(alive) == ReapPhase::Reaped
                && reap_action(alive) == (ReapAction::Done { code: None })
        }),
        forall|probe: Probe|
            reap_phase(looks) == ReapPhase::Reaped ==> reap_action(
                #[trigger] looks.push(Look { probe, at }),
            ) == reap_action(looks),
{
    assert forall|look: Look| (#[trigger] looks.push(look)).drop_last() =~= looks by {}
    assert forall|look: Look| (#[trigger] looks.push(look)).last() == look by {}
}

/// The codes of pppd that are explained mean what its manual says.
pub proof fn law_exit_meaning()
    ensures
        exit_meaning(0) == "OK"@,
        exit_meaning(1) == "fatal error"@,
        exit_meaning(2) == "options error"@,
        exit_meaning(5) == "terminated by signal"@,
        exit_meaning(8) == "peer refused authentication"@,
        exit_meaning(15) == "peer not responding"@,
        exit_meaning(16) == "link terminated by modem hangup"@,
        exit_meaning(19) == "authentication failed"@,
        forall|code: i32|
            code != 0 && code != 1 && code != 2 && code != 5 && code != 8 && code != 15 && code != 16
                && code != 19 ==> #[trigger] exit_meaning(code) == "see pppd(8) for exit code"@,
{
}

/// A negative number has a minus sign in front of its size.
pub proof fn law_signed(n: nat)
    ensures
        signed(n as int) == decimal(n),
        n > 0 ==> signed(-(n as int)) == "-"@ + decimal(n),
{
    reveal_strlit("-");
    assert("-"@ =~= seq!['-']);
}

} // verus!
