// SPDX-License-Identifier: GPL-3.0-or-later
//! Planning network changes, undoing them, and reading what the system says.

use crosswire::address::{first_ipv4, Ipv4};
use crosswire::cli::Config;
use crosswire::net::browser::{
    open_url, opener, original_user_uid, parse_graphical_session_uid, path_dirs, session_ids,
    shown_session, SessionStep,
};
use crosswire::net::bsd::{iface_is_up, parse_default_gateway, BsdNet, DefaultGateway};
use crosswire::net::linux::{
    link_is_up, parse_default_route, search_dirs, DefaultRoute, DnsBackend, LinuxNet,
};
use crosswire::net::{
    bsd, linux, render_resolv, settle, Action, AppliedNetwork, IfaceWait, OnFailure, Step, UnsupportedNet,
};
use crosswire::provider::{Route, TunnelParams};
use std::sync::{Arc, Mutex};

#[test]
fn picks_active_local_graphical_session() {
    assert_eq!(
        parse_graphical_session_uid("Active=yes\nRemote=no\nType=wayland\nUser=1000\n"),
        Some(1000)
    );
    // Property order doesn't matter; x11 counts too.
    assert_eq!(
        parse_graphical_session_uid("User=1001\nType=x11\nActive=yes\nRemote=no"),
        Some(1001)
    );
}

#[test]
fn rejects_inactive_remote_or_nongraphical() {
    assert_eq!(
        parse_graphical_session_uid("Active=no\nRemote=no\nType=wayland\nUser=1000"),
        None
    );
    assert_eq!(
        parse_graphical_session_uid("Active=yes\nRemote=no\nType=tty\nUser=1000"),
        None
    );
    assert_eq!(
        parse_graphical_session_uid("Active=yes\nRemote=yes\nType=x11\nUser=1000"),
        None
    );
}

#[test]
fn parses_macos_default_gateway() {
    // macOS `netstat -rn` layout.
    let output = "\
Routing tables

Internet:
Destination        Gateway            Flags        Netif Expire
default            192.168.1.1        UGSc          en0
127                127.0.0.1          UCS           lo0
";
    let found = parse_default_gateway(output).unwrap();
    let (gw, iface) = (found.gateway, found.iface);
    assert_eq!(gw, "192.168.1.1");
    assert_eq!(iface, "en0");
}

#[test]
fn parses_freebsd_default_gateway() {
    let output = "Routing tables

Internet:
Destination        Gateway            Flags     Netif Expire
default            10.0.0.1           UGS         em0
10.0.0.0/24        link#1             U           em0
";
    let found = parse_default_gateway(output).unwrap();
    let (gw, iface) = (found.gateway, found.iface);
    assert_eq!(gw, "10.0.0.1");
    assert_eq!(iface, "em0");
}

#[test]
fn no_default_when_absent() {
    let output = "Internet:\nDestination Gateway Flags Netif\n127 127.0.0.1 UCS lo0\n";
    assert!(parse_default_gateway(output).is_none());
}

#[test]
fn parses_default_route() {
    // Real /proc/net/route layout. Gateway 0102A8C0 (LE) = 192.168.2.1,
    // dest 00000000, flags 0003 (UP|GATEWAY) on eth0. The second line is a
    // non-default on-link route that must be ignored.
    let content = "\
Iface\tDestination\tGateway\tFlags\tRefCnt\tUse\tMetric\tMask\tMTU\tWindow\tIRTT
eth0\t00000000\t0102A8C0\t0003\t0\t0\t100\t00000000\t0\t0\t0
eth0\t0002A8C0\t00000000\t0001\t0\t0\t100\t00FFFFFF\t0\t0\t0
";
    let found = parse_default_route(content).unwrap();
    let (gw, iface) = (found.gateway, found.iface);
    assert_eq!(gw, Ipv4::new(192, 168, 2, 1));
    assert_eq!(iface, "eth0");
}

#[test]
fn no_default_route_when_absent() {
    let content =
        "Iface\tDestination\tGateway\tFlags\tRefCnt\tUse\tMetric\tMask\tMTU\tWindow\tIRTT
eth0\t0002A8C0\t00000000\t0001\t0\t0\t100\t00FFFFFF\t0\t0\t0
";
    assert!(parse_default_route(content).is_none());
}

#[test]
fn default_route_needs_the_gateway_flag_and_all_columns() {
    let head = "h\n";
    let unflagged = "eth0\t00000000\t0102A8C0\t0001\t0\t0\t100\t00000000\n";
    let short = "eth0\t00000000\t0102A8C0\t0003\t0\t0\t100\n";
    let good = "wlan0\t00000000\tFE01a8c0\t0003\t0\t0\t600\t00000000\n";
    assert!(parse_default_route(&format!("{head}{unflagged}{short}")).is_none());
    // The first line is a header, whatever it says.
    assert!(parse_default_route(good).is_none());
    let found = parse_default_route(&format!("{head}{unflagged}{good}")).unwrap();
    assert_eq!(found.gateway, Ipv4::new(192, 168, 1, 254));
    assert_eq!(found.iface, "wlan0");
}

/// Runs what is registered when it goes out of scope.
struct Guard {
    applied: AppliedNetwork<Box<dyn FnMut() + Send>>,
}

impl Drop for Guard {
    fn drop(&mut self) {
        while let Some(mut c) = self.applied.pop_cleanup() {
            c();
        }
    }
}

#[test]
fn cleanups_run_in_reverse_on_drop() {
    let log = Arc::new(Mutex::new(Vec::new()));
    {
        let mut guard = Guard { applied: AppliedNetwork::new() };
        for i in 0..3 {
            let log = log.clone();
            guard.applied.push_cleanup(Box::new(move || log.lock().unwrap().push(i)));
        }
    }
    assert_eq!(*log.lock().unwrap(), vec![2, 1, 0]);
}

struct MockConfigurator {
    log: Arc<Mutex<Vec<String>>>,
}

impl MockConfigurator {
    fn apply(&self, params: &TunnelParams, ifname: &str, _config: &Config) -> Guard {
        self.log
            .lock()
            .unwrap()
            .push(format!("apply:{}:dns={}", ifname, params.dns.len()));
        let mut net = Guard { applied: AppliedNetwork::default() };
        let log = self.log.clone();
        let ifn = ifname.to_string();
        net.applied.push_cleanup(Box::new(move || {
            log.lock().unwrap().push(format!("restore:{}", ifn))
        }));
        net
    }
}

#[test]
fn configurator_applies_then_restores_on_drop() {
    let log = Arc::new(Mutex::new(Vec::new()));
    let config = Config::default();
    let params = TunnelParams::default();
    let m = MockConfigurator { log: log.clone() };
    {
        let _applied = m.apply(&params, "ppp0", &config);
        assert_eq!(log.lock().unwrap().len(), 1, "restore must not run early");
    }
    let l = log.lock().unwrap();
    assert_eq!(l[0], "apply:ppp0:dns=0");
    assert_eq!(l[1], "restore:ppp0");
}

fn line(action: &Action) -> String {
    match action {
        Action::Run { program, args } => format!("{} {}", program, args.join(" ")),
        Action::Feed { program, args, input } => {
            format!("{} {} < {:?}", program, args.join(" "), input)
        }
        Action::Write { path, contents } => {
            format!("> {} {:?}", path, String::from_utf8_lossy(contents))
        }
    }
}

fn dos(steps: &[Step]) -> Vec<String> {
    steps.iter().map(|s| line(&s.action)).collect()
}

fn undone(steps: &[Step]) -> Vec<String> {
    steps
        .iter()
        .map(|s| s.undo.as_ref().map(line).unwrap_or_default())
        .collect()
}

fn set_all() -> Config {
    Config { set_ip: true, set_routes: true, set_dns: true, ..Default::default() }
}

fn split_params() -> TunnelParams {
    TunnelParams {
        assigned_addr: Some(Ipv4::new(10, 8, 0, 2)),
        dns: vec![Ipv4::new(10, 0, 0, 53), Ipv4::new(10, 0, 0, 54)],
        dns_suffix: Some("corp.local".to_string()),
        routes: vec![Route { dest: Ipv4::new(10, 0, 0, 0), prefix: 8 }],
        mtu: None,
    }
}

#[test]
fn linux_split_tunnel_plan() {
    let (config, params) = (set_all(), split_params());
    let addr = LinuxNet.address_steps(&params, "ppp0", &config);
    assert_eq!(dos(&addr), vec!["ip addr add 10.8.0.2/32 dev ppp0"]);
    assert_eq!(undone(&addr), vec!["ip addr del 10.8.0.2/32 dev ppp0"]);
    assert_eq!(addr[0].on_failure, OnFailure::Abort);
    assert_eq!(addr[0].context, "adding address 10.8.0.2/32");

    assert!(!LinuxNet.is_full_tunnel(&params, &config));
    let routes = LinuxNet.route_steps(&params, "ppp0", &config, &None, None);
    assert_eq!(dos(&routes), vec!["ip route add 10.0.0.0/8 dev ppp0"]);
    assert_eq!(undone(&routes), vec!["ip route del 10.0.0.0/8 dev ppp0"]);
    assert_eq!(routes[0].on_failure, OnFailure::Warn);
}

#[test]
fn whole_plans_come_in_order() {
    let facts = linux::NetFacts {
        old: None,
        gateway: None,
        backend: DnsBackend::Resolvconf,
        resolv_conf: Vec::new(),
    };
    let steps = LinuxNet.apply(&split_params(), "ppp0", &set_all(), facts);
    let programs: Vec<String> = dos(&steps).iter().map(|l| l.split(' ').take(2).collect()).collect();
    assert_eq!(programs, vec!["ipaddr", "iproute", "resolvconf-a"]);

    let facts = bsd::NetFacts { old: None, gateway: None, resolv_conf: b"x".to_vec() };
    let steps = BsdNet.apply(&split_params(), "tun0", &set_all(), facts);
    assert_eq!(dos(&steps)[0], "route -n add -net 10.0.0.0/8 -interface tun0");
    assert!(dos(&steps)[1].starts_with("> /etc/resolv.conf"));
    assert_eq!(undone(&steps)[1], "> /etc/resolv.conf \"x\"");
}

#[test]
fn linux_full_tunnel_protects_the_gateway_first() {
    let config = set_all();
    let params = TunnelParams::default();
    let old = Some(DefaultRoute { gateway: Ipv4::new(192, 168, 2, 1), iface: "eth0".to_string() });
    let gw = Some(Ipv4::new(203, 0, 113, 9));
    assert!(LinuxNet.is_full_tunnel(&params, &config));
    let steps = LinuxNet.route_steps(&params, "ppp0", &config, &old, gw);
    assert_eq!(
        dos(&steps),
        vec![
            "ip route add 203.0.113.9/32 via 192.168.2.1 dev eth0",
            "ip route replace default dev ppp0"
        ]
    );
    assert_eq!(
        undone(&steps),
        vec![
            "ip route del 203.0.113.9/32",
            "ip route replace default via 192.168.2.1 dev eth0"
        ]
    );
    // Without an old default route there is nothing to protect by, and nothing to restore.
    let steps = LinuxNet.route_steps(&params, "ppp0", &config, &None, gw);
    assert_eq!(dos(&steps), vec!["ip route replace default dev ppp0"]);
    assert_eq!(undone(&steps), vec!["ip route del default"]);
    // Half-internet routes leave the default route alone.
    let half = Config { half_internet_routes: true, ..set_all() };
    let steps = LinuxNet.route_steps(&params, "ppp0", &half, &None, None);
    assert_eq!(
        dos(&steps),
        vec!["ip route add 0.0.0.0/1 dev ppp0", "ip route add 128.0.0.0/1 dev ppp0"]
    );
    assert_eq!(steps[0].on_failure, OnFailure::Ignore);
}

#[test]
fn linux_dns_by_each_backend() {
    let (config, params) = (set_all(), split_params());
    let steps = LinuxNet.dns_steps(&params, "ppp0", &config, DnsBackend::Resolvectl, Vec::new());
    assert_eq!(
        dos(&steps),
        vec![
            "resolvectl dns ppp0 10.0.0.53 10.0.0.54",
            "resolvectl domain ppp0 corp.local"
        ]
    );
    assert_eq!(undone(&steps), vec!["resolvectl revert ppp0", ""]);
    assert_eq!(steps[0].context, "");

    let steps = LinuxNet.dns_steps(&params, "ppp0", &config, DnsBackend::Resolvconf, Vec::new());
    assert_eq!(
        dos(&steps),
        vec!["resolvconf -a ppp0 < \"search corp.local\\nnameserver 10.0.0.53\\nnameserver 10.0.0.54\\n\""]
    );
    assert_eq!(undone(&steps), vec!["resolvconf -d ppp0"]);

    let before = b"nameserver 1.1.1.1\n".to_vec();
    let steps = LinuxNet.dns_steps(&params, "ppp0", &config, DnsBackend::File, before);
    assert_eq!(
        dos(&steps),
        vec!["> /etc/resolv.conf \"search corp.local\\nnameserver 10.0.0.53\\nnameserver 10.0.0.54\\nnameserver 1.1.1.1\\n\""]
    );
    assert_eq!(undone(&steps), vec!["> /etc/resolv.conf \"nameserver 1.1.1.1\\n\""]);
    assert_eq!(steps[0].context, "writing /etc/resolv.conf");
}

#[test]
fn resolver_file_survives_bytes_that_are_no_text() {
    let params = TunnelParams { dns: vec![Ipv4::new(9, 9, 9, 9)], ..Default::default() };
    let steps = LinuxNet.dns_steps(&params, "p", &set_all(), DnsBackend::File, vec![0xff, b'\n']);
    match (&steps[0].action, steps[0].undo.as_ref().unwrap()) {
        (Action::Write { contents: new, .. }, Action::Write { contents: old, .. }) => {
            assert_eq!(new, "nameserver 9.9.9.9\n\u{fffd}\n".as_bytes());
            assert_eq!(old, &vec![0xff, b'\n']);
        }
        _ => panic!("expected file writes"),
    }
}

#[test]
fn delegated_settings_are_left_alone() {
    let params = split_params();
    let none = Config::default();
    assert!(LinuxNet.address_steps(&params, "ppp0", &none).is_empty());
    assert!(LinuxNet.route_steps(&params, "ppp0", &none, &None, None).is_empty());
    assert!(!LinuxNet.wants_dns(&params, &none));
    let peer = Config { pppd_use_peerdns: true, ..set_all() };
    assert!(LinuxNet.dns_steps(&params, "ppp0", &peer, DnsBackend::File, Vec::new()).is_empty());
    assert!(BsdNet.route_steps(&params, "tun0", &none, &None, None).is_empty());
    assert!(BsdNet.dns_steps(&params, &none, Vec::new()).is_empty());
}

#[test]
fn dns_backend_detection() {
    let plain = Config::default();
    let prefer = Config { use_resolvconf: true, ..Default::default() };
    assert_eq!(DnsBackend::detect(&plain, true, true), DnsBackend::Resolvectl);
    assert_eq!(DnsBackend::detect(&prefer, true, true), DnsBackend::Resolvconf);
    assert_eq!(DnsBackend::detect(&prefer, false, true), DnsBackend::Resolvectl);
    assert_eq!(DnsBackend::detect(&plain, true, false), DnsBackend::Resolvconf);
    assert_eq!(DnsBackend::detect(&plain, false, false), DnsBackend::File);
}

#[test]
fn bsd_plans_restore_the_default_route_whatever_fails() {
    let config = set_all();
    let params = TunnelParams::default();
    let old = Some(DefaultGateway { gateway: "192.168.1.1".to_string(), iface: "en0".to_string() });
    let steps = BsdNet.route_steps(&params, "tun0", &config, &old, Some(Ipv4::new(203, 0, 113, 9)));
    assert_eq!(
        dos(&steps),
        vec![
            "route -n add -host 203.0.113.9 192.168.1.1",
            "route -n delete default",
            "route -n add default -interface tun0"
        ]
    );
    assert_eq!(
        undone(&steps),
        vec![
            "route -n delete -host 203.0.113.9",
            "route -n add default 192.168.1.1",
            "route -n delete default"
        ]
    );
    // Redirecting fails: the old default route is among what is undone.
    let mut applied = AppliedNetwork::new();
    let mut outcomes = vec![true, true, false].into_iter();
    for step in steps {
        if !settle(step, outcomes.next().unwrap(), &mut applied) {
            break;
        }
    }
    let mut undo = Vec::new();
    while let Some(a) = applied.pop_cleanup() {
        undo.push(line(&a));
    }
    assert_eq!(
        undo,
        vec!["route -n add default 192.168.1.1", "route -n delete -host 203.0.113.9"]
    );
}

#[test]
fn bsd_split_tunnel_and_half_routes() {
    let steps = BsdNet.route_steps(&split_params(), "tun0", &set_all(), &None, None);
    assert_eq!(dos(&steps), vec!["route -n add -net 10.0.0.0/8 -interface tun0"]);
    assert_eq!(undone(&steps), vec!["route -n delete -net 10.0.0.0/8"]);
    let half = Config { half_internet_routes: true, ..set_all() };
    assert!(BsdNet.is_full_tunnel(&TunnelParams::default(), &half));
    let steps = BsdNet.route_steps(&TunnelParams::default(), "tun0", &half, &None, None);
    assert_eq!(
        dos(&steps),
        vec![
            "route -n add -net 0.0.0.0/1 -interface tun0",
            "route -n add -net 128.0.0.0/1 -interface tun0"
        ]
    );
    assert!(BsdNet.wants_dns(&split_params(), &half));
    assert_eq!(BsdNet.dns_steps(&split_params(), &half, Vec::new()).len(), 1);
}

#[test]
fn settling_follows_the_policy() {
    let step = |policy: OnFailure| Step {
        action: Action::Run { program: "do".to_string(), args: Vec::new() },
        undo: Some(Action::Run { program: "undo".to_string(), args: Vec::new() }),
        on_failure: policy,
        context: String::new(),
    };
    for (policy, ok, go_on, registered) in [
        (OnFailure::Abort, true, true, true),
        (OnFailure::Abort, false, false, false),
        (OnFailure::Warn, false, true, false),
        (OnFailure::Ignore, false, true, false),
        (OnFailure::Regardless, false, true, true),
        (OnFailure::Ignore, true, true, true),
    ] {
        let mut applied = AppliedNetwork::new();
        assert_eq!(settle(step(policy), ok, &mut applied), go_on);
        assert_eq!(applied.pop_cleanup().is_some(), registered);
    }
}

#[test]
fn resolver_lines_come_in_order() {
    let dns = [Ipv4::new(1, 1, 1, 1), Ipv4::new(8, 8, 8, 8)];
    assert_eq!(render_resolv(&dns, &None), "nameserver 1.1.1.1\nnameserver 8.8.8.8\n");
    assert_eq!(render_resolv(&[], &Some("x".to_string())), "search x\n");
}

#[test]
fn interface_state_is_read_from_both_tools() {
    let addr = "\n    inet 10.0.0.2 peer 10.0.0.1/32 scope global ppp0\n";
    let with = |line: &str| link_is_up(&format!("{line}{addr}"));
    assert!(with("2: ppp0: <POINTOPOINT> state UP mode DEFAULT"));
    assert!(with("5: ppp0: <POINTOPOINT,MULTICAST,NOARP,UP,LOWER_UP> state UNKNOWN"));
    assert!(!with("5: ppp0: <POINTOPOINT> state UNKNOWN"));
    assert!(!with("5: ppp0: <POINTOPOINT> state DOWN"));
    // Up, but without an address, or with a link-local one only.
    assert!(!link_is_up("2: ppp0: <POINTOPOINT> state UP mode DEFAULT"));
    assert!(!link_is_up("2: ppp0: <POINTOPOINT> state UP\n    inet6 fe80::1/64 scope link\n"));
    assert!(iface_is_up("tun0: flags=8051<UP,POINTOPOINT,RUNNING>\n\tinet 10.0.0.1"));
    assert!(!iface_is_up("tun0: flags=8051<UP,POINTOPOINT,RUNNING>"));
    assert!(!iface_is_up("tun0: flags=8010<POINTOPOINT>\n\tinet 10.0.0.1"));
}

#[test]
fn waiting_for_an_interface_is_bounded() {
    let mut wait = IfaceWait::start(1_200);
    assert_eq!(wait, IfaceWait::Again { left: 2 });
    wait = wait.looked(false);
    assert_eq!(wait, IfaceWait::Again { left: 1 });
    assert_eq!(wait.looked(true), IfaceWait::Ready);
    assert_eq!(wait.looked(false), IfaceWait::TimedOut);
    assert_eq!(IfaceWait::start(0), IfaceWait::Again { left: 1 });
    assert_eq!(IfaceWait::TimedOut.looked(true), IfaceWait::TimedOut);
}

#[test]
fn gateway_interface_falls_back_to_the_last_column() {
    let found = parse_default_gateway("default 10.0.0.1 UGS lan\n").unwrap();
    assert_eq!(found.iface, "lan");
    let found = parse_default_gateway("default 10.0.0.1 UGS 1.5 em1 x\n").unwrap();
    assert_eq!(found.iface, "em1");
    assert!(parse_default_gateway("default 10.0.0.1 UGS\n").is_none());
}

#[test]
fn login_user_by_authority() {
    assert_eq!(original_user_uid(Some(1000), Some("1001"), Some("1002")), Some(1000));
    assert_eq!(original_user_uid(None, Some("1001"), Some("1002")), Some(1001));
    assert_eq!(original_user_uid(None, Some("root"), Some("1002\n")), Some(1002));
    assert_eq!(original_user_uid(None, None, Some("4294967295")), None);
    assert_eq!(original_user_uid(None, None, None), None);
}

#[test]
fn browser_commands() {
    assert_eq!(opener(true), "open");
    assert_eq!(opener(false), "xdg-open");
    let al = || Some("al".to_string());
    let ways = |uid, name, systemd, macos| -> Vec<String> {
        open_url("https://x", uid, name, systemd, macos).iter().map(line).collect()
    };
    assert_eq!(
        ways(Some(1000), al(), true, false),
        vec![
            "systemd-run --quiet --pipe --wait --user --machine al@.host -- xdg-open https://x",
            "su al -c xdg-open 'https://x'",
        ]
    );
    assert_eq!(ways(Some(1000), al(), false, true), vec!["su al -c open 'https://x'"]);
    // Root, nobody, or somebody without a name: as whoever runs this.
    assert_eq!(ways(Some(0), al(), true, false), vec!["xdg-open https://x"]);
    assert_eq!(ways(None, al(), true, false), vec!["xdg-open https://x"]);
    assert_eq!(ways(Some(1000), None, true, true), vec!["open https://x"]);
    match &open_url("u v", Some(1), al(), false, false)[0] {
        Action::Run { program, args } => {
            assert_eq!(program, "su");
            assert_eq!(args, &vec!["al", "-c", "xdg-open 'u v'"]);
        }
        _ => panic!("expected a command"),
    }
}

#[test]
fn a_session_is_found_passed_over_or_the_last() {
    let good = "Active=yes\nRemote=no\nType=wayland\nUser=1000\n";
    let remote = "Active=yes\nRemote=yes\nType=wayland\nUser=1000\n";
    assert_eq!(shown_session(true, true, good), SessionStep::Found(1000));
    assert_eq!(shown_session(true, true, remote), SessionStep::Next);
    assert_eq!(shown_session(true, false, good), SessionStep::Next);
    assert_eq!(shown_session(false, false, ""), SessionStep::GiveUp);
}

#[test]
fn the_first_ipv4_address_is_taken() {
    let (x, y) = (Ipv4::new(10, 0, 0, 1), Ipv4::new(10, 0, 0, 2));
    assert_eq!(first_ipv4(&[None, Some(y), Some(x)]), Some(y));
    assert_eq!(first_ipv4(&[None, None]), None);
    assert_eq!(first_ipv4(&[]), None);
}

#[test]
fn sessions_and_search_paths() {
    assert_eq!(session_ids("  2 1000 al seat0\n\n c1 120 gdm\n"), vec!["2", "c1"]);
    assert_eq!(path_dirs("/a:/b"), vec!["/a", "/b"]);
    assert_eq!(search_dirs(Some("/a")), vec!["/a", "/usr/bin", "/bin", "/usr/sbin", "/sbin"]);
    assert_eq!(search_dirs(None), vec!["/usr/bin", "/bin", "/usr/sbin", "/sbin"]);
}

#[test]
fn an_unsupported_platform_says_so() {
    assert!(UnsupportedNet.apply().starts_with("no network backend for this platform yet"));
}
