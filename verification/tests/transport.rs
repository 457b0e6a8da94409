// SPDX-License-Identifier: GPL-3.0-or-later
//! TLS decisions and the PPP daemon.

use crosswire::address::Ipv4;
use crosswire::cli::Config;
use crosswire::path::FilePath;
use crosswire::provider::{cidr, Route, TunnelParams};
use crosswire::transport::ppp::{
    bsd_ppp_argv, env_entry, linux_pppd_argv, ppp_argv, ppp_exit_message, pppd_envp, report_status, Ending,
    Platform, PppdGuard, Probe, ReapAction, GRACEFUL_KILL_STEP_MS, GRACEFUL_KILL_TIMEOUT_MS,
};
use crosswire::transport::tls::{
    cert_sha256_hex, hex_text, parse_tls_version, untrusted_advice, CertSource, CertState,
    KeySource, TlsFactory, TlsVersion,
};

/// Producer side of the CROSSWIRE_* environment contract with the pppd plugin.
#[test]
fn pppd_envp_encodes_routes_dns_suffix() {
    let params = TunnelParams {
        dns: vec![
            Ipv4::parse("172.31.13.10").unwrap(),
            Ipv4::parse("172.31.13.11").unwrap(),
        ],
        dns_suffix: Some("corp.local".into()),
        routes: vec![
            Route {
                dest: Ipv4::parse("10.0.0.0").unwrap(),
                prefix: 8,
            },
            Route {
                dest: Ipv4::parse("172.16.0.0").unwrap(),
                prefix: 12,
            },
            Route {
                dest: Ipv4::parse("192.168.1.0").unwrap(),
                prefix: 24,
            },
        ],
        ..Default::default()
    };

    let envp = pppd_envp(vec!["PATH=/usr/bin".to_string()], &params);
    let val = |key: &str| envp.iter().find_map(|s| s.strip_prefix(key));

    assert_eq!(
        val("CROSSWIRE_ROUTES="),
        Some("10.0.0.0/8,172.16.0.0/12,192.168.1.0/24")
    );
    assert_eq!(val("CROSSWIRE_DNS="), Some("172.31.13.10,172.31.13.11"));
    assert_eq!(val("CROSSWIRE_DNS_SUFFIX="), Some("corp.local"));
    // Our own environment is preserved.
    assert!(envp.iter().any(|s| s.starts_with("PATH=")));
}

/// Full-tunnel: empty routes/DNS still emit the (empty) vars; no suffix.
#[test]
fn pppd_envp_full_tunnel_is_empty() {
    let envp = pppd_envp(Vec::new(), &TunnelParams::default());
    let val = |key: &str| envp.iter().find_map(|s| s.strip_prefix(key));
    assert_eq!(val("CROSSWIRE_ROUTES="), Some(""));
    assert_eq!(val("CROSSWIRE_DNS="), Some(""));
    assert_eq!(val("CROSSWIRE_DNS_SUFFIX="), None);
}

#[test]
fn linux_argv_has_core_options() {
    let cfg = Config {
        pppd_use_peerdns: true,
        ..Default::default()
    };
    let argv = linux_pppd_argv(&cfg, "ppp0");
    assert_eq!(argv[0], "/usr/sbin/pppd");
    assert!(argv.contains(&"nodetach".to_string()));
    assert!(argv.contains(&"usepeerdns".to_string()));
    // ifname is passed through.
    let i = argv.iter().position(|a| a == "ifname").unwrap();
    assert_eq!(argv[i + 1], "ppp0");
}

#[test]
fn bsd_argv_uses_ppp_direct() {
    let cfg = Config {
        pppd_system: Some("myvpn".into()),
        ..Default::default()
    };
    let argv = bsd_ppp_argv(&cfg, "ppp0");
    assert_eq!(argv, vec!["/usr/sbin/ppp", "-direct", "myvpn"]);

    // Falls back to the interface name when no system label is set.
    let argv2 = bsd_ppp_argv(&Config::default(), "tun0");
    assert_eq!(argv2, vec!["/usr/sbin/ppp", "-direct", "tun0"]);
}

#[test]
fn linux_argv_is_exact() {
    let base = vec![
        "/usr/sbin/pppd", "230400", ":169.254.2.1", "noipdefault", "ipcp-accept-local", "noaccomp",
        "noauth", "default-asyncmap", "nopcomp", "receive-all", "nodefaultroute", "nodetach",
        "lcp-max-configure", "40", "mru", "1354", "ifname", "ppp1",
    ];
    let mut plain = base.clone();
    plain.extend(["logfd", "2"]);
    assert_eq!(ppp_argv(Platform::Linux, &Config::default(), "ppp1"), plain);

    let cfg = Config {
        pppd_log: Some(FilePath::from_text("/var/log/p")),
        pppd_plugin: Some(FilePath::from_text("/lib/nm.so")),
        pppd_ipparam: Some("i".to_string()),
        pppd_system: Some("s".to_string()),
        ..Default::default()
    };
    let mut full = base.clone();
    full.extend(["debug", "logfile", "/var/log/p", "plugin", "/lib/nm.so", "ipparam", "i", "system", "s"]);
    assert_eq!(linux_pppd_argv(&cfg, "ppp1"), full);

    // A log path that is no text is as good as none.
    let cfg = Config { pppd_log: Some(FilePath { bytes: vec![0xff] }), ..Default::default() };
    assert_eq!(linux_pppd_argv(&cfg, "ppp1"), plain);
    assert_eq!(ppp_argv(Platform::Other, &cfg, "x"), vec!["/bin/false"]);
    assert_eq!(ppp_argv(Platform::Bsd, &cfg, "x")[1], "-direct");
}

#[test]
fn a_child_that_honors_sigterm_is_not_killed() {
    let mut guard = PppdGuard::new(4711);
    assert_eq!(guard.child(), 4711);
    assert_eq!(guard.reap(), ReapAction::Terminate);
    assert_eq!(
        guard.observed(Probe::StillAlive, 0),
        ReapAction::Sleep { millis: GRACEFUL_KILL_STEP_MS }
    );
    assert_eq!(guard.observed(Probe::Interrupted, 100), ReapAction::Retry);
    assert_eq!(
        guard.observed(Probe::Ended(Ending::Exited(5)), 100),
        ReapAction::Done { code: Some(5) }
    );
    // Idempotent.
    assert_eq!(guard.reap(), ReapAction::Done { code: None });
}

#[test]
fn a_stuck_child_is_killed_after_the_grace_period() {
    let mut guard = PppdGuard::new(1);
    guard.reap();
    let mut elapsed = 0;
    loop {
        match guard.observed(Probe::StillAlive, elapsed) {
            ReapAction::Sleep { millis } => elapsed += millis,
            ReapAction::Kill => break,
            other => panic!("unexpected {other:?}"),
        }
    }
    assert_eq!(elapsed, GRACEFUL_KILL_TIMEOUT_MS);
    assert_eq!(guard.observed(Probe::Interrupted, elapsed), ReapAction::Retry);
    assert_eq!(
        guard.observed(Probe::Ended(Ending::Signaled), elapsed),
        ReapAction::Done { code: None }
    );
    let mut lost = PppdGuard::new(2);
    lost.reap();
    assert_eq!(lost.observed(Probe::Failed, 0), ReapAction::Done { code: None });
}

#[test]
fn environment_variables_are_text() {
    assert_eq!(env_entry(b"PATH", b"/bin:/usr/bin").as_deref(), Some("PATH=/bin:/usr/bin"));
    assert_eq!(env_entry("Ä".as_bytes(), b"").as_deref(), Some("Ä="));
    assert_eq!(env_entry(b"A", &[0xff]), None);
    assert_eq!(env_entry(&[0xff], b"a"), None);
    assert_eq!(env_entry(b"A", b"a\0b"), None);
}

#[test]
fn exit_codes_are_explained() {
    assert_eq!(ppp_exit_message(0), "code 0 (OK)");
    assert_eq!(ppp_exit_message(19), "code 19 (authentication failed)");
    assert_eq!(ppp_exit_message(16), "code 16 (link terminated by modem hangup)");
    assert_eq!(ppp_exit_message(-7), "code -7 (see pppd(8) for exit code)");
    assert_eq!(report_status(Ending::Exited(1)), Some(1));
    assert_eq!(report_status(Ending::Other), None);
}

#[test]
fn ranges_in_cidr_notation() {
    assert_eq!(cidr(Ipv4::new(10, 0, 0, 0), 8), "10.0.0.0/8");
    assert_eq!(cidr(Ipv4::new(255, 255, 255, 255), 32), "255.255.255.255/32");
}

#[test]
fn tls_versions_by_name() {
    assert_eq!(parse_tls_version(" 1.3 ").unwrap(), TlsVersion::Tls13);
    assert_eq!(parse_tls_version("1.2").unwrap(), TlsVersion::Tls12);
    assert_eq!(parse_tls_version("1.1").unwrap(), TlsVersion::Tls11);
    assert_eq!(parse_tls_version("1").unwrap(), TlsVersion::Tls10);
    assert_eq!(parse_tls_version("1.0").unwrap(), TlsVersion::Tls10);
    assert_eq!(
        parse_tls_version(" 2 ").unwrap_err().message(),
        "invalid --min-tls value: 2 (expected 1.0/1.1/1.2/1.3)"
    );
}

#[test]
fn digests_in_lowercase_hex() {
    assert_eq!(hex_text(&[0x00, 0x9f, 0xff]), "009fff");
    assert_eq!(
        cert_sha256_hex(b"abc"),
        "ba7816bf8f01cfea414140de5dae2223b00361a396177a9cb410ff61f20015ad"
    );
}

fn pinned(pin: &str) -> TlsFactory {
    TlsFactory::from_config(&Config {
        trusted_cert: vec![pin.to_string()],
        ..Default::default()
    })
}

#[test]
fn a_certificate_is_pinned_or_valid() {
    let mut state = CertState::new();
    assert!(pinned("aa").accepts(&state));
    state.observe(true, 1, Some("0102".to_string()));
    state.observe(false, 0, Some("ab01".to_string()));
    assert!(!state.chain_ok);
    assert_eq!(state.leaf_digest.as_deref(), Some("ab01"));
    assert!(!pinned("0102").accepts(&state));
    assert!(pinned("AB:01").accepts(&state));
    assert!(pinned("aB01").accepts(&state));
    // Nothing pins an empty digest.
    let empty = CertState { chain_ok: false, leaf_digest: Some(String::new()) };
    assert!(!pinned("").accepts(&empty));
    let none = CertState { chain_ok: false, leaf_digest: None };
    assert!(!pinned("").accepts(&none));
    // A copy decides alike.
    assert!(pinned("AB:01").clone().accepts(&state));
}

#[test]
fn pins_may_hold_any_text() {
    let state = CertState { chain_ok: false, leaf_digest: Some("\u{e4}".to_string()) };
    assert!(pinned("\u{c4}").accepts(&state));
}

#[test]
fn distrust_comes_with_advice() {
    let lines = untrusted_advice("ab");
    assert_eq!(lines.len(), 4);
    assert_eq!(lines[1], "  sha256 digest: ab");
    assert_eq!(lines[2], "  If you trust it, rerun with: --trusted-cert ab");
    assert_eq!(lines[3], "  or add to your config file: trusted-cert = ab");
}

#[test]
fn client_identity_from_files_and_tokens() {
    let config = |cert: &str, key: Option<&str>| Config {
        min_tls: "1.2".to_string(),
        insecure_ssl: true,
        cipher_list: Some("ALL".to_string()),
        user_cert: Some(cert.to_string()),
        user_key: key.map(FilePath::from_text),
        pem_passphrase: Some("pw".to_string()),
        ca_file: Some(FilePath::from_text("/ca")),
        ..Default::default()
    };
    let factory = TlsFactory::from_config(&config("/c.pem", None));
    assert_eq!(factory.ca_file(), &Some(FilePath::from_text("/ca")));
    let plan = factory.configure().unwrap();
    assert_eq!(plan.min_version, TlsVersion::Tls12);
    assert!(plan.security_level_zero);
    assert_eq!(plan.cipher_list.as_deref(), Some("ALL"));
    match plan.identity {
        Some((CertSource::Pem(cert), KeySource::Pem { path, passphrase })) => {
            assert_eq!(cert, "/c.pem");
            assert_eq!(path, FilePath::from_text("/c.pem"));
            assert_eq!(passphrase.as_deref(), Some("pw"));
        }
        _ => panic!("expected files"),
    }
    let plan = TlsFactory::from_config(&config("pkcs11:object=c", Some("pkcs11:object=k")))
        .configure()
        .unwrap();
    match plan.identity {
        Some((CertSource::Pkcs11(cert), KeySource::Pkcs11(key))) => {
            assert_eq!(cert, "pkcs11:object=c");
            assert_eq!(key, "pkcs11:object=k");
        }
        _ => panic!("expected tokens"),
    }
    let bad = Config { min_tls: "9".to_string(), ..Default::default() };
    assert_eq!(TlsFactory::from_config(&bad).configure().err().unwrap().value, "9");
    let none = Config { min_tls: "1.2".to_string(), ..Default::default() };
    assert!(TlsFactory::from_config(&none).configure().unwrap().identity.is_none());
}
