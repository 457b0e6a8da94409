// SPDX-License-Identifier: GPL-3.0-or-later
//! Settings from the command line and from a configuration file.

use crosswire::cli::{
    check_start, default_ifname, default_min_tls, default_port, default_true, log_filter, Args,
    Config, Given, StartError,
};
use crosswire::path::FilePath;

#[test]
fn test_merge_from_path() {
    let config_content = "\nhost=vpn.test.com\nport=8443\nusername=testuser\nset-routes=0\ntrusted-cert=aa11\ntrusted-cert=bb22\n";

    let mut config = Config {
        host: String::new(),
        port: 443,
        set_routes: true,
        ..Default::default()
    };

    config.merge_from_str(Given::default(), config_content);

    assert_eq!(config.host, "vpn.test.com");
    assert_eq!(config.port, 8443);
    assert_eq!(config.username, Some("testuser".to_string()));
    assert!(!config.set_routes);
    assert_eq!(config.trusted_cert, vec!["aa11", "bb22"]);
}

fn as_parsed() -> Config {
    Config {
        port: default_port(),
        min_tls: default_min_tls(),
        set_routes: default_true(),
        set_dns: default_true(),
        set_ip: default_true(),
        pppd_ifname: default_ifname(),
        ..Default::default()
    }
}

#[test]
fn defaults_are_what_the_command_line_shows() {
    let c = as_parsed();
    assert_eq!(c.port, 443);
    assert_eq!(c.min_tls, "1.2");
    assert_eq!(c.pppd_ifname, "ppp0");
    assert!(c.set_routes && c.set_dns && c.set_ip);
    assert_eq!(Config::default().port, 0);
}

#[test]
fn every_key_is_understood() {
    let mut c = as_parsed();
    let unknown = c.merge_from_str(
        Given::default(),
        "host = h\nport=1\nusername=u\npassword = \"p w\"\nrealm=r\ncookie=c\notp=1\notp-prompt=x\n\
         otp-delay=7\nno-ftm-push=1\nmin-tls=1.3\ncipher-list=ALL\ninsecure-ssl=1\nuser-cert=cert\n\
         user-key=/k\nset-routes=0\nhalf-internet-routes=1\nset-dns=0\nset-ip=0\nuse-resolvconf=1\n\
         pppd-use-peerdns=1\npersistent=9\npppd-ifname=ppp7\n# comment = 1\n\nno equals sign\nfoo=bar\n",
    );
    assert_eq!(unknown, vec!["foo"]);
    assert_eq!(c.host, "h");
    assert_eq!(c.port, 1);
    assert_eq!(c.password.as_deref(), Some("p w"));
    assert_eq!(c.realm.as_deref(), Some("r"));
    assert_eq!(c.cookie.as_deref(), Some("c"));
    assert_eq!(c.otp.as_deref(), Some("1"));
    assert_eq!(c.otp_prompt.as_deref(), Some("x"));
    assert_eq!(c.otp_delay, 7);
    assert!(c.no_ftm_push && c.insecure_ssl && c.half_internet_routes && c.use_resolvconf);
    assert_eq!(c.min_tls, "1.3");
    assert_eq!(c.cipher_list.as_deref(), Some("ALL"));
    assert_eq!(c.user_cert.as_deref(), Some("cert"));
    assert_eq!(c.user_key, Some(FilePath::from_text("/k")));
    assert!(!c.set_routes && !c.set_dns && !c.set_ip);
    assert!(c.pppd_use_peerdns);
    assert_eq!(c.persistent, 9);
    assert_eq!(c.pppd_ifname, "ppp7");
}

#[test]
fn the_command_line_wins_over_the_file() {
    let mut c = as_parsed();
    c.host = "cli".to_string();
    c.port = 10443;
    c.username = Some("alice".to_string());
    c.no_ftm_push = true;
    c.set_dns = false;
    c.min_tls = "1.1".to_string();
    c.pppd_ifname = "ppp3".to_string();
    c.persistent = 5;
    let given = Given { no_ftm_push: true, set_dns: true, pppd_ifname: true, ..Default::default() };
    c.merge_from_str(
        given,
        "host=file\nport=1\nusername=bob\nno-ftm-push=0\nset-dns=1\nmin-tls=1.3\npppd-ifname=ppp9\npersistent=60\nrealm=r\n",
    );
    assert_eq!(c.host, "cli");
    assert_eq!(c.port, 10443);
    assert_eq!(c.username.as_deref(), Some("alice"));
    assert!(c.no_ftm_push);
    assert!(!c.set_dns);
    assert_eq!(c.min_tls, "1.1");
    assert_eq!(c.pppd_ifname, "ppp3");
    assert_eq!(c.persistent, 5);
    assert_eq!(c.realm.as_deref(), Some("r"));
}

#[test]
fn a_default_given_on_the_command_line_wins_too() {
    let mut c = as_parsed();
    c.host = "h:8443".to_string();
    let given = Given {
        port: true,
        otp_delay: true,
        min_tls: true,
        persistent: true,
        set_routes: true,
        set_dns: true,
        set_ip: true,
        pppd_use_peerdns: true,
        pppd_ifname: true,
        ..Default::default()
    };
    c.merge_from_str(
        given,
        "port=1\notp-delay=2\nmin-tls=1.3\npersistent=4\nset-routes=0\nset-dns=0\nset-ip=0\npppd-use-peerdns=1\npppd-ifname=ppp5\n",
    );
    // The host came with a port of its own.
    assert_eq!(c.port, 8443);
    assert_eq!(c.host, "h");
    assert_eq!(c.otp_delay, 0);
    assert_eq!(c.min_tls, "1.2");
    assert_eq!(c.persistent, 0);
    assert!(c.set_routes && c.set_dns && c.set_ip && !c.pppd_use_peerdns);
    assert_eq!(c.pppd_ifname, "ppp0");
}

#[test]
fn of_switches_the_last_line_wins_and_of_texts_the_first() {
    let mut c = as_parsed();
    c.merge_from_str(
        Given::default(),
        "set-dns=0\nset-dns=1\ninsecure-ssl=1\ninsecure-ssl=0\npppd-ifname=a\npppd-ifname=b\nrealm=x\nrealm=y\nport=8\nport=9\n",
    );
    assert!(c.set_dns && !c.insecure_ssl);
    assert_eq!(c.pppd_ifname, "b");
    assert_eq!(c.realm.as_deref(), Some("x"));
    assert_eq!(c.port, 8);
}

#[test]
fn a_bad_number_is_the_default() {
    let mut c = as_parsed();
    c.merge_from_str(Given::default(), "port=70000\notp-delay=soon\npersistent=-1\n");
    assert_eq!(c.port, 443);
    assert_eq!(c.otp_delay, 0);
    assert_eq!(c.persistent, 0);
}

#[test]
fn host_and_port_are_split_with_and_without_a_file() {
    let mut c = as_parsed();
    c.host = "vpn.example.com:8443".to_string();
    let args = Args { config_file: None, config: c, given: Given::default() };
    let (c, unknown) = Config::parse_and_merge(args, None);
    assert!(unknown.is_empty());
    assert_eq!(c.host, "vpn.example.com");
    assert_eq!(c.port, 8443);

    let mut c = as_parsed();
    c.host = "vpn.example.com:https".to_string();
    let args = Args { config_file: Some(FilePath::from_text("/etc/crosswire/config")), config: c, given: Given::default() };
    let (c, _) = Config::parse_and_merge(args, Some("realm=x\r\n"));
    assert_eq!(c.host, "vpn.example.com");
    assert_eq!(c.port, 443);
    assert_eq!(c.realm.as_deref(), Some("x"));

    // A port of its own leaves the host alone.
    let mut c = as_parsed();
    c.host = "h:1".to_string();
    c.port = 2;
    c.merge_from_str(Given::default(), "");
    assert_eq!(c.host, "h:1");
    assert_eq!(c.port, 2);
}

#[test]
fn a_given_port_wins_over_that_of_a_host_in_the_file() {
    let given = Given { port: true, ..Default::default() };
    let mut c = as_parsed();
    c.merge_from_str(given, "host=h:10443\n");
    assert_eq!((c.host.as_str(), c.port), ("h", 443));

    // A port that came with the host on the command line is taken.
    let mut c = as_parsed();
    c.host = "h:10443".to_string();
    c.merge_from_str(given, "host=other:1\nport=2\n");
    assert_eq!((c.host.as_str(), c.port), ("h", 10443));
    let mut c = as_parsed();
    c.host = "h:10443".to_string();
    let (c, _) = Config::parse_and_merge(Args { config_file: None, config: c, given }, None);
    assert_eq!((c.host.as_str(), c.port), ("h", 10443));
}

#[test]
fn merging_again_changes_nothing() {
    let file = "host=h:8443\nport=bad\nusername=u\nset-dns=1\nset-dns=0\nmin-tls=1.2\nmin-tls=1.3\n\
                otp-delay=0\notp-delay=3\nuser-key=/k\npppd-ifname=a\npppd-ifname=b\n";
    let mut c = as_parsed();
    c.merge_from_str(Given::default(), file);
    let check = |c: &Config| {
        assert_eq!((c.host.as_str(), c.port), ("h", 8443));
        assert_eq!(c.username.as_deref(), Some("u"));
        assert!(!c.set_dns);
        assert_eq!(c.min_tls, "1.3");
        assert_eq!(c.otp_delay, 3);
        assert_eq!(c.user_key, Some(FilePath::from_text("/k")));
        assert_eq!(c.pppd_ifname, "b");
    };
    check(&c);
    c.merge_from_str(Given::default(), file);
    check(&c);

    // Pins are added again, and a host without a name makes room for another.
    let file = "trusted-cert=aa\nhost=:1\nhost=h\n";
    let mut c = as_parsed();
    c.merge_from_str(Given::default(), file);
    assert_eq!((c.host.as_str(), c.port), ("", 1));
    c.merge_from_str(Given::default(), file);
    assert_eq!((c.host.as_str(), c.port), (":1", 1));
    assert_eq!(c.trusted_cert, vec!["aa", "aa"]);
}

#[test]
fn starting_needs_a_host_and_root() {
    let mut c = as_parsed();
    assert_eq!(check_start(&c, true, false), Err(StartError::NoHost));
    c.host = "h".to_string();
    assert_eq!(check_start(&c, false, false), Err(StartError::NotRoot));
    assert_eq!(check_start(&c, false, true), Ok(()));
    assert_eq!(check_start(&c, true, false), Ok(()));
}

#[test]
fn verbosity_picks_the_filter() {
    assert_eq!(log_filter(0), "warn,crosswire=info");
    assert_eq!(log_filter(1), "info,crosswire=debug");
    assert_eq!(log_filter(2), "debug,crosswire=trace");
    assert_eq!(log_filter(9), "trace");
}

#[test]
fn paths_need_not_be_text() {
    let odd = FilePath { bytes: vec![0x2f, 0xff, 0x61] };
    assert_eq!(odd.to_str(), None);
    assert_eq!(odd.to_string_lossy(), "/\u{fffd}a");
    let plain = FilePath::from_text("/tmp/ä");
    assert_eq!(plain.bytes, vec![0x2f, 0x74, 0x6d, 0x70, 0x2f, 0xc3, 0xa4]);
    assert_eq!(plain.to_str().as_deref(), Some("/tmp/ä"));
}
