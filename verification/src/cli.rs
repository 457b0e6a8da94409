// SPDX-License-Identifier: GPL-3.0-or-later
//! What the user asks for, on the command line and in a configuration file.

use crate::number::{number, parse_number};
use crate::path::FilePath;
use crate::seqs::{index_where, lemma_index_where, lemma_index_where_is};
use crate::text::{
    chars_of, cut, is_char, lines, lines_of, reads, split_once, str_same, string_of, stripped, texts,
    trim, trim_matches, trimmed,
};
use vstd::prelude::*;
use vstd::utf8::encode_utf8;

verus! {

/// The command line: where the configuration file is, the settings, and which of
/// those that always have a value were given.
pub struct Args {
    pub config_file: Option<FilePath>,
    pub config: Config,
    pub given: Given,
}

/// Which of the settings that always have a value were given on the command line.
/// Without this, one given as its default could not be told from one not given.
#[derive(Debug, Clone, Copy, PartialEq, Eq, Structural)]
pub struct Given {
    pub port: bool,
    pub otp_delay: bool,
    pub min_tls: bool,
    pub persistent: bool,
    pub set_routes: bool,
    pub set_dns: bool,
    pub set_ip: bool,
    pub pppd_use_peerdns: bool,
    pub pppd_ifname: bool,
    pub no_ftm_push: bool,
    pub insecure_ssl: bool,
    pub half_internet_routes: bool,
    pub use_resolvconf: bool,
}

impl Default for Given {
    fn default() -> (r: Self)
        ensures
            r == nothing_given(),
    {
        Given {
            port: false,
            otp_delay: false,
            min_tls: false,
            persistent: false,
            set_routes: false,
            set_dns: false,
            set_ip: false,
            pppd_use_peerdns: false,
            pppd_ifname: false,
            no_ftm_push: false,
            insecure_ssl: false,
            half_internet_routes: false,
            use_resolvconf: false,
        }
    }
}

/// None of them was given.
pub open spec fn nothing_given() -> Given {
    Given {
        port: false,
        otp_delay: false,
        min_tls: false,
        persistent: false,
        set_routes: false,
        set_dns: false,
        set_ip: false,
        pppd_use_peerdns: false,
        pppd_ifname: false,
        no_ftm_push: false,
        insecure_ssl: false,
        half_internet_routes: false,
        use_resolvconf: false,
    }
}

/// Everything the user can set.
pub struct Config {
    /// The gateway, perhaps as `host:port`.
    pub host: String,
    /// The port of the gateway.
    pub port: u16,
    /// VPN account username.
    pub username: Option<String>,
    /// VPN account password.
    pub password: Option<String>,
    /// Authentication realm.
    pub realm: Option<String>,
    /// Port of the local server that handles a SAML login.
    pub saml_port: Option<u16>,
    /// A session cookie to use instead of credentials.
    pub cookie: Option<String>,
    /// Read the session cookie from standard input.
    pub cookie_on_stdin: bool,
    /// SHA-256 digests of certificates to trust.
    pub trusted_cert: Vec<String>,
    /// PEM CA bundle used to verify the gateway.
    pub ca_file: Option<FilePath>,
    /// One-time password.
    pub otp: Option<String>,
    /// What the one-time password prompt reads.
    pub otp_prompt: Option<String>,
    /// Seconds to wait before sending the one-time password.
    pub otp_delay: u64,
    /// Disable FortiToken Mobile push.
    pub no_ftm_push: bool,
    /// Program to obtain secrets with.
    pub pinentry: Option<FilePath>,
    /// Client certificate for mutual TLS: a PEM file or a `pkcs11:` URI.
    pub user_cert: Option<String>,
    /// Client private key: a PEM file or a `pkcs11:` URI.
    pub user_key: Option<FilePath>,
    /// Passphrase of the PEM client key.
    pub pem_passphrase: Option<String>,
    /// Minimum TLS version.
    pub min_tls: String,
    /// OpenSSL cipher list.
    pub cipher_list: Option<String>,
    /// Do not disable insecure protocols and ciphers.
    pub insecure_ssl: bool,
    /// Seconds between reconnects; 0 does not reconnect.
    pub persistent: u64,
    /// Configure routes through the tunnel.
    pub set_routes: bool,
    /// Use the VPN's DNS servers.
    pub set_dns: bool,
    /// Assign the tunnel's address to the interface.
    pub set_ip: bool,
    /// Add two half-internet routes instead of replacing the default route.
    pub half_internet_routes: bool,
    /// Prefer the resolvconf utility.
    pub use_resolvconf: bool,
    /// Let pppd ask its peer for DNS.
    pub pppd_use_peerdns: bool,
    /// Where pppd writes its debug log.
    pub pppd_log: Option<FilePath>,
    /// The pppd plugin to load.
    pub pppd_plugin: Option<FilePath>,
    /// The name of the pppd interface.
    pub pppd_ifname: String,
    /// Extra parameter of the ip-up and ip-down scripts.
    pub pppd_ipparam: Option<String>,
    /// System name in /etc/ppp/ppp.conf.
    pub pppd_system: Option<String>,
    /// How talkative to be.
    pub verbose: u8,
}

/// The settings of a [`Config`] as plain values.
#[verifier::ext_equal]
pub struct ConfigView {
    pub host: Seq<char>,
    pub port: u16,
    pub username: Option<Seq<char>>,
    pub password: Option<Seq<char>>,
    pub realm: Option<Seq<char>>,
    pub saml_port: Option<u16>,
    pub cookie: Option<Seq<char>>,
    pub cookie_on_stdin: bool,
    pub trusted_cert: Seq<Seq<char>>,
    pub ca_file: Option<Seq<u8>>,
    pub otp: Option<Seq<char>>,
    pub otp_prompt: Option<Seq<char>>,
    pub otp_delay: u64,
    pub no_ftm_push: bool,
    pub pinentry: Option<Seq<u8>>,
    pub user_cert: Option<Seq<char>>,
    pub user_key: Option<Seq<u8>>,
    pub pem_passphrase: Option<Seq<char>>,
    pub min_tls: Seq<char>,
    pub cipher_list: Option<Seq<char>>,
    pub insecure_ssl: bool,
    pub persistent: u64,
    pub set_routes: bool,
    pub set_dns: bool,
    pub set_ip: bool,
    pub half_internet_routes: bool,
    pub use_resolvconf: bool,
    pub pppd_use_peerdns: bool,
    pub pppd_log: Option<Seq<u8>>,
    pub pppd_plugin: Option<Seq<u8>>,
    pub pppd_ifname: Seq<char>,
    pub pppd_ipparam: Option<Seq<char>>,
    pub pppd_system: Option<Seq<char>>,
    pub verbose: u8,
}

impl View for Config {
    type V = ConfigView;

    open spec fn view(&self) -> ConfigView {
        ConfigView {
            host: self.host@,
            port: self.port,
            username: self.username.deep_view(),
            password: self.password.deep_view(),
            realm: self.realm.deep_view(),
            saml_port: self.saml_port,
            cookie: self.cookie.deep_view(),
            cookie_on_stdin: self.cookie_on_stdin,
            trusted_cert: self.trusted_cert.deep_view(),
            ca_file: self.ca_file.deep_view(),
            otp: self.otp.deep_view(),
            otp_prompt: self.otp_prompt.deep_view(),
            otp_delay: self.otp_delay,
            no_ftm_push: self.no_ftm_push,
            pinentry: self.pinentry.deep_view(),
            user_cert: self.user_cert.deep_view(),
            user_key: self.user_key.deep_view(),
            pem_passphrase: self.pem_passphrase.deep_view(),
            min_tls: self.min_tls@,
            cipher_list: self.cipher_list.deep_view(),
            insecure_ssl: self.insecure_ssl,
            persistent: self.persistent,
            set_routes: self.set_routes,
            set_dns: self.set_dns,
            set_ip: self.set_ip,
            half_internet_routes: self.half_internet_routes,
            use_resolvconf: self.use_resolvconf,
            pppd_use_peerdns: self.pppd_use_peerdns,
            pppd_log: self.pppd_log.deep_view(),
            pppd_plugin: self.pppd_plugin.deep_view(),
            pppd_ifname: self.pppd_ifname@,
            pppd_ipparam: self.pppd_ipparam.deep_view(),
            pppd_system: self.pppd_system.deep_view(),
            verbose: self.verbose,
        }
    }
}

/// The settings that nobody has made.
pub open spec fn unset() -> ConfigView {
    ConfigView {
        host: Seq::empty(),
        port: 0,
        username: None,
        password: None,
        realm: None,
        saml_port: None,
        cookie: None,
        cookie_on_stdin: false,
        trusted_cert: Seq::empty(),
        ca_file: None,
        otp: None,
        otp_prompt: None,
        otp_delay: 0,
        no_ftm_push: false,
        pinentry: None,
        user_cert: None,
        user_key: None,
        pem_passphrase: None,
        min_tls: Seq::empty(),
        cipher_list: None,
        insecure_ssl: false,
        persistent: 0,
        set_routes: false,
        set_dns: false,
        set_ip: false,
        half_internet_routes: false,
        use_resolvconf: false,
        pppd_use_peerdns: false,
        pppd_log: None,
        pppd_plugin: None,
        pppd_ifname: Seq::empty(),
        pppd_ipparam: None,
        pppd_system: None,
        verbose: 0,
    }
}

impl Default for Config {
    fn default() -> (r: Self)
        ensures
            r@ == unset(),
    {
        let r = Config {
            host: String::new(),
            port: 0,
            username: None,
            password: None,
            realm: None,
            saml_port: None,
            cookie: None,
            cookie_on_stdin: false,
            trusted_cert: Vec::new(),
            ca_file: None,
            otp: None,
            otp_prompt: None,
            otp_delay: 0,
            no_ftm_push: false,
            pinentry: None,
            user_cert: None,
            user_key: None,
            pem_passphrase: None,
            min_tls: String::new(),
            cipher_list: None,
            insecure_ssl: false,
            persistent: 0,
            set_routes: false,
            set_dns: false,
            set_ip: false,
            half_internet_routes: false,
            use_resolvconf: false,
            pppd_use_peerdns: false,
            pppd_log: None,
            pppd_plugin: None,
            pppd_ifname: String::new(),
            pppd_ipparam: None,
            pppd_system: None,
            verbose: 0,
        };
        assert(r@ =~= unset());
        r
    }
}

pub fn default_port() -> (r: u16)
    ensures
        r == 443,
{
    443
}

pub fn default_true() -> (r: bool)
    ensures
        r,
{
    true
}

pub fn default_ifname() -> (r: String)
    ensures
        r@ == "ppp0"@,
{
    "ppp0".to_owned()
}

pub fn default_min_tls() -> (r: String)
    ensures
        r@ == "1.2"@,
{
    "1.2".to_owned()
}

/// Why the client does not start.
#[derive(Debug, Clone, Copy, PartialEq, Eq, Structural)]
pub enum StartError {
    /// There is no gateway to connect to.
    NoHost,
    /// Only root can configure the network.
    NotRoot,
}

/// Whether the client can start: it needs a host and, but for debug builds, root.
pub fn check_start(config: &Config, root: bool, debug: bool) -> (r: Result<(), StartError>)
    ensures
        r == if config@.host.len() == 0 {
            Err(StartError::NoHost)
        } else if !root && !debug {
            Err(StartError::NotRoot)
        } else {
            Ok(())
        },
{
    if config.host.as_str().is_empty() {
        return Err(StartError::NoHost);
    }
    if !debug && !root {
        return Err(StartError::NotRoot);
    }
    Ok(())
}

/// Which messages to log.
pub fn log_filter(verbose: u8) -> (r: &'static str)
    ensures
        r@ == if verbose == 0 {
            "warn,crosswire=info"@
        } else if verbose == 1 {
            "info,crosswire=debug"@
        } else if verbose == 2 {
            "debug,crosswire=trace"@
        } else {
            "trace"@
        },
{
    match verbose {
        0 => "warn,crosswire=info",
        1 => "info,crosswire=debug",
        2 => "debug,crosswire=trace",
        _ => "trace",
    }
}

/// The value of a switch: off is written `0`.
pub open spec fn switched_on(v: Seq<char>) -> bool {
    v != "0"@
}

/// A switch that is set unless it was given.
pub open spec fn or_switch(given: bool, set: bool, v: Seq<char>) -> bool {
    if given {
        set
    } else {
        switched_on(v)
    }
}

/// A setting that is taken unless there is one already.
pub open spec fn or_else<T>(set: Option<T>, v: T) -> Option<T> {
    match set {
        Some(x) => Some(x),
        None => Some(v),
    }
}

/// The number that a text stands for; what is no number is the default.
pub open spec fn number_or_default(v: Seq<char>, default: int, max: int) -> int {
    match number(v, 10, max) {
        Some(n) => n,
        None => default,
    }
}

/// A number that is taken unless one was given, or is there already.
pub open spec fn or_number(given: bool, set: int, default: int, v: Seq<char>, max: int) -> int {
    if given || set != default {
        set
    } else {
        number_or_default(v, default, max)
    }
}

/// Keys that say where to connect and as whom.
pub open spec fn account_key(k: Seq<char>) -> bool {
    ||| k == "host"@
    ||| k == "port"@
    ||| k == "username"@
    ||| k == "password"@
    ||| k == "realm"@
    ||| k == "cookie"@
    ||| k == "trusted-cert"@
    ||| k == "otp"@
    ||| k == "otp-prompt"@
    ||| k == "otp-delay"@
    ||| k == "no-ftm-push"@
}

/// Keys that say how to speak TLS.
pub open spec fn tls_key(k: Seq<char>) -> bool {
    ||| k == "min-tls"@
    ||| k == "cipher-list"@
    ||| k == "insecure-ssl"@
    ||| k == "user-cert"@
    ||| k == "user-key"@
}

/// Keys that say what to do to the system.
pub open spec fn system_key(k: Seq<char>) -> bool {
    ||| k == "set-routes"@
    ||| k == "half-internet-routes"@
    ||| k == "set-dns"@
    ||| k == "set-ip"@
    ||| k == "use-resolvconf"@
    ||| k == "pppd-use-peerdns"@
    ||| k == "persistent"@
    ||| k == "pppd-ifname"@
}

/// Whether a key means anything.
pub open spec fn known_key(k: Seq<char>) -> bool {
    account_key(k) || tls_key(k) || system_key(k)
}

/// The settings once an account key has had its say.
pub open spec fn with_account(c: ConfigView, g: Given, k: Seq<char>, v: Seq<char>) -> ConfigView {
    if k == "host"@ {
        ConfigView {
            host: if c.host.len() == 0 {
                v
            } else {
                c.host
            },
            ..c
        }
    } else if k == "port"@ {
        ConfigView { port: or_number(g.port, c.port as int, 443, v, 65535) as u16, ..c }
    } else if k == "username"@ {
        ConfigView { username: or_else(c.username, v), ..c }
    } else if k == "password"@ {
        ConfigView { password: or_else(c.password, v), ..c }
    } else if k == "realm"@ {
        ConfigView { realm: or_else(c.realm, v), ..c }
    } else if k == "cookie"@ {
        ConfigView { cookie: or_else(c.cookie, v), ..c }
    } else if k == "trusted-cert"@ {
        ConfigView { trusted_cert: c.trusted_cert.push(v), ..c }
    } else if k == "otp"@ {
        ConfigView { otp: or_else(c.otp, v), ..c }
    } else if k == "otp-prompt"@ {
        ConfigView { otp_prompt: or_else(c.otp_prompt, v), ..c }
    } else if k == "otp-delay"@ {
        ConfigView {
            otp_delay: or_number(g.otp_delay, c.otp_delay as int, 0, v, u64::MAX as int) as u64,
            ..c
        }
    } else {
        ConfigView {
            no_ftm_push: or_switch(g.no_ftm_push, c.no_ftm_push, v),
            ..c
        }
    }
}

/// The settings once a TLS key has had its say.
pub open spec fn with_tls(c: ConfigView, g: Given, k: Seq<char>, v: Seq<char>) -> ConfigView {
    if k == "min-tls"@ {
        ConfigView {
            min_tls: if c.min_tls == "1.2"@ && !g.min_tls {
                v
            } else {
                c.min_tls
            },
            ..c
        }
    } else if k == "cipher-list"@ {
        ConfigView { cipher_list: or_else(c.cipher_list, v), ..c }
    } else if k == "insecure-ssl"@ {
        ConfigView {
            insecure_ssl: or_switch(g.insecure_ssl, c.insecure_ssl, v),
            ..c
        }
    } else if k == "user-cert"@ {
        ConfigView { user_cert: or_else(c.user_cert, v), ..c }
    } else {
        ConfigView { user_key: or_else(c.user_key, encode_utf8(v)), ..c }
    }
}

/// The settings once a system key has had its say.
pub open spec fn with_system(c: ConfigView, g: Given, k: Seq<char>, v: Seq<char>) -> ConfigView {
    if k == "set-routes"@ {
        ConfigView { set_routes: or_switch(g.set_routes, c.set_routes, v), ..c }
    } else if k == "half-internet-routes"@ {
        ConfigView {
            half_internet_routes: or_switch(g.half_internet_routes, c.half_internet_routes, v),
            ..c
        }
    } else if k == "set-dns"@ {
        ConfigView { set_dns: or_switch(g.set_dns, c.set_dns, v), ..c }
    } else if k == "set-ip"@ {
        ConfigView { set_ip: or_switch(g.set_ip, c.set_ip, v), ..c }
    } else if k == "use-resolvconf"@ {
        ConfigView {
            use_resolvconf: or_switch(g.use_resolvconf, c.use_resolvconf, v),
            ..c
        }
    } else if k == "pppd-use-peerdns"@ {
        ConfigView {
            pppd_use_peerdns: or_switch(g.pppd_use_peerdns, c.pppd_use_peerdns, v),
            ..c
        }
    } else if k == "persistent"@ {
        ConfigView {
            persistent: or_number(g.persistent, c.persistent as int, 0, v, u64::MAX as int) as u64,
            ..c
        }
    } else {
        ConfigView {
            pppd_ifname: if g.pppd_ifname {
                c.pppd_ifname
            } else {
                v
            },
            ..c
        }
    }
}

/// The settings once a key has had its say. What was given on the command line
/// stays. So does a text that is there already, and a number that is not at its
/// default; of switches and the interface name, the last line wins.
pub open spec fn with_setting(c: ConfigView, g: Given, k: Seq<char>, v: Seq<char>) -> ConfigView {
    if account_key(k) {
        with_account(c, g, k, v)
    } else if tls_key(k) {
        with_tls(c, g, k, v)
    } else if system_key(k) {
        with_system(c, g, k, v)
    } else {
        c
    }
}

/// The key and the value on a line; a blank line or a comment has none, nor has a
/// line without an equals sign.
pub open spec fn setting_of(line: Seq<char>) -> Option<(Seq<char>, Seq<char>)> {
    let t = trimmed(line);
    if t.len() == 0 || t[0] == '#' {
        None
    } else {
        match split_once(t, '=') {
            Some((k, v)) => Some((trimmed(k), stripped(trimmed(v), is_char('"')))),
            None => None,
        }
    }
}

/// The settings once every line has had its say, in order.
pub open spec fn with_lines(c: ConfigView, g: Given, ls: Seq<Seq<char>>) -> ConfigView
    decreases ls.len(),
{
    if ls.len() == 0 {
        c
    } else {
        let before = with_lines(c, g, ls.drop_last());
        match setting_of(ls.last()) {
            Some((k, v)) => with_setting(before, g, k, v),
            None => before,
        }
    }
}

/// The keys that mean nothing, in order.
pub open spec fn unknown_keys(ls: Seq<Seq<char>>) -> Seq<Seq<char>>
    decreases ls.len(),
{
    if ls.len() == 0 {
        Seq::empty()
    } else {
        let before = unknown_keys(ls.drop_last());
        match setting_of(ls.last()) {
            Some((k, _)) => if known_key(k) {
                before
            } else {
                before.push(k)
            },
            None => before,
        }
    }
}

/// A `host:port` host taken apart, unless the port is another than the default
/// already. What is no port number is dropped, and so is one where the port is to
/// be kept.
pub open spec fn host_split(c: ConfigView, keep_port: bool) -> ConfigView {
    if c.port == 443 {
        match split_once(c.host, ':') {
            Some((h, p)) => ConfigView {
                host: h,
                port: if keep_port {
                    c.port
                } else {
                    number_or_default(p, 443, 65535) as u16
                },
                ..c
            },
            None => c,
        }
    } else {
        c
    }
}

/// Whether a port was given on the command line and the host was not: then no port
/// that comes with a host in a file takes its place.
pub open spec fn port_is_kept(c: ConfigView, g: Given) -> bool {
    g.port && c.host.len() == 0
}

/// The settings of the command line and of a configuration file together.
pub open spec fn merged(c: ConfigView, g: Given, content: Seq<char>) -> ConfigView {
    host_split(with_lines(c, g, lines(content)), port_is_kept(c, g))
}

/// Take `v` unless there is a value already.
fn fill(slot: &mut Option<String>, v: &[char])
    ensures
        final(slot).deep_view() == or_else(old(slot).deep_view(), v@),
{
    if slot.is_none() {
        *slot = Some(string_of(v));
    }
}

/// The number that `v` stands for, or the default where it is none.
fn number_or(v: &[char], default: u64, max: u64) -> (r: u64)
    ensures
        r == number_or_default(v@, default as int, max as int),
{
    match parse_number(v, 10, max) {
        Some(n) => n,
        None => default,
    }
}

/// The value of a switch.
fn switch(given: bool, set: bool, v: &[char]) -> (r: bool)
    ensures
        r == or_switch(given, set, v@),
{
    if given {
        set
    } else {
        !reads(v, "0")
    }
}

impl Config {
    #[verifier::rlimit(60)]
    fn set_account(&mut self, given: Given, k: &[char], v: &[char]) -> (known: bool)
        ensures
            known == account_key(k@),
            final(self)@ == if known {
                with_account(old(self)@, given, k@, v@)
            } else {
                old(self)@
            },
    {
        let ghost c = self@;
        if reads(k, "host") {
            if self.host.as_str().is_empty() {
                self.host = string_of(v);
            }
        } else if reads(k, "port") {
            if self.port == 443 && !given.port {
                self.port = number_or(v, 443, 65535) as u16;
            }
        } else if reads(k, "username") {
            fill(&mut self.username, v);
        } else if reads(k, "password") {
            fill(&mut self.password, v);
        } else if reads(k, "realm") {
            fill(&mut self.realm, v);
        } else if reads(k, "cookie") {
            fill(&mut self.cookie, v);
        } else if reads(k, "trusted-cert") {
            self.trusted_cert.push(string_of(v));
            assert(self.trusted_cert.deep_view() =~= c.trusted_cert.push(v@));
        } else if reads(k, "otp") {
            fill(&mut self.otp, v);
        } else if reads(k, "otp-prompt") {
            fill(&mut self.otp_prompt, v);
        } else if reads(k, "otp-delay") {
            if self.otp_delay == 0 && !given.otp_delay {
                self.otp_delay = number_or(v, 0, u64::MAX);
            }
        } else if reads(k, "no-ftm-push") {
            self.no_ftm_push = switch(given.no_ftm_push, self.no_ftm_push, v);
        } else {
            return false;
        }
        true
    }

    #[verifier::rlimit(60)]
    fn set_tls(&mut self, given: Given, k: &[char], v: &[char]) -> (known: bool)
        ensures
            known == tls_key(k@),
            final(self)@ == if known {
                with_tls(old(self)@, given, k@, v@)
            } else {
                old(self)@
            },
    {
        if reads(k, "min-tls") {
            if !given.min_tls && str_same(self.min_tls.as_str(), "1.2") {
                self.min_tls = string_of(v);
            }
        } else if reads(k, "cipher-list") {
            fill(&mut self.cipher_list, v);
        } else if reads(k, "insecure-ssl") {
            self.insecure_ssl = switch(given.insecure_ssl, self.insecure_ssl, v);
        } else if reads(k, "user-cert") {
            fill(&mut self.user_cert, v);
        } else if reads(k, "user-key") {
            if self.user_key.is_none() {
                self.user_key = Some(FilePath::from_text(string_of(v).as_str()));
            }
        } else {
            return false;
        }
        true
    }

    #[verifier::rlimit(60)]
    fn set_system(&mut self, given: Given, k: &[char], v: &[char]) -> (known: bool)
        ensures
            known == system_key(k@),
            final(self)@ == if known {
                with_system(old(self)@, given, k@, v@)
            } else {
                old(self)@
            },
    {
        if reads(k, "set-routes") {
            self.set_routes = switch(given.set_routes, self.set_routes, v);
        } else if reads(k, "half-internet-routes") {
            self.half_internet_routes = switch(given.half_internet_routes, self.half_internet_routes, v);
        } else if reads(k, "set-dns") {
            self.set_dns = switch(given.set_dns, self.set_dns, v);
        } else if reads(k, "set-ip") {
            self.set_ip = switch(given.set_ip, self.set_ip, v);
        } else if reads(k, "use-resolvconf") {
            self.use_resolvconf = switch(given.use_resolvconf, self.use_resolvconf, v);
        } else if reads(k, "pppd-use-peerdns") {
            self.pppd_use_peerdns = switch(given.pppd_use_peerdns, self.pppd_use_peerdns, v);
        } else if reads(k, "persistent") {
            if self.persistent == 0 && !given.persistent {
                self.persistent = number_or(v, 0, u64::MAX);
            }
        } else if reads(k, "pppd-ifname") {
            if !given.pppd_ifname {
                self.pppd_ifname = string_of(v);
            }
        } else {
            return false;
        }
        true
    }

    /// Take in one line of a configuration file. Returns its key where that means
    /// nothing.
    fn merge_line(&mut self, given: Given, line: &[char]) -> (unknown: Option<String>)
        ensures
            match setting_of(line@) {
                Some((k, v)) => {
                    &&& final(self)@ == with_setting(old(self)@, given, k, v)
                    &&& unknown.deep_view() == if known_key(k) {
                        None
                    } else {
                        Some(k)
                    }
                },
                None => final(self)@ == old(self)@ && unknown is None,
            },
    {
        let line = trim(line);
        if line.len() == 0 || line[0] == '#' {
            return None;
        }
        match cut(line, '=') {
            Some((k, v)) => {
                let k = trim(k);
                let v = trim_matches(trim(v), '"');
                if self.set_account(given, k, v) || self.set_tls(given, k, v) || self.set_system(given, k, v) {
                    None
                } else {
                    Some(string_of(k))
                }
            },
            None => None,
        }
    }

    /// Split a `host:port` host.
    fn split_host(&mut self, keep_port: bool)
        ensures
            final(self)@ == host_split(old(self)@, keep_port),
    {
        if self.port != 443 {
            return;
        }
        let host = chars_of(self.host.as_str());
        if let Some((h, p)) = cut(host.as_slice(), ':') {
            self.host = string_of(h);
            if !keep_port {
                self.port = number_or(p, 443, 65535) as u16;
            }
        }
    }

    /// Merge the content of a configuration file, without overriding anything
    /// already set on the command line, then split a `host:port` host. Returns the
    /// keys that mean nothing, for a warning.
    pub fn merge_from_str(&mut self, given: Given, content: &str) -> (unknown: Vec<String>)
        ensures
            final(self)@ == merged(old(self)@, given, content@),
            unknown.deep_view() == unknown_keys(lines(content@)),
    {
        let keep_port: bool = given.port && self.host.as_str().is_empty();
        let text = chars_of(content);
        let all = lines_of(text.as_slice());
        let ghost ls = lines(content@);
        let mut unknown: Vec<String> = Vec::new();
        let mut i: usize = 0;
        assert(unknown.deep_view() =~= unknown_keys(ls.take(0)));
        while i < all.len()
            invariant
                i <= all@.len(),
                texts(all@) == ls,
                self@ == with_lines(old(self)@, given, ls.take(i as int)),
                unknown.deep_view() == unknown_keys(ls.take(i as int)),
            decreases all@.len() - i,
        {
            proof {
                assert(ls[i as int] == all@[i as int]@);
                assert(ls.take(i + 1).drop_last() =~= ls.take(i as int));
                assert(ls.take(i + 1).last() == ls[i as int]);
            }
            let ghost before = unknown.deep_view();
            if let Some(key) = self.merge_line(given, all[i]) {
                unknown.push(key);
                assert(unknown.deep_view() =~= before.push(key@));
            }
            i = i + 1;
        }
        assert(ls.take(i as int) =~= ls);
        self.split_host(keep_port);
        unknown
    }

    /// The settings of the command line together with those of the configuration
    /// file, whose content is `None` where there is no such file. A `host:port`
    /// host is split either way.
    pub fn parse_and_merge(args: Args, content: Option<&str>) -> (r: (Config, Vec<String>))
        ensures
            match content {
                Some(text) => {
                    &&& r.0@ == merged(args.config@, args.given, text@)
                    &&& r.1.deep_view() == unknown_keys(lines(text@))
                },
                None => r.0@ == host_split(args.config@, false) && r.1@.len() == 0,
            },
    {
        let given = args.given;
        let mut config = args.config;
        match content {
            Some(text) => {
                let unknown = config.merge_from_str(given, text);
                (config, unknown)
            },
            None => {
                config.split_host(false);
                (config, Vec::new())
            },
        }
    }
}

/// Whatever `a` sets, `b` has as well: each setting that a file can make is the
/// same in both where it was given on the command line, where it is a text that is
/// there in `a`, or a number that is not at its default; no other setting differs.
pub open spec fn keeps(a: ConfigView, g: Given, b: ConfigView) -> bool {
    &&& a.host.len() > 0 ==> b.host == a.host
    &&& a.port != 443 || g.port ==> b.port == a.port
    &&& a.username is Some ==> b.username == a.username
    &&& a.password is Some ==> b.password == a.password
    &&& a.realm is Some ==> b.realm == a.realm
    &&& a.cookie is Some ==> b.cookie == a.cookie
    &&& a.trusted_cert.is_prefix_of(b.trusted_cert)
    &&& a.otp is Some ==> b.otp == a.otp
    &&& a.otp_prompt is Some ==> b.otp_prompt == a.otp_prompt
    &&& a.otp_delay != 0 || g.otp_delay ==> b.otp_delay == a.otp_delay
    &&& g.no_ftm_push ==> b.no_ftm_push == a.no_ftm_push
    &&& a.min_tls != "1.2"@ || g.min_tls ==> b.min_tls == a.min_tls
    &&& a.cipher_list is Some ==> b.cipher_list == a.cipher_list
    &&& g.insecure_ssl ==> b.insecure_ssl == a.insecure_ssl
    &&& a.user_cert is Some ==> b.user_cert == a.user_cert
    &&& a.user_key is Some ==> b.user_key == a.user_key
    &&& g.set_routes ==> b.set_routes == a.set_routes
    &&& g.half_internet_routes ==> b.half_internet_routes == a.half_internet_routes
    &&& g.set_dns ==> b.set_dns == a.set_dns
    &&& g.set_ip ==> b.set_ip == a.set_ip
    &&& g.use_resolvconf ==> b.use_resolvconf == a.use_resolvconf
    &&& g.pppd_use_peerdns ==> b.pppd_use_peerdns == a.pppd_use_peerdns
    &&& a.persistent != 0 || g.persistent ==> b.persistent == a.persistent
    &&& g.pppd_ifname ==> b.pppd_ifname == a.pppd_ifname
    &&& b.saml_port == a.saml_port
    &&& b.cookie_on_stdin == a.cookie_on_stdin
    &&& b.ca_file == a.ca_file
    &&& b.pinentry == a.pinentry
    &&& b.pem_passphrase == a.pem_passphrase
    &&& b.pppd_log == a.pppd_log
    &&& b.pppd_plugin == a.pppd_plugin
    &&& b.pppd_ipparam == a.pppd_ipparam
    &&& b.pppd_system == a.pppd_system
    &&& b.verbose == a.verbose
}

#[verifier::rlimit(40)]
proof fn lemma_account_keeps(
    a: ConfigView,
    g: Given,
    b: ConfigView,
    k: Seq<char>,
    v: Seq<char>,
)
    requires
        keeps(a, g, b),
    ensures
        keeps(a, g, with_account(b, g, k, v)),
{
    assert(a.trusted_cert.is_prefix_of(b.trusted_cert.push(v)));
}

#[verifier::rlimit(40)]
proof fn lemma_tls_keeps(
    a: ConfigView,
    g: Given,
    b: ConfigView,
    k: Seq<char>,
    v: Seq<char>,
)
    requires
        keeps(a, g, b),
    ensures
        keeps(a, g, with_tls(b, g, k, v)),
{
}

#[verifier::rlimit(40)]
proof fn lemma_system_keeps(
    a: ConfigView,
    g: Given,
    b: ConfigView,
    k: Seq<char>,
    v: Seq<char>,
)
    requires
        keeps(a, g, b),
    ensures
        keeps(a, g, with_system(b, g, k, v)),
{
}

proof fn lemma_lines_keep(c: ConfigView, g: Given, ls: Seq<Seq<char>>)
    ensures
        keeps(c, g, with_lines(c, g, ls)),
    decreases ls.len(),
{
    if ls.len() > 0 {
        lemma_lines_keep(c, g, ls.drop_last());
        if let Some((k, v)) = setting_of(ls.last()) {
            let before = with_lines(c, g, ls.drop_last());
            lemma_account_keeps(c, g, before, k, v);
            lemma_tls_keeps(c, g, before, k, v);
            lemma_system_keeps(c, g, before, k, v);
        }
    }
}

/// The command line wins: no configuration file changes a setting that is made
/// there, not even one that is given as its default. A host given there is kept
/// whole, or loses the port that it came with, which then is the port.
pub proof fn law_command_line_wins(c: ConfigView, g: Given, content: Seq<char>)
    ensures
        ({
            let m = merged(c, g, content);
            let before = with_lines(c, g, lines(content));
            &&& keeps(c, g, before)
            &&& m == (ConfigView { host: m.host, port: m.port, ..before })
            &&& c.port != 443 || (g.port && split_once(c.host, ':') is None) ==> m.port == c.port
            &&& g.port && c.port == 443 && c.host.len() > 0 ==> (split_once(c.host, ':') matches Some(
                (_, p),
            ) ==> m.port == number_or_default(p, 443, 65535) as u16)
            &&& c.port != 443 && c.host.len() > 0 ==> m.host == c.host
            &&& c.host.len() > 0 ==> m.host == c.host || (split_once(c.host, ':') matches Some(
                (h, _),
            ) && m.host == h)
        }),
{
    lemma_lines_keep(c, g, lines(content));
}

/// The settings after the first lines are kept to the last.
proof fn lemma_lines_keep_on(c: ConfigView, g: Given, ls: Seq<Seq<char>>, n: int)
    requires
        0 <= n <= ls.len(),
    ensures
        keeps(with_lines(c, g, ls.take(n)), g, with_lines(c, g, ls)),
    decreases ls.len(),
{
    let first = with_lines(c, g, ls.take(n));
    if n == ls.len() {
        assert(ls.take(n) =~= ls);
    } else {
        let fewer = ls.drop_last();
        assert(fewer.take(n) =~= ls.take(n));
        lemma_lines_keep_on(c, g, fewer, n);
        if let Some((k, v)) = setting_of(ls.last()) {
            let before = with_lines(c, g, fewer);
            lemma_account_keeps(first, g, before, k, v);
            lemma_tls_keeps(first, g, before, k, v);
            lemma_system_keeps(first, g, before, k, v);
        }
    }
}

/// Whether a host starts with the colon that would part it from its port.
pub open spec fn nameless(host: Seq<char>) -> bool {
    host.len() > 0 && host[0] == ':'
}

/// Whether no line pins a certificate or names a host without a name.
pub open spec fn repeatable(ls: Seq<Seq<char>>) -> bool {
    forall|i: int|
        0 <= i < ls.len() ==> (setting_of(#[trigger] ls[i]) matches Some((k, v)) ==> k
            != "trusted-cert"@ && (k == "host"@ ==> !nameless(v)))
}

/// Whether all that the first line for it decides is the same in both, and all
/// that no line does.
spec fn same_firsts(y: ConfigView, end: ConfigView) -> bool {
    &&& y.host == end.host
    &&& y.port == end.port
    &&& y.username == end.username
    &&& y.password == end.password
    &&& y.realm == end.realm
    &&& y.saml_port == end.saml_port
    &&& y.cookie == end.cookie
    &&& y.cookie_on_stdin == end.cookie_on_stdin
    &&& y.trusted_cert == end.trusted_cert
    &&& y.ca_file == end.ca_file
    &&& y.otp == end.otp
    &&& y.otp_prompt == end.otp_prompt
    &&& y.otp_delay == end.otp_delay
    &&& y.pinentry == end.pinentry
    &&& y.user_cert == end.user_cert
    &&& y.user_key == end.user_key
    &&& y.pem_passphrase == end.pem_passphrase
    &&& y.min_tls == end.min_tls
    &&& y.cipher_list == end.cipher_list
    &&& y.persistent == end.persistent
    &&& y.pppd_log == end.pppd_log
    &&& y.pppd_plugin == end.pppd_plugin
    &&& y.pppd_ipparam == end.pppd_ipparam
    &&& y.pppd_system == end.pppd_system
    &&& y.verbose == end.verbose
}

/// Whether all that the last line for it decides is in `y` as in `x` or as in
/// `end`.
#[verifier::opaque]
spec fn same_lasts(x: ConfigView, y: ConfigView, end: ConfigView) -> bool {
    &&& y.no_ftm_push == x.no_ftm_push || y.no_ftm_push == end.no_ftm_push
    &&& y.insecure_ssl == x.insecure_ssl || y.insecure_ssl == end.insecure_ssl
    &&& y.set_routes == x.set_routes || y.set_routes == end.set_routes
    &&& y.half_internet_routes == x.half_internet_routes || y.half_internet_routes == end.half_internet_routes
    &&& y.set_dns == x.set_dns || y.set_dns == end.set_dns
    &&& y.set_ip == x.set_ip || y.set_ip == end.set_ip
    &&& y.use_resolvconf == x.use_resolvconf || y.use_resolvconf == end.use_resolvconf
    &&& y.pppd_use_peerdns == x.pppd_use_peerdns || y.pppd_use_peerdns == end.pppd_use_peerdns
    &&& y.pppd_ifname == x.pppd_ifname || y.pppd_ifname == end.pppd_ifname
}

/// Of the settings that the last line decides, the one that a key is about, by
/// number.
spec fn last_decided(k: Seq<char>) -> int {
    if account_key(k) {
        if k == "host"@ || k == "port"@ || k == "username"@ || k == "password"@ || k == "realm"@ || k
            == "cookie"@ || k == "trusted-cert"@ || k == "otp"@ || k == "otp-prompt"@ || k
            == "otp-delay"@ {
            9
        } else {
            0
        }
    } else if tls_key(k) {
        if k == "min-tls"@ || k == "cipher-list"@ {
            9
        } else if k == "insecure-ssl"@ {
            1
        } else {
            9
        }
    } else if k == "set-routes"@ {
        2
    } else if k == "half-internet-routes"@ {
        3
    } else if k == "set-dns"@ {
        4
    } else if k == "set-ip"@ {
        5
    } else if k == "use-resolvconf"@ {
        6
    } else if k == "pppd-use-peerdns"@ {
        7
    } else if k == "persistent"@ {
        9
    } else if k == "pppd-ifname"@ {
        8
    } else {
        9
    }
}

/// Of these settings, `d` has the one with this number from `v` where it was not
/// given, and all others from `c`.
#[verifier::opaque]
spec fn decided(c: ConfigView, d: ConfigView, g: Given, i: int, v: Seq<char>) -> bool {
    &&& d.no_ftm_push == if i == 0 {
        or_switch(g.no_ftm_push, c.no_ftm_push, v)
    } else {
        c.no_ftm_push
    }
    &&& d.insecure_ssl == if i == 1 {
        or_switch(g.insecure_ssl, c.insecure_ssl, v)
    } else {
        c.insecure_ssl
    }
    &&& d.set_routes == if i == 2 {
        or_switch(g.set_routes, c.set_routes, v)
    } else {
        c.set_routes
    }
    &&& d.half_internet_routes == if i == 3 {
        or_switch(g.half_internet_routes, c.half_internet_routes, v)
    } else {
        c.half_internet_routes
    }
    &&& d.set_dns == if i == 4 {
        or_switch(g.set_dns, c.set_dns, v)
    } else {
        c.set_dns
    }
    &&& d.set_ip == if i == 5 {
        or_switch(g.set_ip, c.set_ip, v)
    } else {
        c.set_ip
    }
    &&& d.use_resolvconf == if i == 6 {
        or_switch(g.use_resolvconf, c.use_resolvconf, v)
    } else {
        c.use_resolvconf
    }
    &&& d.pppd_use_peerdns == if i == 7 {
        or_switch(g.pppd_use_peerdns, c.pppd_use_peerdns, v)
    } else {
        c.pppd_use_peerdns
    }
    &&& d.pppd_ifname == if i == 8 && !g.pppd_ifname {
        v
    } else {
        c.pppd_ifname
    }
}

proof fn lemma_decided_account(c: ConfigView, g: Given, k: Seq<char>, v: Seq<char>)
    requires
        account_key(k),
    ensures
        decided(c, with_account(c, g, k, v), g, last_decided(k), v),
{
    reveal(decided);
}

proof fn lemma_decided_tls(c: ConfigView, g: Given, k: Seq<char>, v: Seq<char>)
    requires
        tls_key(k),
        !account_key(k),
    ensures
        decided(c, with_tls(c, g, k, v), g, last_decided(k), v),
{
    reveal(decided);
}

proof fn lemma_decided_system(c: ConfigView, g: Given, k: Seq<char>, v: Seq<char>)
    requires
        system_key(k),
        !account_key(k),
        !tls_key(k),
    ensures
        decided(c, with_system(c, g, k, v), g, last_decided(k), v),
{
    reveal(decided);
}

proof fn lemma_decided(c: ConfigView, g: Given, k: Seq<char>, v: Seq<char>)
    ensures
        decided(c, with_setting(c, g, k, v), g, last_decided(k), v),
{
    if account_key(k) {
        lemma_decided_account(c, g, k, v);
    } else if tls_key(k) {
        lemma_decided_tls(c, g, k, v);
    } else if system_key(k) {
        lemma_decided_system(c, g, k, v);
    } else {
        reveal(decided);
    }
}

proof fn lemma_lasts_step(
    x: ConfigView,
    x2: ConfigView,
    y: ConfigView,
    y2: ConfigView,
    end: ConfigView,
    g: Given,
    i: int,
    v: Seq<char>,
)
    requires
        same_lasts(x, y, end),
        decided(x, x2, g, i, v),
        decided(y, y2, g, i, v),
    ensures
        same_lasts(x2, y2, end),
{
    reveal(same_lasts);
    reveal(decided);
}

/// Whether `end` is `read` but for a host that was taken apart.
spec fn ends_as(read: ConfigView, end: ConfigView) -> bool {
    &&& end == (ConfigView { host: end.host, port: end.port, ..read })
    &&& end.host.len() == 0 ==> read.host.len() == 0
    &&& end.port == 443 ==> read.port == 443
}

#[verifier::rlimit(40)]
proof fn lemma_account_firsts(
    x: ConfigView,
    y: ConfigView,
    read: ConfigView,
    end: ConfigView,
    g: Given,
    k: Seq<char>,
    v: Seq<char>,
)
    requires
        same_firsts(y, end),
        ends_as(read, end),
        keeps(with_account(x, g, k, v), g, read),
        k != "trusted-cert"@,
    ensures
        same_firsts(with_account(y, g, k, v), end),
{
    if k == "host"@ && end.host.len() == 0 {
        assert(v =~= end.host);
    }
}

#[verifier::rlimit(40)]
proof fn lemma_tls_firsts(
    x: ConfigView,
    y: ConfigView,
    read: ConfigView,
    end: ConfigView,
    g: Given,
    k: Seq<char>,
    v: Seq<char>,
)
    requires
        same_firsts(y, end),
        ends_as(read, end),
        keeps(with_tls(x, g, k, v), g, read),
    ensures
        same_firsts(with_tls(y, g, k, v), end),
{
}

#[verifier::rlimit(40)]
proof fn lemma_system_firsts(
    x: ConfigView,
    y: ConfigView,
    read: ConfigView,
    end: ConfigView,
    g: Given,
    k: Seq<char>,
    v: Seq<char>,
)
    requires
        same_firsts(y, end),
        ends_as(read, end),
        keeps(with_system(x, g, k, v), g, read),
    ensures
        same_firsts(with_system(y, g, k, v), end),
{
}

/// Reading a file again, from the settings `end` that it led to the first time.
proof fn lemma_lines_retrace(
    c: ConfigView,
    g: Given,
    ls: Seq<Seq<char>>,
    end: ConfigView,
    n: int,
)
    requires
        0 <= n <= ls.len(),
        repeatable(ls),
        ends_as(with_lines(c, g, ls), end),
    ensures
        same_firsts(with_lines(end, g, ls.take(n)), end),
        same_lasts(with_lines(c, g, ls.take(n)), with_lines(end, g, ls.take(n)), end),
    decreases n,
{
    if n == 0 {
        reveal(same_lasts);
    } else {
        let read = with_lines(c, g, ls);
        let fewer = ls.take(n - 1);
        assert(ls.take(n).drop_last() =~= fewer);
        assert(ls.take(n).last() == ls[n - 1]);
        lemma_lines_retrace(c, g, ls, end, n - 1);
        lemma_lines_keep_on(c, g, ls, n);
        if let Some((k, v)) = setting_of(ls[n - 1]) {
            let x = with_lines(c, g, fewer);
            let y = with_lines(end, g, fewer);
            lemma_decided(x, g, k, v);
            lemma_decided(y, g, k, v);
            lemma_lasts_step(
                x,
                with_setting(x, g, k, v),
                y,
                with_setting(y, g, k, v),
                end,
                g,
                last_decided(k),
                v,
            );
            if account_key(k) {
                lemma_account_firsts(x, y, read, end, g, k, v);
            } else if tls_key(k) {
                lemma_tls_firsts(x, y, read, end, g, k, v);
            } else if system_key(k) {
                lemma_system_firsts(x, y, read, end, g, k, v);
            }
        }
    }
}

proof fn lemma_host_has_name(c: ConfigView, g: Given, ls: Seq<Seq<char>>)
    requires
        repeatable(ls),
        !nameless(c.host),
    ensures
        !nameless(with_lines(c, g, ls).host),
    decreases ls.len(),
{
    if ls.len() > 0 {
        let fewer = ls.drop_last();
        assert forall|i: int| 0 <= i < fewer.len() implies (setting_of(#[trigger] fewer[i]) matches Some(
            (k, v),
        ) ==> k != "trusted-cert"@ && (k == "host"@ ==> !nameless(v))) by {
            assert(fewer[i] == ls[i]);
        }
        lemma_host_has_name(c, g, fewer);
        assert(ls.last() == ls[ls.len() - 1]);
    }
}

/// A host that has been taken apart stays as it is.
proof fn lemma_host_split_once(c: ConfigView, keep_port: bool, again: bool)
    requires
        !nameless(c.host),
    ensures
        ends_as(c, host_split(c, keep_port)),
        host_split(host_split(c, keep_port), again) == host_split(c, keep_port),
{
    let at = index_where(c.host, is_char(':'));
    lemma_index_where(c.host, is_char(':'));
    if c.port == 443 && at < c.host.len() {
        let h = c.host.take(at);
        assert forall|j: int| 0 <= j < h.len() implies !is_char(':')(#[trigger] h[j]) by {
            assert(h[j] == c.host[j]);
        }
        lemma_index_where_is(h, is_char(':'), h.len() as int);
        assert(at > 0) by {
            assert(is_char(':')(c.host[at]));
        }
    }
}

/// Merging a file a second time changes nothing more, but for the certificates
/// that it pins, which are added again, and for a host that has nothing before its
/// port, which leaves room for another.
pub proof fn law_merging_again_changes_nothing(c: ConfigView, g: Given, content: Seq<char>)
    requires
        repeatable(lines(content)),
        !nameless(c.host),
    ensures
        merged(merged(c, g, content), g, content) == merged(c, g, content),
{
    let ls = lines(content);
    let read = with_lines(c, g, ls);
    let end = merged(c, g, content);
    lemma_host_has_name(c, g, ls);
    lemma_host_split_once(read, port_is_kept(c, g), port_is_kept(end, g));
    lemma_lines_retrace(c, g, ls, end, ls.len() as int);
    assert(ls.take(ls.len() as int) =~= ls);
    reveal(same_lasts);
    assert(with_lines(end, g, ls) =~= end);
}

} // verus!
