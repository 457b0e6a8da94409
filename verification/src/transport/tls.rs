// SPDX-License-Identifier: GPL-3.0-or-later
//! What a TLS connection to the gateway must be like, and whether its
//! certificate is accepted.
//!
//! A certificate is accepted if either normal PKI validation, which checks the
//! host name too, succeeds, or the SHA-256 digest of the leaf certificate is
//! pinned by `--trusted-cert`.

use crate::cli::{Config, ConfigView};
use crate::laws::pins::{law_fingerprint, spells};
use crate::path::{lossy_text, FilePath};
use crate::text::{
    chars_of, reads, str_same, str_starts_with, string_of, trim, trimmed,
};
use vstd::prelude::*;
use vstd::string::StringExecFns;
use vstd::utf8::encode_utf8;

verus! {

/// A protocol version.
#[derive(Debug, Clone, Copy, PartialEq, Eq, Structural)]
pub enum TlsVersion {
    Tls10,
    Tls11,
    Tls12,
    Tls13,
}

/// A `--min-tls` value that names no protocol version.
#[derive(Debug)]
pub struct BadTlsVersion {
    pub value: String,
}

/// The protocol version that a text names.
pub open spec fn tls_version(v: Seq<char>) -> Option<TlsVersion> {
    let t = trimmed(v);
    if t == "1.0"@ || t == "1"@ {
        Some(TlsVersion::Tls10)
    } else if t == "1.1"@ {
        Some(TlsVersion::Tls11)
    } else if t == "1.2"@ {
        Some(TlsVersion::Tls12)
    } else if t == "1.3"@ {
        Some(TlsVersion::Tls13)
    } else {
        None
    }
}

pub fn parse_tls_version(v: &str) -> (r: Result<TlsVersion, BadTlsVersion>)
    ensures
        match r {
            Ok(version) => tls_version(v@) == Some(version),
            Err(e) => tls_version(v@) is None && e.value@ == trimmed(v@),
        },
{
    let chars = chars_of(v);
    let t = trim(chars.as_slice());
    if reads(t, "1.0") || reads(t, "1") {
        Ok(TlsVersion::Tls10)
    } else if reads(t, "1.1") {
        Ok(TlsVersion::Tls11)
    } else if reads(t, "1.2") {
        Ok(TlsVersion::Tls12)
    } else if reads(t, "1.3") {
        Ok(TlsVersion::Tls13)
    } else {
        Err(BadTlsVersion { value: string_of(t) })
    }
}

impl BadTlsVersion {
    /// What to tell the user.
    pub fn message(&self) -> (r: String)
        ensures
            r@ == "invalid --min-tls value: "@ + self.value@ + " (expected 1.0/1.1/1.2/1.3)"@,
    {
        let mut r = "invalid --min-tls value: ".to_owned();
        r.append(self.value.as_str());
        r.append(" (expected 1.0/1.1/1.2/1.3)");
        r
    }
}

/// The two lowercase hex digits of a byte.
pub open spec fn hex_byte(b: u8) -> Seq<char> {
    seq![hex_char((b / 16) as int), hex_char((b % 16) as int)]
}

/// The lowercase hex digit of a value below sixteen.
pub open spec fn hex_char(d: int) -> char {
    if d < 10 {
        (48 + d) as char
    } else {
        (87 + d) as char
    }
}

/// Bytes in lowercase hex digits, nothing between them.
pub open spec fn hex(bytes: Seq<u8>) -> Seq<char>
    decreases bytes.len(),
{
    if bytes.len() == 0 {
        Seq::empty()
    } else {
        hex(bytes.drop_last()) + hex_byte(bytes.last())
    }
}

fn hex_digit(d: u8) -> (r: char)
    requires
        d < 16,
    ensures
        r == hex_char(d as int),
{
    match d {
        0 => '0',
        1 => '1',
        2 => '2',
        3 => '3',
        4 => '4',
        5 => '5',
        6 => '6',
        7 => '7',
        8 => '8',
        9 => '9',
        10 => 'a',
        11 => 'b',
        12 => 'c',
        13 => 'd',
        14 => 'e',
        _ => 'f',
    }
}

/// Bytes in lowercase hex digits, nothing between them.
pub fn hex_text(bytes: &[u8]) -> (r: String)
    ensures
        r@ == hex(bytes@),
{
    let mut r = String::new();
    let mut i: usize = 0;
    while i < bytes.len()
        invariant
            i <= bytes@.len(),
            r@ == hex(bytes@.take(i as int)),
        decreases bytes@.len() - i,
    {
        proof {
            assert(bytes@.take(i + 1).drop_last() =~= bytes@.take(i as int));
        }
        let ghost before = r@;
        r.push(hex_digit(bytes[i] / 16));
        r.push(hex_digit(bytes[i] % 16));
        assert(r@ =~= before + hex_byte(bytes@[i as int]));
        i = i + 1;
    }
    assert(bytes@.take(i as int) =~= bytes@);
    r
}

/// What SHA-256 makes of `data`.
pub uninterp spec fn sha256_digest(data: Seq<u8>) -> Seq<u8>;

/// `openssl::sha::sha256` computes the SHA-256 digest of `data`, which is 32
/// bytes long and a function of the data.
#[verifier::external_body]
fn sha256(data: &[u8]) -> (digest: [u8; 32])
    ensures
        digest@ == sha256_digest(data@),
{
    openssl::sha::sha256(data)
}

/// Lowercase, separator-free hex of the SHA-256 digest of a certificate, given in
/// its DER encoding.
pub fn cert_sha256_hex(der: &[u8]) -> (r: String)
    ensures
        r@ == hex(sha256_digest(der@)),
{
    let digest = sha256(der);
    hex_text(digest.as_slice())
}

/// What the handshake showed of the gateway's certificates.
pub struct CertState {
    pub chain_ok: bool,
    pub leaf_digest: Option<String>,
}

/// What verification was asked about, one certificate at a time: whether it
/// passed, how far above the leaf it stands, and its digest.
pub struct Observation {
    pub preverify_ok: bool,
    pub depth: u32,
    pub digest: Option<Seq<char>>,
}

/// Whether every certificate of the chain passed.
pub open spec fn chain_passed(seen: Seq<Observation>) -> bool {
    forall|i: int| 0 <= i < seen.len() ==> #[trigger] seen[i].preverify_ok
}

/// The digest of the leaf, as last seen.
pub open spec fn leaf_seen(seen: Seq<Observation>) -> Option<Seq<char>>
    decreases seen.len(),
{
    if seen.len() == 0 {
        None
    } else if seen.last().depth == 0 && seen.last().digest is Some {
        seen.last().digest
    } else {
        leaf_seen(seen.drop_last())
    }
}

impl CertState {
    /// Whether this is what `seen` leaves behind.
    pub open spec fn reflects(&self, seen: Seq<Observation>) -> bool {
        &&& self.chain_ok == chain_passed(seen)
        &&& self.leaf_digest.deep_view() == leaf_seen(seen)
    }

    pub fn new() -> (r: Self)
        ensures
            r.chain_ok,
            r.leaf_digest is None,
            r.reflects(Seq::empty()),
    {
        CertState { chain_ok: true, leaf_digest: None }
    }

    /// Note what verification said of one certificate; `digest` is that of the
    /// certificate, where there is one.
    pub fn observe(&mut self, preverify_ok: bool, depth: u32, digest: Option<String>)
        ensures
            final(self).chain_ok == (old(self).chain_ok && preverify_ok),
            final(self).leaf_digest.deep_view() == if depth == 0 && digest is Some {
                digest.deep_view()
            } else {
                old(self).leaf_digest.deep_view()
            },
            forall|seen: Seq<Observation>| #[trigger]
                old(self).reflects(seen) ==> final(self).reflects(
                    seen.push(Observation { preverify_ok, depth, digest: digest.deep_view() }),
                ),
    {
        let ghost noted = Observation { preverify_ok, depth, digest: digest.deep_view() };
        if !preverify_ok {
            self.chain_ok = false;
        }
        if depth == 0 && digest.is_some() {
            self.leaf_digest = digest;
        }
        proof {
            assert forall|seen: Seq<Observation>| #[trigger] old(self).reflects(seen) implies self.reflects(
                seen.push(noted),
            ) by {
                let next = seen.push(noted);
                assert(next.drop_last() =~= seen);
                assert(chain_passed(next) == (chain_passed(seen) && preverify_ok)) by {
                    if chain_passed(seen) && preverify_ok {
                        assert forall|i: int| 0 <= i < next.len() implies #[trigger] next[i].preverify_ok by {
                            if i < seen.len() {
                                assert(seen[i].preverify_ok);
                            }
                        }
                    }
                    if chain_passed(next) {
                        assert(next[seen.len() as int].preverify_ok);
                        assert forall|i: int| 0 <= i < seen.len() implies #[trigger] seen[i].preverify_ok by {
                            assert(next[i].preverify_ok);
                        }
                    }
                }
            }
        }
    }
}

/// What `str::to_lowercase` makes of a text.
pub uninterp spec fn lowercase(s: Seq<char>) -> Seq<char>;

/// An ASCII letter in lower case; every other character is left alone.
pub open spec fn ascii_lower(c: char) -> char {
    if 'A' <= c <= 'Z' {
        (c as u32 + 32) as char
    } else {
        c
    }
}

/// Whether a text is ASCII.
pub open spec fn ascii(s: Seq<char>) -> bool {
    forall|i: int| 0 <= i < s.len() ==> #[trigger] s[i] as u32 <= 127
}

/// `str::to_lowercase` lowers each character as Unicode says; on ASCII text that
/// is letter by letter.
#[verifier::external_body]
fn to_lowercase(s: &str) -> (r: String)
    ensures
        r@ == lowercase(s@),
        ascii(s@) ==> r@ == s@.map_values(|c: char| ascii_lower(c)),
{
    s.to_lowercase()
}

/// The text without any `x`.
pub open spec fn without(s: Seq<char>, x: char) -> Seq<char>
    decreases s.len(),
{
    if s.len() == 0 {
        s
    } else if s.last() == x {
        without(s.drop_last(), x)
    } else {
        without(s.drop_last(), x).push(s.last())
    }
}

fn remove_all(s: &str, x: char) -> (r: String)
    ensures
        r@ == without(s@, x),
{
    let chars = chars_of(s);
    let mut r = String::new();
    let mut i: usize = 0;
    assert(s@.take(0) =~= Seq::<char>::empty());
    while i < chars.len()
        invariant
            i <= chars@.len(),
            chars@ == s@,
            r@ == without(s@.take(i as int), x),
        decreases chars@.len() - i,
    {
        proof {
            assert(s@.take(i + 1).drop_last() =~= s@.take(i as int));
        }
        if chars[i] != x {
            r.push(chars[i]);
        }
        i = i + 1;
    }
    assert(s@.take(i as int) =~= s@);
    r
}

proof fn lemma_without_ascii(s: Seq<char>, x: char)
    requires
        ascii(s),
    ensures
        ascii(without(s, x)),
    decreases s.len(),
{
    if s.len() > 0 {
        assert(s.last() as u32 <= 127);
        assert forall|i: int| 0 <= i < s.drop_last().len() implies #[trigger] s.drop_last()[i] as u32
            <= 127 by {
            assert(s[i] as u32 <= 127);
        }
        lemma_without_ascii(s.drop_last(), x);
    }
}

/// A pinned digest as it is compared: no colons, lower case.
pub open spec fn normalized(pin: Seq<char>) -> Seq<char> {
    lowercase(without(pin, ':'))
}

/// Creates TLS connections to a single gateway.
pub struct TlsFactory {
    host: String,
    port: u16,
    trusted: Vec<String>,
    ca_file: Option<FilePath>,
    min_tls: String,
    cipher_list: Option<String>,
    insecure_ssl: bool,
    user_cert: Option<String>,
    user_key: Option<FilePath>,
    pem_passphrase: Option<String>,
}

/// What a [`TlsFactory`] holds, as plain values.
#[verifier::ext_equal]
pub struct TlsView {
    pub host: Seq<char>,
    pub port: u16,
    pub trusted: Seq<Seq<char>>,
    pub ca_file: Option<Seq<u8>>,
    pub min_tls: Seq<char>,
    pub cipher_list: Option<Seq<char>>,
    pub insecure_ssl: bool,
    pub user_cert: Option<Seq<char>>,
    pub user_key: Option<Seq<u8>>,
    pub pem_passphrase: Option<Seq<char>>,
}

/// What a configuration says of TLS.
pub open spec fn tls_settings(c: ConfigView) -> TlsView {
    TlsView {
        host: c.host,
        port: c.port,
        trusted: c.trusted_cert.map_values(|pin: Seq<char>| normalized(pin)),
        ca_file: c.ca_file,
        min_tls: c.min_tls,
        cipher_list: c.cipher_list,
        insecure_ssl: c.insecure_ssl,
        user_cert: c.user_cert,
        user_key: c.user_key,
        pem_passphrase: c.pem_passphrase,
    }
}

/// Whether a certificate is accepted: pinned, or valid.
pub open spec fn accepted(t: TlsView, chain_ok: bool, digest: Option<Seq<char>>) -> bool {
    chain_ok || (digest matches Some(d) && d.len() > 0 && t.trusted.contains(d))
}

/// Where the client certificate comes from.
pub enum CertSource {
    /// A token, by its URI.
    Pkcs11(String),
    /// A PEM file, by its name.
    Pem(String),
}

/// Where the client key comes from.
pub enum KeySource {
    /// A token, by its URI.
    Pkcs11(String),
    /// A PEM file, perhaps encrypted.
    Pem { path: FilePath, passphrase: Option<String> },
}

/// How to set up a connection.
pub struct TlsPlan {
    pub min_version: TlsVersion,
    /// Whether to allow insecure protocols and ciphers.
    pub security_level_zero: bool,
    pub cipher_list: Option<String>,
    /// The client's certificate and key, where it has them.
    pub identity: Option<(CertSource, KeySource)>,
}

/// Where something comes from, as plain values: from a token by its URI, or from
/// a file by its path.
pub enum Source {
    Token { uri: Seq<char> },
    File { path: Seq<u8>, passphrase: Option<Seq<char>> },
}

impl CertSource {
    pub open spec fn source(&self) -> Source {
        match self {
            CertSource::Pkcs11(uri) => Source::Token { uri: uri@ },
            CertSource::Pem(path) => Source::File { path: encode_utf8(path@), passphrase: None },
        }
    }
}

impl KeySource {
    pub open spec fn source(&self) -> Source {
        match self {
            KeySource::Pkcs11(uri) => Source::Token { uri: uri@ },
            KeySource::Pem { path, passphrase } => Source::File {
                path: path@,
                passphrase: passphrase.deep_view(),
            },
        }
    }
}

/// How a token's URI starts.
pub open spec fn names_token(s: Seq<char>) -> bool {
    "pkcs11:"@.is_prefix_of(s)
}

/// Where the client certificate comes from.
pub open spec fn cert_source(cert: Seq<char>) -> Source {
    if names_token(cert) {
        Source::Token { uri: cert }
    } else {
        Source::File { path: encode_utf8(cert), passphrase: None }
    }
}

/// Where the client key comes from: where the configuration says, else from the
/// file of the certificate.
pub open spec fn key_source(t: TlsView, cert: Seq<char>) -> Source {
    match t.user_key {
        Some(key) => if names_token(lossy_text(key)) {
            Source::Token { uri: lossy_text(key) }
        } else {
            Source::File { path: key, passphrase: t.pem_passphrase }
        },
        None => Source::File { path: encode_utf8(cert), passphrase: t.pem_passphrase },
    }
}

/// A copy of an optional text.
pub fn copy_text(s: &Option<String>) -> (r: Option<String>)
    ensures
        r.deep_view() == s.deep_view(),
{
    match s {
        Some(x) => Some(x.clone()),
        None => None,
    }
}

/// A copy of an optional path.
pub fn copy_path(s: &Option<FilePath>) -> (r: Option<FilePath>)
    ensures
        r.deep_view() == s.deep_view(),
{
    match s {
        Some(x) => Some(x.clone()),
        None => None,
    }
}

impl View for TlsFactory {
    type V = TlsView;

    closed spec fn view(&self) -> TlsView {
        TlsView {
            host: self.host@,
            port: self.port,
            trusted: self.trusted.deep_view(),
            ca_file: self.ca_file.deep_view(),
            min_tls: self.min_tls@,
            cipher_list: self.cipher_list.deep_view(),
            insecure_ssl: self.insecure_ssl,
            user_cert: self.user_cert.deep_view(),
            user_key: self.user_key.deep_view(),
            pem_passphrase: self.pem_passphrase.deep_view(),
        }
    }
}

impl Clone for TlsFactory {
    fn clone(&self) -> (r: Self)
        ensures
            r@ == self@,
    {
        let mut trusted: Vec<String> = Vec::new();
        let mut i: usize = 0;
        while i < self.trusted.len()
            invariant
                i <= self.trusted@.len(),
                trusted.deep_view() =~= self.trusted.deep_view().take(i as int),
            decreases self.trusted@.len() - i,
        {
            let ghost before = trusted.deep_view();
            trusted.push(self.trusted[i].clone());
            assert(trusted.deep_view() =~= before.push(self.trusted.deep_view()[i as int]));
            i = i + 1;
        }
        let r = TlsFactory {
            host: self.host.clone(),
            port: self.port,
            trusted,
            ca_file: copy_path(&self.ca_file),
            min_tls: self.min_tls.clone(),
            cipher_list: copy_text(&self.cipher_list),
            insecure_ssl: self.insecure_ssl,
            user_cert: copy_text(&self.user_cert),
            user_key: copy_path(&self.user_key),
            pem_passphrase: copy_text(&self.pem_passphrase),
        };
        assert(r@ =~= self@);
        r
    }
}

impl TlsFactory {
    /// The factory that a configuration asks for. Pinned digests may be written
    /// in upper case and with colons.
    pub fn from_config(config: &Config) -> (r: Self)
        ensures
            r@ == tls_settings(config@),
            forall|i: int|
                0 <= i < config@.trusted_cert.len() && ascii(#[trigger] config@.trusted_cert[i])
                    ==> r@.trusted[i] == without(config@.trusted_cert[i], ':').map_values(
                    |c: char| ascii_lower(c),
                ),
            forall|i: int, bytes: Seq<u8>|
                0 <= i < config@.trusted_cert.len() && #[trigger] spells(
                    config@.trusted_cert[i],
                    bytes,
                ) ==> r@.trusted[i] == hex(bytes),
    {
        let mut trusted: Vec<String> = Vec::new();
        let ghost pins = config@.trusted_cert;
        let mut i: usize = 0;
        while i < config.trusted_cert.len()
            invariant
                i <= config.trusted_cert@.len(),
                pins == config.trusted_cert.deep_view(),
                trusted@.len() == i,
                forall|j: int|
                    0 <= j < i ==> #[trigger] trusted.deep_view()[j] == normalized(pins[j]) && (
                    ascii(pins[j]) ==> trusted.deep_view()[j] == without(pins[j], ':').map_values(
                        |c: char| ascii_lower(c),
                    )),
            decreases config.trusted_cert@.len() - i,
        {
            let pin = remove_all(config.trusted_cert[i].as_str(), ':');
            proof {
                assert(pins[i as int] == config.trusted_cert@[i as int]@);
                if ascii(pins[i as int]) {
                    lemma_without_ascii(pins[i as int], ':');
                }
            }
            let ghost before = trusted.deep_view();
            let lowered = to_lowercase(pin.as_str());
            trusted.push(lowered);
            assert(trusted.deep_view() =~= before.push(lowered@));
            i = i + 1;
        }
        let r = TlsFactory {
            host: config.host.clone(),
            port: config.port,
            trusted,
            ca_file: copy_path(&config.ca_file),
            min_tls: config.min_tls.clone(),
            cipher_list: copy_text(&config.cipher_list),
            insecure_ssl: config.insecure_ssl,
            user_cert: copy_text(&config.user_cert),
            user_key: copy_path(&config.user_key),
            pem_passphrase: copy_text(&config.pem_passphrase),
        };
        assert(r@.trusted =~= tls_settings(config@).trusted);
        proof {
            assert forall|i: int, bytes: Seq<u8>|
                0 <= i < pins.len() && #[trigger] spells(pins[i], bytes) implies r@.trusted[i]
                == hex(bytes) by {
                law_fingerprint(pins[i], bytes);
            }
        }
        r
    }

    pub fn host(&self) -> (r: &str)
        ensures
            r@ == self@.host,
    {
        self.host.as_str()
    }

    pub fn port(&self) -> (r: u16)
        ensures
            r == self@.port,
    {
        self.port
    }

    /// The CA bundle to verify the gateway with, where there is one.
    pub fn ca_file(&self) -> (r: &Option<FilePath>)
        ensures
            r.deep_view() == self@.ca_file,
    {
        &self.ca_file
    }

    /// The protocol version, ciphers and client certificate to use.
    pub fn configure(&self) -> (r: Result<TlsPlan, BadTlsVersion>)
        ensures
            match tls_version(self@.min_tls) {
                None => r matches Err(e) && e.value@ == trimmed(self@.min_tls),
                Some(version) => {
                    &&& r matches Ok(plan)
                    &&& plan.min_version == version
                    &&& plan.security_level_zero == self@.insecure_ssl
                    &&& plan.cipher_list.deep_view() == self@.cipher_list
                    &&& match self@.user_cert {
                        None => plan.identity is None,
                        Some(cert) => {
                            &&& plan.identity matches Some((c, k))
                            &&& c.source() == cert_source(cert)
                            &&& k.source() == key_source(self@, cert)
                        },
                    }
                },
            },
    {
        let min_version = match parse_tls_version(self.min_tls.as_str()) {
            Ok(v) => v,
            Err(e) => {
                return Err(e);
            },
        };
        let identity = match &self.user_cert {
            None => None,
            Some(cert) => {
                let c = if str_starts_with(cert.as_str(), "pkcs11:") {
                    CertSource::Pkcs11(cert.clone())
                } else {
                    CertSource::Pem(cert.clone())
                };
                Some((c, self.key_for(cert.as_str())))
            },
        };
        Ok(
            TlsPlan {
                min_version,
                security_level_zero: self.insecure_ssl,
                cipher_list: copy_text(&self.cipher_list),
                identity,
            },
        )
    }

    fn key_for(&self, cert: &str) -> (r: KeySource)
        ensures
            r.source() == key_source(self@, cert@),
    {
        match &self.user_key {
            Some(key) => {
                let uri = key.to_string_lossy();
                if str_starts_with(uri.as_str(), "pkcs11:") {
                    KeySource::Pkcs11(uri)
                } else {
                    KeySource::Pem { path: key.clone(), passphrase: copy_text(&self.pem_passphrase) }
                }
            },
            None => KeySource::Pem {
                path: FilePath::from_text(cert),
                passphrase: copy_text(&self.pem_passphrase),
            },
        }
    }

    /// Whether to go on with a connection whose handshake showed this.
    pub fn accepts(&self, state: &CertState) -> (r: bool)
        ensures
            r == accepted(self@, state.chain_ok, state.leaf_digest.deep_view()),
    {
        if let Some(digest) = &state.leaf_digest {
            if !digest.as_str().is_empty() && self.pins(digest.as_str()) {
                return true;
            }
        }
        state.chain_ok
    }

    fn pins(&self, digest: &str) -> (r: bool)
        ensures
            r == self@.trusted.contains(digest@),
    {
        let mut i: usize = 0;
        while i < self.trusted.len()
            invariant
                i <= self.trusted@.len(),
                forall|j: int| 0 <= j < i ==> self.trusted.deep_view()[j] != digest@,
            decreases self.trusted@.len() - i,
        {
            assert(self.trusted.deep_view()[i as int] == self.trusted@[i as int]@);
            if str_same(self.trusted[i].as_str(), digest) {
                return true;
            }
            i = i + 1;
        }
        false
    }
}

/// What to tell the user of a certificate that is not accepted: its digest, and
/// how to trust it.
pub fn untrusted_advice(digest: &str) -> (r: Vec<String>)
    ensures
        r.deep_view() == seq![
            "Gateway certificate validation failed and its digest is not whitelisted."@,
            "  sha256 digest: "@ + digest@,
            "  If you trust it, rerun with: --trusted-cert "@ + digest@,
            "  or add to your config file: trusted-cert = "@ + digest@,
        ],
{
    let mut r: Vec<String> = Vec::new();
    r.push(
        "Gateway certificate validation failed and its digest is not whitelisted.".to_owned(),
    );
    r.push("  sha256 digest: ".to_owned().concat(digest));
    r.push("  If you trust it, rerun with: --trusted-cert ".to_owned().concat(digest));
    r.push("  or add to your config file: trusted-cert = ".to_owned().concat(digest));
    assert(r.deep_view() =~= seq![
        "Gateway certificate validation failed and its digest is not whitelisted."@,
        "  sha256 digest: "@ + digest@,
        "  If you trust it, rerun with: --trusted-cert "@ + digest@,
        "  or add to your config file: trusted-cert = "@ + digest@,
    ]);
    r
}

/// No certificate is accepted that neither passed PKI validation nor is pinned,
/// whatever the handshake showed; each of the two is enough.
pub proof fn law_pinned_or_valid(t: TlsView, state: CertState, seen: Seq<Observation>)
    requires
        state.reflects(seen),
    ensures
        accepted(t, state.chain_ok, state.leaf_digest.deep_view()) <==> ({
            ||| forall|i: int| 0 <= i < seen.len() ==> #[trigger] seen[i].preverify_ok
            ||| leaf_seen(seen) matches Some(d) && d.len() > 0 && t.trusted.contains(d)
        }),
{
}

} // verus!
