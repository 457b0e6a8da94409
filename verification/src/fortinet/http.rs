// SPDX-License-Identifier: GPL-3.0-or-later
//! The HTTP side of talking to the gateway: cookies, requests, redirects and
//! what to do when the gateway drops a connection.
//!
//! FortiGate readily closes an accepted TLS connection without answering during
//! the brief window right after a prior SSL-VPN session is torn down. A dropped
//! connection is therefore dialed again, and the request repeated, a bounded
//! number of times with backoff before giving up.

use crate::number::{decimal, push_decimal};
use crate::path::{lossy_text, text_lossy};
use crate::text::{joined, lemma_joined_push, split_once, str_starts_with, trimmed};
use crate::transport::tls::TlsFactory;
use cookie::{Cookie, CookieJar};
use vstd::prelude::*;
use vstd::string::StringExecFns;
use vstd::utf8::{decode_utf8, valid_utf8};

verus! {

/// How many times to dial again and repeat a request whose connection was dropped
/// before it completed.
pub const MAX_RECONNECTS: u32 = 5;

/// How many redirects to follow.
pub const MAX_REDIRECTS: u32 = 10;

/// The milliseconds to wait before a reconnect, the first one being number one:
/// half a second, doubled each time, never more than five seconds.
pub open spec fn backoff_millis(attempt: int) -> int {
    if attempt <= 1 {
        500
    } else if attempt == 2 {
        1000
    } else if attempt == 3 {
        2000
    } else if attempt == 4 {
        4000
    } else {
        5000
    }
}

/// Milliseconds to wait before the given reconnect attempt (1-based): 0.5s, 1s,
/// 2s, 4s, 5s and so on.
pub fn backoff(attempt: u32) -> (r: u64)
    ensures
        r == backoff_millis(attempt as int),
{
    let steps: u32 = if attempt == 0 {
        0
    } else if attempt - 1 < 4 {
        attempt - 1
    } else {
        4
    };
    let doubled: u64 = 1u64 << steps;
    assert(1u64 << 0u32 == 1 && 1u64 << 1u32 == 2 && 1u64 << 2u32 == 4 && 1u64 << 3u32 == 8 && 1u64
        << 4u32 == 16) by (bit_vector);
    let ms: u64 = 500 * doubled;
    if ms < 5_000 {
        ms
    } else {
        5_000
    }
}

/// The sum of the waits before the first `n` reconnects.
pub open spec fn total_wait(n: int) -> int
    decreases n,
{
    if n <= 0 {
        0
    } else {
        total_wait(n - 1) + backoff_millis(n)
    }
}

/// Waits never shrink from one attempt to the next, and stay within five seconds;
/// all of them together take twelve and a half, which leaves room in a connect
/// timeout of a minute.
pub proof fn law_backoff(attempt: int)
    ensures
        500 <= backoff_millis(attempt) <= backoff_millis(attempt + 1) <= 5000,
        total_wait(MAX_RECONNECTS as int) == 12_500,
{
    reveal_with_fuel(total_wait, 6);
}

/// The jar of the `cookie` crate; only [`cookies`] speaks of what is in one.
#[verifier::external_type_specification]
#[verifier::external_body]
pub struct ExCookieJar(CookieJar);

/// The value of each cookie in a jar, by its name.
pub uninterp spec fn cookies(jar: CookieJar) -> Map<Seq<char>, Seq<char>>;

/// What an empty jar holds.
pub open spec fn no_cookies() -> Map<Seq<char>, Seq<char>> {
    Map::empty()
}

/// `CookieJar::new` makes an empty jar.
pub assume_specification[ CookieJar::new ]() -> (jar: CookieJar)
    ensures
        cookies(jar) == no_cookies(),
;

/// `CookieJar::add` puts a cookie into the jar, in place of one of the same name,
/// wherever that came from; the cookie is made by `Cookie::new`.
#[verifier::external_body]
fn jar_add(jar: &mut CookieJar, name: &str, value: &str)
    ensures
        cookies(*final(jar)) == cookies(*old(jar)).insert(name@, value@),
{
    jar.add(Cookie::new(name.to_string(), value.to_string()))
}

/// `CookieJar::get` finds the cookie of a name, whose value is handed out.
#[verifier::external_body]
fn jar_get(jar: &CookieJar, name: &str) -> (r: Option<String>)
    ensures
        match r {
            Some(value) => cookies(*jar).contains_pair(name@, value@),
            None => !cookies(*jar).contains_key(name@),
        },
{
    jar.get(name).map(|c| c.value().to_string())
}

/// A cookie by its name and value.
pub struct Pair {
    pub name: String,
    pub value: String,
}

impl DeepView for Pair {
    type V = (Seq<char>, Seq<char>);

    open spec fn deep_view(&self) -> (Seq<char>, Seq<char>) {
        (self.name@, self.value@)
    }
}

/// Whether `pairs` lists the cookies of `jar`, each once, in some order.
pub open spec fn lists(
    pairs: Seq<(Seq<char>, Seq<char>)>,
    jar: Map<Seq<char>, Seq<char>>,
) -> bool {
    &&& forall|i: int|
        0 <= i < pairs.len() ==> jar.contains_pair((#[trigger] pairs[i]).0, pairs[i].1)
    &&& forall|i: int, j: int|
        0 <= i < j < pairs.len() ==> (#[trigger] pairs[i]).0 != (#[trigger] pairs[j]).0
    &&& forall|name: Seq<char>| #[trigger]
        jar.contains_key(name) ==> exists|i: int|
            0 <= i < pairs.len() && (#[trigger] pairs[i]).0 == name
}

/// `CookieJar::iter` walks every cookie once, in an order that is left open.
#[verifier::external_body]
fn jar_pairs(jar: &CookieJar) -> (r: Vec<Pair>)
    ensures
        lists(r.deep_view(), cookies(*jar)),
{
    jar.iter().map(|c| Pair {
        name: c.name().to_string(),
        value: c.value().to_string(),
    }).collect()
}

/// The cookie that a `Set-Cookie` header sets: what stands before the first
/// semicolon, split at its first equals sign, white space aside. There is none
/// without an equals sign or without a name.
pub open spec fn cookie_of(header: Seq<char>) -> Option<(Seq<char>, Seq<char>)> {
    let pair = match split_once(header, ';') {
        Some((first, _)) => first,
        None => header,
    };
    match split_once(pair, '=') {
        Some((name, value)) => if trimmed(name).len() > 0 {
            Some((trimmed(name), trimmed(value)))
        } else {
            None
        },
        None => None,
    }
}

/// `Cookie::parse` reads a `Set-Cookie` header; of the cookie its name and value
/// are handed out.
#[verifier::external_body]
fn parse_cookie(header: &str) -> (r: Option<Pair>)
    ensures
        r.deep_view() == cookie_of(header@),
{
    Cookie::parse(header).ok().map(|c| Pair {
        name: c.name().to_string(),
        value: c.value().to_string(),
    })
}

/// The cookies once a list of `Set-Cookie` headers has been taken in, in order.
pub open spec fn with_headers(
    jar: Map<Seq<char>, Seq<char>>,
    headers: Seq<Seq<char>>,
) -> Map<Seq<char>, Seq<char>>
    decreases headers.len(),
{
    if headers.len() == 0 {
        jar
    } else {
        let before = with_headers(jar, headers.drop_last());
        match cookie_of(headers.last()) {
            Some((name, value)) => before.insert(name, value),
            None => before,
        }
    }
}

/// A request method.
#[derive(Debug, Clone, Copy, PartialEq, Eq, Structural)]
pub enum Method {
    Get,
    Post,
}

/// A header by its name and value.
pub struct Header {
    pub name: &'static str,
    pub value: String,
}

impl DeepView for Header {
    type V = (Seq<char>, Seq<char>);

    open spec fn deep_view(&self) -> (Seq<char>, Seq<char>) {
        (self.name@, self.value@)
    }
}

/// A request, ready to be sent.
pub struct Request {
    pub method: Method,
    pub uri: String,
    pub headers: Vec<Header>,
    pub body: String,
}

/// A request as plain values.
#[verifier::ext_equal]
pub struct RequestView {
    pub method: Method,
    pub uri: Seq<char>,
    pub headers: Seq<(Seq<char>, Seq<char>)>,
    pub body: Seq<char>,
}

impl View for Request {
    type V = RequestView;

    open spec fn view(&self) -> RequestView {
        RequestView {
            method: self.method,
            uri: self.uri@,
            headers: self.headers.deep_view(),
            body: self.body@,
        }
    }
}

/// A host and its port.
pub open spec fn authority(host: Seq<char>, port: u16) -> Seq<char> {
    host + seq![':'] + decimal(port as nat)
}

/// The cookies as a `Cookie` header carries them.
pub open spec fn cookie_line(pairs: Seq<(Seq<char>, Seq<char>)>) -> Seq<char> {
    joined(pairs.map_values(|p: (Seq<char>, Seq<char>)| p.0 + seq!['='] + p.1), "; "@)
}

/// The headers of a request: whom it is for, who sends it, the cookies if there
/// are any, and for a POST what the body is.
pub open spec fn headers_of(
    host: Seq<char>,
    port: u16,
    method: Method,
    pairs: Seq<(Seq<char>, Seq<char>)>,
) -> Seq<(Seq<char>, Seq<char>)> {
    let base = seq![("Host"@, authority(host, port)), ("User-Agent"@, "crosswire"@)];
    let cookie = if pairs.len() > 0 {
        seq![("Cookie"@, cookie_line(pairs))]
    } else {
        Seq::empty()
    };
    let kind = if method == Method::Post {
        seq![("Content-Type"@, "application/x-www-form-urlencoded"@)]
    } else {
        Seq::empty()
    };
    base + cookie + kind
}

/// A request as it is sent.
pub open spec fn request_of(
    host: Seq<char>,
    port: u16,
    method: Method,
    uri: Seq<char>,
    body: Seq<char>,
    pairs: Seq<(Seq<char>, Seq<char>)>,
) -> RequestView {
    RequestView { method, uri, headers: headers_of(host, port, method, pairs), body }
}

/// An address on the gateway in full: a path gets the gateway in front of it,
/// anything else is taken as it is.
pub open spec fn full_uri_of(host: Seq<char>, port: u16, uri: Seq<char>) -> Seq<char> {
    if uri.len() > 0 && uri[0] == '/' {
        "https://"@ + authority(host, port) + uri
    } else {
        uri
    }
}

fn push_authority(out: &mut String, host: &str, port: u16)
    ensures
        final(out)@ == old(out)@ + authority(host@, port),
{
    out.append(host);
    out.push(':');
    push_decimal(out, port as u64);
    assert(out@ =~= old(out)@ + authority(host@, port));
}

/// The value of the `Cookie` header.
fn cookie_header(pairs: &[Pair]) -> (r: String)
    ensures
        r@ == cookie_line(pairs.deep_view()),
{
    let ghost all = pairs.deep_view();
    let ghost f = |p: (Seq<char>, Seq<char>)| p.0 + seq!['='] + p.1;
    let ghost parts = all.map_values(f);
    let mut r = String::new();
    let mut i: usize = 0;
    assert(parts.take(0) =~= Seq::<Seq<char>>::empty());
    while i < pairs.len()
        invariant
            i <= pairs@.len(),
            all == pairs.deep_view(),
            parts == all.map_values(f),
            f == (|p: (Seq<char>, Seq<char>)| p.0 + seq!['='] + p.1),
            r@ == joined(parts.take(i as int), "; "@),
        decreases pairs@.len() - i,
    {
        let ghost before = r@;
        let p = &pairs[i];
        proof {
            assert(all[i as int] == p.deep_view());
            assert(parts[i as int] == p.name@ + seq!['='] + p.value@);
            assert(parts.take(i + 1) =~= parts.take(i as int).push(parts[i as int]));
            lemma_joined_push(parts.take(i as int), parts[i as int], "; "@);
        }
        if i > 0 {
            r.append("; ");
        }
        r.append(p.name.as_str());
        r.push('=');
        r.append(p.value.as_str());
        proof {
            if i > 0 {
                assert(r@ =~= before + "; "@ + (p.name@ + seq!['='] + p.value@));
            } else {
                assert(before =~= Seq::<char>::empty());
                assert(r@ =~= p.name@ + seq!['='] + p.value@);
            }
        }
        i = i + 1;
    }
    assert(parts.take(i as int) =~= parts);
    r
}

/// A request with the given cookies.
pub fn request_with(
    host: &str,
    port: u16,
    method: Method,
    full_uri: &str,
    body: &str,
    pairs: &[Pair],
) -> (r: Request)
    ensures
        r@ == request_of(host@, port, method, full_uri@, body@, pairs.deep_view()),
{
    let mut headers: Vec<Header> = Vec::new();
    let mut target = String::new();
    push_authority(&mut target, host, port);
    assert(target@ =~= authority(host@, port));
    headers.push(Header { name: "Host", value: target });
    headers.push(Header { name: "User-Agent", value: "crosswire".to_owned() });
    if pairs.len() > 0 {
        headers.push(Header { name: "Cookie", value: cookie_header(pairs) });
    }
    if method == Method::Post {
        headers.push(
            Header {
                name: "Content-Type",
                value: "application/x-www-form-urlencoded".to_owned(),
            },
        );
    }
    assert(headers.deep_view() =~= headers_of(host@, port, method, pairs.deep_view()));
    Request { method, uri: full_uri.to_owned(), headers, body: body.to_owned() }
}

/// A session with the gateway: whom to ask, and the cookies it has set.
pub struct HttpSession {
    host: String,
    port: u16,
    jar: CookieJar,
}

impl HttpSession {
    /// The host of the gateway.
    pub closed spec fn gateway_host(&self) -> Seq<char> {
        self.host@
    }

    /// The port of the gateway.
    pub closed spec fn gateway_port(&self) -> u16 {
        self.port
    }

    /// The cookies of the session.
    pub closed spec fn cookies(&self) -> Map<Seq<char>, Seq<char>> {
        cookies(self.jar)
    }

    /// A session with the gateway that `tls` connects to, without cookies.
    pub fn new(tls: &TlsFactory) -> (r: Self)
        ensures
            r.gateway_host() == tls@.host,
            r.gateway_port() == tls@.port,
            r.cookies() == no_cookies(),
    {
        HttpSession { host: tls.host().to_owned(), port: tls.port(), jar: CookieJar::new() }
    }

    /// Seed a cookie, such as an externally supplied one.
    pub fn set_cookie(&mut self, name: &str, value: &str)
        ensures
            final(self).cookies() == old(self).cookies().insert(name@, value@),
            final(self).gateway_host() == old(self).gateway_host(),
            final(self).gateway_port() == old(self).gateway_port(),
    {
        jar_add(&mut self.jar, name, value);
    }

    /// The value of a cookie.
    pub fn cookie(&self, name: &str) -> (r: Option<String>)
        ensures
            match r {
                Some(value) => self.cookies().contains_pair(name@, value@),
                None => !self.cookies().contains_key(name@),
            },
    {
        jar_get(&self.jar, name)
    }

    /// Take in the `Set-Cookie` headers of a response; one that sets no cookie is
    /// passed over.
    pub fn take_cookies(&mut self, headers: &[String])
        ensures
            final(self).cookies() == with_headers(old(self).cookies(), headers.deep_view()),
            final(self).gateway_host() == old(self).gateway_host(),
            final(self).gateway_port() == old(self).gateway_port(),
    {
        let ghost all = headers.deep_view();
        let mut i: usize = 0;
        assert(all.take(0) =~= Seq::<Seq<char>>::empty());
        while i < headers.len()
            invariant
                i <= headers@.len(),
                all == headers.deep_view(),
                self.cookies() == with_headers(old(self).cookies(), all.take(i as int)),
                self.gateway_host() == old(self).gateway_host(),
                self.gateway_port() == old(self).gateway_port(),
            decreases headers@.len() - i,
        {
            proof {
                assert(all.take(i + 1).drop_last() =~= all.take(i as int));
                assert(all.take(i + 1).last() == headers@[i as int]@);
            }
            if let Some(c) = parse_cookie(headers[i].as_str()) {
                jar_add(&mut self.jar, c.name.as_str(), c.value.as_str());
            }
            i = i + 1;
        }
        assert(all.take(i as int) =~= all);
    }

    /// A request with the session's cookies. It is made anew for every attempt,
    /// since sending takes it.
    pub fn build_request(&self, method: Method, full_uri: &str, body: &str) -> (r: Request)
        ensures
            exists|pairs: Seq<(Seq<char>, Seq<char>)>| #[trigger]
                lists(pairs, self.cookies()) && r@ == request_of(
                    self.gateway_host(),
                    self.gateway_port(),
                    method,
                    full_uri@,
                    body@,
                    pairs,
                ),
    {
        let pairs = jar_pairs(&self.jar);
        assert(lists(pairs.deep_view(), self.cookies()));
        request_with(self.host.as_str(), self.port, method, full_uri, body, pairs.as_slice())
    }

    /// An address on the gateway in full.
    pub fn full_uri(&self, uri: &str) -> (r: String)
        ensures
            r@ == full_uri_of(self.gateway_host(), self.gateway_port(), uri@),
    {
        proof {
            reveal_strlit("/");
            assert("/"@.is_prefix_of(uri@) == (uri@.len() > 0 && uri@[0] == '/')) by {
                if uri@.len() > 0 && uri@[0] == '/' {
                    assert(uri@.take(1) =~= "/"@);
                }
                if "/"@.is_prefix_of(uri@) {
                    assert(uri@[0] == "/"@[0]);
                }
            }
        }
        if str_starts_with(uri, "/") {
            let mut r = "https://".to_owned();
            push_authority(&mut r, self.host.as_str(), self.port);
            r.append(uri);
            r
        } else {
            uri.to_owned()
        }
    }
}

/// A cookie that was set is there, with the value it was set to, and no other
/// cookie has changed.
pub proof fn law_cookie_reads_back(
    before: Map<Seq<char>, Seq<char>>,
    name: Seq<char>,
    value: Seq<char>,
    other: Seq<char>,
)
    ensures
        before.insert(name, value).contains_pair(name, value),
        other != name ==> before.insert(name, value).contains_key(other) == before.contains_key(
            other,
        ) && before.insert(name, value)[other] == before[other],
{
}

/// A cookie that a response sets is there afterwards, whatever was there before and
/// whatever else the response set before it; a header that sets none changes
/// nothing.
pub proof fn law_header_sets_cookie(
    jar: Map<Seq<char>, Seq<char>>,
    headers: Seq<Seq<char>>,
    header: Seq<char>,
)
    ensures
        match cookie_of(header) {
            Some((name, value)) => with_headers(jar, headers.push(header)).contains_pair(
                name,
                value,
            ),
            None => with_headers(jar, headers.push(header)) == with_headers(jar, headers),
        },
{
    assert(headers.push(header).drop_last() =~= headers);
}

/// A response of the gateway.
pub struct HttpResponse {
    pub status: u16,
    pub body: Vec<u8>,
}

/// Whether a status says that the request succeeded.
pub open spec fn success(status: u16) -> bool {
    200 <= status < 300
}

/// Whether a status redirects.
pub open spec fn redirection(status: u16) -> bool {
    300 <= status < 400
}

pub fn is_success(status: u16) -> (r: bool)
    ensures
        r == success(status),
{
    200 <= status && status < 300
}

pub fn is_redirection(status: u16) -> (r: bool)
    ensures
        r == redirection(status),
{
    300 <= status && status < 400
}

impl HttpResponse {
    /// The body as text.
    pub fn text(&self) -> (r: String)
        ensures
            r@ == lossy_text(self.body@),
            valid_utf8(self.body@) ==> r@ == decode_utf8(self.body@),
    {
        text_lossy(self.body.as_slice())
    }
}

/// What to do about a response.
#[derive(Debug, Clone, Copy, PartialEq, Eq, Structural)]
pub enum Reaction {
    /// It is the answer.
    Finished,
    /// Ask again, at the address that [`Exchange::uri`] now gives.
    Redirected,
    /// There have been too many redirects.
    TooManyRedirects,
}

/// A request under way: where it goes, how many redirects have led there, and how
/// many times the connection has been dialed again for it.
pub struct Exchange {
    uri: String,
    allow_redirects: bool,
    redirects: u32,
    attempt: u32,
}

/// An exchange as plain values.
#[verifier::ext_equal]
pub struct ExchangeView {
    pub uri: Seq<char>,
    pub allow_redirects: bool,
    pub redirects: int,
    pub attempt: int,
}

impl View for Exchange {
    type V = ExchangeView;

    closed spec fn view(&self) -> ExchangeView {
        ExchangeView {
            uri: self.uri@,
            allow_redirects: self.allow_redirects,
            redirects: self.redirects as int,
            attempt: self.attempt as int,
        }
    }
}

impl ExchangeView {
    /// No more redirects are followed and no more reconnects made than allowed.
    pub open spec fn bounded(&self) -> bool {
        0 <= self.redirects <= MAX_REDIRECTS && 0 <= self.attempt <= MAX_RECONNECTS
    }

    /// How often the request can still be sent, this time included.
    pub open spec fn sends_left(&self) -> int {
        (MAX_REDIRECTS - self.redirects) * (MAX_RECONNECTS + 1) + (MAX_RECONNECTS - self.attempt)
            + 1
    }
}

/// What a response does to an exchange: a redirect is followed, where that is
/// allowed and there have not been too many; any other response is the answer.
pub open spec fn reacted(e: ExchangeView, status: u16, location: Option<Seq<char>>) -> (
    ExchangeView,
    Reaction,
) {
    match location {
        Some(loc) => if !redirection(status) || !e.allow_redirects {
            (e, Reaction::Finished)
        } else if e.redirects >= MAX_REDIRECTS {
            (e, Reaction::TooManyRedirects)
        } else {
            (
                ExchangeView { uri: loc, redirects: e.redirects + 1, attempt: 0, ..e },
                Reaction::Redirected,
            )
        },
        None => (e, Reaction::Finished),
    }
}

/// What a failure to send does to an exchange: a dropped connection is dialed
/// again, a bounded number of times, after a wait.
pub open spec fn retried(e: ExchangeView, retryable: bool) -> (ExchangeView, Option<u64>) {
    if retryable && e.attempt < MAX_RECONNECTS {
        (
            ExchangeView { attempt: e.attempt + 1, ..e },
            Some(backoff_millis(e.attempt + 1) as u64),
        )
    } else {
        (e, None)
    }
}

impl Exchange {
    pub fn new(uri: &str, allow_redirects: bool) -> (r: Self)
        ensures
            r@ == (ExchangeView { uri: uri@, allow_redirects, redirects: 0, attempt: 0 }),
            r@.bounded(),
    {
        Exchange { uri: uri.to_owned(), allow_redirects, redirects: 0, attempt: 0 }
    }

    /// Where the request goes now.
    pub fn uri(&self) -> (r: &str)
        ensures
            r@ == self@.uri,
    {
        self.uri.as_str()
    }

    /// How many times the connection has been dialed again for this request.
    pub fn attempt(&self) -> (r: u32)
        ensures
            r == self@.attempt,
    {
        self.attempt
    }

    /// The request could not be sent or was not answered. `retryable` says that
    /// the connection was dropped before the request completed, so that it is safe
    /// to repeat it. Returns the milliseconds to wait before dialing again, or
    /// `None` to give up.
    pub fn on_failure(&mut self, retryable: bool) -> (r: Option<u64>)
        requires
            old(self)@.bounded(),
        ensures
            (final(self)@, r) == retried(old(self)@, retryable),
            final(self)@.bounded(),
    {
        if retryable && self.attempt < MAX_RECONNECTS {
            self.attempt = self.attempt + 1;
            Some(backoff(self.attempt))
        } else {
            None
        }
    }

    /// A response has come, with this status and this address to go to.
    pub fn on_response(&mut self, status: u16, location: Option<String>) -> (r: Reaction)
        requires
            old(self)@.bounded(),
        ensures
            final(self)@.bounded(),
            (final(self)@, r) == reacted(old(self)@, status, location.deep_view()),
    {
        if is_redirection(status) && self.allow_redirects {
            if let Some(loc) = location {
                if self.redirects >= MAX_REDIRECTS {
                    return Reaction::TooManyRedirects;
                }
                self.uri = loc;
                self.redirects = self.redirects + 1;
                self.attempt = 0;
                return Reaction::Redirected;
            }
        }
        Reaction::Finished
    }
}

impl HttpSession {
    /// The request that an exchange sends now.
    pub fn request(&self, exchange: &Exchange, method: Method, body: &str) -> (r: Request)
        ensures
            exists|pairs: Seq<(Seq<char>, Seq<char>)>| #[trigger]
                lists(pairs, self.cookies()) && r@ == request_of(
                    self.gateway_host(),
                    self.gateway_port(),
                    method,
                    full_uri_of(self.gateway_host(), self.gateway_port(), exchange@.uri),
                    body@,
                    pairs,
                ),
    {
        let uri = self.full_uri(exchange.uri());
        self.build_request(method, uri.as_str(), body)
    }

    /// A response has come: its cookies are taken in, whatever else it says, and a
    /// redirect is followed where that is allowed.
    pub fn receive(
        &mut self,
        exchange: &mut Exchange,
        status: u16,
        location: Option<String>,
        set_cookies: &[String],
    ) -> (r: Reaction)
        requires
            old(exchange)@.bounded(),
        ensures
            final(self).cookies() == with_headers(old(self).cookies(), set_cookies.deep_view()),
            final(self).gateway_host() == old(self).gateway_host(),
            final(self).gateway_port() == old(self).gateway_port(),
            final(exchange)@.bounded(),
            (final(exchange)@, r) == reacted(old(exchange)@, status, location.deep_view()),
    {
        self.take_cookies(set_cookies);
        exchange.on_response(status, location)
    }
}

/// An exchange ends: whatever the gateway does, each repeat and each redirect
/// leaves fewer sends than there were, and there are sixty-six at most.
pub proof fn law_exchange_ends(
    e: ExchangeView,
    retryable: bool,
    status: u16,
    location: Option<Seq<char>>,
)
    requires
        e.bounded(),
    ensures
        1 <= e.sends_left() <= 66,
        retried(e, retryable).1 is Some ==> retried(e, retryable).0.bounded() && retried(
            e,
            retryable,
        ).0.sends_left() < e.sends_left(),
        reacted(e, status, location).1 == Reaction::Redirected ==> reacted(
            e,
            status,
            location,
        ).0.bounded() && reacted(e, status, location).0.sends_left() < e.sends_left(),
{
}

} // verus!
