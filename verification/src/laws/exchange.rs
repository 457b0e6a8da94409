// SPDX-License-Identifier: GPL-3.0-or-later
//! Talking HTTP to the gateway: requests, cookies, redirects and repeats.

use crate::fortinet::auth::sso_address;
use crate::fortinet::http::{
    backoff_millis, cookie_line, cookie_of, full_uri_of, lists, reacted, redirection, request_of,
    retried, success, with_headers, ExchangeView, Method, Reaction,
};
use crate::laws::text::{all_are, bare, law_split_once, law_trimmed};
use crate::number::decimal;
use crate::text::{lemma_joined_push, white};
use vstd::prelude::*;

verus! {

/// Recognises white space.
pub open spec fn blank() -> spec_fn(char) -> bool {
    |c: char| white(c)
}

/// A request goes out as it was asked for, with the host and port it is for, the
/// name of the client, the cookies if there are any, and for a form what it is.
pub proof fn law_request(
    host: Seq<char>,
    port: u16,
    uri: Seq<char>,
    body: Seq<char>,
    pairs: Seq<(Seq<char>, Seq<char>)>,
)
    ensures
        ({
            let get = request_of(host, port, Method::Get, uri, body, pairs);
            let post = request_of(host, port, Method::Post, uri, body, pairs);
            let base = seq![
                ("Host"@, host + ":"@ + decimal(port as nat)),
                ("User-Agent"@, "crosswire"@),
            ];
            let cookies = if pairs.len() > 0 {
                seq![("Cookie"@, cookie_line(pairs))]
            } else {
                Seq::empty()
            };
            &&& get.method == Method::Get && post.method == Method::Post
            &&& get.uri == uri && post.uri == uri
            &&& get.body == body && post.body == body
            &&& get.headers == base + cookies
            &&& post.headers == base + cookies + seq![
                ("Content-Type"@, "application/x-www-form-urlencoded"@),
            ]
        }),
{
    reveal_strlit(":");
    assert(":"@ =~= seq![':']);
    let get = request_of(host, port, Method::Get, uri, body, pairs);
    let base = seq![
        ("Host"@, host + ":"@ + decimal(port as nat)),
        ("User-Agent"@, "crosswire"@),
    ];
    let cookies = if pairs.len() > 0 {
        seq![("Cookie"@, cookie_line(pairs))]
    } else {
        Seq::empty()
    };
    assert(get.headers =~= base + cookies);
}

/// Every cookie goes into the header, in order, as its name, an equals sign and its
/// value, with a semicolon and a space between each two.
pub proof fn law_cookie_header(
    pairs: Seq<(Seq<char>, Seq<char>)>,
    name: Seq<char>,
    value: Seq<char>,
)
    ensures
        cookie_line(seq![(name, value)]) == name + "="@ + value,
        pairs.len() > 0 ==> cookie_line(pairs.push((name, value))) == cookie_line(pairs) + "; "@
            + name + "="@ + value,
{
    reveal_strlit("=");
    assert("="@ =~= seq!['=']);
    let f = |p: (Seq<char>, Seq<char>)| p.0 + seq!['='] + p.1;
    let one = seq![(name, value)];
    assert(one.map_values(f) =~= seq![name + seq!['='] + value]);
    let parts = pairs.map_values(f);
    assert(pairs.push((name, value)).map_values(f) =~= parts.push(name + seq!['='] + value));
    lemma_joined_push(parts, name + seq!['='] + value, "; "@);
    if pairs.len() > 0 {
        assert(cookie_line(pairs) + "; "@ + (name + seq!['='] + value) =~= cookie_line(pairs) + "; "@
            + name + "="@ + value);
    }
}

/// A list of the cookies holds each of them, with its value, once, and nothing else.
pub proof fn law_listed(
    pairs: Seq<(Seq<char>, Seq<char>)>,
    jar: Map<Seq<char>, Seq<char>>,
    name: Seq<char>,
)
    requires
        lists(pairs, jar),
    ensures
        jar.contains_key(name) ==> exists|i: int|
            0 <= i < pairs.len() && #[trigger] pairs[i] == (name, jar[name]),
        !jar.contains_key(name) ==> forall|i: int|
            0 <= i < pairs.len() ==> (#[trigger] pairs[i]).0 != name,
        forall|i: int, j: int|
            0 <= i < j < pairs.len() ==> (#[trigger] pairs[i]).0 != (#[trigger] pairs[j]).0,
{
    if jar.contains_key(name) {
        let i = choose|i: int| 0 <= i < pairs.len() && (#[trigger] pairs[i]).0 == name;
        assert(jar.contains_pair(pairs[i].0, pairs[i].1));
        assert(pairs[i] == (name, jar[name]));
    } else {
        assert forall|i: int| 0 <= i < pairs.len() implies (#[trigger] pairs[i]).0 != name by {
            assert(jar.contains_pair(pairs[i].0, pairs[i].1));
        }
    }
}

/// A path is on the gateway; any other address is taken as it is.
pub proof fn law_full_uri(host: Seq<char>, port: u16, rest: Seq<char>, other: Seq<char>)
    requires
        other.len() == 0 || other[0] != '/',
    ensures
        full_uri_of(host, port, "/"@ + rest) == "https://"@ + host + ":"@ + decimal(port as nat)
            + "/"@ + rest,
        full_uri_of(host, port, other) == other,
        sso_address(host, port) == "https://"@ + host + ":"@ + decimal(port as nat)
            + "/remote/saml/start?redirect=1"@,
{
    reveal_strlit("/");
    reveal_strlit(":");
    assert(":"@ =~= seq![':']);
    assert(("/"@ + rest)[0] == '/');
    let at = host + ":"@ + decimal(port as nat);
    assert("https://"@ + at + ("/"@ + rest) =~= "https://"@ + host + ":"@ + decimal(port as nat)
        + "/"@ + rest);
    assert("https://"@ + at + "/remote/saml/start?redirect=1"@ =~= "https://"@ + host + ":"@
        + decimal(port as nat) + "/remote/saml/start?redirect=1"@);
}

/// A `Set-Cookie` header sets the cookie that it names to what stands behind the
/// first equals sign, further ones included, up to the first semicolon; blanks
/// around either make no difference, nor do attributes. Without an equals sign or a
/// name it sets none.
pub proof fn law_set_cookie(
    b1: Seq<char>,
    name: Seq<char>,
    b2: Seq<char>,
    b3: Seq<char>,
    value: Seq<char>,
    b4: Seq<char>,
    attributes: Seq<char>,
    bare_text: Seq<char>,
)
    requires
        all_are(b1, blank()) && all_are(b2, blank()) && all_are(b3, blank()) && all_are(b4, blank()),
        bare(name, blank()) && bare(value, blank()),
        all_are(name, |c: char| c != '=' && c != ';'),
        all_are(value, |c: char| c != ';'),
        all_are(bare_text, |c: char| c != '=' && c != ';'),
    ensures
        ({
            let pair = b1 + name + b2 + seq!['='] + b3 + value + b4;
            let set = if name.len() > 0 {
                Some((name, value))
            } else {
                None
            };
            cookie_of(pair) == set && cookie_of(pair + seq![';'] + attributes) == set
        }),
        cookie_of(bare_text) is None,
        cookie_of(bare_text + seq![';'] + attributes) is None,
{
    let left = b1 + name + b2;
    let right = b3 + value + b4;
    let pair = b1 + name + b2 + seq!['='] + b3 + value + b4;
    assert(pair =~= left + seq!['='] + right);
    assert forall|i: int| 0 <= i < left.len() implies (|c: char| c != '=')(#[trigger] left[i]) by {
        if i < b1.len() {
            assert(blank()(b1[i]));
        } else if i < b1.len() + name.len() {
            assert((|c: char| c != '=' && c != ';')(name[i - b1.len()]));
        } else {
            assert(blank()(b2[i - b1.len() - name.len()]));
        }
    }
    assert forall|i: int| 0 <= i < pair.len() implies (|c: char| c != ';')(#[trigger] pair[i]) by {
        let n = left.len() as int;
        if i < b1.len() {
            assert(blank()(b1[i]));
        } else if i < b1.len() + name.len() {
            assert((|c: char| c != '=' && c != ';')(name[i - b1.len()]));
        } else if i < n {
            assert(blank()(b2[i - b1.len() - name.len()]));
        } else if i > n {
            let j = i - n - 1;
            if j < b3.len() {
                assert(blank()(b3[j]));
            } else if j < b3.len() + value.len() {
                assert((|c: char| c != ';')(value[j - b3.len()]));
            } else {
                assert(blank()(b4[j - b3.len() - value.len()]));
            }
        }
    }
    law_split_once(left, right, '=');
    law_split_once(pair, attributes, ';');
    lemma_blank(b1);
    lemma_blank(b2);
    lemma_blank(b3);
    lemma_blank(b4);
    law_trimmed(b1, name, b2);
    law_trimmed(b3, value, b4);
    assert forall|i: int| 0 <= i < bare_text.len() implies (|c: char| c != '=')(
        #[trigger] bare_text[i],
    ) && (|c: char| c != ';')(bare_text[i]) by {
        assert((|c: char| c != '=' && c != ';')(bare_text[i]));
    }
    law_split_once(bare_text, attributes, '=');
    law_split_once(bare_text, attributes, ';');
}

proof fn lemma_blank(s: Seq<char>)
    requires
        all_are(s, blank()),
    ensures
        all_are(s, |c: char| white(c)),
{
    assert forall|i: int| 0 <= i < s.len() implies (|c: char| white(c))(#[trigger] s[i]) by {
        assert(blank()(s[i]));
    }
}

/// The headers of a response are taken in one after the other: each sets its cookie
/// and leaves all others as they are.
pub proof fn law_cookies_taken(
    jar: Map<Seq<char>, Seq<char>>,
    headers: Seq<Seq<char>>,
    header: Seq<char>,
    other: Seq<char>,
)
    ensures
        with_headers(jar, Seq::empty()) == jar,
        ({
            let before = with_headers(jar, headers);
            let after = with_headers(jar, headers.push(header));
            match cookie_of(header) {
                Some((name, value)) => {
                    &&& after.contains_pair(name, value)
                    &&& other != name ==> after.contains_key(other) == before.contains_key(other)
                        && after[other] == before[other]
                },
                None => after == before,
            }
        }),
{
    assert(headers.push(header).drop_last() =~= headers);
    assert(headers.push(header).last() == header);
}

/// A redirect is followed to where it leads, ten times and no more, if that is
/// allowed; anything else is the answer. Following one begins a new count of
/// repeats.
pub proof fn law_redirects(e: ExchangeView, status: u16, location: Seq<char>)
    ensures
        ({
            let (after, what) = reacted(e, status, Some(location));
            let follow = e.allow_redirects && 300 <= status && status <= 399;
            &&& !follow ==> what == Reaction::Finished && after == e
            &&& follow && e.redirects < 10 ==> {
                &&& what == Reaction::Redirected
                &&& after.uri == location
                &&& after.redirects == e.redirects + 1
                &&& after.attempt == 0
                &&& after.allow_redirects
            }
            &&& follow && e.redirects >= 10 ==> what == Reaction::TooManyRedirects
        }),
        reacted(e, status, None) == (e, Reaction::Finished),
        success(status) <==> 200 <= status && status <= 299,
        redirection(status) <==> 300 <= status && status <= 399,
{
}

/// A dropped connection is dialed again, five times and no more; the wait is half a
/// second at first, doubles each time and is never longer than five seconds. Any
/// other failure is final.
pub proof fn law_repeats(e: ExchangeView, n: int)
    requires
        0 <= e.attempt,
        1 <= n,
    ensures
        retried(e, false) == (e, None::<u64>),
        e.attempt >= 5 ==> retried(e, true) == (e, None::<u64>),
        e.attempt < 5 ==> {
            &&& retried(e, true).0 == (ExchangeView { attempt: e.attempt + 1, ..e })
            &&& retried(e, true).1 == Some(backoff_millis(e.attempt + 1) as u64)
        },
        backoff_millis(1) == 500,
        backoff_millis(n + 1) == if 2 * backoff_millis(n) <= 5000 {
            2 * backoff_millis(n)
        } else {
            5000
        },
{
}

} // verus!
