// SPDX-License-Identifier: GPL-3.0-or-later
//! What a configuration file says, line by line and key by key.

use crate::cli::{
    host_split, known_key, merged, port_is_kept, setting_of, unknown_keys, with_lines, with_setting,
    ConfigView, Given,
};
use crate::laws::text::{all_are, bare, law_lines, law_split_once, law_stripped, law_trimmed};
use crate::number::{decimal, law_decimal_reads_back, number};
use crate::text::{is_char, trimmed, white};
use vstd::prelude::*;
use vstd::utf8::encode_utf8;

verus! {

/// Recognises white space.
pub open spec fn blank() -> spec_fn(char) -> bool {
    |c: char| white(c)
}

/// A key and a value with an equals sign between them are a setting, whatever the
/// value holds, further equals signs included; blanks at both ends and around the
/// sign make no difference, nor do quotes around the value.
pub proof fn law_setting(
    b1: Seq<char>,
    key: Seq<char>,
    b2: Seq<char>,
    b3: Seq<char>,
    q1: Seq<char>,
    value: Seq<char>,
    q2: Seq<char>,
    b4: Seq<char>,
)
    requires
        all_are(b1, blank()) && all_are(b2, blank()) && all_are(b3, blank()) && all_are(b4, blank()),
        all_are(q1, |c: char| c == '"') && all_are(q2, |c: char| c == '"'),
        key.len() > 0,
        key[0] != '#',
        bare(key, blank()),
        all_are(key, |c: char| c != '='),
        bare(value, |c: char| c == '"'),
        bare(q1 + value + q2, blank()),
    ensures
        setting_of(b1 + key + b2 + seq!['='] + b3 + q1 + value + q2 + b4) == Some((key, value)),
{
    let quoted = q1 + value + q2;
    let line = b1 + key + b2 + seq!['='] + b3 + q1 + value + q2 + b4;
    let name = key + b2;
    let none = Seq::<char>::empty();
    // What is left of the line once it is trimmed.
    let text = if quoted.len() == 0 {
        name + seq!['='] + none
    } else {
        name + seq!['='] + (b3 + quoted)
    };
    let behind = if quoted.len() == 0 {
        b3 + b4
    } else {
        b4
    };
    assert(line =~= b1 + text + behind);
    assert(all_are(behind, blank())) by {
        if quoted.len() == 0 {
            assert forall|i: int| 0 <= i < behind.len() implies blank()(#[trigger] behind[i]) by {
                if i < b3.len() {
                    assert(blank()(b3[i]));
                } else {
                    assert(blank()(b4[i - b3.len()]));
                }
            }
        }
    }
    assert(text[0] == key[0]);
    if quoted.len() > 0 {
        assert(text[text.len() - 1] == quoted[quoted.len() - 1]);
    } else {
        assert(text[text.len() - 1] == '=');
    }
    assert(bare(text, blank()));
    lemma_blank(b1);
    lemma_blank(behind);
    law_trimmed(b1, text, behind);
    assert(trimmed(line) == text);
    // The name.
    assert(all_are(name, |c: char| c != '=')) by {
        assert forall|i: int| 0 <= i < name.len() implies (|c: char| c != '=')(#[trigger] name[i]) by {
            if i < key.len() {
                assert((|c: char| c != '=')(key[i]));
            } else {
                assert(blank()(b2[i - key.len()]));
            }
        }
    }
    let rest = if quoted.len() == 0 {
        none
    } else {
        b3 + quoted
    };
    law_split_once(name, rest, '=');
    lemma_blank(b2);
    lemma_blank(none);
    law_trimmed(none, key, b2);
    assert(none + key + b2 =~= name);
    // The value.
    lemma_blank(b3);
    if quoted.len() == 0 {
        law_trimmed(none, none, none);
        assert(none + none + none =~= none);
        assert(trimmed(rest) == none);
        assert(quoted =~= none);
    } else {
        law_trimmed(b3, quoted, none);
        assert(b3 + quoted + none =~= rest);
    }
    assert(trimmed(rest) == quoted);
    lemma_quotes(q1);
    lemma_quotes(q2);
    law_stripped(q1, value, q2, is_char('"'));
}

proof fn lemma_blank(s: Seq<char>)
    requires
        all_are(s, blank()),
    ensures
        all_are(s, |c: char| white(c)),
{
    assert forall|i: int| 0 <= i < s.len() implies (|c: char| white(c))(#[trigger] s[i]) by {
        assert(blank()(s[i]));
    }
}

proof fn lemma_quotes(s: Seq<char>)
    requires
        all_are(s, |c: char| c == '"'),
    ensures
        all_are(s, is_char('"')),
{
    assert forall|i: int| 0 <= i < s.len() implies is_char('"')(#[trigger] s[i]) by {
        assert((|c: char| c == '"')(s[i]));
    }
}

/// Blank lines, comments and lines without an equals sign set nothing.
pub proof fn law_no_setting(b: Seq<char>, rest: Seq<char>, line: Seq<char>)
    requires
        all_are(b, blank()),
        all_are(line, |c: char| c != '='),
    ensures
        setting_of(b) is None,
        setting_of(b + seq!['#'] + rest) is None,
        setting_of(line) is None,
{
    let none = Seq::<char>::empty();
    lemma_blank(b);
    lemma_blank(none);
    law_trimmed(b, none, none);
    assert(b + none + none =~= b);
    lemma_comment(b, rest);
    lemma_trimmed_part(line);
    let t = trimmed(line);
    assert forall|i: int| 0 <= i < t.len() implies (|c: char| c != '=')(#[trigger] t[i]) by {
        let k = choose|k: int| 0 <= k < line.len() && line[k] == t[i];
        assert((|c: char| c != '=')(line[k]));
    }
    law_split_once(t, none, '=');
}

proof fn lemma_comment(b: Seq<char>, rest: Seq<char>)
    requires
        all_are(b, blank()),
    ensures
        ({
            let t = trimmed(b + seq!['#'] + rest);
            t.len() > 0 && t[0] == '#'
        }),
    decreases rest.len(),
{
    let none = Seq::<char>::empty();
    let text = seq!['#'] + rest;
    lemma_blank(b);
    lemma_blank(none);
    if rest.len() == 0 || !white(rest.last()) {
        assert(text[text.len() - 1] == if rest.len() == 0 {
            '#'
        } else {
            rest.last()
        });
        law_trimmed(b, text, none);
        assert(b + text + none =~= b + seq!['#'] + rest);
    } else {
        // White space at the end goes, up to what is none.
        let n = lemma_last_dark(text);
        let dark = text.take(n);
        let light = text.skip(n);
        law_trimmed(b, dark, light);
        assert(b + dark + light =~= b + seq!['#'] + rest);
        assert(dark[0] == text[0]);
    }
}

/// Where the white space at the end of a text begins that does not start with any.
proof fn lemma_last_dark(text: Seq<char>) -> (n: int)
    requires
        text.len() > 0,
        !white(text[0]),
    ensures
        0 < n <= text.len(),
        !white(text[n - 1]),
        all_are(text.skip(n), |c: char| white(c)),
        bare(text.take(n), |c: char| white(c)),
    decreases text.len(),
{
    if !white(text.last()) {
        let n = text.len() as int;
        assert(text.skip(n) =~= Seq::<char>::empty());
        assert(text.take(n) =~= text);
        n
    } else {
        let fewer = text.drop_last();
        let n = lemma_last_dark(fewer);
        assert(text.take(n) =~= fewer.take(n));
        assert forall|i: int| 0 <= i < text.skip(n).len() implies (|c: char| white(c))(
            #[trigger] text.skip(n)[i],
        ) by {
            if i < fewer.len() - n {
                assert(text.skip(n)[i] == fewer.skip(n)[i]);
                assert((|c: char| white(c))(fewer.skip(n)[i]));
            } else {
                assert(text.skip(n)[i] == text.last());
            }
        }
        n
    }
}

/// Trimming adds nothing.
proof fn lemma_trimmed_part(s: Seq<char>)
    ensures
        forall|i: int| 0 <= i < trimmed(s).len() ==> s.contains(#[trigger] trimmed(s)[i]),
{
    let w = crate::text::is_white();
    let n = crate::seqs::index_where(s, |c: char| !w(c));
    crate::seqs::lemma_index_where(s, |c: char| !w(c));
    let rest = s.skip(n);
    lemma_drop_end_part(rest, w);
    assert forall|i: int| 0 <= i < trimmed(s).len() implies s.contains(#[trigger] trimmed(s)[i]) by {
        assert(rest.contains(trimmed(s)[i]));
        let k = choose|k: int| 0 <= k < rest.len() && rest[k] == trimmed(s)[i];
        assert(s[n + k] == trimmed(s)[i]);
    }
}

proof fn lemma_drop_end_part(s: Seq<char>, p: spec_fn(char) -> bool)
    ensures
        forall|i: int|
            0 <= i < crate::text::drop_end_while(s, p).len() ==> s.contains(
                #[trigger] crate::text::drop_end_while(s, p)[i],
            ),
    decreases s.len(),
{
    if s.len() > 0 && p(s.last()) {
        let fewer = s.drop_last();
        lemma_drop_end_part(fewer, p);
        let t = crate::text::drop_end_while(fewer, p);
        assert forall|i: int| 0 <= i < t.len() implies s.contains(#[trigger] t[i]) by {
            assert(fewer.contains(t[i]));
            let k = choose|k: int| 0 <= k < fewer.len() && fewer[k] == t[i];
            assert(s[k] == t[i]);
        }
    }
}

/// Lines have their say in order, each on top of those before it, and lines that
/// set nothing have none.
pub proof fn law_line_after_line(c: ConfigView, g: Given, ls: Seq<Seq<char>>, line: Seq<char>)
    ensures
        with_lines(c, g, Seq::empty()) == c,
        match setting_of(line) {
            Some((k, v)) => with_lines(c, g, ls.push(line)) == with_setting(
                with_lines(c, g, ls),
                g,
                k,
                v,
            ),
            None => with_lines(c, g, ls.push(line)) == with_lines(c, g, ls),
        },
        unknown_keys(Seq::empty()) == Seq::<Seq<char>>::empty(),
        match setting_of(line) {
            Some((k, _)) => unknown_keys(ls.push(line)) == if known_key(k) {
                unknown_keys(ls)
            } else {
                unknown_keys(ls) + seq![k]
            },
            None => unknown_keys(ls.push(line)) == unknown_keys(ls),
        },
{
    assert(ls.push(line).drop_last() =~= ls);
    assert(ls.push(line).last() == line);
    if let Some((k, _)) = setting_of(line) {
        assert(unknown_keys(ls).push(k) =~= unknown_keys(ls) + seq![k]);
    }
}

/// The keys that a settings file may use.
pub open spec fn keys() -> Seq<Seq<char>> {
    seq![
        "host"@,
        "port"@,
        "username"@,
        "password"@,
        "realm"@,
        "cookie"@,
        "trusted-cert"@,
        "otp"@,
        "otp-prompt"@,
        "otp-delay"@,
        "no-ftm-push"@,
        "min-tls"@,
        "cipher-list"@,
        "insecure-ssl"@,
        "user-cert"@,
        "user-key"@,
        "set-routes"@,
        "half-internet-routes"@,
        "set-dns"@,
        "set-ip"@,
        "use-resolvconf"@,
        "pppd-use-peerdns"@,
        "persistent"@,
        "pppd-ifname"@,
    ]
}

/// A key that is none of these changes nothing, and it alone is reported.
pub proof fn law_unknown_key(c: ConfigView, g: Given, k: Seq<char>, v: Seq<char>)
    ensures
        known_key(k) <==> keys().contains(k),
        !keys().contains(k) ==> with_setting(c, g, k, v) == c,
{
    let keys = keys();
    assert(keys.len() == 24);
    assert(keys[0] == "host"@);
    assert(keys[1] == "port"@);
    assert(keys[2] == "username"@);
    assert(keys[3] == "password"@);
    assert(keys[4] == "realm"@);
    assert(keys[5] == "cookie"@);
    assert(keys[6] == "trusted-cert"@);
    assert(keys[7] == "otp"@);
    assert(keys[8] == "otp-prompt"@);
    assert(keys[9] == "otp-delay"@);
    assert(keys[10] == "no-ftm-push"@);
    assert(keys[11] == "min-tls"@);
    assert(keys[12] == "cipher-list"@);
    assert(keys[13] == "insecure-ssl"@);
    assert(keys[14] == "user-cert"@);
    assert(keys[15] == "user-key"@);
    assert(keys[16] == "set-routes"@);
    assert(keys[17] == "half-internet-routes"@);
    assert(keys[18] == "set-dns"@);
    assert(keys[19] == "set-ip"@);
    assert(keys[20] == "use-resolvconf"@);
    assert(keys[21] == "pppd-use-peerdns"@);
    assert(keys[22] == "persistent"@);
    assert(keys[23] == "pppd-ifname"@);
    if known_key(k) {
        assert(exists|i: int| 0 <= i < keys.len() && #[trigger] keys[i] == k);
    }
    if keys.contains(k) {
        let i = choose|i: int| 0 <= i < keys.len() && keys[i] == k;
        assert(0 <= i < 24);
    }
}

/// A file that consists of one `key=value` line makes just that setting, with the
/// value as it stands, and then a `host:port` host is taken apart.
pub proof fn law_one_line_file(c: ConfigView, g: Given, key: Seq<char>, value: Seq<char>)
    requires
        key.len() > 0,
        key[0] != '#',
        bare(key, blank()),
        all_are(key, |c: char| c != '='),
        bare(value, |c: char| c == '"'),
        bare(value, blank()),
        all_are(key + seq!['='] + value, |c: char| c != '\n'),
    ensures
        merged(c, g, key + seq!['='] + value + seq!['\n']) == host_split(
            with_setting(c, g, key, value),
            g.port && c.host.len() == 0,
        ),
        merged(c, g, key + seq!['='] + value) == host_split(
            with_setting(c, g, key, value),
            g.port && c.host.len() == 0,
        ),
{
    let none = Seq::<char>::empty();
    let line = key + seq!['='] + value;
    assert(none + value + none =~= value);
    law_setting(none, key, none, none, none, value, none, none);
    assert(none + key + none + seq!['='] + none + none + value + none + none =~= line);
    if value.len() > 0 {
        assert(line[line.len() - 1] == value[value.len() - 1]);
        assert(!blank()(value[value.len() - 1]));
    } else {
        assert(line[line.len() - 1] == '=');
    }
    law_lines(line, none);
    assert(line + seq!['\n'] + none =~= line + seq!['\n']);
    assert(seq![line] + Seq::<Seq<char>>::empty() =~= seq![line]);
    law_line_after_line(c, g, Seq::empty(), line);
    assert(Seq::<Seq<char>>::empty().push(line) =~= seq![line]);
}

/// A `host:port` host is taken apart at its first colon, as long as the port is the
/// default one: the number behind the colon is the port, unless the port is to be
/// kept. A host without a colon, or beside another port, stays as it is.
pub proof fn law_host_and_port(
    c: ConfigView,
    host: Seq<char>,
    port: u16,
    tail: Seq<char>,
    keep_port: bool,
)
    requires
        all_are(host, |c: char| c != ':'),
    ensures
        c.port == 443 && c.host == host + seq![':'] + decimal(port as nat) ==> host_split(
            c,
            keep_port,
        ) == (ConfigView {
            host,
            port: if keep_port {
                443
            } else {
                port
            },
            ..c
        }),
        c.port == 443 && c.host == host + seq![':'] + tail && number(tail, 10, 65535) is None
            ==> host_split(c, keep_port) == (ConfigView { host, ..c }),
        c.host == host ==> host_split(c, keep_port) == c,
        c.port != 443 ==> host_split(c, keep_port) == c,
{
    law_split_once(host, decimal(port as nat), ':');
    law_split_once(host, tail, ':');
    law_decimal_reads_back(port as nat, 65535);
}

/// A port that was given on the command line is kept from a host that comes from a
/// file, and from no other.
pub proof fn law_port_is_kept(c: ConfigView, g: Given)
    ensures
        port_is_kept(c, g) <==> g.port && c.host.len() == 0,
{
}

/// `host` names the host, unless there is one. Nothing else changes.
pub proof fn law_key_host(c: ConfigView, g: Given, v: Seq<char>)
    ensures
        with_setting(c, g, "host"@, v) == if c.host.len() == 0 {
            ConfigView { host: v, ..c }
        } else {
            c
        },
{
    reveal_strlit("host");
    assert("host"@.len() == 4);
}

/// `port` is a number that is taken unless one was given or is there; what is no
/// number is the default. Nothing else changes.
pub proof fn law_key_port(c: ConfigView, g: Given, v: Seq<char>, n: u16)
    ensures
        g.port || c.port != 443 ==> with_setting(c, g, "port"@, v) == c,
        !g.port && c.port == 443 ==> with_setting(c, g, "port"@, decimal(n as nat)) == (ConfigView {
            port: n,
            ..c
        }),
        !g.port && c.port == 443 && number(v, 10, 65535) is None ==> with_setting(c, g, "port"@, v) == c,
{
    reveal_strlit("port");
    reveal_strlit("host");
    assert("port"@.len() == 4);
    assert("host"@.len() == 4);
    assert("host"@[0] != "port"@[0]);
    law_decimal_reads_back(n as nat, 65535);
}

/// `username` is a text that is taken unless there is one. Nothing else changes.
pub proof fn law_key_username(c: ConfigView, g: Given, v: Seq<char>)
    ensures
        with_setting(c, g, "username"@, v) == (ConfigView {
            username: match c.username {
                Some(x) => Some(x),
                None => Some(v),
            },
            ..c
        }),
{
    reveal_strlit("username");
    reveal_strlit("host");
    reveal_strlit("port");
    assert("username"@.len() == 8);
    assert("host"@.len() == 4);
    assert("port"@.len() == 4);
}

/// `password` is a text that is taken unless there is one. Nothing else changes.
pub proof fn law_key_password(c: ConfigView, g: Given, v: Seq<char>)
    ensures
        with_setting(c, g, "password"@, v) == (ConfigView {
            password: match c.password {
                Some(x) => Some(x),
                None => Some(v),
            },
            ..c
        }),
{
    reveal_strlit("password");
    reveal_strlit("host");
    reveal_strlit("port");
    reveal_strlit("username");
    assert("password"@.len() == 8);
    assert("host"@.len() == 4);
    assert("port"@.len() == 4);
    assert("username"@.len() == 8);
    assert("username"@[0] != "password"@[0]);
}

/// `realm` is a text that is taken unless there is one. Nothing else changes.
pub proof fn law_key_realm(c: ConfigView, g: Given, v: Seq<char>)
    ensures
        with_setting(c, g, "realm"@, v) == (ConfigView {
            realm: match c.realm {
                Some(x) => Some(x),
                None => Some(v),
            },
            ..c
        }),
{
    reveal_strlit("realm");
    reveal_strlit("host");
    reveal_strlit("port");
    reveal_strlit("username");
    reveal_strlit("password");
    assert("realm"@.len() == 5);
    assert("host"@.len() == 4);
    assert("port"@.len() == 4);
    assert("username"@.len() == 8);
    assert("password"@.len() == 8);
}

/// `cookie` is a text that is taken unless there is one. Nothing else changes.
pub proof fn law_key_cookie(c: ConfigView, g: Given, v: Seq<char>)
    ensures
        with_setting(c, g, "cookie"@, v) == (ConfigView {
            cookie: match c.cookie {
                Some(x) => Some(x),
                None => Some(v),
            },
            ..c
        }),
{
    reveal_strlit("cookie");
    reveal_strlit("host");
    reveal_strlit("port");
    reveal_strlit("username");
    reveal_strlit("password");
    reveal_strlit("realm");
    assert("cookie"@.len() == 6);
    assert("host"@.len() == 4);
    assert("port"@.len() == 4);
    assert("username"@.len() == 8);
    assert("password"@.len() == 8);
    assert("realm"@.len() == 5);
}

/// `trusted-cert` pins one more certificate. Nothing else changes.
pub proof fn law_key_trusted_cert(c: ConfigView, g: Given, v: Seq<char>)
    ensures
        with_setting(c, g, "trusted-cert"@, v) == (ConfigView {
            trusted_cert: c.trusted_cert + seq![v],
            ..c
        }),
{
    reveal_strlit("trusted-cert");
    reveal_strlit("host");
    reveal_strlit("port");
    reveal_strlit("username");
    reveal_strlit("password");
    reveal_strlit("realm");
    reveal_strlit("cookie");
    assert("trusted-cert"@.len() == 12);
    assert("host"@.len() == 4);
    assert("port"@.len() == 4);
    assert("username"@.len() == 8);
    assert("password"@.len() == 8);
    assert("realm"@.len() == 5);
    assert("cookie"@.len() == 6);
    assert(c.trusted_cert.push(v) =~= c.trusted_cert + seq![v]);
}

/// `otp` is a text that is taken unless there is one. Nothing else changes.
pub proof fn law_key_otp(c: ConfigView, g: Given, v: Seq<char>)
    ensures
        with_setting(c, g, "otp"@, v) == (ConfigView {
            otp: match c.otp {
                Some(x) => Some(x),
                None => Some(v),
            },
            ..c
        }),
{
    reveal_strlit("otp");
    reveal_strlit("host");
    reveal_strlit("port");
    reveal_strlit("username");
    reveal_strlit("password");
    reveal_strlit("realm");
    reveal_strlit("cookie");
    reveal_strlit("trusted-cert");
    assert("otp"@.len() == 3);
    assert("host"@.len() == 4);
    assert("port"@.len() == 4);
    assert("username"@.len() == 8);
    assert("password"@.len() == 8);
    assert("realm"@.len() == 5);
    assert("cookie"@.len() == 6);
    assert("trusted-cert"@.len() == 12);
}

/// `otp-prompt` is a text that is taken unless there is one. Nothing else changes.
pub proof fn law_key_otp_prompt(c: ConfigView, g: Given, v: Seq<char>)
    ensures
        with_setting(c, g, "otp-prompt"@, v) == (ConfigView {
            otp_prompt: match c.otp_prompt {
                Some(x) => Some(x),
                None => Some(v),
            },
            ..c
        }),
{
    reveal_strlit("otp-prompt");
    reveal_strlit("host");
    reveal_strlit("port");
    reveal_strlit("username");
    reveal_strlit("password");
    reveal_strlit("realm");
    reveal_strlit("cookie");
    reveal_strlit("trusted-cert");
    reveal_strlit("otp");
    assert("otp-prompt"@.len() == 10);
    assert("host"@.len() == 4);
    assert("port"@.len() == 4);
    assert("username"@.len() == 8);
    assert("password"@.len() == 8);
    assert("realm"@.len() == 5);
    assert("cookie"@.len() == 6);
    assert("trusted-cert"@.len() == 12);
    assert("otp"@.len() == 3);
}

/// `otp-delay` is a number that is taken unless one was given or is there; what is
/// no number is the default. Nothing else changes.
pub proof fn law_key_otp_delay(c: ConfigView, g: Given, v: Seq<char>, n: u64)
    ensures
        g.otp_delay || c.otp_delay != 0 ==> with_setting(c, g, "otp-delay"@, v) == c,
        !g.otp_delay && c.otp_delay == 0 ==> with_setting(
            c,
            g,
            "otp-delay"@,
            decimal(n as nat),
        ) == (ConfigView {
            otp_delay: n,
            ..c
        }),
        !g.otp_delay && c.otp_delay == 0 && number(v, 10, u64::MAX as int) is None ==> with_setting(
            c,
            g,
            "otp-delay"@,
            v,
        ) == c,
{
    reveal_strlit("otp-delay");
    reveal_strlit("host");
    reveal_strlit("port");
    reveal_strlit("username");
    reveal_strlit("password");
    reveal_strlit("realm");
    reveal_strlit("cookie");
    reveal_strlit("trusted-cert");
    reveal_strlit("otp");
    reveal_strlit("otp-prompt");
    assert("otp-delay"@.len() == 9);
    assert("host"@.len() == 4);
    assert("port"@.len() == 4);
    assert("username"@.len() == 8);
    assert("password"@.len() == 8);
    assert("realm"@.len() == 5);
    assert("cookie"@.len() == 6);
    assert("trusted-cert"@.len() == 12);
    assert("otp"@.len() == 3);
    assert("otp-prompt"@.len() == 10);
    law_decimal_reads_back(n as nat, u64::MAX as int);
}

/// `no-ftm-push` is a switch, off if it says `0` and on if it says anything else,
/// unless it was given. Nothing else changes.
pub proof fn law_key_no_ftm_push(c: ConfigView, g: Given, v: Seq<char>)
    ensures
        with_setting(c, g, "no-ftm-push"@, v) == if g.no_ftm_push {
            c
        } else {
            ConfigView { no_ftm_push: v != "0"@, ..c }
        },
{
    reveal_strlit("no-ftm-push");
    reveal_strlit("host");
    reveal_strlit("port");
    reveal_strlit("username");
    reveal_strlit("password");
    reveal_strlit("realm");
    reveal_strlit("cookie");
    reveal_strlit("trusted-cert");
    reveal_strlit("otp");
    reveal_strlit("otp-prompt");
    reveal_strlit("otp-delay");
    assert("no-ftm-push"@.len() == 11);
    assert("host"@.len() == 4);
    assert("port"@.len() == 4);
    assert("username"@.len() == 8);
    assert("password"@.len() == 8);
    assert("realm"@.len() == 5);
    assert("cookie"@.len() == 6);
    assert("trusted-cert"@.len() == 12);
    assert("otp"@.len() == 3);
    assert("otp-prompt"@.len() == 10);
    assert("otp-delay"@.len() == 9);
}

/// `min-tls` names the oldest version, unless one was given or is there. Nothing
/// else changes.
pub proof fn law_key_min_tls(c: ConfigView, g: Given, v: Seq<char>)
    ensures
        with_setting(c, g, "min-tls"@, v) == if g.min_tls || c.min_tls != "1.2"@ {
            c
        } else {
            ConfigView { min_tls: v, ..c }
        },
{
    reveal_strlit("min-tls");
    reveal_strlit("host");
    reveal_strlit("port");
    reveal_strlit("username");
    reveal_strlit("password");
    reveal_strlit("realm");
    reveal_strlit("cookie");
    reveal_strlit("trusted-cert");
    reveal_strlit("otp");
    reveal_strlit("otp-prompt");
    reveal_strlit("otp-delay");
    reveal_strlit("no-ftm-push");
    assert("min-tls"@.len() == 7);
    assert("host"@.len() == 4);
    assert("port"@.len() == 4);
    assert("username"@.len() == 8);
    assert("password"@.len() == 8);
    assert("realm"@.len() == 5);
    assert("cookie"@.len() == 6);
    assert("trusted-cert"@.len() == 12);
    assert("otp"@.len() == 3);
    assert("otp-prompt"@.len() == 10);
    assert("otp-delay"@.len() == 9);
    assert("no-ftm-push"@.len() == 11);
}

/// `cipher-list` is a text that is taken unless there is one. Nothing else changes.
pub proof fn law_key_cipher_list(c: ConfigView, g: Given, v: Seq<char>)
    ensures
        with_setting(c, g, "cipher-list"@, v) == (ConfigView {
            cipher_list: match c.cipher_list {
                Some(x) => Some(x),
                None => Some(v),
            },
            ..c
        }),
{
    reveal_strlit("cipher-list");
    reveal_strlit("host");
    reveal_strlit("port");
    reveal_strlit("username");
    reveal_strlit("password");
    reveal_strlit("realm");
    reveal_strlit("cookie");
    reveal_strlit("trusted-cert");
    reveal_strlit("otp");
    reveal_strlit("otp-prompt");
    reveal_strlit("otp-delay");
    reveal_strlit("no-ftm-push");
    reveal_strlit("min-tls");
    assert("cipher-list"@.len() == 11);
    assert("host"@.len() == 4);
    assert("port"@.len() == 4);
    assert("username"@.len() == 8);
    assert("password"@.len() == 8);
    assert("realm"@.len() == 5);
    assert("cookie"@.len() == 6);
    assert("trusted-cert"@.len() == 12);
    assert("otp"@.len() == 3);
    assert("otp-prompt"@.len() == 10);
    assert("otp-delay"@.len() == 9);
    assert("no-ftm-push"@.len() == 11);
    assert("min-tls"@.len() == 7);
    assert("no-ftm-push"@[0] != "cipher-list"@[0]);
}

/// `insecure-ssl` is a switch, off if it says `0` and on if it says anything else,
/// unless it was given. Nothing else changes.
pub proof fn law_key_insecure_ssl(c: ConfigView, g: Given, v: Seq<char>)
    ensures
        with_setting(c, g, "insecure-ssl"@, v) == if g.insecure_ssl {
            c
        } else {
            ConfigView { insecure_ssl: v != "0"@, ..c }
        },
{
    reveal_strlit("insecure-ssl");
    reveal_strlit("host");
    reveal_strlit("port");
    reveal_strlit("username");
    reveal_strlit("password");
    reveal_strlit("realm");
    reveal_strlit("cookie");
    reveal_strlit("trusted-cert");
    reveal_strlit("otp");
    reveal_strlit("otp-prompt");
    reveal_strlit("otp-delay");
    reveal_strlit("no-ftm-push");
    reveal_strlit("min-tls");
    reveal_strlit("cipher-list");
    assert("insecure-ssl"@.len() == 12);
    assert("host"@.len() == 4);
    assert("port"@.len() == 4);
    assert("username"@.len() == 8);
    assert("password"@.len() == 8);
    assert("realm"@.len() == 5);
    assert("cookie"@.len() == 6);
    assert("trusted-cert"@.len() == 12);
    assert("otp"@.len() == 3);
    assert("otp-prompt"@.len() == 10);
    assert("otp-delay"@.len() == 9);
    assert("no-ftm-push"@.len() == 11);
    assert("min-tls"@.len() == 7);
    assert("cipher-list"@.len() == 11);
    assert("trusted-cert"@[0] != "insecure-ssl"@[0]);
}

/// `user-cert` is a text that is taken unless there is one. Nothing else changes.
pub proof fn law_key_user_cert(c: ConfigView, g: Given, v: Seq<char>)
    ensures
        with_setting(c, g, "user-cert"@, v) == (ConfigView {
            user_cert: match c.user_cert {
                Some(x) => Some(x),
                None => Some(v),
            },
            ..c
        }),
{
    reveal_strlit("user-cert");
    reveal_strlit("host");
    reveal_strlit("port");
    reveal_strlit("username");
    reveal_strlit("password");
    reveal_strlit("realm");
    reveal_strlit("cookie");
    reveal_strlit("trusted-cert");
    reveal_strlit("otp");
    reveal_strlit("otp-prompt");
    reveal_strlit("otp-delay");
    reveal_strlit("no-ftm-push");
    reveal_strlit("min-tls");
    reveal_strlit("cipher-list");
    reveal_strlit("insecure-ssl");
    assert("user-cert"@.len() == 9);
    assert("host"@.len() == 4);
    assert("port"@.len() == 4);
    assert("username"@.len() == 8);
    assert("password"@.len() == 8);
    assert("realm"@.len() == 5);
    assert("cookie"@.len() == 6);
    assert("trusted-cert"@.len() == 12);
    assert("otp"@.len() == 3);
    assert("otp-prompt"@.len() == 10);
    assert("otp-delay"@.len() == 9);
    assert("no-ftm-push"@.len() == 11);
    assert("min-tls"@.len() == 7);
    assert("cipher-list"@.len() == 11);
    assert("insecure-ssl"@.len() == 12);
    assert("otp-delay"@[0] != "user-cert"@[0]);
}

/// `user-key` names a file, unless there is one. Nothing else changes.
pub proof fn law_key_user_key(c: ConfigView, g: Given, v: Seq<char>)
    ensures
        with_setting(c, g, "user-key"@, v) == (ConfigView {
            user_key: match c.user_key {
                Some(x) => Some(x),
                None => Some(encode_utf8(v)),
            },
            ..c
        }),
{
    reveal_strlit("user-key");
    reveal_strlit("host");
    reveal_strlit("port");
    reveal_strlit("username");
    reveal_strlit("password");
    reveal_strlit("realm");
    reveal_strlit("cookie");
    reveal_strlit("trusted-cert");
    reveal_strlit("otp");
    reveal_strlit("otp-prompt");
    reveal_strlit("otp-delay");
    reveal_strlit("no-ftm-push");
    reveal_strlit("min-tls");
    reveal_strlit("cipher-list");
    reveal_strlit("insecure-ssl");
    reveal_strlit("user-cert");
    assert("user-key"@.len() == 8);
    assert("host"@.len() == 4);
    assert("port"@.len() == 4);
    assert("username"@.len() == 8);
    assert("password"@.len() == 8);
    assert("realm"@.len() == 5);
    assert("cookie"@.len() == 6);
    assert("trusted-cert"@.len() == 12);
    assert("otp"@.len() == 3);
    assert("otp-prompt"@.len() == 10);
    assert("otp-delay"@.len() == 9);
    assert("no-ftm-push"@.len() == 11);
    assert("min-tls"@.len() == 7);
    assert("cipher-list"@.len() == 11);
    assert("insecure-ssl"@.len() == 12);
    assert("user-cert"@.len() == 9);
    assert("username"@[4] != "user-key"@[4]);
    assert("password"@[0] != "user-key"@[0]);
}

/// `set-routes` is a switch, off if it says `0` and on if it says anything else,
/// unless it was given. Nothing else changes.
pub proof fn law_key_set_routes(c: ConfigView, g: Given, v: Seq<char>)
    ensures
        with_setting(c, g, "set-routes"@, v) == if g.set_routes {
            c
        } else {
            ConfigView { set_routes: v != "0"@, ..c }
        },
{
    reveal_strlit("set-routes");
    reveal_strlit("host");
    reveal_strlit("port");
    reveal_strlit("username");
    reveal_strlit("password");
    reveal_strlit("realm");
    reveal_strlit("cookie");
    reveal_strlit("trusted-cert");
    reveal_strlit("otp");
    reveal_strlit("otp-prompt");
    reveal_strlit("otp-delay");
    reveal_strlit("no-ftm-push");
    reveal_strlit("min-tls");
    reveal_strlit("cipher-list");
    reveal_strlit("insecure-ssl");
    reveal_strlit("user-cert");
    reveal_strlit("user-key");
    assert("set-routes"@.len() == 10);
    assert("host"@.len() == 4);
    assert("port"@.len() == 4);
    assert("username"@.len() == 8);
    assert("password"@.len() == 8);
    assert("realm"@.len() == 5);
    assert("cookie"@.len() == 6);
    assert("trusted-cert"@.len() == 12);
    assert("otp"@.len() == 3);
    assert("otp-prompt"@.len() == 10);
    assert("otp-delay"@.len() == 9);
    assert("no-ftm-push"@.len() == 11);
    assert("min-tls"@.len() == 7);
    assert("cipher-list"@.len() == 11);
    assert("insecure-ssl"@.len() == 12);
    assert("user-cert"@.len() == 9);
    assert("user-key"@.len() == 8);
    assert("otp-prompt"@[0] != "set-routes"@[0]);
}

/// `half-internet-routes` is a switch, off if it says `0` and on if it says
/// anything else, unless it was given. Nothing else changes.
pub proof fn law_key_half_internet_routes(c: ConfigView, g: Given, v: Seq<char>)
    ensures
        with_setting(c, g, "half-internet-routes"@, v) == if g.half_internet_routes {
            c
        } else {
            ConfigView { half_internet_routes: v != "0"@, ..c }
        },
{
    reveal_strlit("half-internet-routes");
    reveal_strlit("host");
    reveal_strlit("port");
    reveal_strlit("username");
    reveal_strlit("password");
    reveal_strlit("realm");
    reveal_strlit("cookie");
    reveal_strlit("trusted-cert");
    reveal_strlit("otp");
    reveal_strlit("otp-prompt");
    reveal_strlit("otp-delay");
    reveal_strlit("no-ftm-push");
    reveal_strlit("min-tls");
    reveal_strlit("cipher-list");
    reveal_strlit("insecure-ssl");
    reveal_strlit("user-cert");
    reveal_strlit("user-key");
    reveal_strlit("set-routes");
    assert("half-internet-routes"@.len() == 20);
    assert("host"@.len() == 4);
    assert("port"@.len() == 4);
    assert("username"@.len() == 8);
    assert("password"@.len() == 8);
    assert("realm"@.len() == 5);
    assert("cookie"@.len() == 6);
    assert("trusted-cert"@.len() == 12);
    assert("otp"@.len() == 3);
    assert("otp-prompt"@.len() == 10);
    assert("otp-delay"@.len() == 9);
    assert("no-ftm-push"@.len() == 11);
    assert("min-tls"@.len() == 7);
    assert("cipher-list"@.len() == 11);
    assert("insecure-ssl"@.len() == 12);
    assert("user-cert"@.len() == 9);
    assert("user-key"@.len() == 8);
    assert("set-routes"@.len() == 10);
}

/// `set-dns` is a switch, off if it says `0` and on if it says anything else,
/// unless it was given. Nothing else changes.
pub proof fn law_key_set_dns(c: ConfigView, g: Given, v: Seq<char>)
    ensures
        with_setting(c, g, "set-dns"@, v) == if g.set_dns {
            c
        } else {
            ConfigView { set_dns: v != "0"@, ..c }
        },
{
    reveal_strlit("set-dns");
    reveal_strlit("host");
    reveal_strlit("port");
    reveal_strlit("username");
    reveal_strlit("password");
    reveal_strlit("realm");
    reveal_strlit("cookie");
    reveal_strlit("trusted-cert");
    reveal_strlit("otp");
    reveal_strlit("otp-prompt");
    reveal_strlit("otp-delay");
    reveal_strlit("no-ftm-push");
    reveal_strlit("min-tls");
    reveal_strlit("cipher-list");
    reveal_strlit("insecure-ssl");
    reveal_strlit("user-cert");
    reveal_strlit("user-key");
    reveal_strlit("set-routes");
    reveal_strlit("half-internet-routes");
    assert("set-dns"@.len() == 7);
    assert("host"@.len() == 4);
    assert("port"@.len() == 4);
    assert("username"@.len() == 8);
    assert("password"@.len() == 8);
    assert("realm"@.len() == 5);
    assert("cookie"@.len() == 6);
    assert("trusted-cert"@.len() == 12);
    assert("otp"@.len() == 3);
    assert("otp-prompt"@.len() == 10);
    assert("otp-delay"@.len() == 9);
    assert("no-ftm-push"@.len() == 11);
    assert("min-tls"@.len() == 7);
    assert("cipher-list"@.len() == 11);
    assert("insecure-ssl"@.len() == 12);
    assert("user-cert"@.len() == 9);
    assert("user-key"@.len() == 8);
    assert("set-routes"@.len() == 10);
    assert("half-internet-routes"@.len() == 20);
    assert("min-tls"@[0] != "set-dns"@[0]);
}

/// `set-ip` is a switch, off if it says `0` and on if it says anything else, unless
/// it was given. Nothing else changes.
pub proof fn law_key_set_ip(c: ConfigView, g: Given, v: Seq<char>)
    ensures
        with_setting(c, g, "set-ip"@, v) == if g.set_ip {
            c
        } else {
            ConfigView { set_ip: v != "0"@, ..c }
        },
{
    reveal_strlit("set-ip");
    reveal_strlit("host");
    reveal_strlit("port");
    reveal_strlit("username");
    reveal_strlit("password");
    reveal_strlit("realm");
    reveal_strlit("cookie");
    reveal_strlit("trusted-cert");
    reveal_strlit("otp");
    reveal_strlit("otp-prompt");
    reveal_strlit("otp-delay");
    reveal_strlit("no-ftm-push");
    reveal_strlit("min-tls");
    reveal_strlit("cipher-list");
    reveal_strlit("insecure-ssl");
    reveal_strlit("user-cert");
    reveal_strlit("user-key");
    reveal_strlit("set-routes");
    reveal_strlit("half-internet-routes");
    reveal_strlit("set-dns");
    assert("set-ip"@.len() == 6);
    assert("host"@.len() == 4);
    assert("port"@.len() == 4);
    assert("username"@.len() == 8);
    assert("password"@.len() == 8);
    assert("realm"@.len() == 5);
    assert("cookie"@.len() == 6);
    assert("trusted-cert"@.len() == 12);
    assert("otp"@.len() == 3);
    assert("otp-prompt"@.len() == 10);
    assert("otp-delay"@.len() == 9);
    assert("no-ftm-push"@.len() == 11);
    assert("min-tls"@.len() == 7);
    assert("cipher-list"@.len() == 11);
    assert("insecure-ssl"@.len() == 12);
    assert("user-cert"@.len() == 9);
    assert("user-key"@.len() == 8);
    assert("set-routes"@.len() == 10);
    assert("half-internet-routes"@.len() == 20);
    assert("set-dns"@.len() == 7);
    assert("cookie"@[0] != "set-ip"@[0]);
}

/// `use-resolvconf` is a switch, off if it says `0` and on if it says anything
/// else, unless it was given. Nothing else changes.
pub proof fn law_key_use_resolvconf(c: ConfigView, g: Given, v: Seq<char>)
    ensures
        with_setting(c, g, "use-resolvconf"@, v) == if g.use_resolvconf {
            c
        } else {
            ConfigView { use_resolvconf: v != "0"@, ..c }
        },
{
    reveal_strlit("use-resolvconf");
    reveal_strlit("host");
    reveal_strlit("port");
    reveal_strlit("username");
    reveal_strlit("password");
    reveal_strlit("realm");
    reveal_strlit("cookie");
    reveal_strlit("trusted-cert");
    reveal_strlit("otp");
    reveal_strlit("otp-prompt");
    reveal_strlit("otp-delay");
    reveal_strlit("no-ftm-push");
    reveal_strlit("min-tls");
    reveal_strlit("cipher-list");
    reveal_strlit("insecure-ssl");
    reveal_strlit("user-cert");
    reveal_strlit("user-key");
    reveal_strlit("set-routes");
    reveal_strlit("half-internet-routes");
    reveal_strlit("set-dns");
    reveal_strlit("set-ip");
    assert("use-resolvconf"@.len() == 14);
    assert("host"@.len() == 4);
    assert("port"@.len() == 4);
    assert("username"@.len() == 8);
    assert("password"@.len() == 8);
    assert("realm"@.len() == 5);
    assert("cookie"@.len() == 6);
    assert("trusted-cert"@.len() == 12);
    assert("otp"@.len() == 3);
    assert("otp-prompt"@.len() == 10);
    assert("otp-delay"@.len() == 9);
    assert("no-ftm-push"@.len() == 11);
    assert("min-tls"@.len() == 7);
    assert("cipher-list"@.len() == 11);
    assert("insecure-ssl"@.len() == 12);
    assert("user-cert"@.len() == 9);
    assert("user-key"@.len() == 8);
    assert("set-routes"@.len() == 10);
    assert("half-internet-routes"@.len() == 20);
    assert("set-dns"@.len() == 7);
    assert("set-ip"@.len() == 6);
}

/// `pppd-use-peerdns` is a switch, off if it says `0` and on if it says anything
/// else, unless it was given. Nothing else changes.
pub proof fn law_key_pppd_use_peerdns(c: ConfigView, g: Given, v: Seq<char>)
    ensures
        with_setting(c, g, "pppd-use-peerdns"@, v) == if g.pppd_use_peerdns {
            c
        } else {
            ConfigView { pppd_use_peerdns: v != "0"@, ..c }
        },
{
    reveal_strlit("pppd-use-peerdns");
    reveal_strlit("host");
    reveal_strlit("port");
    reveal_strlit("username");
    reveal_strlit("password");
    reveal_strlit("realm");
    reveal_strlit("cookie");
    reveal_strlit("trusted-cert");
    reveal_strlit("otp");
    reveal_strlit("otp-prompt");
    reveal_strlit("otp-delay");
    reveal_strlit("no-ftm-push");
    reveal_strlit("min-tls");
    reveal_strlit("cipher-list");
    reveal_strlit("insecure-ssl");
    reveal_strlit("user-cert");
    reveal_strlit("user-key");
    reveal_strlit("set-routes");
    reveal_strlit("half-internet-routes");
    reveal_strlit("set-dns");
    reveal_strlit("set-ip");
    reveal_strlit("use-resolvconf");
    assert("pppd-use-peerdns"@.len() == 16);
    assert("host"@.len() == 4);
    assert("port"@.len() == 4);
    assert("username"@.len() == 8);
    assert("password"@.len() == 8);
    assert("realm"@.len() == 5);
    assert("cookie"@.len() == 6);
    assert("trusted-cert"@.len() == 12);
    assert("otp"@.len() == 3);
    assert("otp-prompt"@.len() == 10);
    assert("otp-delay"@.len() == 9);
    assert("no-ftm-push"@.len() == 11);
    assert("min-tls"@.len() == 7);
    assert("cipher-list"@.len() == 11);
    assert("insecure-ssl"@.len() == 12);
    assert("user-cert"@.len() == 9);
    assert("user-key"@.len() == 8);
    assert("set-routes"@.len() == 10);
    assert("half-internet-routes"@.len() == 20);
    assert("set-dns"@.len() == 7);
    assert("set-ip"@.len() == 6);
    assert("use-resolvconf"@.len() == 14);
}

/// `persistent` is a number that is taken unless one was given or is there; what is
/// no number is the default. Nothing else changes.
pub proof fn law_key_persistent(c: ConfigView, g: Given, v: Seq<char>, n: u64)
    ensures
        g.persistent || c.persistent != 0 ==> with_setting(c, g, "persistent"@, v) == c,
        !g.persistent && c.persistent == 0 ==> with_setting(
            c,
            g,
            "persistent"@,
            decimal(n as nat),
        ) == (ConfigView {
            persistent: n,
            ..c
        }),
        !g.persistent && c.persistent == 0 && number(v, 10, u64::MAX as int) is None ==> with_setting(
            c,
            g,
            "persistent"@,
            v,
        ) == c,
{
    reveal_strlit("persistent");
    reveal_strlit("host");
    reveal_strlit("port");
    reveal_strlit("username");
    reveal_strlit("password");
    reveal_strlit("realm");
    reveal_strlit("cookie");
    reveal_strlit("trusted-cert");
    reveal_strlit("otp");
    reveal_strlit("otp-prompt");
    reveal_strlit("otp-delay");
    reveal_strlit("no-ftm-push");
    reveal_strlit("min-tls");
    reveal_strlit("cipher-list");
    reveal_strlit("insecure-ssl");
    reveal_strlit("user-cert");
    reveal_strlit("user-key");
    reveal_strlit("set-routes");
    reveal_strlit("half-internet-routes");
    reveal_strlit("set-dns");
    reveal_strlit("set-ip");
    reveal_strlit("use-resolvconf");
    reveal_strlit("pppd-use-peerdns");
    assert("persistent"@.len() == 10);
    assert("host"@.len() == 4);
    assert("port"@.len() == 4);
    assert("username"@.len() == 8);
    assert("password"@.len() == 8);
    assert("realm"@.len() == 5);
    assert("cookie"@.len() == 6);
    assert("trusted-cert"@.len() == 12);
    assert("otp"@.len() == 3);
    assert("otp-prompt"@.len() == 10);
    assert("otp-delay"@.len() == 9);
    assert("no-ftm-push"@.len() == 11);
    assert("min-tls"@.len() == 7);
    assert("cipher-list"@.len() == 11);
    assert("insecure-ssl"@.len() == 12);
    assert("user-cert"@.len() == 9);
    assert("user-key"@.len() == 8);
    assert("set-routes"@.len() == 10);
    assert("half-internet-routes"@.len() == 20);
    assert("set-dns"@.len() == 7);
    assert("set-ip"@.len() == 6);
    assert("use-resolvconf"@.len() == 14);
    assert("pppd-use-peerdns"@.len() == 16);
    assert("otp-prompt"@[0] != "persistent"@[0]);
    assert("set-routes"@[0] != "persistent"@[0]);
    law_decimal_reads_back(n as nat, u64::MAX as int);
}

/// `pppd-ifname` names the interface, unless one was given. Nothing else changes.
pub proof fn law_key_pppd_ifname(c: ConfigView, g: Given, v: Seq<char>)
    ensures
        with_setting(c, g, "pppd-ifname"@, v) == if g.pppd_ifname {
            c
        } else {
            ConfigView { pppd_ifname: v, ..c }
        },
{
    reveal_strlit("pppd-ifname");
    reveal_strlit("host");
    reveal_strlit("port");
    reveal_strlit("username");
    reveal_strlit("password");
    reveal_strlit("realm");
    reveal_strlit("cookie");
    reveal_strlit("trusted-cert");
    reveal_strlit("otp");
    reveal_strlit("otp-prompt");
    reveal_strlit("otp-delay");
    reveal_strlit("no-ftm-push");
    reveal_strlit("min-tls");
    reveal_strlit("cipher-list");
    reveal_strlit("insecure-ssl");
    reveal_strlit("user-cert");
    reveal_strlit("user-key");
    reveal_strlit("set-routes");
    reveal_strlit("half-internet-routes");
    reveal_strlit("set-dns");
    reveal_strlit("set-ip");
    reveal_strlit("use-resolvconf");
    reveal_strlit("pppd-use-peerdns");
    reveal_strlit("persistent");
    assert("pppd-ifname"@.len() == 11);
    assert("host"@.len() == 4);
    assert("port"@.len() == 4);
    assert("username"@.len() == 8);
    assert("password"@.len() == 8);
    assert("realm"@.len() == 5);
    assert("cookie"@.len() == 6);
    assert("trusted-cert"@.len() == 12);
    assert("otp"@.len() == 3);
    assert("otp-prompt"@.len() == 10);
    assert("otp-delay"@.len() == 9);
    assert("no-ftm-push"@.len() == 11);
    assert("min-tls"@.len() == 7);
    assert("cipher-list"@.len() == 11);
    assert("insecure-ssl"@.len() == 12);
    assert("user-cert"@.len() == 9);
    assert("user-key"@.len() == 8);
    assert("set-routes"@.len() == 10);
    assert("half-internet-routes"@.len() == 20);
    assert("set-dns"@.len() == 7);
    assert("set-ip"@.len() == 6);
    assert("use-resolvconf"@.len() == 14);
    assert("pppd-use-peerdns"@.len() == 16);
    assert("persistent"@.len() == 10);
    assert("no-ftm-push"@[0] != "pppd-ifname"@[0]);
    assert("cipher-list"@[0] != "pppd-ifname"@[0]);
}

} // verus!
