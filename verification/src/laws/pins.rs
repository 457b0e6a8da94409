// SPDX-License-Identifier: GPL-3.0-or-later
//! Which certificates are accepted: fingerprints however they are written.

use crate::cli::ConfigView;
use crate::transport::tls::{
    accepted, ascii, ascii_lower, cert_source, chain_passed, hex, key_source, leaf_seen, tls_settings,
    tls_version, without, Observation, Source, TlsVersion, TlsView,
};
use crate::path::lossy_text;
use crate::text::trimmed;
use vstd::prelude::*;
use vstd::utf8::encode_utf8;

verus! {

/// Taking out a character takes out every one of it, and nothing else.
pub proof fn law_without(s: Seq<char>, x: char)
    ensures
        without(s, x) == s.filter(|c: char| c != x),
        !without(s, x).contains(x),
    decreases s.len(),
{
    reveal(Seq::filter);
    let f = |c: char| c != x;
    if s.len() > 0 {
        law_without(s.drop_last(), x);
        let before = without(s.drop_last(), x);
        if s.last() != x {
            assert forall|i: int| 0 <= i < before.push(s.last()).len() implies before.push(
                s.last(),
            )[i] != x by {
                if i < before.len() {
                    assert(before.contains(before[i]));
                }
            }
        }
    }
}

/// Whether `c` is the hex digit of a value below sixteen, in either case.
pub open spec fn is_hex_of(c: char, d: int) -> bool {
    c == "0123456789abcdef"@[d] || c == "0123456789ABCDEF"@[d]
}

/// Whether a text spells bytes: two hex digits for each, in either case, and colons
/// anywhere between.
pub open spec fn spells(s: Seq<char>, bytes: Seq<u8>) -> bool {
    let t = s.filter(|c: char| c != ':');
    &&& t.len() == 2 * bytes.len()
    &&& forall|i: int|
        0 <= i < bytes.len() ==> is_hex_of(t[2 * i], (#[trigger] bytes[i]) as int / 16)
            && is_hex_of(t[2 * i + 1], bytes[i] as int % 16)
}

/// Bytes in hex are two lower-case digits each, the high one first, and nothing
/// else.
pub proof fn law_hex(bytes: Seq<u8>, i: int)
    requires
        0 <= i < bytes.len(),
    ensures
        hex(bytes).len() == 2 * bytes.len(),
        hex(bytes)[2 * i] == "0123456789abcdef"@[bytes[i] as int / 16],
        hex(bytes)[2 * i + 1] == "0123456789abcdef"@[bytes[i] as int % 16],
    decreases bytes.len(),
{
    reveal_strlit("0123456789abcdef");
    let fewer = bytes.drop_last();
    if fewer.len() > 0 {
        let j = if i < fewer.len() {
            i
        } else {
            0
        };
        law_hex(fewer, j);
        if i < fewer.len() {
            assert(hex(bytes)[2 * i] == hex(fewer)[2 * i]);
            assert(hex(bytes)[2 * i + 1] == hex(fewer)[2 * i + 1]);
        }
    } else {
        assert(hex(fewer) =~= Seq::<char>::empty());
    }
}

proof fn lemma_lower(c: char, d: int)
    requires
        0 <= d < 16,
        is_hex_of(c, d),
    ensures
        ascii_lower(c) == "0123456789abcdef"@[d],
        c as u32 <= 127,
{
    reveal_strlit("0123456789abcdef");
    reveal_strlit("0123456789ABCDEF");
}

/// However a fingerprint is written, with or without colons and in either case, it
/// is taken for the same bytes.
pub proof fn law_fingerprint(pin: Seq<char>, bytes: Seq<u8>)
    requires
        spells(pin, bytes),
    ensures
        without(pin, ':').map_values(|c: char| ascii_lower(c)) == hex(bytes),
        ascii(pin),
{
    law_without(pin, ':');
    let t = pin.filter(|c: char| c != ':');
    let low = without(pin, ':').map_values(|c: char| ascii_lower(c));
    if bytes.len() > 0 {
        law_hex(bytes, 0);
    } else {
        assert(hex(bytes) =~= Seq::<char>::empty());
    }
    assert forall|k: int|
        0 <= k < t.len() implies low[k] == hex(bytes)[k] && (#[trigger] t[k]) as u32 <= 127 by {
        let i = k / 2;
        assert(is_hex_of(t[2 * i], bytes[i] as int / 16));
        law_hex(bytes, i);
        lemma_lower(t[2 * i], bytes[i] as int / 16);
        lemma_lower(t[2 * i + 1], bytes[i] as int % 16);
        assert(k == 2 * i || k == 2 * i + 1);
    }
    assert(low =~= hex(bytes));
    assert forall|i: int| 0 <= i < pin.len() implies #[trigger] pin[i] as u32 <= 127 by {
        if pin[i] != ':' {
            lemma_filter_keeps(pin, ':', i);
            let k = choose|k: int| 0 <= k < t.len() && t[k] == pin[i];
            assert(t[k] == pin[i]);
        }
    }
}

proof fn lemma_filter_keeps(s: Seq<char>, x: char, i: int)
    requires
        0 <= i < s.len(),
        s[i] != x,
    ensures
        s.filter(|c: char| c != x).contains(s[i]),
    decreases s.len(),
{
    reveal(Seq::filter);
    let f = |c: char| c != x;
    let before = s.drop_last().filter(f);
    if i == s.len() - 1 {
        let all = before.push(s.last());
        assert(all[before.len() as int] == s[i]);
    } else {
        lemma_filter_keeps(s.drop_last(), x, i);
        let k = choose|k: int| 0 <= k < before.len() && before[k] == s[i];
        if s.last() != x {
            assert(before.push(s.last())[k] == s[i]);
        }
    }
}

/// A gateway is accepted if its chain is valid, or if its leaf has a digest that is
/// pinned; and in no other case.
pub proof fn law_accepted(t: TlsView, chain_ok: bool, digest: Seq<char>)
    ensures
        accepted(t, true, Some(digest)),
        accepted(t, true, None),
        !accepted(t, false, None),
        digest.len() > 0 ==> accepted(t, false, Some(digest)) == (exists|i: int|
            0 <= i < t.trusted.len() && #[trigger] t.trusted[i] == digest),
        digest.len() == 0 ==> !accepted(t, false, Some(digest)),
{
}

/// A chain is valid if every certificate of it was; the leaf is the certificate at
/// depth zero, as it was seen last.
pub proof fn law_handshake(seen: Seq<Observation>, next: Observation)
    ensures
        chain_passed(Seq::empty()),
        chain_passed(seen.push(next)) == (chain_passed(seen) && next.preverify_ok),
        leaf_seen(Seq::empty()) is None,
        leaf_seen(seen.push(next)) == if next.depth == 0 && next.digest is Some {
            next.digest
        } else {
            leaf_seen(seen)
        },
{
    let more = seen.push(next);
    assert(more.drop_last() =~= seen);
    assert(more.last() == next);
    if chain_passed(seen) && next.preverify_ok {
        assert forall|i: int| 0 <= i < more.len() implies #[trigger] more[i].preverify_ok by {
            if i < seen.len() {
                assert(seen[i].preverify_ok);
            }
        }
    }
    if chain_passed(more) {
        assert(more[seen.len() as int].preverify_ok);
        assert forall|i: int| 0 <= i < seen.len() implies #[trigger] seen[i].preverify_ok by {
            assert(more[i].preverify_ok);
        }
    }
}

/// Connections are made as configured: to this host and port, with this bundle,
/// version, ciphers and client certificate, and with as many pins as there are.
pub proof fn law_tls_as_configured(c: ConfigView)
    ensures
        tls_settings(c).host == c.host,
        tls_settings(c).port == c.port,
        tls_settings(c).trusted.len() == c.trusted_cert.len(),
        tls_settings(c).ca_file == c.ca_file,
        tls_settings(c).min_tls == c.min_tls,
        tls_settings(c).cipher_list == c.cipher_list,
        tls_settings(c).insecure_ssl == c.insecure_ssl,
        tls_settings(c).user_cert == c.user_cert,
        tls_settings(c).user_key == c.user_key,
        tls_settings(c).pem_passphrase == c.pem_passphrase,
{
}

/// The four versions are named by their numbers, white space aside, the first also
/// by its major number alone; nothing else names one.
pub proof fn law_tls_version(v: Seq<char>)
    ensures
        tls_version(v) == Some(TlsVersion::Tls10) <==> trimmed(v) == "1.0"@ || trimmed(v) == "1"@,
        tls_version(v) == Some(TlsVersion::Tls11) <==> trimmed(v) == "1.1"@,
        tls_version(v) == Some(TlsVersion::Tls12) <==> trimmed(v) == "1.2"@,
        tls_version(v) == Some(TlsVersion::Tls13) <==> trimmed(v) == "1.3"@,
{
    reveal_strlit("1");
    reveal_strlit("1.0");
    reveal_strlit("1.1");
    reveal_strlit("1.2");
    reveal_strlit("1.3");
    assert("1"@.len() == 1);
    assert("1.0"@[2] == '0' && "1.1"@[2] == '1' && "1.2"@[2] == '2' && "1.3"@[2] == '3');
}

/// A client certificate comes from a token if it is a `pkcs11:` URI, else from a
/// file of that name. So does its key, with the passphrase; where none is named it
/// comes from the certificate's file.
pub proof fn law_client_certificate(t: TlsView, cert: Seq<char>, key: Seq<u8>)
    ensures
        cert_source(cert) == if "pkcs11:"@.is_prefix_of(cert) {
            Source::Token { uri: cert }
        } else {
            Source::File { path: encode_utf8(cert), passphrase: None }
        },
        t.user_key is None ==> key_source(t, cert) == (Source::File {
            path: encode_utf8(cert),
            passphrase: t.pem_passphrase,
        }),
        t.user_key == Some(key) ==> key_source(t, cert) == if "pkcs11:"@.is_prefix_of(
            lossy_text(key),
        ) {
            Source::Token { uri: lossy_text(key) }
        } else {
            Source::File { path: key, passphrase: t.pem_passphrase }
        },
{
}

} // verus!
