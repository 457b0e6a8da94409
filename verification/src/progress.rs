// SPDX-License-Identifier: GPL-3.0-or-later
//! The phases of bringing a connection up, as the browser status page shows them.

use crate::seqs::{index_where, lemma_index_where};
use crate::text::{
    chars_of, is_white, joined, lemma_word_bounds, not_white, string_of, texts, white, words, words_of,
};
use vstd::prelude::*;
use vstd::string::StringExecFns;

verus! {

/// A phase of the connection lifecycle, surfaced to the browser status page.
#[derive(Debug, PartialEq, Eq)]
pub enum Status {
    /// Signed in via SAML; exchanging the assertion for a session cookie.
    Authenticating,
    /// Authenticated; about to fetch the tunnel parameters.
    Authenticated,
    /// Fetching the VPN network configuration: address, routes, DNS.
    FetchingConfig,
    /// Bringing up pppd and opening the encrypted tunnel.
    StartingTunnel,
    /// Applying the negotiated address, routes and DNS.
    ConfiguringNetwork,
    /// The tunnel is fully up.
    Up,
    /// The connection attempt failed; carries the reason.
    Failed(String),
}

impl Clone for Status {
    fn clone(&self) -> (r: Self)
        ensures
            r == *self,
    {
        match self {
            Status::Authenticating => Status::Authenticating,
            Status::Authenticated => Status::Authenticated,
            Status::FetchingConfig => Status::FetchingConfig,
            Status::StartingTunnel => Status::StartingTunnel,
            Status::ConfiguringNetwork => Status::ConfiguringNetwork,
            Status::Up => Status::Up,
            Status::Failed(e) => Status::Failed(e.clone()),
        }
    }
}

impl Status {
    /// Whether the connection attempt is over.
    pub open spec fn terminal(&self) -> bool {
        self is Up || self is Failed
    }

    /// The event that the status page listens for.
    pub open spec fn kind(&self) -> Seq<char> {
        match self {
            Status::Up => "success"@,
            Status::Failed(_) => "error"@,
            _ => "loading"@,
        }
    }

    /// What the status page shows.
    pub open spec fn message(&self) -> Seq<char> {
        match self {
            Status::Authenticating => "Completing sign-in…"@,
            Status::Authenticated => "Signed in. Preparing connection…"@,
            Status::FetchingConfig => "Fetching VPN configuration…"@,
            Status::StartingTunnel => "Establishing secure tunnel…"@,
            Status::ConfiguringNetwork => "Configuring routes and DNS…"@,
            Status::Up => "Connected. You're all set."@,
            Status::Failed(e) => "Connection failed: "@ + one_line_of(e@),
        }
    }

    /// `(kind, message)` for the status page. `kind` is one of `loading`,
    /// `success` and `error`, the names of the events that the page listens for.
    pub fn render(&self) -> (r: (&'static str, String))
        ensures
            r.0@ == self.kind(),
            r.1@ == self.message(),
    {
        match self {
            Status::Authenticating => ("loading", "Completing sign-in…".to_owned()),
            Status::Authenticated => ("loading", "Signed in. Preparing connection…".to_owned()),
            Status::FetchingConfig => ("loading", "Fetching VPN configuration…".to_owned()),
            Status::StartingTunnel => ("loading", "Establishing secure tunnel…".to_owned()),
            Status::ConfiguringNetwork => ("loading", "Configuring routes and DNS…".to_owned()),
            Status::Up => ("success", "Connected. You're all set.".to_owned()),
            Status::Failed(e) => {
                ("error", "Connection failed: ".to_owned().concat(one_line(e.as_str()).as_str()))
            },
        }
    }

    /// Whether the page shows a badge and closes shortly after.
    pub fn is_terminal(&self) -> (r: bool)
        ensures
            r == self.terminal(),
    {
        match self {
            Status::Up => true,
            Status::Failed(_) => true,
            _ => false,
        }
    }
}

/// A text on one line: its words, with one space between each two.
pub open spec fn one_line_of(s: Seq<char>) -> Seq<char> {
    joined(words(s), " "@)
}

/// A text on one line, so that it stays a single `data:` line of an event.
pub fn one_line(s: &str) -> (r: String)
    ensures
        r@ == one_line_of(s@),
{
    let chars = chars_of(s);
    let all = words_of(chars.as_slice());
    let ghost parts = words(s@);
    let mut r = String::new();
    let mut i: usize = 0;
    assert(parts.take(0) =~= Seq::<Seq<char>>::empty());
    while i < all.len()
        invariant
            i <= all@.len(),
            texts(all@) == parts,
            r@ == joined(parts.take(i as int), " "@),
        decreases all@.len() - i,
    {
        let ghost before = r@;
        proof {
            assert(parts[i as int] == all@[i as int]@);
            assert(parts.take(i + 1).drop_last() =~= parts.take(i as int));
            assert(parts.take(i + 1).last() == parts[i as int]);
        }
        if i > 0 {
            r.append(" ");
        }
        r.append(string_of(all[i]).as_str());
        proof {
            if i == 0 {
                assert(before =~= Seq::<char>::empty());
                assert(r@ =~= parts[0]);
            }
        }
        i = i + 1;
    }
    assert(parts.take(i as int) =~= parts);
    r
}

/// Words hold no white space.
pub proof fn lemma_words_are_clean(s: Seq<char>, k: int, j: int)
    requires
        0 <= k < words(s).len(),
        0 <= j < words(s)[k].len(),
    ensures
        !white(words(s)[k][j]),
    decreases s.len(),
{
    let start = index_where(s, not_white());
    let rest = s.skip(start);
    let end = index_where(rest, is_white());
    lemma_word_bounds(s);
    if start < s.len() {
        lemma_index_where(rest, is_white());
        if k == 0 {
            assert(words(s)[0] == rest.take(end));
            assert(!is_white()(rest[j]));
        } else {
            lemma_words_are_clean(rest.skip(end), k - 1, j);
        }
    }
}

/// Words are not empty.
pub proof fn lemma_words_are_not_empty(s: Seq<char>, k: int)
    requires
        0 <= k < words(s).len(),
    ensures
        words(s)[k].len() > 0,
    decreases s.len(),
{
    let start = index_where(s, not_white());
    let rest = s.skip(start);
    let end = index_where(rest, is_white());
    lemma_word_bounds(s);
    if start < s.len() {
        if k == 0 {
            assert(words(s)[0] == rest.take(end));
        } else {
            lemma_words_are_not_empty(rest.skip(end), k - 1);
        }
    }
}

proof fn lemma_joined_is_clean(parts: Seq<Seq<char>>, i: int)
    requires
        forall|k: int, j: int|
            0 <= k < parts.len() && 0 <= j < parts[k].len() ==> !white(#[trigger] parts[k][j]),
        0 <= i < joined(parts, " "@).len(),
        white(joined(parts, " "@)[i]),
    ensures
        joined(parts, " "@)[i] == ' ',
    decreases parts.len(),
{
    reveal_strlit(" ");
    if parts.len() > 1 {
        let head = joined(parts.drop_last(), " "@);
        let last = parts.last();
        if i < head.len() {
            assert(joined(parts, " "@)[i] == head[i]);
            assert forall|k: int, j: int|
                0 <= k < parts.drop_last().len() && 0 <= j < parts.drop_last()[k].len() implies !white(
                #[trigger] parts.drop_last()[k][j],
            ) by {
                assert(!white(parts[k][j]));
            }
            lemma_joined_is_clean(parts.drop_last(), i);
        } else if i > head.len() {
            assert(joined(parts, " "@)[i] == last[i - head.len() - 1]);
            assert(!white(parts[parts.len() - 1][i - head.len() - 1]));
        }
    } else if parts.len() == 1 {
        assert(!white(parts[0][i]));
    }
}

/// However a failure reads, it is shown on one line: the only white space left is
/// the space.
pub proof fn law_one_line(s: Seq<char>, i: int)
    requires
        0 <= i < one_line_of(s).len(),
    ensures
        white(one_line_of(s)[i]) ==> one_line_of(s)[i] == ' ',
{
    let parts = words(s);
    assert forall|k: int, j: int|
        0 <= k < parts.len() && 0 <= j < parts[k].len() implies !white(#[trigger] parts[k][j]) by {
        lemma_words_are_clean(s, k, j);
    }
    if white(one_line_of(s)[i]) {
        lemma_joined_is_clean(parts, i);
    }
}

} // verus!
