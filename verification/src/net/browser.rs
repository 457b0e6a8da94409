// SPDX-License-Identifier: GPL-3.0-or-later
//! Opening the login user's browser for single sign-on.
//!
//! The client usually runs as root, but the browser must open in the login user's
//! own session, so that *their* default browser, with its live SSO cookies, is
//! used. Who that is comes from systemd-logind's active local graphical session,
//! then from `sudo`, then from the audit login session.

use crate::net::{action_views, command, runs, strs, Action, ActionView};
use crate::number::{number, parse_number};
use crate::text::{
    chars_of, cut, lines, lines_of, pieces_of, reads, split_all, split_once, string_of, texts, trim,
    trimmed, words, words_of,
};
use vstd::prelude::*;
use vstd::string::StringExecFns;

verus! {

/// What is known of a session.
pub struct SessionProps {
    pub active: bool,
    pub remote: bool,
    pub graphical: bool,
    pub uid: Option<u32>,
}

/// A session of which nothing is known.
pub open spec fn unknown_session() -> SessionProps {
    SessionProps { active: false, remote: false, graphical: false, uid: None }
}

/// The user id that a text stands for.
pub open spec fn user_id(s: Seq<char>) -> Option<u32> {
    match number(s, 10, u32::MAX as int) {
        Some(v) => Some(v as u32),
        None => None,
    }
}

/// What is known once a `Key=Value` line has been read; a later line about the
/// same key wins.
pub open spec fn with_line(p: SessionProps, line: Seq<char>) -> SessionProps {
    match split_once(line, '=') {
        None => p,
        Some((key, val)) => if key == "Active"@ {
            SessionProps { active: val == "yes"@, ..p }
        } else if key == "Remote"@ {
            SessionProps { remote: val == "yes"@, ..p }
        } else if key == "Type"@ {
            SessionProps { graphical: val == "wayland"@ || val == "x11"@ || val == "mir"@, ..p }
        } else if key == "User"@ {
            SessionProps { uid: user_id(trimmed(val)), ..p }
        } else {
            p
        },
    }
}

/// What is known once all lines have been read.
pub open spec fn session_props(ls: Seq<Seq<char>>) -> SessionProps
    decreases ls.len(),
{
    if ls.len() == 0 {
        unknown_session()
    } else {
        with_line(session_props(ls.drop_last()), ls.last())
    }
}

/// The owner of a session in which a browser can open: active, local, graphical.
pub open spec fn browser_owner(p: SessionProps) -> Option<u32> {
    if p.active && !p.remote && p.graphical {
        p.uid
    } else {
        None
    }
}

fn parse_uid(s: &[char]) -> (r: Option<u32>)
    ensures
        r == user_id(s@),
{
    match parse_number(s, 10, u32::MAX as u64) {
        Some(v) => Some(v as u32),
        None => None,
    }
}

/// From `loginctl show-session` `Key=Value` output, the owner uid iff the session
/// is active, local and graphical, so that a browser can open in it.
pub fn parse_graphical_session_uid(props: &str) -> (r: Option<u32>)
    ensures
        r == browser_owner(session_props(lines(props@))),
{
    let text = chars_of(props);
    let all = lines_of(text.as_slice());
    let ghost ls = lines(props@);
    let mut p = SessionProps { active: false, remote: false, graphical: false, uid: None };
    let mut i: usize = 0;
    while i < all.len()
        invariant
            i <= all@.len(),
            texts(all@) == ls,
            p == session_props(ls.take(i as int)),
        decreases all@.len() - i,
    {
        proof {
            assert(ls[i as int] == all@[i as int]@);
            assert(ls.take(i + 1).drop_last() =~= ls.take(i as int));
            assert(ls.take(i + 1).last() == ls[i as int]);
        }
        if let Some((key, val)) = cut(all[i], '=') {
            if reads(key, "Active") {
                p.active = reads(val, "yes");
            } else if reads(key, "Remote") {
                p.remote = reads(val, "yes");
            } else if reads(key, "Type") {
                p.graphical = reads(val, "wayland") || reads(val, "x11") || reads(val, "mir");
            } else if reads(key, "User") {
                p.uid = parse_uid(trim(val));
            }
        }
        i = i + 1;
    }
    assert(ls.take(i as int) =~= ls);
    if p.active && !p.remote && p.graphical {
        p.uid
    } else {
        None
    }
}

/// What a look at a session leads to.
#[derive(Debug, Clone, Copy, PartialEq, Eq, Structural)]
pub enum SessionStep {
    /// A browser can open in it; this is its owner.
    Found(u32),
    /// Look at the next one.
    Next,
    /// Look no further.
    GiveUp,
}

/// What a look at a session leads to: where `loginctl` cannot be run at all there
/// is no use in going on; where it fails, or the session is none for a browser,
/// the next one may do.
pub open spec fn session_step(ran: bool, succeeded: bool, props: Seq<char>) -> SessionStep {
    if !ran {
        SessionStep::GiveUp
    } else if !succeeded {
        SessionStep::Next
    } else {
        match browser_owner(session_props(lines(props))) {
            Some(uid) => SessionStep::Found(uid),
            None => SessionStep::Next,
        }
    }
}

/// `loginctl show-session` has been asked about a session: whether it could be
/// run, whether it succeeded, and what it printed.
pub fn shown_session(ran: bool, succeeded: bool, props: &str) -> (r: SessionStep)
    ensures
        r == session_step(ran, succeeded, props@),
{
    if !ran {
        return SessionStep::GiveUp;
    }
    if !succeeded {
        return SessionStep::Next;
    }
    match parse_graphical_session_uid(props) {
        Some(uid) => SessionStep::Found(uid),
        None => SessionStep::Next,
    }
}

/// The sessions that `loginctl list-sessions` lists: the first word of each line.
pub open spec fn session_ids_of(ls: Seq<Seq<char>>) -> Seq<Seq<char>>
    decreases ls.len(),
{
    if ls.len() == 0 {
        Seq::empty()
    } else {
        let before = session_ids_of(ls.drop_last());
        let w = words(ls.last());
        if w.len() > 0 {
            before.push(w[0])
        } else {
            before
        }
    }
}

/// The sessions that `loginctl list-sessions` lists.
pub fn session_ids(list: &str) -> (r: Vec<String>)
    ensures
        r.deep_view() == session_ids_of(lines(list@)),
{
    let text = chars_of(list);
    let all = lines_of(text.as_slice());
    let ghost ls = lines(list@);
    let mut r: Vec<String> = Vec::new();
    let mut i: usize = 0;
    assert(r.deep_view() =~= session_ids_of(ls.take(0)));
    while i < all.len()
        invariant
            i <= all@.len(),
            texts(all@) == ls,
            r.deep_view() == session_ids_of(ls.take(i as int)),
        decreases all@.len() - i,
    {
        proof {
            assert(ls[i as int] == all@[i as int]@);
            assert(ls.take(i + 1).drop_last() =~= ls.take(i as int));
            assert(ls.take(i + 1).last() == ls[i as int]);
        }
        let w = words_of(all[i]);
        if w.len() > 0 {
            let ghost before = r.deep_view();
            let id = string_of(w[0]);
            assert(words(ls[i as int])[0] == w@[0]@);
            r.push(id);
            assert(r.deep_view() =~= before.push(id@));
        }
        i = i + 1;
    }
    assert(ls.take(i as int) =~= ls);
    r
}

/// The human user whose session a browser should open in, ordered by authority:
/// the owner of the active local graphical session, then who called `sudo`, then
/// the audit login session, where it is set.
pub open spec fn login_user(
    logind: Option<u32>,
    sudo_uid: Option<Seq<char>>,
    loginuid: Option<Seq<char>>,
) -> Option<u32> {
    let sudo = match sudo_uid {
        Some(v) => user_id(v),
        None => None,
    };
    let audit = match loginuid {
        Some(v) => user_id(trimmed(v)),
        None => None,
    };
    if logind is Some {
        logind
    } else if sudo is Some {
        sudo
    } else if audit is Some && audit != Some(u32::MAX) {
        audit
    } else {
        None
    }
}

/// Discover the human user whose session a browser should open in. `sudo_uid` is
/// the variable that `sudo` sets, `loginuid` what the kernel's file says.
pub fn original_user_uid(
    logind: Option<u32>,
    sudo_uid: Option<&str>,
    loginuid: Option<&str>,
) -> (r: Option<u32>)
    ensures
        r == login_user(
            logind,
            match sudo_uid {
                Some(v) => Some(v@),
                None => None,
            },
            match loginuid {
                Some(v) => Some(v@),
                None => None,
            },
        ),
{
    if logind.is_some() {
        return logind;
    }
    if let Some(v) = sudo_uid {
        let chars = chars_of(v);
        let uid = parse_uid(chars.as_slice());
        if uid.is_some() {
            return uid;
        }
    }
    if let Some(content) = loginuid {
        let chars = chars_of(content);
        if let Some(uid) = parse_uid(trim(chars.as_slice())) {
            if uid != u32::MAX {
                return Some(uid);
            }
        }
    }
    None
}

/// Whom to open the browser as: the login user, where that is known, is not root
/// and has a name; else whoever runs this.
fn open_as(uid: Option<u32>, name: Option<String>) -> (r: Option<String>)
    ensures
        r == if uid is Some && uid != Some(0u32) {
            name
        } else {
            None
        },
{
    match uid {
        Some(uid) => {
            if uid != 0 {
                name
            } else {
                None
            }
        },
        None => None,
    }
}

/// The platform's URL opener.
pub open spec fn opener_name(macos: bool) -> Seq<char> {
    if macos {
        "open"@
    } else {
        "xdg-open"@
    }
}

/// The platform's URL opener.
pub fn opener(macos: bool) -> (r: &'static str)
    ensures
        r@ == opener_name(macos),
{
    if macos {
        "open"
    } else {
        "xdg-open"
    }
}

/// Opening a URL in the systemd session of a user.
pub open spec fn in_session(user: Seq<char>, opener: Seq<char>, url: Seq<char>) -> ActionView {
    runs(
        "systemd-run"@,
        seq![
            "--quiet"@,
            "--pipe"@,
            "--wait"@,
            "--user"@,
            "--machine"@,
            user + "@.host"@,
            "--"@,
            opener,
            url,
        ],
    )
}

/// Opening a URL as a user without systemd.
pub open spec fn with_su(user: Seq<char>, opener: Seq<char>, url: Seq<char>) -> ActionView {
    runs("su"@, seq![user, "-c"@, opener + " '"@ + url + "'"@])
}

/// The ways to open a URL, the best first: as the user whose session it is, by
/// systemd where that is there and by `su` otherwise; or as whoever runs this.
pub open spec fn ways_to_open(
    user: Option<Seq<char>>,
    systemd_run: bool,
    opener: Seq<char>,
    url: Seq<char>,
) -> Seq<ActionView> {
    match user {
        Some(user) => if systemd_run {
            seq![in_session(user, opener, url), with_su(user, opener, url)]
        } else {
            seq![with_su(user, opener, url)]
        },
        None => seq![runs(opener, seq![url])],
    }
}

fn open_in_session(user: &str, opener: &str, url: &str) -> (r: Action)
    ensures
        r@ == in_session(user@, opener@, url@),
{
    let machine = user.to_owned().concat("@.host");
    let args = [
        "--quiet",
        "--pipe",
        "--wait",
        "--user",
        "--machine",
        machine.as_str(),
        "--",
        opener,
        url,
    ];
    assert(strs(args@) =~= seq![
        "--quiet"@,
        "--pipe"@,
        "--wait"@,
        "--user"@,
        "--machine"@,
        machine@,
        "--"@,
        opener@,
        url@,
    ]);
    command("systemd-run", args.as_slice())
}

fn open_with_su(user: &str, opener: &str, url: &str) -> (r: Action)
    ensures
        r@ == with_su(user@, opener@, url@),
{
    let mut line = opener.to_owned();
    line.append(" '");
    line.append(url);
    line.append("'");
    let args = [user, "-c", line.as_str()];
    assert(strs(args@) =~= seq![user@, "-c"@, line@]);
    command("su", args.as_slice())
}

/// The ways to open `url` in the login user's default browser, to be tried in
/// order until one succeeds. `uid` is the login user and `name` what that user is
/// called, as far as they are known; `systemd_run` says whether there is such a
/// command.
pub fn open_url(
    url: &str,
    uid: Option<u32>,
    name: Option<String>,
    systemd_run: bool,
    macos: bool,
) -> (r: Vec<Action>)
    ensures
        action_views(r@) == ways_to_open(
            if uid is Some && uid != Some(0u32) {
                name.deep_view()
            } else {
                None
            },
            systemd_run,
            opener_name(macos),
            url@,
        ),
{
    let opener = opener(macos);
    let mut ways: Vec<Action> = Vec::new();
    match open_as(uid, name) {
        Some(user) => {
            if systemd_run {
                ways.push(open_in_session(user.as_str(), opener, url));
            }
            ways.push(open_with_su(user.as_str(), opener, url));
            assert(action_views(ways@) =~= ways_to_open(
                Some(user@),
                systemd_run,
                opener_name(macos),
                url@,
            ));
        },
        None => {
            let args = [url];
            assert(strs(args@) =~= seq![url@]);
            ways.push(command(opener, args.as_slice()));
            assert(action_views(ways@) =~= ways_to_open(
                None,
                systemd_run,
                opener_name(macos),
                url@,
            ));
        },
    }
    ways
}

/// The directories of a search path.
pub fn path_dirs(path: &str) -> (r: Vec<String>)
    ensures
        r.deep_view() == split_all(path@, ':'),
{
    let chars = chars_of(path);
    let pieces = pieces_of(chars.as_slice(), ':');
    let ghost all = split_all(path@, ':');
    let mut r: Vec<String> = Vec::new();
    let mut i: usize = 0;
    while i < pieces.len()
        invariant
            i <= pieces@.len(),
            texts(pieces@) == all,
            r.deep_view() =~= all.take(i as int),
        decreases pieces@.len() - i,
    {
        let ghost before = r.deep_view();
        let dir = string_of(pieces[i]);
        assert(all[i as int] == pieces@[i as int]@);
        r.push(dir);
        assert(r.deep_view() =~= before.push(dir@));
        i = i + 1;
    }
    assert(all.take(i as int) =~= all);
    r
}

} // verus!
