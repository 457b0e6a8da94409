// SPDX-License-Identifier: GPL-3.0-or-later
//! Whose browser opens, how, and in which order a connection is set up and torn
//! down.

use crate::engine::{
    course, drive_ended, law_every_path_tears_down, law_phases_come_in_order, reported, started,
    Drive, Task,
};
use crate::laws::plans::run;
use crate::net::browser::{
    browser_owner, login_user, opener_name, session_ids_of, session_props, session_step, user_id,
    ways_to_open, with_line, SessionProps, SessionStep,
};
use crate::laws::text::law_split_once;
use crate::number::{law_number_is_in_range, number};
use crate::text::{lines, trimmed, words};
use vstd::prelude::*;

verus! {

/// A user id is a decimal number of 32 bits.
pub proof fn law_user_id(s: Seq<char>, id: u32)
    ensures
        user_id(s) == Some(id) <==> number(s, 10, 0xffff_ffff) == Some(id as int),
        user_id(s) is None <==> number(s, 10, 0xffff_ffff) is None,
{
    law_number_is_in_range(s, 10, 0xffff_ffff);
}

/// A line about a session says one thing of it and leaves the others as they were.
pub proof fn law_session_line(p: SessionProps, v: Seq<char>)
    ensures
        with_line(p, "Active="@ + v) == (SessionProps { active: v == "yes"@, ..p }),
        with_line(p, "Remote="@ + v) == (SessionProps { remote: v == "yes"@, ..p }),
        with_line(p, "Type="@ + v) == (SessionProps {
            graphical: v == "wayland"@ || v == "x11"@ || v == "mir"@,
            ..p
        }),
        with_line(p, "User="@ + v) == (SessionProps { uid: user_id(trimmed(v)), ..p }),
{
    reveal_strlit("Active=");
    reveal_strlit("Remote=");
    reveal_strlit("Type=");
    reveal_strlit("User=");
    reveal_strlit("Active");
    reveal_strlit("Remote");
    reveal_strlit("Type");
    reveal_strlit("User");
    assert("Active="@ =~= "Active"@ + seq!['=']);
    assert("Remote="@ =~= "Remote"@ + seq!['=']);
    assert("Type="@ =~= "Type"@ + seq!['=']);
    assert("User="@ =~= "User"@ + seq!['=']);
    assert("Active"@[0] == 'A' && "Remote"@[0] == 'R' && "Type"@[0] == 'T' && "User"@[0] == 'U');
    law_split_once("Active"@, v, '=');
    law_split_once("Remote"@, v, '=');
    law_split_once("Type"@, v, '=');
    law_split_once("User"@, v, '=');
}

/// Lines about a session are read one after the other, from nothing known on.
pub proof fn law_session_lines(ls: Seq<Seq<char>>, line: Seq<char>)
    ensures
        session_props(Seq::empty()) == (SessionProps {
            active: false,
            remote: false,
            graphical: false,
            uid: None,
        }),
        session_props(ls.push(line)) == with_line(session_props(ls), line),
{
    assert(ls.push(line).drop_last() =~= ls);
}

/// A browser opens for the owner of a session that is active, local and graphical,
/// and of no other.
pub proof fn law_session_owner(props: Seq<char>, uid: u32)
    ensures
        ({
            let p = session_props(lines(props));
            &&& browser_owner(p) == Some(uid) <==> p.active && !p.remote && p.graphical && p.uid
                == Some(uid)
            &&& session_step(true, true, props) == SessionStep::Found(uid) <==> p.active
                && !p.remote && p.graphical && p.uid == Some(uid)
            &&& !(p.active && !p.remote && p.graphical && p.uid is Some) ==> session_step(
                true,
                true,
                props,
            ) == SessionStep::Next
        }),
        session_step(true, false, props) == SessionStep::Next,
        session_step(false, false, props) == SessionStep::GiveUp,
        session_step(false, true, props) == SessionStep::GiveUp,
{
}

/// Each line that is not blank lists a session, by its first word.
pub proof fn law_session_ids(ls: Seq<Seq<char>>, line: Seq<char>)
    ensures
        session_ids_of(Seq::empty()) == Seq::<Seq<char>>::empty(),
        words(line).len() > 0 ==> session_ids_of(ls.push(line)) == session_ids_of(ls).push(
            words(line)[0],
        ),
        words(line).len() == 0 ==> session_ids_of(ls.push(line)) == session_ids_of(ls),
{
    assert(ls.push(line).drop_last() =~= ls);
}

/// The owner of the session comes first, then who called `sudo`, then the audit
/// login user, unless that is unset.
pub proof fn law_login_user(
    id: u32,
    sudo: Option<Seq<char>>,
    audit: Option<Seq<char>>,
    caller: Seq<char>,
    login: Seq<char>,
)
    ensures
        login_user(Some(id), sudo, audit) == Some(id),
        number(caller, 10, 0xffff_ffff) is Some ==> login_user(None, Some(caller), audit) == Some(
            number(caller, 10, 0xffff_ffff)->0 as u32,
        ),
        sudo is None || number(sudo->0, 10, 0xffff_ffff) is None ==> {
            &&& login_user(None, sudo, None) is None
            &&& login_user(None, sudo, Some(login)) == match number(
                trimmed(login),
                10,
                0xffff_ffff,
            ) {
                Some(v) => if v < 0xffff_ffff {
                    Some(v as u32)
                } else {
                    None::<u32>
                },
                None => None,
            }
        },
{
    law_number_is_in_range(caller, 10, 0xffff_ffff);
    law_number_is_in_range(trimmed(login), 10, 0xffff_ffff);
}

/// The ways to open an address, for every user and address.
pub proof fn law_ways_to_open(user: Seq<char>, opener: Seq<char>, url: Seq<char>)
    ensures
        ways_to_open(None, true, opener, url) == seq![run(opener, seq![url])],
        ways_to_open(None, false, opener, url) == seq![run(opener, seq![url])],
        ways_to_open(Some(user), false, opener, url) == seq![
            run("su"@, seq![user, "-c"@, opener + " '"@ + url + "'"@]),
        ],
        ways_to_open(Some(user), true, opener, url) == seq![
            run(
                "systemd-run"@,
                seq![
                    "--quiet"@,
                    "--pipe"@,
                    "--wait"@,
                    "--user"@,
                    "--machine"@,
                    user + "@.host"@,
                    "--"@,
                    opener,
                    url,
                ],
            ),
            run("su"@, seq![user, "-c"@, opener + " '"@ + url + "'"@]),
        ],
        opener_name(true) == "open"@,
        opener_name(false) == "xdg-open"@,
{
}

/// What was set up is torn down, and nothing else is: whoever signed in is signed
/// out, a daemon that was started is reaped, a network that was touched is
/// restored, and the pump is stopped where it was not awaited. Whatever happens,
/// the connection comes to an end.
pub proof fn law_torn_down(ok: spec_fn(Task) -> bool)
    ensures
        ({
            let c = course(started(), ok);
            let signed_in = ok(Task::Authenticate);
            let spawned = signed_in && ok(Task::FetchParams) && ok(Task::SpawnPppd);
            let opened = spawned && ok(Task::OpenTunnel);
            let up = opened && ok(Task::ConfigureNetwork);
            &&& c.contains(Task::FetchParams) <==> signed_in
            &&& c.contains(Task::Logout) <==> signed_in
            &&& c.contains(Task::SpawnPppd) <==> signed_in && ok(Task::FetchParams)
            &&& c.contains(Task::OpenTunnel) <==> spawned
            &&& c.contains(Task::ReapPppd) <==> spawned
            &&& c.contains(Task::ConfigureNetwork) <==> opened
            &&& c.contains(Task::RestoreNetwork) <==> opened
            &&& c.contains(Task::AwaitIo) <==> up
            &&& c.contains(Task::AbortIo) <==> opened && !up
            &&& c[0] == Task::Authenticate
            &&& c[c.len() - 1] == Task::Finish
        }),
{
    law_every_path_tears_down(ok);
    let c = course(started(), ok);
    let n = c.len() as int;
    assert(n <= 10);
    assert(n > 0 ==> c.contains(c[0]));
    assert(n > 1 ==> c.contains(c[1]));
    assert(n > 2 ==> c.contains(c[2]));
    assert(n > 3 ==> c.contains(c[3]));
    assert(n > 4 ==> c.contains(c[4]));
    assert(n > 5 ==> c.contains(c[5]));
    assert(n > 6 ==> c.contains(c[6]));
    assert(n > 7 ==> c.contains(c[7]));
    assert(n > 8 ==> c.contains(c[8]));
    assert(n > 9 ==> c.contains(c[9]));
}

/// The place of a task: nothing is done before what it rests on, and a teardown
/// goes the way back.
pub open spec fn place(t: Task) -> int {
    match t {
        Task::Authenticate => 0,
        Task::FetchParams => 1,
        Task::SpawnPppd => 2,
        Task::OpenTunnel => 3,
        Task::ConfigureNetwork => 4,
        Task::AwaitIo => 5,
        Task::RestoreNetwork => 6,
        Task::AbortIo => 7,
        Task::ReapPppd => 8,
        Task::Logout => 9,
        Task::Finish => 10,
    }
}

/// The tasks of a connection are done in their order, none of them twice.
pub proof fn law_in_order(ok: spec_fn(Task) -> bool, i: int, j: int)
    requires
        0 <= i < j < course(started(), ok).len(),
    ensures
        place(course(started(), ok)[i]) < place(course(started(), ok)[j]),
{
    law_every_path_tears_down(ok);
}

/// The page hears of each phase once it is reached: that the user is signed in and
/// the configuration is fetched, that the tunnel is started, that the network is
/// set up, and that all is up, in this order and nothing twice.
pub proof fn law_told(ok: spec_fn(Task) -> bool)
    ensures
        ({
            let r = reported(started(), ok);
            let signed_in = ok(Task::Authenticate);
            let fetched = signed_in && ok(Task::FetchParams);
            let opened = fetched && ok(Task::SpawnPppd) && ok(Task::OpenTunnel);
            let up = opened && ok(Task::ConfigureNetwork);
            &&& r.len() > 0 <==> signed_in
            &&& signed_in ==> r.len() >= 2 && r[0] is Authenticated && r[1] is FetchingConfig
            &&& r.len() > 2 <==> fetched
            &&& fetched ==> r[2] is StartingTunnel
            &&& r.len() > 3 <==> opened
            &&& opened ==> r[3] is ConfiguringNetwork
            &&& r.len() > 4 <==> up
            &&& up ==> r[4] is Up
            &&& r.len() <= 5
        }),
{
    law_phases_come_in_order(ok);
}

/// A persistent client waits for as long as it was told to between connections.
pub proof fn law_pause(pause: u64, failed: bool)
    ensures
        pause > 0 ==> drive_ended(pause, failed, false) == (Drive::Wait { secs: pause }),
        drive_ended(0, failed, false) == (Drive::Return { failed }),
{
}

} // verus!
