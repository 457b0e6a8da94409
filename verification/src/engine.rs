// SPDX-License-Identifier: GPL-3.0-or-later
//! The provider-agnostic course of a connection.
//!
//! A [`Lifecycle`] says what to do next, from authentication to logout, and makes
//! sure that what was set up is torn down on every path. A [`Supervisor`] says
//! whether to connect again. Whoever drives them does the work and reports how it
//! came out.

use crate::progress::Status;
use vstd::prelude::*;

verus! {

/// How many milliseconds to wait for the interface to come up.
pub const IFACE_TIMEOUT_MS: u64 = 60_000;

/// How many seconds to linger after a failure that a browser is watching, so that
/// its page can show it.
pub const FAILURE_LINGER_SECS: u64 = 4;

/// A thing to do in the course of a connection.
#[derive(Debug, Clone, Copy, PartialEq, Eq, Structural)]
pub enum Task {
    Authenticate,
    FetchParams,
    SpawnPppd,
    /// Open the tunnel and start pumping packets.
    OpenTunnel,
    /// Wait for the interface, then apply addresses, routes and DNS.
    ConfigureNetwork,
    /// Wait until the pump ends.
    AwaitIo,
    /// Undo whatever was done to the network.
    RestoreNetwork,
    /// Stop pumping packets.
    AbortIo,
    ReapPppd,
    Logout,
    /// There is nothing left to do.
    Finish,
}

/// Where a connection stands: what is being done, and whether anything that
/// matters has failed.
#[derive(Debug, Clone, Copy, PartialEq, Eq, Structural)]
pub struct Standing {
    pub task: Task,
    pub failed: bool,
}

/// Where every connection starts.
pub open spec fn started() -> Standing {
    Standing { task: Task::Authenticate, failed: false }
}

/// Where a connection stands once its task has been done, well or not.
pub open spec fn advanced(s: Standing, ok: bool) -> Standing {
    match s.task {
        Task::Authenticate => if ok {
            Standing { task: Task::FetchParams, ..s }
        } else {
            Standing { task: Task::Finish, failed: true }
        },
        Task::FetchParams => if ok {
            Standing { task: Task::SpawnPppd, ..s }
        } else {
            Standing { task: Task::Logout, failed: true }
        },
        Task::SpawnPppd => if ok {
            Standing { task: Task::OpenTunnel, ..s }
        } else {
            Standing { task: Task::Logout, failed: true }
        },
        Task::OpenTunnel => if ok {
            Standing { task: Task::ConfigureNetwork, ..s }
        } else {
            Standing { task: Task::ReapPppd, failed: true }
        },
        Task::ConfigureNetwork => if ok {
            Standing { task: Task::AwaitIo, ..s }
        } else {
            Standing { task: Task::RestoreNetwork, failed: true }
        },
        Task::AwaitIo => Standing { task: Task::RestoreNetwork, ..s },
        Task::RestoreNetwork => if s.failed {
            Standing { task: Task::AbortIo, ..s }
        } else {
            Standing { task: Task::ReapPppd, ..s }
        },
        Task::AbortIo => Standing { task: Task::ReapPppd, ..s },
        Task::ReapPppd => Standing { task: Task::Logout, ..s },
        Task::Logout => Standing { task: Task::Finish, ..s },
        Task::Finish => s,
    }
}

/// How many tasks can still follow.
pub open spec fn tasks_left(t: Task) -> int {
    match t {
        Task::Authenticate => 10,
        Task::FetchParams => 9,
        Task::SpawnPppd => 8,
        Task::OpenTunnel => 7,
        Task::ConfigureNetwork => 6,
        Task::AwaitIo => 5,
        Task::RestoreNetwork => 4,
        Task::AbortIo => 3,
        Task::ReapPppd => 2,
        Task::Logout => 1,
        Task::Finish => 0,
    }
}

/// The phases to report before a task is done.
pub open spec fn phases(t: Task) -> Seq<Status> {
    match t {
        Task::FetchParams => seq![Status::Authenticated, Status::FetchingConfig],
        Task::SpawnPppd => seq![Status::StartingTunnel],
        Task::ConfigureNetwork => seq![Status::ConfiguringNetwork],
        Task::AwaitIo => seq![Status::Up],
        _ => Seq::empty(),
    }
}

/// One connection, from authentication to logout.
pub struct Lifecycle {
    at: Standing,
}

impl Lifecycle {
    /// Where the connection stands.
    pub closed spec fn standing(&self) -> Standing {
        self.at
    }

    pub fn start() -> (r: Self)
        ensures
            r.standing() == started(),
    {
        Lifecycle { at: Standing { task: Task::Authenticate, failed: false } }
    }

    /// What to do now.
    pub fn task(&self) -> (r: Task)
        ensures
            r == self.standing().task,
    {
        self.at.task
    }

    /// Whether the connection has failed.
    pub fn failed(&self) -> (r: bool)
        ensures
            r == self.standing().failed,
    {
        self.at.failed
    }

    /// The phases to report before doing the task.
    pub fn reports(&self) -> (r: Vec<Status>)
        ensures
            r@ == phases(self.standing().task),
    {
        let mut r: Vec<Status> = Vec::new();
        match self.at.task {
            Task::FetchParams => {
                r.push(Status::Authenticated);
                r.push(Status::FetchingConfig);
            },
            Task::SpawnPppd => {
                r.push(Status::StartingTunnel);
            },
            Task::ConfigureNetwork => {
                r.push(Status::ConfiguringNetwork);
            },
            Task::AwaitIo => {
                r.push(Status::Up);
            },
            _ => {},
        }
        assert(r@ =~= phases(self.at.task));
        r
    }

    /// The task is done; `ok` says how it came out. Returns what to do next.
    pub fn done(&mut self, ok: bool) -> (r: Task)
        ensures
            final(self).standing() == advanced(old(self).standing(), ok),
            r == final(self).standing().task,
    {
        let next = match self.at.task {
            Task::Authenticate => {
                if ok {
                    Task::FetchParams
                } else {
                    self.at.failed = true;
                    Task::Finish
                }
            },
            Task::FetchParams => {
                if ok {
                    Task::SpawnPppd
                } else {
                    self.at.failed = true;
                    Task::Logout
                }
            },
            Task::SpawnPppd => {
                if ok {
                    Task::OpenTunnel
                } else {
                    self.at.failed = true;
                    Task::Logout
                }
            },
            Task::OpenTunnel => {
                if ok {
                    Task::ConfigureNetwork
                } else {
                    self.at.failed = true;
                    Task::ReapPppd
                }
            },
            Task::ConfigureNetwork => {
                if ok {
                    Task::AwaitIo
                } else {
                    self.at.failed = true;
                    Task::RestoreNetwork
                }
            },
            Task::AwaitIo => Task::RestoreNetwork,
            Task::RestoreNetwork => {
                if self.at.failed {
                    Task::AbortIo
                } else {
                    Task::ReapPppd
                }
            },
            Task::AbortIo => Task::ReapPppd,
            Task::ReapPppd => Task::Logout,
            Task::Logout => Task::Finish,
            Task::Finish => Task::Finish,
        };
        self.at.task = next;
        next
    }
}

/// The tasks of a connection from a standing on, when `ok` says how each of them
/// comes out.
pub open spec fn course(s: Standing, ok: spec_fn(Task) -> bool) -> Seq<Task>
    decreases tasks_left(s.task),
{
    if s.task == Task::Finish {
        seq![Task::Finish]
    } else {
        seq![s.task] + course(advanced(s, ok(s.task)), ok)
    }
}

/// How a connection from a standing on ends.
pub open spec fn outcome(s: Standing, ok: spec_fn(Task) -> bool) -> Standing
    decreases tasks_left(s.task),
{
    if s.task == Task::Finish {
        s
    } else {
        outcome(advanced(s, ok(s.task)), ok)
    }
}

/// The course of a connection, spelled out: set up as far as it goes, then tear
/// down exactly what was set up.
pub open spec fn expected_course(ok: spec_fn(Task) -> bool) -> Seq<Task> {
    if !ok(Task::Authenticate) {
        seq![Task::Authenticate, Task::Finish]
    } else if !ok(Task::FetchParams) {
        seq![Task::Authenticate, Task::FetchParams, Task::Logout, Task::Finish]
    } else if !ok(Task::SpawnPppd) {
        seq![
            Task::Authenticate,
            Task::FetchParams,
            Task::SpawnPppd,
            Task::Logout,
            Task::Finish,
        ]
    } else if !ok(Task::OpenTunnel) {
        seq![
            Task::Authenticate,
            Task::FetchParams,
            Task::SpawnPppd,
            Task::OpenTunnel,
            Task::ReapPppd,
            Task::Logout,
            Task::Finish,
        ]
    } else if !ok(Task::ConfigureNetwork) {
        seq![
            Task::Authenticate,
            Task::FetchParams,
            Task::SpawnPppd,
            Task::OpenTunnel,
            Task::ConfigureNetwork,
            Task::RestoreNetwork,
            Task::AbortIo,
            Task::ReapPppd,
            Task::Logout,
            Task::Finish,
        ]
    } else {
        seq![
            Task::Authenticate,
            Task::FetchParams,
            Task::SpawnPppd,
            Task::OpenTunnel,
            Task::ConfigureNetwork,
            Task::AwaitIo,
            Task::RestoreNetwork,
            Task::ReapPppd,
            Task::Logout,
            Task::Finish,
        ]
    }
}

/// Whether setting up is over.
spec fn tearing_down(t: Task) -> bool {
    t == Task::RestoreNetwork || t == Task::AbortIo || t == Task::ReapPppd || t == Task::Logout || t
        == Task::Finish
}

/// The tasks of a teardown from a standing on.
spec fn teardown(s: Standing) -> Seq<Task> {
    match s.task {
        Task::RestoreNetwork => if s.failed {
            seq![Task::RestoreNetwork, Task::AbortIo, Task::ReapPppd, Task::Logout, Task::Finish]
        } else {
            seq![Task::RestoreNetwork, Task::ReapPppd, Task::Logout, Task::Finish]
        },
        Task::AbortIo => seq![Task::AbortIo, Task::ReapPppd, Task::Logout, Task::Finish],
        Task::ReapPppd => seq![Task::ReapPppd, Task::Logout, Task::Finish],
        Task::Logout => seq![Task::Logout, Task::Finish],
        _ => seq![Task::Finish],
    }
}

proof fn lemma_teardown(s: Standing, ok: spec_fn(Task) -> bool)
    requires
        tearing_down(s.task),
    ensures
        course(s, ok) == teardown(s),
        reported(s, ok) == Seq::<Status>::empty(),
    decreases tasks_left(s.task),
{
    if s.task != Task::Finish {
        let next = advanced(s, ok(s.task));
        lemma_teardown(next, ok);
        assert(seq![s.task] + teardown(next) =~= teardown(s));
        assert(Seq::<Status>::empty() + Seq::<Status>::empty() =~= Seq::<Status>::empty());
    }
}

/// Every exit path tears down what it set up: once authenticated the gateway is
/// logged out, once spawned pppd is reaped, once touched the network is restored,
/// in that order from the inside out; and how the teardown itself comes out makes
/// no difference to the course.
pub proof fn law_every_path_tears_down(ok: spec_fn(Task) -> bool)
    ensures
        course(started(), ok) == expected_course(ok),
{
    let s1 = advanced(started(), true);
    let s2 = advanced(s1, true);
    let s3 = advanced(s2, true);
    let s4 = advanced(s3, true);
    let s5 = advanced(s4, true);
    if !ok(Task::Authenticate) {
        lemma_teardown(advanced(started(), false), ok);
    } else if !ok(Task::FetchParams) {
        lemma_teardown(advanced(s1, false), ok);
        assert(course(s1, ok) =~= seq![Task::FetchParams, Task::Logout, Task::Finish]);
    } else if !ok(Task::SpawnPppd) {
        lemma_teardown(advanced(s2, false), ok);
        assert(course(s2, ok) == seq![Task::SpawnPppd] + teardown(advanced(s2, false)));
        assert(course(s1, ok) == seq![Task::FetchParams] + course(s2, ok));
    } else if !ok(Task::OpenTunnel) {
        lemma_teardown(advanced(s3, false), ok);
        assert(course(s3, ok) == seq![Task::OpenTunnel] + teardown(advanced(s3, false)));
        assert(course(s2, ok) == seq![Task::SpawnPppd] + course(s3, ok));
        assert(course(s1, ok) == seq![Task::FetchParams] + course(s2, ok));
    } else if !ok(Task::ConfigureNetwork) {
        lemma_teardown(advanced(s4, false), ok);
        assert(course(s4, ok) == seq![Task::ConfigureNetwork] + teardown(advanced(s4, false)));
        assert(course(s3, ok) == seq![Task::OpenTunnel] + course(s4, ok));
        assert(course(s2, ok) == seq![Task::SpawnPppd] + course(s3, ok));
        assert(course(s1, ok) == seq![Task::FetchParams] + course(s2, ok));
    } else {
        lemma_teardown(advanced(s5, ok(Task::AwaitIo)), ok);
        assert(course(s5, ok) == seq![Task::AwaitIo] + teardown(advanced(s5, ok(Task::AwaitIo))));
        assert(course(s4, ok) == seq![Task::ConfigureNetwork] + course(s5, ok));
        assert(course(s3, ok) == seq![Task::OpenTunnel] + course(s4, ok));
        assert(course(s2, ok) == seq![Task::SpawnPppd] + course(s3, ok));
        assert(course(s1, ok) == seq![Task::FetchParams] + course(s2, ok));
    }
    assert(course(started(), ok) =~= expected_course(ok));
}

/// A connection fails if and only if setting it up fails; neither the end of the
/// tunnel nor a failed logout makes it fail.
pub proof fn law_outcome(ok: spec_fn(Task) -> bool)
    ensures
        outcome(started(), ok).task == Task::Finish,
        outcome(started(), ok).failed <==> !(ok(Task::Authenticate) && ok(Task::FetchParams) && ok(
            Task::SpawnPppd,
        ) && ok(Task::OpenTunnel) && ok(Task::ConfigureNetwork)),
{
    reveal_with_fuel(outcome, 11);
}

/// The phases that a connection reports from a standing on.
pub open spec fn reported(s: Standing, ok: spec_fn(Task) -> bool) -> Seq<Status>
    decreases tasks_left(s.task),
{
    if s.task == Task::Finish {
        Seq::empty()
    } else {
        phases(s.task) + reported(advanced(s, ok(s.task)), ok)
    }
}

/// The phases of a connection that comes up.
pub open spec fn all_phases() -> Seq<Status> {
    seq![
        Status::Authenticated,
        Status::FetchingConfig,
        Status::StartingTunnel,
        Status::ConfiguringNetwork,
        Status::Up,
    ]
}

/// How many of them are reported.
pub open spec fn phases_reached(ok: spec_fn(Task) -> bool) -> int {
    if !ok(Task::Authenticate) {
        0
    } else if !ok(Task::FetchParams) {
        2
    } else if !ok(Task::SpawnPppd) || !ok(Task::OpenTunnel) {
        3
    } else if !ok(Task::ConfigureNetwork) {
        4
    } else {
        5
    }
}

/// A connection reports its phases in order, each once, as far as it gets, and it
/// is reported up if and only if it does not fail.
pub proof fn law_phases_come_in_order(ok: spec_fn(Task) -> bool)
    ensures
        reported(started(), ok) == all_phases().take(phases_reached(ok)),
        reported(started(), ok).contains(Status::Up) <==> !outcome(started(), ok).failed,
{
    law_outcome(ok);
    let s1 = advanced(started(), true);
    let s2 = advanced(s1, true);
    let s3 = advanced(s2, true);
    let s4 = advanced(s3, true);
    let s5 = advanced(s4, true);
    lemma_teardown(advanced(started(), false), ok);
    lemma_teardown(advanced(s1, false), ok);
    lemma_teardown(advanced(s2, false), ok);
    lemma_teardown(advanced(s3, false), ok);
    lemma_teardown(advanced(s4, false), ok);
    lemma_teardown(advanced(s5, ok(Task::AwaitIo)), ok);
    let r = reported(started(), ok);
    assert(reported(s5, ok) =~= seq![Status::Up]);
    assert(reported(s3, ok) == reported(advanced(s3, ok(Task::OpenTunnel)), ok)) by {
        assert(phases(Task::OpenTunnel) + reported(advanced(s3, ok(Task::OpenTunnel)), ok)
            =~= reported(advanced(s3, ok(Task::OpenTunnel)), ok));
    }
    assert(reported(s4, ok) == phases(Task::ConfigureNetwork) + reported(
        advanced(s4, ok(Task::ConfigureNetwork)),
        ok,
    ));
    assert(reported(s2, ok) == phases(Task::SpawnPppd) + reported(
        advanced(s2, ok(Task::SpawnPppd)),
        ok,
    ));
    assert(reported(s1, ok) == phases(Task::FetchParams) + reported(
        advanced(s1, ok(Task::FetchParams)),
        ok,
    ));
    assert(r =~= all_phases().take(phases_reached(ok)));
    if phases_reached(ok) == 5 {
        assert(r[4] == Status::Up);
    }
}

/// What a supervisor does next.
#[derive(Debug, Clone, Copy, PartialEq, Eq, Structural)]
pub enum Drive {
    /// Connect once.
    Connect,
    /// Wait so many seconds, or until shutdown is requested.
    Wait { secs: u64 },
    /// It is over; `failed` says whether it ended badly.
    Return { failed: bool },
}

/// What a supervisor does first.
pub open spec fn drive_first(pause: u64, shutdown: bool) -> Drive {
    if pause > 0 && shutdown {
        Drive::Return { failed: false }
    } else {
        Drive::Connect
    }
}

/// What a supervisor does when a connection is over.
pub open spec fn drive_ended(pause: u64, failed: bool, shutdown: bool) -> Drive {
    if pause == 0 {
        Drive::Return { failed }
    } else if shutdown {
        Drive::Return { failed: false }
    } else {
        Drive::Wait { secs: pause }
    }
}

/// What a supervisor does when a wait is over.
pub open spec fn drive_waited(shutdown: bool) -> Drive {
    if shutdown {
        Drive::Return { failed: false }
    } else {
        Drive::Connect
    }
}

/// Keeps connecting, where the user asks for that.
pub struct Supervisor {
    persistent: u64,
}

impl Supervisor {
    /// The seconds between two connections; none means to connect only once.
    pub closed spec fn pause(&self) -> u64 {
        self.persistent
    }

    pub fn new(persistent: u64) -> (r: Self)
        ensures
            r.pause() == persistent,
    {
        Supervisor { persistent }
    }

    /// What to do first; `shutdown` says whether shutdown has been requested.
    pub fn start(&self, shutdown: bool) -> (r: Drive)
        ensures
            r == drive_first(self.pause(), shutdown),
    {
        if self.persistent > 0 && shutdown {
            Drive::Return { failed: false }
        } else {
            Drive::Connect
        }
    }

    /// A connection is over.
    pub fn ended(&self, failed: bool, shutdown: bool) -> (r: Drive)
        ensures
            r == drive_ended(self.pause(), failed, shutdown),
    {
        if self.persistent == 0 {
            Drive::Return { failed }
        } else if shutdown {
            Drive::Return { failed: false }
        } else {
            Drive::Wait { secs: self.persistent }
        }
    }

    /// The wait is over.
    pub fn waited(&self, shutdown: bool) -> (r: Drive)
        ensures
            r == drive_waited(shutdown),
    {
        if shutdown {
            Drive::Return { failed: false }
        } else {
            Drive::Connect
        }
    }
}

/// What happened to a supervisor after it started: how each connection ended, and
/// whether shutdown was requested by then and by the end of the wait.
pub struct Round {
    pub failed: bool,
    pub at_end: bool,
    pub at_wake: bool,
}

/// What a supervisor does after these rounds, having connected for each of them.
pub open spec fn drive_after(pause: u64, first: bool, rounds: Seq<Round>) -> Drive
    decreases rounds.len(),
{
    if rounds.len() == 0 {
        drive_first(pause, first)
    } else {
        match drive_after(pause, first, rounds.drop_last()) {
            Drive::Connect => match drive_ended(
                pause,
                rounds.last().failed,
                rounds.last().at_end,
            ) {
                Drive::Wait { .. } => drive_waited(rounds.last().at_wake),
                other => other,
            },
            other => other,
        }
    }
}

/// A persistent client reconnects, however its connections end, until it is told
/// to shut down, and then it ends well. Any other connects exactly once, told to
/// shut down or not, and ends as that connection did.
pub proof fn law_persistence(pause: u64, first: bool, rounds: Seq<Round>)
    ensures
        pause > 0 ==> (drive_after(pause, first, rounds) == if first || exists|i: int|
            0 <= i < rounds.len() && (#[trigger] rounds[i]).at_end || 0 <= i < rounds.len()
                && rounds[i].at_wake {
            Drive::Return { failed: false }
        } else {
            Drive::Connect
        }),
        pause == 0 ==> drive_after(pause, first, rounds) == if rounds.len() == 0 {
            Drive::Connect
        } else {
            Drive::Return { failed: rounds[0].failed }
        },
    decreases rounds.len(),
{
    if rounds.len() > 0 {
        let before = rounds.drop_last();
        law_persistence(pause, first, before);
        if pause > 0 {
            let told = |r: Seq<Round>|
                exists|i: int|
                    0 <= i < r.len() && (#[trigger] r[i]).at_end || 0 <= i < r.len()
                        && r[i].at_wake;
            if told(before) {
                let i = choose|i: int|
                    0 <= i < before.len() && (#[trigger] before[i]).at_end || 0 <= i
                        < before.len() && before[i].at_wake;
                assert(rounds[i] == before[i]);
            } else if told(rounds) {
                let i = choose|i: int|
                    0 <= i < rounds.len() && (#[trigger] rounds[i]).at_end || 0 <= i
                        < rounds.len() && rounds[i].at_wake;
                if i < before.len() {
                    assert(before[i] == rounds[i]);
                }
            } else {
                assert(!rounds[rounds.len() - 1].at_end);
            }
        }
    }
}

/// How many seconds to linger after a failure has been reported.
pub fn linger_secs(browser_open: bool) -> (r: u64)
    ensures
        r == if browser_open {
            FAILURE_LINGER_SECS
        } else {
            0
        },
{
    if browser_open {
        FAILURE_LINGER_SECS
    } else {
        0
    }
}

} // verus!
