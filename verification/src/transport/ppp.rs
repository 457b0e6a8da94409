// SPDX-License-Identifier: GPL-3.0-or-later
//! How the PPP daemon is started and how it is ended.
//!
//! The daemon is `pppd` on Linux and `ppp -direct` on BSD and macOS. Network
//! parameters that it cannot learn over PPP reach its plugins through the
//! `CROSSWIRE_*` environment variables.

use crate::address::{address_text, Ipv4};
use crate::cli::{Config, ConfigView};
use crate::number::{decimal, lemma_decimal, push_signed, signed};
use crate::provider::{cidr, cidr_text, ParamsView, Route, TunnelParams};
use crate::path::{copy_bytes, utf8_text};
use crate::seqs::{index_where, lemma_index_where};
use crate::text::{chars_of, cut, is_char, joined, lemma_joined_push, lemma_split_joined, split_all};
use vstd::prelude::*;
use vstd::string::StringExecFns;
use vstd::utf8::{decode_utf8, valid_utf8};

verus! {

/// Milliseconds to wait for a graceful exit before escalating to SIGKILL.
pub const GRACEFUL_KILL_TIMEOUT_MS: u64 = 2_000;

/// Milliseconds between two looks at the child.
pub const GRACEFUL_KILL_STEP_MS: u64 = 100;

/// How a child came to its end.
#[derive(Debug, Clone, Copy, PartialEq, Eq, Structural)]
pub enum Ending {
    Exited(i32),
    Signaled,
    Other,
}

/// What a look at the child showed.
#[derive(Debug, Clone, Copy, PartialEq, Eq, Structural)]
pub enum Probe {
    StillAlive,
    Ended(Ending),
    /// The look was interrupted by a signal.
    Interrupted,
    /// The look failed.
    Failed,
}

/// What to do to the child next.
#[derive(Debug, Clone, Copy, PartialEq, Eq, Structural)]
pub enum ReapAction {
    /// Send SIGTERM, then look, without waiting.
    Terminate,
    /// Wait so many milliseconds, then look again.
    Sleep { millis: u64 },
    /// Look again at once.
    Retry,
    /// Send SIGKILL, then wait for the child.
    Kill,
    /// There is nothing left to do; the child exited with this code, if it did.
    Done { code: Option<i32> },
}

/// How far the end of the child has come.
#[derive(Debug, Clone, Copy, PartialEq, Eq, Structural)]
pub enum ReapPhase {
    Running,
    Terminating,
    Killed,
    Reaped,
}

/// The exit code, where the child exited by itself.
pub open spec fn exit_code(ending: Ending) -> Option<i32> {
    match ending {
        Ending::Exited(code) => Some(code),
        _ => None,
    }
}

pub fn report_status(ending: Ending) -> (r: Option<i32>)
    ensures
        r == exit_code(ending),
{
    match ending {
        Ending::Exited(code) => Some(code),
        _ => None,
    }
}

/// What a look at the child leads to. `late` says that the time for a graceful
/// exit is over.
pub open spec fn after_probe(phase: ReapPhase, probe: Probe, late: bool) -> (
    ReapPhase,
    ReapAction,
) {
    match probe {
        Probe::Ended(ending) => (
            ReapPhase::Reaped,
            ReapAction::Done { code: exit_code(ending) },
        ),
        Probe::Failed => (ReapPhase::Reaped, ReapAction::Done { code: None }),
        Probe::Interrupted => (phase, ReapAction::Retry),
        Probe::StillAlive => if phase != ReapPhase::Terminating {
            (ReapPhase::Reaped, ReapAction::Done { code: None })
        } else if late {
            (ReapPhase::Killed, ReapAction::Kill)
        } else {
            (phase, ReapAction::Sleep { millis: GRACEFUL_KILL_STEP_MS })
        },
    }
}

/// A look at the child: what it showed, so many milliseconds after SIGTERM.
pub struct Look {
    pub probe: Probe,
    pub at: int,
}

/// How far the end of the child has come after these looks, the first of which
/// follows SIGTERM.
pub open spec fn reap_phase(looks: Seq<Look>) -> ReapPhase
    decreases looks.len(),
{
    if looks.len() == 0 {
        ReapPhase::Terminating
    } else {
        let before = reap_phase(looks.drop_last());
        if before == ReapPhase::Reaped {
            before
        } else {
            after_probe(before, looks.last().probe, looks.last().at >= GRACEFUL_KILL_TIMEOUT_MS).0
        }
    }
}

/// What is done to the child after these looks.
pub open spec fn reap_action(looks: Seq<Look>) -> ReapAction
    decreases looks.len(),
{
    if looks.len() == 0 {
        ReapAction::Terminate
    } else {
        let before = reap_phase(looks.drop_last());
        if before == ReapPhase::Reaped {
            reap_action(looks.drop_last())
        } else {
            after_probe(before, looks.last().probe, looks.last().at >= GRACEFUL_KILL_TIMEOUT_MS).1
        }
    }
}

/// Owns the daemon and sees to its end.
pub struct PppdGuard {
    child: i32,
    phase: ReapPhase,
}

impl PppdGuard {
    /// The process id of the child.
    pub closed spec fn pid(&self) -> i32 {
        self.child
    }

    /// How far its end has come.
    pub closed spec fn progress(&self) -> ReapPhase {
        self.phase
    }

    pub fn new(child: i32) -> (r: Self)
        ensures
            r.pid() == child,
            r.progress() == ReapPhase::Running,
    {
        PppdGuard { child, phase: ReapPhase::Running }
    }

    pub fn child(&self) -> (r: i32)
        ensures
            r == self.pid(),
    {
        self.child
    }

    /// Begin to terminate and reap the child. Idempotent: only the first call has
    /// anything to do.
    pub fn reap(&mut self) -> (r: ReapAction)
        ensures
            final(self).pid() == old(self).pid(),
            if old(self).progress() == ReapPhase::Running {
                r == ReapAction::Terminate && final(self).progress() == ReapPhase::Terminating
            } else {
                r == (ReapAction::Done { code: None }) && final(self).progress() == old(
                    self,
                ).progress()
            },
    {
        match self.phase {
            ReapPhase::Running => {
                self.phase = ReapPhase::Terminating;
                ReapAction::Terminate
            },
            _ => ReapAction::Done { code: None },
        }
    }

    /// A look at the child showed `probe`, `elapsed_ms` milliseconds after SIGTERM.
    pub fn observed(&mut self, probe: Probe, elapsed_ms: u64) -> (r: ReapAction)
        requires
            old(self).progress() == ReapPhase::Terminating || old(self).progress()
                == ReapPhase::Killed,
        ensures
            final(self).pid() == old(self).pid(),
            (final(self).progress(), r) == after_probe(
                old(self).progress(),
                probe,
                elapsed_ms >= GRACEFUL_KILL_TIMEOUT_MS,
            ),
            forall|looks: Seq<Look>| #[trigger]
                reap_phase(looks) == old(self).progress() ==> ({
                    let more = looks.push(Look { probe, at: elapsed_ms as int });
                    &&& final(self).progress() == reap_phase(more)
                    &&& r == reap_action(more)
                }),
    {
        proof {
            assert forall|looks: Seq<Look>| #[trigger]
                reap_phase(looks) == self.progress() implies looks.push(
                Look { probe, at: elapsed_ms as int },
            ).drop_last() == looks by {
                assert(looks.push(Look { probe, at: elapsed_ms as int }).drop_last() =~= looks);
            }
        }
        match probe {
            Probe::Ended(ending) => {
                self.phase = ReapPhase::Reaped;
                ReapAction::Done { code: report_status(ending) }
            },
            Probe::Failed => {
                self.phase = ReapPhase::Reaped;
                ReapAction::Done { code: None }
            },
            Probe::Interrupted => ReapAction::Retry,
            Probe::StillAlive => match self.phase {
                ReapPhase::Terminating => {
                    if elapsed_ms >= GRACEFUL_KILL_TIMEOUT_MS {
                        self.phase = ReapPhase::Killed;
                        ReapAction::Kill
                    } else {
                        ReapAction::Sleep { millis: GRACEFUL_KILL_STEP_MS }
                    }
                },
                _ => {
                    self.phase = ReapPhase::Reaped;
                    ReapAction::Done { code: None }
                },
            },
        }
    }
}

/// Teardown cannot hang on a child that ignores SIGTERM: once the grace period is
/// over, a child that is still alive is killed; it is not killed before, nor twice,
/// and a child that ended is never waited for again.
pub proof fn law_reap_escalates(phase: ReapPhase, probe: Probe, late: bool)
    requires
        phase == ReapPhase::Terminating || phase == ReapPhase::Killed,
    ensures
        phase == ReapPhase::Terminating && late && probe == Probe::StillAlive ==> after_probe(
            phase,
            probe,
            late,
        ) == (ReapPhase::Killed, ReapAction::Kill),
        after_probe(phase, probe, late).1 == ReapAction::Kill ==> phase == ReapPhase::Terminating
            && late,
        late ==> !(after_probe(phase, probe, late).1 is Sleep),
        probe is Ended ==> after_probe(phase, probe, late).0 == ReapPhase::Reaped,
{
}

/// What was killed is never to be terminated again.
proof fn lemma_past_terminating(looks: Seq<Look>, n: int)
    requires
        0 <= n <= looks.len(),
        reap_phase(looks.take(n)) != ReapPhase::Terminating,
    ensures
        reap_phase(looks) != ReapPhase::Terminating,
    decreases looks.len(),
{
    if n == looks.len() {
        assert(looks.take(n) =~= looks);
    } else {
        assert(looks.drop_last().take(n) =~= looks.take(n));
        lemma_past_terminating(looks.drop_last(), n);
    }
}

/// What is over stays over.
proof fn lemma_reaped_stays(looks: Seq<Look>, n: int)
    requires
        0 <= n <= looks.len(),
        reap_phase(looks.take(n)) == ReapPhase::Reaped,
    ensures
        reap_phase(looks) == ReapPhase::Reaped,
        reap_action(looks) == reap_action(looks.take(n)),
    decreases looks.len(),
{
    if n == looks.len() {
        assert(looks.take(n) =~= looks);
    } else {
        assert(looks.drop_last().take(n) =~= looks.take(n));
        lemma_reaped_stays(looks.drop_last(), n);
    }
}

/// Whatever the looks show, reaping begins with one SIGTERM, sends SIGKILL at most
/// once and only to a child that is still alive after the grace period, and is over
/// once and for all when the child has ended or cannot be looked at; the code is
/// that of a child that exited, and there is none for one that was killed.
pub proof fn law_reap_course(looks: Seq<Look>, n: int)
    requires
        0 <= n < looks.len(),
    ensures
        reap_action(looks) != ReapAction::Terminate,
        reap_action(looks) == ReapAction::Kill ==> {
            &&& looks.last().probe == Probe::StillAlive
            &&& looks.last().at >= GRACEFUL_KILL_TIMEOUT_MS
            &&& reap_action(looks.take(n)) != ReapAction::Kill
        },
        reap_phase(looks) == ReapPhase::Reaped <==> reap_action(looks) is Done,
        reap_phase(looks.take(n)) == ReapPhase::Reaped ==> reap_action(looks) == reap_action(
            looks.take(n),
        ),
        reap_phase(looks.drop_last()) != ReapPhase::Reaped ==> (looks.last().probe matches Probe::Ended(
            ending,
        ) ==> reap_action(looks) == (ReapAction::Done { code: exit_code(ending) })),
    decreases looks.len(),
{
    let fewer = looks.drop_last();
    assert(fewer.take(n) =~= looks.take(n));
    if reap_phase(looks.take(n)) == ReapPhase::Reaped {
        lemma_reaped_stays(looks, n);
    }
    if fewer.len() > 0 {
        law_reap_course(fewer, 0);
    }
    if reap_action(looks) == ReapAction::Kill {
        if reap_action(looks.take(n)) == ReapAction::Kill {
            lemma_killed_phase(looks.take(n));
            lemma_past_terminating(fewer, n);
        }
    }
}

/// Sending SIGKILL leaves the child killed.
proof fn lemma_killed_phase(looks: Seq<Look>)
    requires
        reap_action(looks) == ReapAction::Kill,
    ensures
        reap_phase(looks) == ReapPhase::Killed,
    decreases looks.len(),
{
    if looks.len() > 0 && reap_phase(looks.drop_last()) == ReapPhase::Reaped {
        lemma_killed_phase(looks.drop_last());
    }
}

/// A child that ignores SIGTERM is killed in time: when every look finds it alive,
/// and looks are as far apart as the wait between them and at most `lag`
/// milliseconds more, SIGKILL is sent within the grace period, one wait and the
/// lag, after twenty-one looks at most.
pub proof fn law_stuck_child_is_killed_in_time(looks: Seq<Look>, lag: int)
    requires
        looks.len() > 0,
        0 <= looks[0].at <= lag,
        forall|i: int| 0 <= i < looks.len() ==> (#[trigger] looks[i]).probe == Probe::StillAlive,
        forall|i: int, j: int|
            0 <= i && j == i + 1 && j < looks.len() ==> GRACEFUL_KILL_STEP_MS <= (
            #[trigger] looks[j]).at - (#[trigger] looks[i]).at <= GRACEFUL_KILL_STEP_MS + lag,
    ensures
        looks.len() > 20 ==> reap_phase(looks) != ReapPhase::Terminating,
        reap_action(looks) == ReapAction::Kill ==> GRACEFUL_KILL_TIMEOUT_MS <= looks.last().at
            < GRACEFUL_KILL_TIMEOUT_MS + GRACEFUL_KILL_STEP_MS + lag,
        looks.last().at >= GRACEFUL_KILL_STEP_MS * (looks.len() - 1),
    decreases looks.len(),
{
    let fewer = looks.drop_last();
    let last = looks.len() - 1;
    assert(looks[last].probe == Probe::StillAlive);
    if fewer.len() > 0 {
        assert(fewer[0] == looks[0]);
        assert forall|i: int| 0 <= i < fewer.len() implies (#[trigger] fewer[i]).probe
            == Probe::StillAlive by {
            assert(fewer[i] == looks[i]);
        }
        assert forall|i: int, j: int|
            0 <= i && j == i + 1 && j < fewer.len() implies GRACEFUL_KILL_STEP_MS <= (
        #[trigger] fewer[j]).at - (#[trigger] fewer[i]).at <= GRACEFUL_KILL_STEP_MS + lag by {
            assert(fewer[i] == looks[i] && fewer[j] == looks[j]);
        }
        law_stuck_child_is_killed_in_time(fewer, lag);
        assert(fewer.last() == looks[last - 1]);
        assert(looks[last].at - looks[last - 1].at <= GRACEFUL_KILL_STEP_MS + lag);
        law_reap_course(looks, 0);
        if reap_action(looks) == ReapAction::Kill {
            lemma_killed_phase(looks);
        }
    }
}

/// An environment variable as a process is handed it: its name, an equals sign and
/// its value.
pub open spec fn env_text(name: Seq<u8>, value: Seq<u8>) -> Seq<char> {
    decode_utf8(name) + "="@ + decode_utf8(value)
}

/// An environment variable as a process is handed it, where that is text without a
/// NUL character.
pub fn env_entry(name: &[u8], value: &[u8]) -> (r: Option<String>)
    ensures
        r.deep_view() == if valid_utf8(name@) && valid_utf8(value@) && !env_text(
            name@,
            value@,
        ).contains('\0') {
            Some(env_text(name@, value@))
        } else {
            None
        },
{
    let ghost old_value = value@;
    let mut entry = match utf8_text(copy_bytes(name)) {
        Some(s) => s,
        None => {
            return None;
        },
    };
    let value = match utf8_text(copy_bytes(value)) {
        Some(s) => s,
        None => {
            return None;
        },
    };
    entry.append("=");
    entry.append(value.as_str());
    let chars = chars_of(entry.as_str());
    proof {
        let text = entry@;
        assert(text =~= env_text(name@, old_value));
        lemma_index_where(text, is_char('\0'));
        let at = index_where(text, is_char('\0'));
        assert((at < text.len()) == text.contains('\0')) by {
            if at < text.len() {
                assert(is_char('\0')(text[at]));
            }
            if text.contains('\0') {
                let i = choose|i: int| 0 <= i < text.len() && text[i] == '\0';
                assert(is_char('\0')(text[i]));
            }
        }
    }
    match cut(chars.as_slice(), '\0') {
        Some(_) => None,
        None => Some(entry),
    }
}

/// What an exit code of pppd means.
pub open spec fn exit_meaning(code: i32) -> Seq<char> {
    if code == 0 {
        "OK"@
    } else if code == 1 {
        "fatal error"@
    } else if code == 2 {
        "options error"@
    } else if code == 5 {
        "terminated by signal"@
    } else if code == 8 {
        "peer refused authentication"@
    } else if code == 15 {
        "peer not responding"@
    } else if code == 16 {
        "link terminated by modem hangup"@
    } else if code == 19 {
        "authentication failed"@
    } else {
        "see pppd(8) for exit code"@
    }
}

/// An exit code of pppd, explained (see pppd(8)).
pub fn ppp_exit_message(code: i32) -> (r: String)
    ensures
        r@ == "code "@ + signed(code as int) + " ("@ + exit_meaning(code) + ")"@,
{
    let msg = match code {
        0 => "OK",
        1 => "fatal error",
        2 => "options error",
        5 => "terminated by signal",
        8 => "peer refused authentication",
        15 => "peer not responding",
        16 => "link terminated by modem hangup",
        19 => "authentication failed",
        _ => "see pppd(8) for exit code",
    };
    let mut r = "code ".to_owned();
    push_signed(&mut r, code);
    r.append(" (");
    r.append(msg);
    r.append(")");
    r
}

/// The routes of the tunnel as the plugin reads them.
pub open spec fn routes_text(routes: Seq<Route>) -> Seq<char> {
    joined(routes.map_values(|r: Route| cidr_text(r.dest, r.prefix)), ","@)
}

/// The DNS servers as the plugin reads them.
pub open spec fn dns_text(dns: Seq<Ipv4>) -> Seq<char> {
    joined(dns.map_values(|d: Ipv4| address_text(d)), ","@)
}

/// The variables that tell a plugin of the daemon what it cannot learn over PPP.
pub open spec fn crosswire_vars(p: ParamsView) -> Seq<Seq<char>> {
    let base = seq!["CROSSWIRE_ROUTES="@ + routes_text(p.routes), "CROSSWIRE_DNS="@ + dns_text(p.dns)];
    match p.dns_suffix {
        Some(s) => base.push("CROSSWIRE_DNS_SUFFIX="@ + s),
        None => base,
    }
}

fn push_routes(out: &mut String, routes: &[Route])
    ensures
        final(out)@ == old(out)@ + routes_text(routes@),
{
    let ghost f = |r: Route| cidr_text(r.dest, r.prefix);
    let ghost parts = routes@.map_values(f);
    let mut i: usize = 0;
    assert(parts.take(0) =~= Seq::<Seq<char>>::empty());
    assert(out@ =~= old(out)@ + joined(parts.take(0), ","@));
    while i < routes.len()
        invariant
            i <= routes@.len(),
            parts == routes@.map_values(f),
            f == (|r: Route| cidr_text(r.dest, r.prefix)),
            out@ == old(out)@ + joined(parts.take(i as int), ","@),
        decreases routes@.len() - i,
    {
        proof {
            assert(parts.take(i + 1) =~= parts.take(i as int).push(parts[i as int]));
            lemma_joined_push(parts.take(i as int), parts[i as int], ","@);
        }
        if i > 0 {
            out.append(",");
        }
        out.append(cidr(routes[i].dest, routes[i].prefix).as_str());
        assert(out@ =~= old(out)@ + joined(parts.take(i + 1), ","@));
        i = i + 1;
    }
    assert(parts.take(i as int) =~= parts);
}

fn push_dns(out: &mut String, dns: &[Ipv4])
    ensures
        final(out)@ == old(out)@ + dns_text(dns@),
{
    let ghost f = |d: Ipv4| address_text(d);
    let ghost parts = dns@.map_values(f);
    let mut i: usize = 0;
    assert(parts.take(0) =~= Seq::<Seq<char>>::empty());
    assert(out@ =~= old(out)@ + joined(parts.take(0), ","@));
    while i < dns.len()
        invariant
            i <= dns@.len(),
            parts == dns@.map_values(f),
            f == (|d: Ipv4| address_text(d)),
            out@ == old(out)@ + joined(parts.take(i as int), ","@),
        decreases dns@.len() - i,
    {
        proof {
            assert(parts.take(i + 1) =~= parts.take(i as int).push(parts[i as int]));
            lemma_joined_push(parts.take(i as int), parts[i as int], ","@);
        }
        if i > 0 {
            out.append(",");
        }
        dns[i].push_text(out);
        assert(out@ =~= old(out)@ + joined(parts.take(i + 1), ","@));
        i = i + 1;
    }
    assert(parts.take(i as int) =~= parts);
}

/// The child's environment: what it inherits, and the network parameters.
///   CROSSWIRE_ROUTES      comma-separated `dest/prefix` (empty = full-tunnel)
///   CROSSWIRE_DNS         comma-separated DNS server addresses
///   CROSSWIRE_DNS_SUFFIX  search domain (only if the gateway sent one)
pub fn pppd_envp(inherited: Vec<String>, params: &TunnelParams) -> (r: Vec<String>)
    ensures
        r.deep_view() == inherited.deep_view() + crosswire_vars(params@),
{
    let mut envp = inherited;
    let mut routes = "CROSSWIRE_ROUTES=".to_owned();
    push_routes(&mut routes, params.routes.as_slice());
    envp.push(routes);
    let mut dns = "CROSSWIRE_DNS=".to_owned();
    push_dns(&mut dns, params.dns.as_slice());
    envp.push(dns);
    if let Some(sfx) = &params.dns_suffix {
        envp.push("CROSSWIRE_DNS_SUFFIX=".to_owned().concat(sfx.as_str()));
    }
    assert(envp.deep_view() =~= inherited.deep_view() + crosswire_vars(params@));
    envp
}

/// Addresses and prefix lengths hold no comma.
proof fn lemma_cidr_has_no_comma(dest: Ipv4, prefix: u8)
    ensures
        forall|i: int|
            0 <= i < address_text(dest).len() ==> #[trigger] address_text(dest)[i] != ',',
        forall|i: int|
            0 <= i < cidr_text(dest, prefix).len() ==> #[trigger] cidr_text(dest, prefix)[i] != ',',
{
    lemma_decimal(dest.a as nat);
    lemma_decimal(dest.b as nat);
    lemma_decimal(dest.c as nat);
    lemma_decimal(dest.d as nat);
    lemma_decimal(prefix as nat);
    let t = address_text(dest);
    let (a, b, c, d) = (
        decimal(dest.a as nat),
        decimal(dest.b as nat),
        decimal(dest.c as nat),
        decimal(dest.d as nat),
    );
    assert forall|i: int| 0 <= i < t.len() implies #[trigger] t[i] != ',' by {
        if i < a.len() {
            assert(t[i] == a[i]);
        } else if a.len() < i < a.len() + 1 + b.len() {
            assert(t[i] == b[i - a.len() - 1]);
        } else if a.len() + 1 + b.len() < i < a.len() + b.len() + 2 + c.len() {
            assert(t[i] == c[i - a.len() - b.len() - 2]);
        } else if i > a.len() + b.len() + 2 + c.len() {
            assert(t[i] == d[i - a.len() - b.len() - c.len() - 3]);
        }
    }
    let s = cidr_text(dest, prefix);
    assert forall|i: int| 0 <= i < s.len() implies #[trigger] s[i] != ',' by {
        if i < t.len() {
            assert(s[i] == t[i]);
        } else if i > t.len() {
            assert(s[i] == decimal(prefix as nat)[i - t.len() - 1]);
        }
    }
}

/// What a plugin reads is what the gateway sent: the route list splits at its
/// commas into exactly the routes, and the server list into exactly the servers;
/// an empty list is empty text.
pub proof fn law_plugin_reads_back(routes: Seq<Route>, dns: Seq<Ipv4>)
    ensures
        routes.len() == 0 ==> routes_text(routes) == Seq::<char>::empty(),
        routes.len() > 0 ==> split_all(routes_text(routes), ',') == routes.map_values(
            |r: Route| cidr_text(r.dest, r.prefix),
        ),
        dns.len() == 0 ==> dns_text(dns) == Seq::<char>::empty(),
        dns.len() > 0 ==> split_all(dns_text(dns), ',') == dns.map_values(
            |d: Ipv4| address_text(d),
        ),
{
    reveal_strlit(",");
    assert(","@ =~= seq![',']);
    let r = routes.map_values(|r: Route| cidr_text(r.dest, r.prefix));
    let d = dns.map_values(|d: Ipv4| address_text(d));
    assert forall|k: int, j: int| 0 <= k < r.len() && 0 <= j < r[k].len() implies #[trigger] r[k][j]
        != ',' by {
        lemma_cidr_has_no_comma(routes[k].dest, routes[k].prefix);
    }
    assert forall|k: int, j: int| 0 <= k < d.len() && 0 <= j < d[k].len() implies #[trigger] d[k][j]
        != ',' by {
        lemma_cidr_has_no_comma(dns[k], 0);
    }
    if routes.len() > 0 {
        lemma_split_joined(r, ',');
    }
    if dns.len() > 0 {
        lemma_split_joined(d, ',');
    }
}

/// The family of operating systems that a daemon is started on.
#[derive(Debug, Clone, Copy, PartialEq, Eq, Structural)]
pub enum Platform {
    Linux,
    Bsd,
    Other,
}

/// What pppd is always told.
pub open spec fn pppd_base_args(ifname: Seq<char>) -> Seq<Seq<char>> {
    seq![
        "/usr/sbin/pppd"@,
        "230400"@,
        ":169.254.2.1"@,
        "noipdefault"@,
        "ipcp-accept-local"@,
        "noaccomp"@,
        "noauth"@,
        "default-asyncmap"@,
        "nopcomp"@,
        "receive-all"@,
        "nodefaultroute"@,
        "nodetach"@,
        "lcp-max-configure"@,
        "40"@,
        "mru"@,
        "1354"@,
        "ifname"@,
        ifname,
    ]
}

/// Where pppd logs: into the configured file, else on file descriptor 2; on 1,
/// the default, it would clobber PPP data.
pub open spec fn pppd_log_args(c: ConfigView) -> Seq<Seq<char>> {
    match c.pppd_log {
        Some(p) => if valid_utf8(p) {
            seq!["debug"@, "logfile"@, decode_utf8(p)]
        } else {
            seq!["logfd"@, "2"@]
        },
        None => seq!["logfd"@, "2"@],
    }
}

/// The plugin that pppd loads.
pub open spec fn pppd_plugin_args(c: ConfigView) -> Seq<Seq<char>> {
    match c.pppd_plugin {
        Some(p) => if valid_utf8(p) {
            seq!["plugin"@, decode_utf8(p)]
        } else {
            Seq::empty()
        },
        None => Seq::empty(),
    }
}

/// An option with its value, where there is one.
pub open spec fn option_args(name: Seq<char>, value: Option<Seq<char>>) -> Seq<Seq<char>> {
    match value {
        Some(v) => seq![name, v],
        None => Seq::empty(),
    }
}

/// The arguments of pppd, the program first.
pub open spec fn pppd_args(c: ConfigView, ifname: Seq<char>) -> Seq<Seq<char>> {
    pppd_base_args(ifname) + (if c.pppd_use_peerdns {
        seq!["usepeerdns"@]
    } else {
        Seq::empty()
    }) + pppd_log_args(c) + pppd_plugin_args(c) + option_args("ipparam"@, c.pppd_ipparam)
        + option_args("system"@, c.pppd_system)
}

/// The arguments of ppp, the program first: the label is a profile in
/// `/etc/ppp/ppp.conf`.
pub open spec fn ppp_direct_args(c: ConfigView, ifname: Seq<char>) -> Seq<Seq<char>> {
    seq![
        "/usr/sbin/ppp"@,
        "-direct"@,
        match c.pppd_system {
            Some(label) => label,
            None => ifname,
        },
    ]
}

/// Append an argument.
pub fn push_arg(args: &mut Vec<String>, arg: &str)
    ensures
        final(args).deep_view() == old(args).deep_view().push(arg@),
{
    args.push(arg.to_owned());
    assert(args.deep_view() =~= old(args).deep_view().push(arg@));
}

fn push_option(args: &mut Vec<String>, name: &str, value: &Option<String>)
    ensures
        final(args).deep_view() == old(args).deep_view() + option_args(name@, value.deep_view()),
{
    if let Some(v) = value {
        push_arg(args, name);
        push_arg(args, v.as_str());
    }
    assert(args.deep_view() =~= old(args).deep_view() + option_args(name@, value.deep_view()));
}

fn pppd_base(ifname: &str) -> (r: Vec<String>)
    ensures
        r.deep_view() == pppd_base_args(ifname@),
{
    let mut args: Vec<String> = Vec::new();
    assert(args.deep_view() =~= Seq::<Seq<char>>::empty());
    push_arg(&mut args, "/usr/sbin/pppd");
    push_arg(&mut args, "230400");
    push_arg(&mut args, ":169.254.2.1");
    push_arg(&mut args, "noipdefault");
    push_arg(&mut args, "ipcp-accept-local");
    push_arg(&mut args, "noaccomp");
    push_arg(&mut args, "noauth");
    push_arg(&mut args, "default-asyncmap");
    push_arg(&mut args, "nopcomp");
    push_arg(&mut args, "receive-all");
    push_arg(&mut args, "nodefaultroute");
    push_arg(&mut args, "nodetach");
    push_arg(&mut args, "lcp-max-configure");
    push_arg(&mut args, "40");
    push_arg(&mut args, "mru");
    push_arg(&mut args, "1354");
    push_arg(&mut args, "ifname");
    push_arg(&mut args, ifname);
    assert(args.deep_view() =~= pppd_base_args(ifname@));
    args
}

fn push_log(args: &mut Vec<String>, config: &Config)
    ensures
        final(args).deep_view() == old(args).deep_view() + pppd_log_args(config@),
{
    let path = match &config.pppd_log {
        Some(log) => log.to_str(),
        None => None,
    };
    if let Some(path) = path {
        push_arg(args, "debug");
        push_arg(args, "logfile");
        push_arg(args, path.as_str());
    } else {
        push_arg(args, "logfd");
        push_arg(args, "2");
    }
    assert(args.deep_view() =~= old(args).deep_view() + pppd_log_args(config@));
}

fn push_plugin(args: &mut Vec<String>, config: &Config)
    ensures
        final(args).deep_view() == old(args).deep_view() + pppd_plugin_args(config@),
{
    if let Some(plugin) = &config.pppd_plugin {
        if let Some(path) = plugin.to_str() {
            push_arg(args, "plugin");
            push_arg(args, path.as_str());
        }
    }
    assert(args.deep_view() =~= old(args).deep_view() + pppd_plugin_args(config@));
}

/// Linux `pppd` argument vector.
pub fn linux_pppd_argv(config: &Config, ifname: &str) -> (r: Vec<String>)
    ensures
        r.deep_view() == pppd_args(config@, ifname@),
{
    let mut args = pppd_base(ifname);
    if config.pppd_use_peerdns {
        push_arg(&mut args, "usepeerdns");
    }
    assert(args.deep_view() =~= pppd_base_args(ifname@) + (if config.pppd_use_peerdns {
        seq!["usepeerdns"@]
    } else {
        Seq::empty()
    }));
    push_log(&mut args, config);
    push_plugin(&mut args, config);
    push_option(&mut args, "ipparam", &config.pppd_ipparam);
    push_option(&mut args, "system", &config.pppd_system);
    args
}

/// BSD and macOS `ppp -direct <label>` argument vector.
pub fn bsd_ppp_argv(config: &Config, ifname: &str) -> (r: Vec<String>)
    ensures
        r.deep_view() == ppp_direct_args(config@, ifname@),
{
    let mut args: Vec<String> = Vec::new();
    push_arg(&mut args, "/usr/sbin/ppp");
    push_arg(&mut args, "-direct");
    match &config.pppd_system {
        Some(label) => push_arg(&mut args, label.as_str()),
        None => push_arg(&mut args, ifname),
    }
    assert(args.deep_view() =~= ppp_direct_args(config@, ifname@));
    args
}

/// The platform's PPP argument vector, the program first.
pub fn ppp_argv(platform: Platform, config: &Config, ifname: &str) -> (r: Vec<String>)
    ensures
        r.deep_view() == match platform {
            Platform::Linux => pppd_args(config@, ifname@),
            Platform::Bsd => ppp_direct_args(config@, ifname@),
            Platform::Other => seq!["/bin/false"@],
        },
{
    match platform {
        Platform::Linux => linux_pppd_argv(config, ifname),
        Platform::Bsd => bsd_ppp_argv(config, ifname),
        Platform::Other => {
            let mut args: Vec<String> = Vec::new();
            push_arg(&mut args, "/bin/false");
            assert(args.deep_view() =~= seq!["/bin/false"@]);
            args
        },
    }
}

} // verus!
