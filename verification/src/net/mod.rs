// SPDX-License-Identifier: GPL-3.0-or-later
//! Configuring the network, and putting it back.
//!
//! A backend turns the tunnel's parameters into [`Step`]s. Each names what to do
//! to the system, how to undo it, and what a failure means. Whoever performs the
//! steps settles each one with an [`AppliedNetwork`], which hands the undo actions
//! out again in reverse order.

pub mod browser;
pub mod bsd;
pub mod linux;

use crate::address::{address_text, Ipv4};
use crate::cli::ConfigView;
use crate::path::{lossy_text, text_lossy};
use crate::provider::ParamsView;
use vstd::prelude::*;
use vstd::string::{StrSliceExecFns, StringExecFns};
use vstd::utf8::encode_utf8;

verus! {

/// Something to do to the system.
pub enum Action {
    /// Run a command.
    Run { program: String, args: Vec<String> },
    /// Run a command with this input.
    Feed { program: String, args: Vec<String>, input: String },
    /// Write a file.
    Write { path: String, contents: Vec<u8> },
}

/// An action as plain values.
#[verifier::ext_equal]
pub enum ActionView {
    Run { program: Seq<char>, args: Seq<Seq<char>> },
    Feed { program: Seq<char>, args: Seq<Seq<char>>, input: Seq<char> },
    Write { path: Seq<char>, contents: Seq<u8> },
}

impl View for Action {
    type V = ActionView;

    open spec fn view(&self) -> ActionView {
        match self {
            Action::Run { program, args } => ActionView::Run {
                program: program@,
                args: args.deep_view(),
            },
            Action::Feed { program, args, input } => ActionView::Feed {
                program: program@,
                args: args.deep_view(),
                input: input@,
            },
            Action::Write { path, contents } => ActionView::Write {
                path: path@,
                contents: contents@,
            },
        }
    }
}

/// What it means that a step fails.
#[derive(Debug, Clone, Copy, PartialEq, Eq, Structural)]
pub enum OnFailure {
    /// The network cannot be configured; what was done is undone.
    Abort,
    /// The user is warned, and the next step follows.
    Warn,
    /// The next step follows.
    Ignore,
    /// The next step follows, and the step is undone later all the same.
    Regardless,
}

/// One change to the system.
pub struct Step {
    pub action: Action,
    /// How to undo it, unless another step's undo covers it.
    pub undo: Option<Action>,
    pub on_failure: OnFailure,
    /// What it does, for messages; empty where the command says it all.
    pub context: String,
}

/// A step as plain values.
#[verifier::ext_equal]
pub struct StepView {
    pub action: ActionView,
    pub undo: Option<ActionView>,
    pub on_failure: OnFailure,
    pub context: Seq<char>,
}

/// An optional action as plain values.
pub open spec fn maybe(a: Option<Action>) -> Option<ActionView> {
    match a {
        Some(a) => Some(a@),
        None => None,
    }
}

impl View for Step {
    type V = StepView;

    open spec fn view(&self) -> StepView {
        StepView {
            action: self.action@,
            undo: maybe(self.undo),
            on_failure: self.on_failure,
            context: self.context@,
        }
    }
}

/// The steps of a list as plain values.
pub open spec fn views(steps: Seq<Step>) -> Seq<StepView> {
    steps.map_values(|s: Step| s@)
}

/// The actions of a list as plain values.
pub open spec fn action_views(actions: Seq<Action>) -> Seq<ActionView> {
    actions.map_values(|a: Action| a@)
}

/// What a list of string slices reads.
pub open spec fn strs(args: Seq<&str>) -> Seq<Seq<char>> {
    args.map_values(|a: &str| a@)
}

/// Running a command.
pub open spec fn runs(program: Seq<char>, args: Seq<Seq<char>>) -> ActionView {
    ActionView::Run { program, args }
}

/// Owned copies of string slices.
pub fn owned(args: &[&str]) -> (r: Vec<String>)
    ensures
        r.deep_view() == strs(args@),
{
    let mut r: Vec<String> = Vec::new();
    let mut i: usize = 0;
    while i < args.len()
        invariant
            i <= args@.len(),
            r.deep_view() =~= strs(args@).take(i as int),
        decreases args@.len() - i,
    {
        let ghost before = r.deep_view();
        r.push(args[i].to_owned());
        assert(r.deep_view() =~= before.push(args@[i as int]@));
        i = i + 1;
    }
    assert(strs(args@).take(i as int) =~= strs(args@));
    r
}

/// Running a command.
pub fn command(program: &str, args: &[&str]) -> (r: Action)
    ensures
        r@ == runs(program@, strs(args@)),
{
    Action::Run { program: program.to_owned(), args: owned(args) }
}

/// Records undo actions applied to the system, to be taken back in reverse.
pub struct AppliedNetwork<C> {
    cleanups: Vec<C>,
}

impl<C> AppliedNetwork<C> {
    /// The undo actions that are left, in the order in which they were registered.
    pub closed spec fn pending(&self) -> Seq<C> {
        self.cleanups@
    }

    pub fn new() -> (r: Self)
        ensures
            r.pending() == Seq::<C>::empty(),
    {
        Self { cleanups: Vec::new() }
    }

    /// Register a cleanup to run on teardown.
    pub fn push_cleanup(&mut self, f: C)
        ensures
            final(self).pending() == old(self).pending().push(f),
    {
        self.cleanups.push(f);
    }

    /// The cleanup to run next: the one registered last.
    pub fn pop_cleanup(&mut self) -> (r: Option<C>)
        ensures
            match r {
                Some(c) => {
                    &&& old(self).pending().len() > 0
                    &&& c == old(self).pending().last()
                    &&& final(self).pending() == old(self).pending().drop_last()
                },
                None => old(self).pending().len() == 0 && final(self).pending() == old(
                    self,
                ).pending(),
            },
    {
        self.cleanups.pop()
    }
}

impl<C> Default for AppliedNetwork<C> {
    fn default() -> (r: Self)
        ensures
            r.pending() == Seq::<C>::empty(),
    {
        Self::new()
    }
}

/// What taking cleanups until none is left hands out.
pub open spec fn taken<C>(pending: Seq<C>) -> Seq<C>
    decreases pending.len(),
{
    if pending.len() == 0 {
        Seq::empty()
    } else {
        seq![pending.last()] + taken(pending.drop_last())
    }
}

/// Cleanups run in reverse: taking them until none is left hands out each one
/// once, the last registered first.
pub proof fn law_cleanups_run_in_reverse<C>(pending: Seq<C>)
    ensures
        taken(pending) == pending.reverse(),
    decreases pending.len(),
{
    if pending.len() > 0 {
        law_cleanups_run_in_reverse(pending.drop_last());
        assert(pending.reverse() =~= seq![pending.last()] + pending.drop_last().reverse());
    } else {
        assert(pending.reverse() =~= Seq::<C>::empty());
    }
}

/// Whether a step is to be undone later: it succeeded, or is undone regardless.
pub open spec fn registers(step: StepView, ok: bool) -> bool {
    step.undo is Some && (ok || step.on_failure == OnFailure::Regardless)
}

/// Whether the next step follows.
pub open spec fn goes_on(step: StepView, ok: bool) -> bool {
    ok || step.on_failure != OnFailure::Abort
}

/// The undo actions that performing `steps` leaves, when the outcomes are `ok`:
/// those of the steps that succeeded or are undone regardless, up to the first
/// failure that aborts.
pub open spec fn undos(steps: Seq<StepView>, ok: Seq<bool>) -> Seq<ActionView>
    decreases steps.len(),
{
    if steps.len() == 0 || ok.len() == 0 {
        Seq::empty()
    } else {
        let kept = if registers(steps[0], ok[0]) {
            seq![steps[0].undo->0]
        } else {
            Seq::empty()
        };
        if goes_on(steps[0], ok[0]) {
            kept + undos(steps.drop_first(), ok.drop_first())
        } else {
            kept
        }
    }
}

/// The step has been performed, and `ok` says how it came out. Registers its undo
/// and returns whether to go on.
pub fn settle(step: Step, ok: bool, applied: &mut AppliedNetwork<Action>) -> (go_on: bool)
    ensures
        final(applied).pending() == if registers(step@, ok) {
            old(applied).pending().push(step.undo->0)
        } else {
            old(applied).pending()
        },
        action_views(final(applied).pending()) == settled(
            seq![step@],
            seq![ok],
            action_views(old(applied).pending()),
        ),
        go_on == goes_on(step@, ok),
{
    let ghost before = applied.pending();

    let register: bool = ok || step.on_failure == OnFailure::Regardless;
    let go_on: bool = ok || step.on_failure != OnFailure::Abort;
    if register {
        if let Some(undo) = step.undo {
            applied.push_cleanup(undo);
            assert(action_views(applied.pending()) =~= action_views(before).push(undo@));
        }
    }
    proof {
        reveal_with_fuel(settled, 2);
    }
    go_on
}

/// The undo actions pending after a list of steps, settled one by one as long as
/// that goes on.
pub open spec fn settled(steps: Seq<StepView>, ok: Seq<bool>, before: Seq<ActionView>) -> Seq<
    ActionView,
>
    decreases steps.len(),
{
    if steps.len() == 0 || ok.len() == 0 {
        before
    } else {
        let after = if registers(steps[0], ok[0]) {
            before.push(steps[0].undo->0)
        } else {
            before
        };
        if goes_on(steps[0], ok[0]) {
            settled(steps.drop_first(), ok.drop_first(), after)
        } else {
            after
        }
    }
}

/// However the steps come out, what is pending afterwards is what was pending
/// before and the undo of every change made, in the order of the changes. Taking
/// it all restores the system, the last change first.
pub proof fn law_every_change_is_undone(
    steps: Seq<StepView>,
    ok: Seq<bool>,
    before: Seq<ActionView>,
)
    ensures
        settled(steps, ok, before) == before + undos(steps, ok),
        taken(settled(steps, ok, before)) == undos(steps, ok).reverse() + before.reverse(),
    decreases steps.len(),
{
    lemma_settled(steps, ok, before);
    law_cleanups_run_in_reverse(settled(steps, ok, before));
    assert((before + undos(steps, ok)).reverse() =~= undos(steps, ok).reverse()
        + before.reverse());
}

proof fn lemma_settled(steps: Seq<StepView>, ok: Seq<bool>, before: Seq<ActionView>)
    ensures
        settled(steps, ok, before) == before + undos(steps, ok),
    decreases steps.len(),
{
    if steps.len() == 0 || ok.len() == 0 {
        assert(before + Seq::<ActionView>::empty() =~= before);
    } else {
        let registered = registers(steps[0], ok[0]);
        let kept = if registered {
            seq![steps[0].undo->0]
        } else {
            Seq::empty()
        };
        let after = if registered {
            before.push(steps[0].undo->0)
        } else {
            before
        };
        assert(after =~= before + kept);
        if goes_on(steps[0], ok[0]) {
            lemma_settled(steps.drop_first(), ok.drop_first(), after);
            let rest = undos(steps.drop_first(), ok.drop_first());
            assert(after + rest =~= before + (kept + rest));
        }
    }
}

/// Whether the tunnel carries everything, so that the default route matters.
pub open spec fn full_tunnel(c: ConfigView, p: ParamsView) -> bool {
    c.set_routes && p.routes.len() == 0
}

/// Whether there are DNS servers to configure, and it is ours to do so.
pub open spec fn wants_dns(c: ConfigView, p: ParamsView) -> bool {
    c.set_dns && !c.pppd_use_peerdns && p.dns.len() > 0
}

/// Where the resolver's configuration is.
pub const RESOLV_CONF: &'static str = "/etc/resolv.conf";

/// The lines that name the DNS servers.
pub open spec fn nameserver_lines(dns: Seq<Ipv4>) -> Seq<char>
    decreases dns.len(),
{
    if dns.len() == 0 {
        Seq::empty()
    } else {
        nameserver_lines(dns.drop_last()) + ("nameserver "@ + address_text(dns.last()) + "\n"@)
    }
}

/// The lines for the resolver: the search domain, then the servers.
pub open spec fn resolver_lines(dns: Seq<Ipv4>, suffix: Option<Seq<char>>) -> Seq<char> {
    (match suffix {
        Some(s) => "search "@ + s + "\n"@,
        None => Seq::empty(),
    }) + nameserver_lines(dns)
}

/// The lines for the resolver.
pub fn render_resolv(dns: &[Ipv4], suffix: &Option<String>) -> (r: String)
    ensures
        r@ == resolver_lines(dns@, suffix.deep_view()),
{
    let mut s = String::new();
    if let Some(sfx) = suffix {
        s.append("search ");
        s.append(sfx.as_str());
        s.append("\n");
        assert(s@ =~= "search "@ + sfx@ + "\n"@);
    }
    let ghost head = s@;
    let mut i: usize = 0;
    assert(dns@.take(0) =~= Seq::<Ipv4>::empty());
    assert(head + Seq::<char>::empty() =~= head);
    while i < dns.len()
        invariant
            i <= dns@.len(),
            s@ == head + nameserver_lines(dns@.take(i as int)),
        decreases dns@.len() - i,
    {
        proof {
            assert(dns@.take(i + 1).drop_last() =~= dns@.take(i as int));
        }
        let ghost before = s@;
        s.append("nameserver ");
        dns[i].push_text(&mut s);
        s.append("\n");
        assert(s@ =~= head + (nameserver_lines(dns@.take(i as int)) + ("nameserver "@
            + address_text(dns@[i as int]) + "\n"@)));
        i = i + 1;
    }
    assert(dns@.take(i as int) =~= dns@);
    s
}

/// Putting our servers in front of what the resolver's configuration says, and
/// putting that back.
pub open spec fn resolver_file_step(p: ParamsView, original: Seq<u8>) -> StepView {
    StepView {
        action: ActionView::Write {
            path: RESOLV_CONF@,
            contents: encode_utf8(resolver_lines(p.dns, p.dns_suffix) + lossy_text(original)),
        },
        undo: Some(ActionView::Write { path: RESOLV_CONF@, contents: original }),
        on_failure: OnFailure::Abort,
        context: "writing /etc/resolv.conf"@,
    }
}

/// Putting our servers in front of what the resolver's configuration says;
/// `original` is what it says now.
pub fn resolver_file(
    params: &crate::provider::TunnelParams,
    original: Vec<u8>,
) -> (r: Step)
    ensures
        r@ == resolver_file_step(params@, original@),
{
    let mut new = render_resolv(params.dns.as_slice(), &params.dns_suffix);
    new.append(text_lossy(original.as_slice()).as_str());
    Step {
        action: Action::Write {
            path: RESOLV_CONF.to_owned(),
            contents: new.as_str().as_bytes_vec(),
        },
        undo: Some(Action::Write { path: RESOLV_CONF.to_owned(), contents: original }),
        on_failure: OnFailure::Abort,
        context: "writing /etc/resolv.conf".to_owned(),
    }
}

/// How many milliseconds to wait between two looks at an interface.
pub const IFACE_POLL_MS: u64 = 500;

/// What waiting for an interface has come to.
#[derive(Debug, Clone, Copy, PartialEq, Eq, Structural)]
pub enum IfaceWait {
    /// It is up and carries an address.
    Ready,
    /// Wait another [`IFACE_POLL_MS`], then look again; so many looks are left.
    Again { left: u64 },
    /// It has not come up in time.
    TimedOut,
}

/// How often to look at an interface within a time: at least once.
pub open spec fn looks(timeout_ms: u64) -> int {
    if timeout_ms < IFACE_POLL_MS {
        1
    } else {
        timeout_ms as int / IFACE_POLL_MS as int
    }
}

/// What waiting comes to with one more look, unless it is over.
pub open spec fn next_look(w: IfaceWait, up: bool) -> IfaceWait {
    match w {
        IfaceWait::Again { left } => if up {
            IfaceWait::Ready
        } else if left <= 1 {
            IfaceWait::TimedOut
        } else {
            IfaceWait::Again { left: (left - 1) as u64 }
        },
        over => over,
    }
}

impl IfaceWait {
    /// Start waiting for an interface.
    pub fn start(timeout_ms: u64) -> (r: Self)
        ensures
            r == (IfaceWait::Again { left: looks(timeout_ms) as u64 }),
            r->left >= 1,
    {
        let n: u64 = timeout_ms / IFACE_POLL_MS;
        IfaceWait::Again {
            left: if n < 1 {
                1
            } else {
                n
            },
        }
    }

    /// A look showed whether the interface is up and carries an address.
    pub fn looked(&self, up: bool) -> (r: Self)
        ensures
            r == next_look(*self, up),
    {
        match *self {
            IfaceWait::Again { left } => {
                if up {
                    IfaceWait::Ready
                } else if left <= 1 {
                    IfaceWait::TimedOut
                } else {
                    IfaceWait::Again { left: left - 1 }
                }
            },
            over => over,
        }
    }
}

/// What waiting comes to when these looks have been taken.
pub open spec fn after_looks(w: IfaceWait, ups: Seq<bool>) -> IfaceWait
    decreases ups.len(),
{
    if ups.len() == 0 {
        w
    } else {
        next_look(after_looks(w, ups.drop_last()), ups.last())
    }
}

/// Waiting is bounded: an interface that stays down is looked at exactly as often
/// as there is time for, and given up then.
pub proof fn law_wait_is_bounded(left: u64, ups: Seq<bool>)
    requires
        left >= 1,
        forall|i: int| 0 <= i < ups.len() ==> !#[trigger] ups[i],
    ensures
        after_looks(IfaceWait::Again { left }, ups) == if ups.len() < left {
            IfaceWait::Again { left: (left - ups.len()) as u64 }
        } else {
            IfaceWait::TimedOut
        },
    decreases ups.len(),
{
    if ups.len() > 0 {
        law_wait_is_bounded(left, ups.drop_last());
        assert(!ups[ups.len() - 1]);
    }
}

/// A platform without a network backend.
pub struct UnsupportedNet;

impl UnsupportedNet {
    /// Why the network cannot be configured there.
    pub fn apply(&self) -> (r: &'static str)
        ensures
            r@
                == "no network backend for this platform yet; run with --set-routes false --set-dns false to skip, or add a NetworkConfigurator impl (see net::linux)"@,
    {
        "no network backend for this platform yet; run with --set-routes false --set-dns false to skip, or add a NetworkConfigurator impl (see net::linux)"
    }
}

} // verus!
