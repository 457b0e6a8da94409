// SPDX-License-Identifier: GPL-3.0-or-later
//! The course of a connection, its phases, and secrets.

use crosswire::engine::{
    linger_secs, Drive, Lifecycle, Supervisor, Task, FAILURE_LINGER_SECS, IFACE_TIMEOUT_MS,
};
use crosswire::path::FilePath;
use crosswire::progress::{one_line, Status};
use crosswire::secret::{read_secret, set_prompt, PinStep, Pinentry, SecretSource, TtySecret, GET_PIN};

#[test]
fn render_kinds_and_terminality() {
    assert_eq!(Status::FetchingConfig.render().0, "loading");
    assert!(!Status::FetchingConfig.is_terminal());
    assert_eq!(Status::Up.render().0, "success");
    assert!(Status::Up.is_terminal());
    let (kind, msg) = Status::Failed("boom\n  again".into()).render();
    assert_eq!(kind, "error");
    // Multi-line errors are flattened so SSE keeps them on one data line.
    assert!(!msg.contains('\n'));
    assert!(msg.contains("boom again"));
    assert!(Status::Failed("x".into()).is_terminal());
}

#[test]
fn every_phase_has_its_message() {
    let messages: Vec<String> = [
        Status::Authenticating,
        Status::Authenticated,
        Status::FetchingConfig,
        Status::StartingTunnel,
        Status::ConfiguringNetwork,
        Status::Up,
        Status::Failed(" a \t b ".to_string()),
    ]
    .iter()
    .map(|s| s.render().1)
    .collect();
    assert_eq!(
        messages,
        vec![
            "Completing sign-in…",
            "Signed in. Preparing connection…",
            "Fetching VPN configuration…",
            "Establishing secure tunnel…",
            "Configuring routes and DNS…",
            "Connected. You're all set.",
            "Connection failed: a b",
        ]
    );
    assert_eq!(one_line("\r\n x\u{a0}y\u{3000}z "), "x y z");
    assert_eq!(one_line(" \n"), "");
}

fn course(ok: impl Fn(Task) -> bool) -> (Vec<Task>, bool, Vec<Status>) {
    let mut life = Lifecycle::start();
    let mut tasks = Vec::new();
    let mut reports = Vec::new();
    while life.task() != Task::Finish {
        tasks.push(life.task());
        reports.append(&mut life.reports());
        let outcome = ok(life.task());
        life.done(outcome);
    }
    (tasks, life.failed(), reports)
}

#[test]
fn a_good_connection_runs_its_course() {
    let (tasks, failed, reports) = course(|t| t != Task::Logout);
    assert_eq!(
        tasks,
        vec![
            Task::Authenticate,
            Task::FetchParams,
            Task::SpawnPppd,
            Task::OpenTunnel,
            Task::ConfigureNetwork,
            Task::AwaitIo,
            Task::RestoreNetwork,
            Task::ReapPppd,
            Task::Logout,
        ]
    );
    // A failed logout does not make the connection fail.
    assert!(!failed);
    assert_eq!(
        reports,
        vec![
            Status::Authenticated,
            Status::FetchingConfig,
            Status::StartingTunnel,
            Status::ConfiguringNetwork,
            Status::Up,
        ]
    );
    assert_eq!(IFACE_TIMEOUT_MS, 60_000);
}

#[test]
fn every_failure_tears_down_what_was_set_up() {
    for (bad, teardown) in [
        (Task::Authenticate, vec![]),
        (Task::FetchParams, vec![Task::Logout]),
        (Task::SpawnPppd, vec![Task::Logout]),
        (Task::OpenTunnel, vec![Task::ReapPppd, Task::Logout]),
        (
            Task::ConfigureNetwork,
            vec![Task::RestoreNetwork, Task::AbortIo, Task::ReapPppd, Task::Logout],
        ),
    ] {
        let (tasks, failed, _) = course(|t| t != bad);
        assert!(failed);
        let at = tasks.iter().position(|t| *t == bad).unwrap();
        assert_eq!(tasks[at + 1..].to_vec(), teardown);
    }
}

#[test]
fn persistence_lasts_until_shutdown() {
    let once = Supervisor::new(0);
    assert_eq!(once.start(true), Drive::Connect);
    assert_eq!(once.ended(true, false), Drive::Return { failed: true });
    assert_eq!(once.ended(false, true), Drive::Return { failed: false });

    let forever = Supervisor::new(5);
    assert_eq!(forever.start(true), Drive::Return { failed: false });
    assert_eq!(forever.start(false), Drive::Connect);
    assert_eq!(forever.ended(true, false), Drive::Wait { secs: 5 });
    assert_eq!(forever.waited(false), Drive::Connect);
    assert_eq!(forever.waited(true), Drive::Return { failed: false });
    assert_eq!(forever.ended(true, true), Drive::Return { failed: false });
}

#[test]
fn a_watched_failure_lingers() {
    assert_eq!(linger_secs(true), FAILURE_LINGER_SECS);
    assert_eq!(linger_secs(false), 0);
}

#[test]
fn secrets_come_from_pinentry_where_there_is_one() {
    match read_secret("PIN: ", &Some(FilePath::from_text("/usr/bin/pinentry"))) {
        SecretSource::Pinentry { program, prompt } => {
            assert_eq!(program, FilePath::from_text("/usr/bin/pinentry"));
            assert_eq!(prompt, "PIN: ");
        }
        SecretSource::Tty { .. } => panic!("expected pinentry"),
    }
    assert!(matches!(read_secret("PIN: ", &None), SecretSource::Tty { .. }));
    assert_eq!(set_prompt("PIN: "), "SETPROMPT PIN: ");
    assert_eq!(GET_PIN, "GETPIN");
}

#[test]
fn the_last_data_line_is_the_secret() {
    let mut dialog = Pinentry::new();
    assert!(matches!(dialog.hear("S PIN_REPEATED\n"), PinStep::More));
    assert!(matches!(dialog.hear("D first\n"), PinStep::More));
    assert!(matches!(dialog.hear("D 12 34  \r\n"), PinStep::More));
    assert!(matches!(dialog.hear("OK\n"), PinStep::Over));
    assert_eq!(dialog.secret().as_deref(), Some("12 34"));

    let mut dialog = Pinentry::new();
    match dialog.hear("ERR 83886179 Operation cancelled <Pinentry>\n") {
        PinStep::Failed(line) => assert_eq!(line, "ERR 83886179 Operation cancelled <Pinentry>"),
        _ => panic!("expected an error"),
    }
    let mut dialog = Pinentry::new();
    assert!(matches!(dialog.hear("OKAY\n"), PinStep::More));
    assert!(matches!(dialog.hear("OK closing\n"), PinStep::Over));
    assert_eq!(dialog.secret(), None);
}

#[test]
fn a_typed_secret_ends_with_its_line() {
    let mut typed = TtySecret::new();
    for b in [b'p', b'w', 0xe4] {
        assert!(typed.key(b));
    }
    assert!(!typed.key(b'\r'));
    assert_eq!(typed.finish(), "pw\u{e4}");
    let mut empty = TtySecret::new();
    assert!(!empty.key(b'\n'));
    assert_eq!(empty.finish(), "");
}
