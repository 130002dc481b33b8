use std::path::PathBuf;
use tepegoz_tui::config::{
    join_path, refuse_nesting, require_socket, resolve_log_path, resolve_socket_path, TuiConfig,
};
use tepegoz_tui::doctor::{
    doctor_task, find_host, forget_report, report_hosts, require_stdio, DoctorTask,
};
use tepegoz_tui::event::{AppAction, AppEvent, DetachReason, ToastKind};
use tepegoz_tui::proto::{
    Envelope, ErrorInfo, ErrorKind, Event, EventFrame, HostEntry, PaneInfo, Payload, ScopeTarget,
    StatusSnapshot, Subscription, Welcome,
};
use tepegoz_tui::session::{
    action_effect, check_welcome, draw_failure, exit_message, hello, list_panes, open_pane,
    opened_pane, pick_pane, send_failure, session_title, signal_failure, terminal_size_or_guess,
    title_sequence, wakeup_event, Effect, ExitReason, Wakeup,
};
use tepegoz_tui::status::{
    input_reaction, link_start, link_step, ConnectionState, InputReaction, LinkAction, LinkEvent,
    LinkStage, Notice, Polled,
};
use tepegoz_tui::tile::TileId;

fn refused() -> Payload {
    Payload::Error(ErrorInfo {
        kind: ErrorKind::Other { name: "VersionMismatch".into() },
        message: "too old".into(),
    })
}

fn welcome() -> Payload {
    Payload::Welcome(Welcome {
        daemon_pid: 1,
        daemon_version: "0.0.1".into(),
        protocol_version: 9,
    })
}

fn snapshot() -> StatusSnapshot {
    StatusSnapshot {
        daemon_pid: 42,
        daemon_version: "0.0.1".into(),
        socket_path: "/tmp/s".into(),
        uptime_seconds: 61,
        clients_now: 1,
        clients_total: 2,
        events_sent: 3,
    }
}

#[test]
fn the_handshake_is_accepted_refused_or_misunderstood() {
    assert!(matches!(
        hello().payload,
        Payload::Hello { client_name } if client_name == "tepegoz-tui"
    ));
    assert_eq!(check_welcome(&welcome(), ""), Ok(()));
    assert_eq!(
        check_welcome(&refused(), ""),
        Err("daemon refused handshake: too old (VersionMismatch)".to_string())
    );
    assert_eq!(
        check_welcome(&Payload::Pong, "Pong"),
        Err("expected Welcome, got Pong".to_string())
    );
}

#[test]
fn the_first_living_pane_is_picked() {
    assert!(matches!(list_panes().payload, Payload::ListPanes));
    let list = |alive: &[bool]| Payload::PaneList {
        panes: alive
            .iter()
            .enumerate()
            .map(|(i, a)| PaneInfo { id: i as u64, alive: *a })
            .collect(),
    };
    let picked = pick_pane(&list(&[false, true, true]), "").unwrap().unwrap();
    assert_eq!((picked.id, picked.alive), (1, true));
    assert!(pick_pane(&list(&[false]), "").unwrap().is_none());
    assert!(pick_pane(&list(&[]), "").unwrap().is_none());
    assert_eq!(
        pick_pane(&Payload::Pong, "Pong").unwrap_err(),
        "expected PaneList, got Pong"
    );
}

#[test]
fn a_pane_is_opened_here_or_on_a_host() {
    match open_pane(ScopeTarget::Local, Some("/src".into()), 24, 80).payload {
        Payload::OpenPane(spec) => {
            assert!(matches!(spec.target, ScopeTarget::Local));
            assert!(spec.shell.is_none() && spec.env.is_empty());
            assert_eq!(spec.cwd.as_deref(), Some("/src"));
            assert_eq!((spec.rows, spec.cols), (24, 80));
        }
        other => panic!("expected OpenPane, got {other:?}"),
    }
    match open_pane(ScopeTarget::Remote { alias: "staging".into() }, None, 1, 2).payload {
        Payload::OpenPane(spec) => {
            assert!(matches!(spec.target, ScopeTarget::Remote { alias } if alias == "staging"));
        }
        other => panic!("expected OpenPane, got {other:?}"),
    }
    let pane = opened_pane(&Payload::PaneOpened(PaneInfo { id: 5, alive: true }), "").unwrap();
    assert_eq!(pane.id, 5);
    assert_eq!(
        opened_pane(&refused(), "").unwrap_err(),
        "open pane failed: too old (VersionMismatch)"
    );
    assert_eq!(
        opened_pane(&Payload::Pong, "Pong").unwrap_err(),
        "expected PaneOpened, got Pong"
    );
}

#[test]
fn wakeups_become_events_or_ends() {
    assert!(matches!(
        wakeup_event(Wakeup::Stdin(b"x".to_vec())),
        Ok(AppEvent::StdinChunk(v)) if v == b"x"
    ));
    assert!(matches!(wakeup_event(Wakeup::Stdin(Vec::new())), Err(ExitReason::StdinClosed)));
    assert!(matches!(
        wakeup_event(Wakeup::StdinFailed("eio".into())),
        Err(ExitReason::StdinError(e)) if e == "eio"
    ));
    assert!(matches!(
        wakeup_event(Wakeup::Received(Envelope { payload: Payload::Pong })),
        Ok(AppEvent::DaemonEnvelope(_))
    ));
    assert!(matches!(
        wakeup_event(Wakeup::ReadFailed("eof".into())),
        Err(ExitReason::DaemonClosed(e)) if e == "eof"
    ));
    assert!(matches!(
        wakeup_event(Wakeup::ReaderEnded),
        Err(ExitReason::DaemonClosed(e)) if e == "reader task ended"
    ));
    assert!(matches!(
        wakeup_event(Wakeup::Winch { rows: 3, cols: 4 }),
        Ok(AppEvent::Resize { rows: 3, cols: 4 })
    ));
    assert!(matches!(wakeup_event(Wakeup::Tick), Ok(AppEvent::Tick)));
}

#[test]
fn actions_have_their_effects() {
    assert!(matches!(
        action_effect(AppAction::SendEnvelope(Envelope { payload: Payload::ListPanes })),
        Effect::Send(Envelope { payload: Payload::ListPanes })
    ));
    assert!(matches!(action_effect(AppAction::DrawFrame), Effect::Draw));
    assert!(matches!(
        action_effect(AppAction::FocusTile(TileId::Ports)),
        Effect::NoteFocus(TileId::Ports)
    ));
    assert!(matches!(
        action_effect(AppAction::Detach(DetachReason::User)),
        Effect::Leave(ExitReason::UserDetach)
    ));
    assert!(matches!(
        action_effect(AppAction::Detach(DetachReason::PaneExited { exit_code: Some(3) })),
        Effect::Leave(ExitReason::PaneExited { exit_code: Some(3) })
    ));
    let toast = |kind| action_effect(AppAction::ShowToast { kind, message: "m".into() });
    assert!(matches!(toast(ToastKind::Error), Effect::NoteToast { warn: true, .. }));
    assert!(matches!(toast(ToastKind::Info), Effect::NoteToast { warn: false, .. }));
    assert!(matches!(toast(ToastKind::Success), Effect::NoteToast { warn: false, .. }));
}

#[test]
fn farewells_say_why() {
    let say = |r: ExitReason| exit_message(7, &r);
    assert_eq!(
        say(ExitReason::UserDetach),
        ("\n[detached — daemon and pane 7 still running]".to_string(), false)
    );
    assert_eq!(
        say(ExitReason::PaneExited { exit_code: Some(-9) }),
        ("\n[pane 7 exited (code=Some(-9))]".to_string(), false)
    );
    assert_eq!(
        say(ExitReason::PaneExited { exit_code: Some(i32::MIN) }),
        (format!("\n[pane 7 exited (code={:?})]", Some(i32::MIN)), false)
    );
    assert_eq!(
        say(ExitReason::PaneExited { exit_code: None }),
        ("\n[pane 7 exited (code=None)]".to_string(), false)
    );
    assert_eq!(
        say(ExitReason::DaemonClosed("eof".into())),
        ("\n[daemon closed: eof]".to_string(), true)
    );
    assert_eq!(
        say(send_failure()),
        ("\n[daemon write failed: writer closed]".to_string(), true)
    );
    assert_eq!(say(ExitReason::StdinClosed), ("\n[stdin closed — detaching]".to_string(), false));
    assert_eq!(
        say(ExitReason::StdinError("eio".into())),
        ("\n[stdin error: eio]".to_string(), true)
    );
    assert_eq!(
        say(draw_failure("full")),
        ("\n[runtime error: ratatui draw: full]".to_string(), true)
    );
    assert_eq!(
        say(signal_failure("no")),
        ("\n[runtime error: signal install: no]".to_string(), true)
    );
}

#[test]
fn titles_and_sizes() {
    assert_eq!(session_title(3), "tepegoz · god view (pane 3)");
    assert_eq!(title_sequence("t"), "\x1b]0;t\x07");
    assert_eq!(terminal_size_or_guess(Some((80, 24))), (80, 24));
    assert_eq!(terminal_size_or_guess(None), (120, 40));
}

#[test]
fn the_status_conversation_runs_its_course() {
    let (stage, actions) = link_start();
    assert_eq!(stage, LinkStage::Connecting);
    assert!(matches!(
        &actions[..],
        [LinkAction::Tell(Notice::State(ConnectionState::Connecting)), LinkAction::Connect]
    ));
    let (stage, actions) = link_step(stage, LinkEvent::Done);
    assert!(matches!(
        &actions[..],
        [LinkAction::Write(Envelope { payload: Payload::Hello { .. } })]
    ));
    let (stage, actions) = link_step(stage, LinkEvent::Done);
    assert!(matches!(&actions[..], [LinkAction::Read]));
    let (stage, actions) = link_step(stage, LinkEvent::Received(welcome()));
    assert!(matches!(
        &actions[..],
        [
            LinkAction::Tell(Notice::State(ConnectionState::Connected)),
            LinkAction::Write(Envelope {
                payload: Payload::Subscribe(Subscription::Status { id: 1 })
            })
        ]
    ));
    let (stage, actions) = link_step(stage, LinkEvent::Done);
    assert_eq!(stage, LinkStage::Listening);
    assert!(matches!(&actions[..], [LinkAction::Read]));
    let event = Payload::Event(EventFrame { subscription_id: 1, event: Event::Status(snapshot()) });
    let (stage, actions) = link_step(stage, LinkEvent::Received(event));
    assert!(matches!(
        &actions[..],
        [LinkAction::Tell(Notice::Status(s)), LinkAction::Read] if s.daemon_pid == 42
    ));
    let (stage, actions) = link_step(stage, LinkEvent::Received(Payload::Pong));
    assert!(matches!(&actions[..], [LinkAction::Read]));
    let (stage, actions) = link_step(stage, LinkEvent::ListenerGone);
    assert_eq!((stage, actions.len()), (LinkStage::Over, 0));
}

#[test]
fn a_failed_stage_is_named_and_ends_the_conversation() {
    for (stage, text) in [
        (LinkStage::Connecting, "connect: why"),
        (LinkStage::SayingHello, "hello: why"),
        (LinkStage::AwaitingWelcome, "welcome: why"),
        (LinkStage::Subscribing, "subscribe: why"),
        (LinkStage::Listening, "why"),
    ] {
        let (next, actions) = link_step(stage, LinkEvent::Failed("why".into()));
        assert_eq!(next, LinkStage::Over);
        assert!(matches!(&actions[..], [LinkAction::Tell(Notice::Lost(t))] if t == text));
        let (next, actions) = link_step(next, LinkEvent::Failed("again".into()));
        assert_eq!((next, actions.len()), (LinkStage::Over, 0));
    }
}

#[test]
fn the_input_loop_reacts() {
    assert_eq!(input_reaction(Polled::KeyPress, true), InputReaction::PassKey);
    assert_eq!(input_reaction(Polled::Resized, false), InputReaction::Redraw);
    assert_eq!(input_reaction(Polled::Other, true), InputReaction::GoOn);
    assert_eq!(input_reaction(Polled::Nothing, false), InputReaction::GoOn);
    assert_eq!(input_reaction(Polled::Nothing, true), InputReaction::Stop);
    assert_eq!(input_reaction(Polled::Failed, false), InputReaction::Stop);
}

#[test]
fn the_client_checks_where_it_starts() {
    let config = TuiConfig { socket_path: Some("/run/s".into()), log_level: "info".into() };
    assert_eq!(
        resolve_socket_path(config.socket_path, PathBuf::from("/default")),
        PathBuf::from("/run/s")
    );
    assert_eq!(resolve_socket_path(None, "/default".into()), PathBuf::from("/default"));
    assert_eq!(refuse_nesting(None), Ok(()));
    assert!(refuse_nesting(Some("4")).unwrap_err().starts_with(
        "this shell is already inside tepegoz pane 4. Detach first (Ctrl-b d)"
    ));
    assert_eq!(require_socket("/s", true), Ok(()));
    assert_eq!(
        require_socket("/s", false).unwrap_err(),
        "no daemon socket at /s — is `tepegoz daemon` running?"
    );
}

#[test]
fn logs_go_where_they_are_told() {
    let path = |a: Option<&str>, b: Option<&str>, c: Option<&str>| {
        let bytes = |s: Option<&str>| s.map(|s| s.as_bytes().to_vec());
        String::from_utf8(resolve_log_path(bytes(a), bytes(b), bytes(c))).unwrap()
    };
    assert_eq!(path(Some("/x.log"), Some("/c"), Some("/h")), "/x.log");
    assert_eq!(path(None, Some("/c"), Some("/h")), "/c/tepegoz/tui.log");
    assert_eq!(path(None, Some("/c/"), None), "/c/tepegoz/tui.log");
    assert_eq!(path(None, None, Some("/h")), "/h/.cache/tepegoz/tui.log");
    assert_eq!(path(None, None, None), "/tmp/tepegoz/tui.log");
    for base in ["", "/", "a", "a/", "/a/b"] {
        let joined = PathBuf::from(base).join("name");
        assert_eq!(
            join_path(base.as_bytes().to_vec(), "name"),
            joined.to_str().unwrap().as_bytes(),
            "{base:?}"
        );
    }
}

fn host(alias: &str, port: u16, keys: &[&str], jump: Option<&str>) -> HostEntry {
    HostEntry {
        alias: alias.into(),
        hostname: format!("{alias}.example"),
        user: "u".into(),
        port,
        identity_files: keys.iter().map(|k| k.to_string()).collect(),
        proxy_jump: jump.map(|j| j.to_string()),
    }
}

#[test]
fn the_doctor_reports_hosts() {
    assert_eq!(
        report_hosts("ssh_config", &Vec::new()),
        vec![
            "source: ssh_config",
            "hosts (0):",
            "  (none) — add entries to ~/.ssh/config or set TEPEGOZ_SSH_HOSTS=<alias>,<alias>,...",
        ]
    );
    assert_eq!(
        report_hosts("env", &vec![host("a", 22, &["k1", "k2"], None), host("b", 2200, &[], Some("a"))]),
        vec![
            "source: env",
            "hosts (2):",
            "  a  u@a.example:22",
            "    IdentityFile: k1, k2",
            "  b  u@b.example:2200",
            "    ProxyJump: a (not supported in v1 — Slice 5c surfaces this)",
        ]
    );
}

#[test]
fn the_doctor_forgets_known_hosts_only() {
    let hosts = vec![host("a", 22, &[], None), host("b", 22, &[], None), host("b", 23, &[], None)];
    assert_eq!(find_host(&hosts, &"b".to_string(), "env"), Ok(1));
    assert_eq!(
        find_host(&hosts, &"c".to_string(), "env"),
        Err("alias 'c' not found in host list (source: env)".to_string())
    );
    assert_eq!(forget_report(0, "h", 22, "/k", "a"), "no entries for h:22 in /k");
    assert_eq!(
        forget_report(2, "h", 22, "/k", "a"),
        "removed 2 entry(ies) for h:22 from /k — next connection to 'a' will re-TOFU the new key"
    );
}

#[test]
fn the_command_line_decides() {
    assert!(matches!(doctor_task(Some("a".into()), true), DoctorTask::Forget(a) if a == "a"));
    assert!(matches!(doctor_task(None, true), DoctorTask::ListHosts));
    assert!(matches!(doctor_task(None, false), DoctorTask::Nothing));
    assert_eq!(require_stdio(true), Ok(()));
    assert!(require_stdio(false).unwrap_err().starts_with("tepegoz agent: only --stdio"));
}
