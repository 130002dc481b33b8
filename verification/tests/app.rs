use tepegoz_tui::app::{pty_tile_dims, App};
use tepegoz_tui::docker::{DockerScopeState, DockerView};
use tepegoz_tui::event::{AppAction, AppEvent, DetachReason, ToastKind};
use tepegoz_tui::logs::{LOGS_PAGE_LINES, MAX_LOG_LINES};
use tepegoz_tui::model::MAX_TOASTS;
use tepegoz_tui::ports::{PortsActiveView, PortsViewState, ProcessesViewState};
use tepegoz_tui::proto::{
    DockerActionKind, DockerActionOutcome, DockerActionRequest, DockerActionResult,
    DockerContainer, Envelope, ErrorInfo, ErrorKind, Event, EventFrame, LogStream, Payload,
    ProbePort, ProbeProcess, Subscription,
};
use tepegoz_tui::tile::TileId;

/// Milliseconds on the test's clock.
const NOW: u64 = 1_000_000;

fn test_app() -> App {
    App::new(7, (40, 120))
}

fn count<F: FnMut(&AppAction) -> bool>(actions: &[AppAction], mut pred: F) -> usize {
    actions.iter().filter(|a| pred(a)).count()
}

fn make_container(name: &str, image: &str, state: &str) -> DockerContainer {
    DockerContainer {
        id: format!("id-{name}"),
        names: vec![format!("/{name}")],
        image: image.into(),
        image_id: "sha256:deadbeef".into(),
        command: "cmd".into(),
        created_unix_secs: 0,
        state: state.into(),
        status: "Up".into(),
        ports: Vec::new(),
        labels: Vec::new(),
    }
}

fn populate_docker_and_focus(app: &mut App, containers: Vec<DockerContainer>) {
    let env = Envelope {
        payload: Payload::Event(EventFrame {
            subscription_id: app.docker.sub_id,
            event: Event::ContainerList {
                containers,
                engine_source: "test".into(),
            },
        }),
    };
    app.handle_event(AppEvent::DaemonEnvelope(env), NOW);
    app.handle_event(AppEvent::StdinChunk(b"\x02j".to_vec()), NOW);
}

#[test]
fn initial_actions_emit_attach_resize_with_pty_tile_dims_and_subscribe_docker() {
    let app = test_app();
    let actions = app.initial_actions();
    assert_eq!(
        actions.len(),
        7,
        "initial actions: AttachPane + ResizePane + Subscribe(Docker) + \
         Subscribe(Ports) + Subscribe(Processes) + Subscribe(Fleet) + DrawFrame"
    );

    match &actions[0] {
        AppAction::SendEnvelope(env) => match &env.payload {
            Payload::AttachPane {
                pane_id,
                subscription_id,
            } => {
                assert_eq!(*pane_id, 7);
                assert_eq!(*subscription_id, app.pane_sub);
            }
            other => panic!("expected AttachPane, got {other:?}"),
        },
        other => panic!("expected SendEnvelope, got {other:?}"),
    }

    let (expected_pty_rows, expected_pty_cols) = pty_tile_dims(&app.view.layout);
    match &actions[1] {
        AppAction::SendEnvelope(env) => match &env.payload {
            Payload::ResizePane {
                pane_id,
                rows,
                cols,
            } => {
                assert_eq!(*pane_id, 7);
                assert_eq!(*rows, expected_pty_rows);
                assert_eq!(*cols, expected_pty_cols);
                assert_ne!(
                    (*rows, *cols),
                    (40, 120),
                    "must size pane to pty tile, not terminal"
                );
            }
            other => panic!("expected ResizePane, got {other:?}"),
        },
        other => panic!("expected SendEnvelope, got {other:?}"),
    }

    match &actions[2] {
        AppAction::SendEnvelope(env) => match &env.payload {
            Payload::Subscribe(Subscription::Docker { id }) => {
                assert_eq!(*id, app.docker.sub_id);
            }
            other => panic!("expected Subscribe(Docker), got {other:?}"),
        },
        other => panic!("expected SendEnvelope, got {other:?}"),
    }

    match &actions[3] {
        AppAction::SendEnvelope(env) => match &env.payload {
            Payload::Subscribe(Subscription::Ports { id }) => {
                assert_eq!(*id, app.ports.ports_sub_id);
            }
            other => panic!("expected Subscribe(Ports), got {other:?}"),
        },
        other => panic!("expected SendEnvelope, got {other:?}"),
    }

    match &actions[4] {
        AppAction::SendEnvelope(env) => match &env.payload {
            Payload::Subscribe(Subscription::Processes { id }) => {
                assert_eq!(*id, app.ports.processes_sub_id);
            }
            other => panic!("expected Subscribe(Processes), got {other:?}"),
        },
        other => panic!("expected SendEnvelope, got {other:?}"),
    }

    match &actions[5] {
        AppAction::SendEnvelope(env) => match &env.payload {
            Payload::Subscribe(Subscription::Fleet { id }) => {
                assert_eq!(*id, app.fleet.sub_id);
            }
            other => panic!("expected Subscribe(Fleet), got {other:?}"),
        },
        other => panic!("expected SendEnvelope, got {other:?}"),
    }

    assert!(matches!(actions[6], AppAction::DrawFrame));

    assert_eq!(app.view.focused, TileId::Pty);
    assert!(matches!(app.docker.state, DockerScopeState::Connecting));
}

#[test]
fn ctrl_b_d_emits_user_detach() {
    let mut app = test_app();
    let actions = app.handle_event(AppEvent::StdinChunk(b"\x02d".to_vec()), NOW);
    assert_eq!(
        count(&actions, |a| matches!(
            a,
            AppAction::Detach(DetachReason::User)
        )),
        1
    );
}

#[test]
fn ctrl_b_j_from_pty_focuses_docker_and_emits_drawframe() {
    let mut app = test_app();
    assert_eq!(app.view.focused, TileId::Pty);
    let actions = app.handle_event(AppEvent::StdinChunk(b"\x02j".to_vec()), NOW);
    assert_eq!(app.view.focused, TileId::Docker);
    let focus_count = count(&actions, |a| {
        matches!(a, AppAction::FocusTile(TileId::Docker))
    });
    assert_eq!(focus_count, 1);
    assert_eq!(count(&actions, |a| matches!(a, AppAction::DrawFrame)), 1);
}

#[test]
fn ctrl_b_k_from_docker_focuses_pty() {
    let mut app = test_app();
    app.handle_event(AppEvent::StdinChunk(b"\x02j".to_vec()), NOW); // PTY → Docker
    assert_eq!(app.view.focused, TileId::Docker);
    app.handle_event(AppEvent::StdinChunk(b"\x02k".to_vec()), NOW); // Docker → PTY
    assert_eq!(app.view.focused, TileId::Pty);
}

#[test]
fn ctrl_b_l_from_docker_focuses_ports() {
    let mut app = test_app();
    app.handle_event(AppEvent::StdinChunk(b"\x02j".to_vec()), NOW); // focus Docker
    app.handle_event(AppEvent::StdinChunk(b"\x02l".to_vec()), NOW); // Docker → Ports
    assert_eq!(app.view.focused, TileId::Ports);
}

#[test]
fn ctrl_b_up_arrow_from_docker_focuses_pty() {
    let mut app = test_app();
    app.handle_event(AppEvent::StdinChunk(b"\x02j".to_vec()), NOW); // focus Docker
    let actions = app.handle_event(AppEvent::StdinChunk(b"\x02\x1b[A".to_vec()), NOW);
    assert_eq!(app.view.focused, TileId::Pty);
    assert_eq!(
        count(&actions, |a| matches!(a, AppAction::FocusTile(TileId::Pty))),
        1
    );
}

#[test]
fn ctrl_b_h_from_pty_is_noop() {
    let mut app = test_app();
    let actions = app.handle_event(AppEvent::StdinChunk(b"\x02h".to_vec()), NOW);
    assert_eq!(app.view.focused, TileId::Pty);
    assert_eq!(
        count(&actions, |a| matches!(a, AppAction::FocusTile(_))),
        0,
        "no-op focus moves must not emit FocusTile"
    );
}

#[test]
fn ctrl_b_question_is_help_noop() {
    let mut app = test_app();
    let actions = app.handle_event(AppEvent::StdinChunk(b"\x02?".to_vec()), NOW);
    assert!(actions.is_empty());
}

#[test]
fn pty_focused_pane_keystrokes_forward_to_daemon_as_send_input() {
    let mut app = test_app();
    let actions = app.handle_event(AppEvent::StdinChunk(b"hello\n".to_vec()), NOW);
    let send_input_count = count(&actions, |a| {
        matches!(
            a,
            AppAction::SendEnvelope(env)
                if matches!(&env.payload, Payload::SendInput { pane_id, data }
                    if *pane_id == 7 && data == b"hello\n")
        )
    });
    assert_eq!(send_input_count, 1);
}

#[test]
fn docker_focused_stdin_routes_to_scope_key_parser() {
    let mut app = test_app();
    populate_docker_and_focus(
        &mut app,
        vec![
            make_container("a", "a", "running"),
            make_container("b", "b", "running"),
            make_container("c", "c", "running"),
        ],
    );
    assert_eq!(app.view.focused, TileId::Docker);

    assert_eq!(app.docker.selection, 0);
    let actions = app.handle_event(AppEvent::StdinChunk(b"j".to_vec()), NOW);
    assert_eq!(app.docker.selection, 1);
    assert_eq!(count(&actions, |a| matches!(a, AppAction::DrawFrame)), 1);
    assert_eq!(
        count(&actions, |a| matches!(a, AppAction::SendEnvelope(_))),
        0
    );
}

#[test]
fn placeholder_focused_stdin_is_dropped() {
    let mut app = test_app();
    app.handle_event(AppEvent::StdinChunk(b"\x02j".to_vec()), NOW);
    app.handle_event(AppEvent::StdinChunk(b"\x02l".to_vec()), NOW);
    assert_eq!(app.view.focused, TileId::Ports);
    let actions = app.handle_event(AppEvent::StdinChunk(b"hello".to_vec()), NOW);
    assert_eq!(
        count(&actions, |a| matches!(a, AppAction::SendEnvelope(_))),
        0,
        "placeholder tile must not route bytes to SendInput"
    );
}

#[test]
fn container_list_transitions_state_to_available_and_clamps_selection() {
    let mut app = test_app();
    let env = Envelope {
        payload: Payload::Event(EventFrame {
            subscription_id: app.docker.sub_id,
            event: Event::ContainerList {
                containers: vec![
                    make_container("web", "nginx", "running"),
                    make_container("db", "postgres", "running"),
                ],
                engine_source: "test".into(),
            },
        }),
    };
    app.handle_event(AppEvent::DaemonEnvelope(env), NOW);
    match &app.docker.state {
        DockerScopeState::Available {
            containers,
            engine_source,
        } => {
            assert_eq!(containers.len(), 2);
            assert_eq!(engine_source, "test");
        }
        other => panic!("expected Available, got {other:?}"),
    }
    assert_eq!(app.docker.visible_count(), 2);
}

#[test]
fn docker_unavailable_transitions_state() {
    let mut app = test_app();
    let env = Envelope {
        payload: Payload::Event(EventFrame {
            subscription_id: app.docker.sub_id,
            event: Event::DockerUnavailable {
                reason: "no socket".into(),
            },
        }),
    };
    app.handle_event(AppEvent::DaemonEnvelope(env), NOW);
    match &app.docker.state {
        DockerScopeState::Unavailable { reason } => assert_eq!(reason, "no socket"),
        other => panic!("expected Unavailable, got {other:?}"),
    }
}

#[test]
fn j_and_k_move_selection_and_clamp_at_bounds() {
    let mut app = test_app();
    populate_docker_and_focus(
        &mut app,
        vec![
            make_container("a", "a", "running"),
            make_container("b", "b", "running"),
            make_container("c", "c", "running"),
        ],
    );
    assert_eq!(app.docker.selection, 0);
    app.handle_event(AppEvent::StdinChunk(b"j".to_vec()), NOW);
    assert_eq!(app.docker.selection, 1);
    app.handle_event(AppEvent::StdinChunk(b"j".to_vec()), NOW);
    assert_eq!(app.docker.selection, 2);
    app.handle_event(AppEvent::StdinChunk(b"j".to_vec()), NOW);
    assert_eq!(app.docker.selection, 2, "clamp at bottom");
    app.handle_event(AppEvent::StdinChunk(b"k".to_vec()), NOW);
    assert_eq!(app.docker.selection, 1);
    app.handle_event(AppEvent::StdinChunk(b"kkk".to_vec()), NOW);
    assert_eq!(app.docker.selection, 0, "clamp at top");
}

#[test]
fn arrow_down_and_up_move_selection_when_docker_focused() {
    let mut app = test_app();
    populate_docker_and_focus(
        &mut app,
        vec![
            make_container("a", "a", "running"),
            make_container("b", "b", "running"),
        ],
    );
    app.handle_event(AppEvent::StdinChunk(b"\x1b[B".to_vec()), NOW); // Down
    assert_eq!(app.docker.selection, 1);
    app.handle_event(AppEvent::StdinChunk(b"\x1b[A".to_vec()), NOW); // Up
    assert_eq!(app.docker.selection, 0);
}

#[test]
fn capital_g_jumps_to_bottom_and_lowercase_g_to_top() {
    let mut app = test_app();
    populate_docker_and_focus(
        &mut app,
        vec![
            make_container("a", "a", "running"),
            make_container("b", "b", "running"),
            make_container("c", "c", "running"),
        ],
    );
    app.handle_event(AppEvent::StdinChunk(b"G".to_vec()), NOW);
    assert_eq!(app.docker.selection, 2);
    app.handle_event(AppEvent::StdinChunk(b"g".to_vec()), NOW);
    assert_eq!(app.docker.selection, 0);
}

#[test]
fn filter_narrows_visible_list_and_clamps_selection() {
    let mut app = test_app();
    populate_docker_and_focus(
        &mut app,
        vec![
            make_container("web", "nginx", "running"),
            make_container("db", "postgres", "running"),
            make_container("cache", "redis", "running"),
        ],
    );
    app.handle_event(AppEvent::StdinChunk(b"G".to_vec()), NOW);
    assert_eq!(app.docker.selection, 2);

    app.handle_event(AppEvent::StdinChunk(b"/we".to_vec()), NOW);
    assert!(app.docker.filter_active);
    assert_eq!(app.docker.filter, "we");
    assert_eq!(app.docker.visible_count(), 1);
    assert_eq!(app.docker.selection, 0);

    app.handle_event(AppEvent::StdinChunk(b"\x1b".to_vec()), NOW);
    assert!(!app.docker.filter_active);
    assert_eq!(app.docker.filter, "");
    assert_eq!(app.docker.visible_count(), 3);
}

#[test]
fn filter_enter_commits_without_clearing() {
    let mut app = test_app();
    populate_docker_and_focus(
        &mut app,
        vec![
            make_container("web", "nginx", "running"),
            make_container("db", "postgres", "running"),
        ],
    );
    app.handle_event(AppEvent::StdinChunk(b"/nginx\n".to_vec()), NOW);
    assert!(!app.docker.filter_active);
    assert_eq!(app.docker.filter, "nginx");
    assert_eq!(app.docker.visible_count(), 1);
}

#[test]
fn filter_backspace_removes_last_char() {
    let mut app = test_app();
    populate_docker_and_focus(&mut app, vec![make_container("a", "a", "running")]);
    app.handle_event(AppEvent::StdinChunk(b"/abc".to_vec()), NOW);
    assert_eq!(app.docker.filter, "abc");
    app.handle_event(AppEvent::StdinChunk(b"\x7f".to_vec()), NOW);
    assert_eq!(app.docker.filter, "ab");
    app.handle_event(AppEvent::StdinChunk(b"\x08".to_vec()), NOW);
    assert_eq!(app.docker.filter, "a");
}

#[test]
fn daemon_error_envelope_routes_to_show_toast() {
    let mut app = test_app();
    let env = Envelope {
        payload: Payload::Error(ErrorInfo {
            kind: ErrorKind::Internal,
            message: "disk full".into(),
        }),
    };
    let actions = app.handle_event(AppEvent::DaemonEnvelope(env), NOW);
    let toast_count = count(&actions, |a| {
        matches!(
            a,
            AppAction::ShowToast {
                kind: ToastKind::Error,
                message,
            } if message.contains("disk full")
        )
    });
    assert_eq!(toast_count, 1);
}

#[test]
fn docker_action_result_failure_routes_to_show_toast() {
    let mut app = test_app();
    let env = Envelope {
        payload: Payload::DockerActionResult(DockerActionResult {
            request_id: 42,
            container_id: "abc".into(),
            kind: DockerActionKind::Restart,
            outcome: DockerActionOutcome::Failure {
                reason: "container not running".into(),
            },
        }),
    };
    let actions = app.handle_event(AppEvent::DaemonEnvelope(env), NOW);
    let toast_count = count(&actions, |a| {
        matches!(
            a,
            AppAction::ShowToast {
                kind: ToastKind::Error,
                message,
            } if message.contains("container not running")
        )
    });
    assert_eq!(toast_count, 1);
}

#[test]
fn docker_action_result_success_toasts_with_description() {
    let mut app = test_app();
    populate_docker_and_focus(&mut app, vec![make_container("nginx", "nginx", "running")]);
    app.handle_event(AppEvent::StdinChunk(b"r".to_vec()), NOW);
    let (request_id, _) = app
        .pending_actions
        .iter()
        .next()
        .map(|(&k, v)| (k, v.description.clone()))
        .expect("dispatch should have inserted a pending action");

    let env = Envelope {
        payload: Payload::DockerActionResult(DockerActionResult {
            request_id,
            container_id: "id-nginx".into(),
            kind: DockerActionKind::Restart,
            outcome: DockerActionOutcome::Success,
        }),
    };
    let actions = app.handle_event(AppEvent::DaemonEnvelope(env), NOW);

    assert!(
        app.pending_actions.is_empty(),
        "matched result must clear the pending action"
    );
    let success = count(&actions, |a| {
        matches!(
            a,
            AppAction::ShowToast { kind: ToastKind::Success, message }
                if message.contains("Restart") && message.contains("nginx") && message.contains("succeeded")
        )
    });
    assert_eq!(success, 1, "expected one Success toast; got {actions:?}");
    assert_eq!(app.toasts.len(), 1);
    assert_eq!(app.toasts.back().unwrap().kind, ToastKind::Success);
}

#[test]
fn pane_output_feeds_vt100_parser_and_emits_drawframe() {
    let mut app = test_app();
    let env = Envelope {
        payload: Payload::Event(EventFrame {
            subscription_id: app.pane_sub,
            event: Event::PaneOutput {
                data: b"hello".to_vec(),
            },
        }),
    };
    let actions = app.handle_event(AppEvent::DaemonEnvelope(env), NOW);
    let cell = app.pty_parser.cell(0, 0).expect("cell (0,0) exists");
    assert_eq!(
        cell.contents,
        "h",
        "PaneOutput bytes must flow into the vt100 parser"
    );
    assert_eq!(count(&actions, |a| matches!(a, AppAction::DrawFrame)), 1);
}

#[test]
fn pane_snapshot_feeds_vt100_parser() {
    let mut app = test_app();
    let env = Envelope {
        payload: Payload::Event(EventFrame {
            subscription_id: app.pane_sub,
            event: Event::PaneSnapshot {
                scrollback: b"replayed".to_vec(),
                rows: 24,
                cols: 80,
            },
        }),
    };
    let actions = app.handle_event(AppEvent::DaemonEnvelope(env), NOW);
    let cell = app.pty_parser.cell(0, 0).unwrap();
    assert_eq!(cell.contents, "r");
    assert_eq!(count(&actions, |a| matches!(a, AppAction::DrawFrame)), 1);
}

#[test]
fn pane_exit_event_emits_pane_exited_detach() {
    let mut app = test_app();
    let env = Envelope {
        payload: Payload::Event(EventFrame {
            subscription_id: app.pane_sub,
            event: Event::PaneExit {
                exit_code: Some(42),
            },
        }),
    };
    let actions = app.handle_event(AppEvent::DaemonEnvelope(env), NOW);
    assert_eq!(
        count(&actions, |a| matches!(
            a,
            AppAction::Detach(DetachReason::PaneExited {
                exit_code: Some(42)
            })
        )),
        1
    );
}

#[test]
fn stale_subscription_event_is_dropped() {
    let mut app = test_app();
    let env = Envelope {
        payload: Payload::Event(EventFrame {
            subscription_id: 99_999,
            event: Event::PaneOutput {
                data: b"ghost".to_vec(),
            },
        }),
    };
    let actions = app.handle_event(AppEvent::DaemonEnvelope(env), NOW);
    assert!(actions.is_empty());
}

#[test]
fn resize_recomputes_layout_and_sends_resizepane_with_pty_tile_dims() {
    let mut app = test_app();
    let actions = app.handle_event(AppEvent::Resize {
        rows: 50,
        cols: 160,
    }, NOW);
    assert_eq!(app.terminal_size, (50, 160));
    let pty_rect = app.view.layout.rect_of(TileId::Pty).unwrap();
    assert_eq!(pty_rect.width, 160);

    let (expected_rows, expected_cols) = pty_tile_dims(&app.view.layout);
    let resize_count = count(&actions, |a| {
        matches!(
            a,
            AppAction::SendEnvelope(env)
                if matches!(
                    &env.payload,
                    Payload::ResizePane { rows, cols, .. }
                    if *rows == expected_rows && *cols == expected_cols
                )
        )
    });
    assert_eq!(resize_count, 1);
    assert_eq!(count(&actions, |a| matches!(a, AppAction::DrawFrame)), 1);
}

#[test]
fn resize_below_minimum_falls_back_to_too_small_layout() {
    let mut app = test_app();
    app.handle_event(AppEvent::Resize { rows: 10, cols: 40 }, NOW);
    assert_eq!(app.view.focused, TileId::TooSmall);
    assert_eq!(app.view.layout.tiles.len(), 1);
}

#[test]
fn tick_always_emits_drawframe() {
    let mut app = test_app();
    let actions = app.handle_event(AppEvent::Tick, NOW);
    assert_eq!(count(&actions, |a| matches!(a, AppAction::DrawFrame)), 1);

    app.handle_event(AppEvent::StdinChunk(b"\x02j".to_vec()), NOW);
    let actions = app.handle_event(AppEvent::Tick, NOW);
    assert_eq!(count(&actions, |a| matches!(a, AppAction::DrawFrame)), 1);
}

fn find_docker_action(actions: &[AppAction]) -> &DockerActionRequest {
    actions
        .iter()
        .find_map(|a| match a {
            AppAction::SendEnvelope(env) => match &env.payload {
                Payload::DockerAction(req) => Some(req),
                _ => None,
            },
            _ => None,
        })
        .expect("no DockerAction envelope in actions")
}

#[test]
fn r_dispatches_restart_immediately_when_docker_focused() {
    let mut app = test_app();
    populate_docker_and_focus(&mut app, vec![make_container("web", "nginx", "running")]);
    let actions = app.handle_event(AppEvent::StdinChunk(b"r".to_vec()), NOW);
    let req = find_docker_action(&actions);
    assert_eq!(req.kind, DockerActionKind::Restart);
    assert_eq!(req.container_id, "id-web");
    assert!(
        app.pending_actions.contains_key(&req.request_id),
        "pending action must be recorded"
    );
    assert!(
        app.docker.pending_confirm.is_none(),
        "r is non-destructive — no confirm"
    );
}

#[test]
fn s_dispatches_stop_immediately_when_docker_focused() {
    let mut app = test_app();
    populate_docker_and_focus(&mut app, vec![make_container("db", "postgres", "running")]);
    let actions = app.handle_event(AppEvent::StdinChunk(b"s".to_vec()), NOW);
    let req = find_docker_action(&actions);
    assert_eq!(req.kind, DockerActionKind::Stop);
    assert_eq!(req.container_id, "id-db");
}

#[test]
fn capital_k_enters_pending_confirm_kill_without_dispatching() {
    let mut app = test_app();
    populate_docker_and_focus(&mut app, vec![make_container("web", "nginx", "running")]);
    let actions = app.handle_event(AppEvent::StdinChunk(b"K".to_vec()), NOW);
    assert_eq!(
        count(&actions, |a| matches!(
            a,
            AppAction::SendEnvelope(env) if matches!(&env.payload, Payload::DockerAction(_))
        )),
        0,
        "K must enter confirm, not dispatch immediately"
    );
    let pc = app
        .docker
        .pending_confirm
        .as_ref()
        .expect("K must set pending_confirm");
    assert_eq!(pc.kind, DockerActionKind::Kill);
    assert_eq!(pc.container_id, "id-web");
    assert_eq!(pc.container_name, "web");
    assert!(
        pc.deadline > NOW,
        "pending_confirm has a future deadline"
    );
}

#[test]
fn capital_x_enters_pending_confirm_remove_without_dispatching() {
    let mut app = test_app();
    populate_docker_and_focus(&mut app, vec![make_container("web", "nginx", "running")]);
    app.handle_event(AppEvent::StdinChunk(b"X".to_vec()), NOW);
    let pc = app.docker.pending_confirm.as_ref().unwrap();
    assert_eq!(pc.kind, DockerActionKind::Remove);
}

#[test]
fn y_during_confirm_dispatches_docker_action_and_clears_pending() {
    let mut app = test_app();
    populate_docker_and_focus(&mut app, vec![make_container("web", "nginx", "running")]);
    app.handle_event(AppEvent::StdinChunk(b"K".to_vec()), NOW);
    assert!(app.docker.pending_confirm.is_some());
    let actions = app.handle_event(AppEvent::StdinChunk(b"y".to_vec()), NOW);
    assert!(
        app.docker.pending_confirm.is_none(),
        "y must clear pending_confirm"
    );
    let req = find_docker_action(&actions);
    assert_eq!(req.kind, DockerActionKind::Kill);
    assert_eq!(req.container_id, "id-web");
    assert!(app.pending_actions.contains_key(&req.request_id));
}

#[test]
fn n_during_confirm_cancels_without_dispatching() {
    let mut app = test_app();
    populate_docker_and_focus(&mut app, vec![make_container("web", "nginx", "running")]);
    app.handle_event(AppEvent::StdinChunk(b"K".to_vec()), NOW);
    let actions = app.handle_event(AppEvent::StdinChunk(b"n".to_vec()), NOW);
    assert!(app.docker.pending_confirm.is_none());
    assert_eq!(
        count(&actions, |a| matches!(
            a,
            AppAction::SendEnvelope(env) if matches!(&env.payload, Payload::DockerAction(_))
        )),
        0
    );
    assert!(app.pending_actions.is_empty());
}

#[test]
fn esc_during_confirm_cancels() {
    let mut app = test_app();
    populate_docker_and_focus(&mut app, vec![make_container("web", "nginx", "running")]);
    app.handle_event(AppEvent::StdinChunk(b"K".to_vec()), NOW);
    app.handle_event(AppEvent::StdinChunk(b"\x1b".to_vec()), NOW);
    assert!(app.docker.pending_confirm.is_none());
}

#[test]
fn random_char_during_confirm_cancels() {
    let mut app = test_app();
    populate_docker_and_focus(&mut app, vec![make_container("web", "nginx", "running")]);
    app.handle_event(AppEvent::StdinChunk(b"K".to_vec()), NOW);
    app.handle_event(AppEvent::StdinChunk(b"z".to_vec()), NOW);
    assert!(app.docker.pending_confirm.is_none());
}

#[test]
fn focus_away_from_docker_cancels_pending_confirm() {
    let mut app = test_app();
    populate_docker_and_focus(&mut app, vec![make_container("web", "nginx", "running")]);
    app.handle_event(AppEvent::StdinChunk(b"K".to_vec()), NOW);
    assert!(app.docker.pending_confirm.is_some());
    app.handle_event(AppEvent::StdinChunk(b"\x02k".to_vec()), NOW);
    assert_eq!(app.view.focused, TileId::Pty);
    assert!(
        app.docker.pending_confirm.is_none(),
        "leaving Docker must cancel the confirm"
    );
}

#[test]
fn pending_confirm_10s_timeout_clears_state_without_dispatching() {
    let mut app = test_app();
    populate_docker_and_focus(&mut app, vec![make_container("web", "nginx", "running")]);
    app.handle_event(AppEvent::StdinChunk(b"K".to_vec()), NOW);
    assert!(app.docker.pending_confirm.is_some());
    let mut actions: Vec<AppAction> = Vec::new();
    app.sweep_expired(NOW + 11_000, &mut actions);
    assert!(
        app.docker.pending_confirm.is_none(),
        "sweep past deadline must drop pending_confirm"
    );
    assert_eq!(
        count(&actions, |a| matches!(
            a,
            AppAction::SendEnvelope(env) if matches!(&env.payload, Payload::DockerAction(_))
        )),
        0,
        "10 s auto-cancel must never dispatch the pending action"
    );
    assert!(
        app.pending_actions.is_empty(),
        "no pending_action should have been recorded by the auto-cancel path"
    );
}

#[test]
fn second_k_while_kill_pending_is_absorbed_not_switched_or_cancelled() {
    let mut app = test_app();
    populate_docker_and_focus(&mut app, vec![make_container("web", "nginx", "running")]);
    app.handle_event(AppEvent::StdinChunk(b"K".to_vec()), NOW);
    let first_deadline = app.docker.pending_confirm.as_ref().unwrap().deadline;
    app.handle_event(AppEvent::StdinChunk(b"K".to_vec()), NOW);
    let pc = app
        .docker
        .pending_confirm
        .as_ref()
        .expect("modal must stay open after repeat K");
    assert_eq!(
        pc.kind,
        DockerActionKind::Kill,
        "absorbed K must not switch the modal's target"
    );
    assert_eq!(
        pc.container_id, "id-web",
        "absorbed K must not switch container"
    );
    assert_eq!(
        pc.deadline, first_deadline,
        "absorbed K must not refresh the 10 s deadline"
    );
    let actions = app.handle_event(AppEvent::StdinChunk(b"y".to_vec()), NOW);
    let req = find_docker_action(&actions);
    assert_eq!(
        req.kind,
        DockerActionKind::Kill,
        "y after absorbed K must confirm Kill"
    );
}

#[test]
fn x_while_kill_pending_is_absorbed_not_switched() {
    let mut app = test_app();
    populate_docker_and_focus(&mut app, vec![make_container("web", "nginx", "running")]);
    app.handle_event(AppEvent::StdinChunk(b"K".to_vec()), NOW);
    app.handle_event(AppEvent::StdinChunk(b"X".to_vec()), NOW);
    let pc = app
        .docker
        .pending_confirm
        .as_ref()
        .expect("modal must stay open after X during Kill confirm");
    assert_eq!(pc.kind, DockerActionKind::Kill);
}

#[test]
fn capital_r_is_noop_when_docker_focused_after_case_discipline_lock() {
    let mut app = test_app();
    populate_docker_and_focus(&mut app, vec![make_container("web", "nginx", "running")]);
    let actions = app.handle_event(AppEvent::StdinChunk(b"R".to_vec()), NOW);
    assert_eq!(
        count(&actions, |a| matches!(
            a,
            AppAction::SendEnvelope(env) if matches!(&env.payload, Payload::DockerAction(_))
        )),
        0,
        "capital R must not dispatch — reserved pattern is 'caps = destructive'"
    );
    assert!(app.pending_actions.is_empty());
    assert!(
        app.docker.pending_confirm.is_none(),
        "capital R must not enter a confirm either"
    );
}

#[test]
fn r_with_pty_focused_sends_input_not_docker_action() {
    let mut app = test_app();
    let actions = app.handle_event(AppEvent::StdinChunk(b"r".to_vec()), NOW);
    assert_eq!(
        count(&actions, |a| matches!(
            a,
            AppAction::SendEnvelope(env) if matches!(
                &env.payload,
                Payload::SendInput { data, .. } if data == b"r"
            )
        )),
        1
    );
    assert!(app.pending_actions.is_empty());
}

#[test]
fn r_noop_when_docker_unavailable() {
    let mut app = test_app();
    let env = Envelope {
        payload: Payload::Event(EventFrame {
            subscription_id: app.docker.sub_id,
            event: Event::DockerUnavailable {
                reason: "no engine".into(),
            },
        }),
    };
    app.handle_event(AppEvent::DaemonEnvelope(env), NOW);
    app.handle_event(AppEvent::StdinChunk(b"\x02j".to_vec()), NOW); // focus Docker
    let actions = app.handle_event(AppEvent::StdinChunk(b"r".to_vec()), NOW);
    assert_eq!(
        count(&actions, |a| matches!(
            a,
            AppAction::SendEnvelope(env) if matches!(&env.payload, Payload::DockerAction(_))
        )),
        0
    );
    assert!(app.pending_actions.is_empty());
}

#[test]
fn r_noop_when_container_list_empty() {
    let mut app = test_app();
    populate_docker_and_focus(&mut app, Vec::new());
    let actions = app.handle_event(AppEvent::StdinChunk(b"r".to_vec()), NOW);
    assert_eq!(
        count(&actions, |a| matches!(
            a,
            AppAction::SendEnvelope(env) if matches!(&env.payload, Payload::DockerAction(_))
        )),
        0
    );
    assert!(app.pending_actions.is_empty());
    assert!(app.docker.pending_confirm.is_none());
}

#[test]
fn docker_action_result_failure_toasts_with_description_and_reason() {
    let mut app = test_app();
    populate_docker_and_focus(&mut app, vec![make_container("web", "nginx", "running")]);
    app.handle_event(AppEvent::StdinChunk(b"r".to_vec()), NOW);
    let request_id = *app.pending_actions.keys().next().unwrap();

    let env = Envelope {
        payload: Payload::DockerActionResult(DockerActionResult {
            request_id,
            container_id: "id-web".into(),
            kind: DockerActionKind::Restart,
            outcome: DockerActionOutcome::Failure {
                reason: "container not running".into(),
            },
        }),
    };
    let actions = app.handle_event(AppEvent::DaemonEnvelope(env), NOW);

    assert!(app.pending_actions.is_empty());
    let err = count(&actions, |a| {
        matches!(
            a,
            AppAction::ShowToast { kind: ToastKind::Error, message }
                if message.contains("Restart")
                   && message.contains("web")
                   && message.contains("failed")
                   && message.contains("container not running")
        )
    });
    assert_eq!(err, 1, "expected one Error toast; got {actions:?}");
}

#[test]
fn docker_action_result_without_pending_uses_fallback_description() {
    let mut app = test_app();
    let env = Envelope {
        payload: Payload::DockerActionResult(DockerActionResult {
            request_id: 9_999,
            container_id: "ghost-id".into(),
            kind: DockerActionKind::Kill,
            outcome: DockerActionOutcome::Failure {
                reason: "not found".into(),
            },
        }),
    };
    let actions = app.handle_event(AppEvent::DaemonEnvelope(env), NOW);
    let err = count(&actions, |a| {
        matches!(
            a,
            AppAction::ShowToast { kind: ToastKind::Error, message }
                if message.contains("Kill") && message.contains("ghost-id") && message.contains("not found")
        )
    });
    assert_eq!(err, 1);
}

#[test]
fn pending_action_30s_timeout_emits_error_toast() {
    let mut app = test_app();
    populate_docker_and_focus(&mut app, vec![make_container("web", "nginx", "running")]);
    app.handle_event(AppEvent::StdinChunk(b"r".to_vec()), NOW);
    assert_eq!(app.pending_actions.len(), 1);
    let mut actions = Vec::new();
    app.sweep_expired(NOW + 31_000, &mut actions);
    assert!(
        app.pending_actions.is_empty(),
        "sweep past 30 s must drop the pending action"
    );
    let timeout_toast = count(&actions, |a| {
        matches!(
            a,
            AppAction::ShowToast { kind: ToastKind::Error, message }
                if message.contains("timed out") && message.contains("Restart")
        )
    });
    assert_eq!(timeout_toast, 1);
    assert_eq!(
        app.toasts.back().map(|t| t.kind),
        Some(ToastKind::Error),
        "timeout toast must land in the overlay queue"
    );
}

#[test]
fn pending_action_timeout_event_expires_that_action() {
    let mut app = test_app();
    populate_docker_and_focus(&mut app, vec![make_container("web", "nginx", "running")]);
    app.handle_event(AppEvent::StdinChunk(b"r".to_vec()), NOW);
    let request_id = *app.pending_actions.keys().next().unwrap();
    let actions = app.handle_event(AppEvent::PendingActionTimeout(request_id), NOW);
    assert!(app.pending_actions.is_empty());
    assert_eq!(
        count(&actions, |a| matches!(
            a,
            AppAction::ShowToast {
                kind: ToastKind::Error,
                ..
            }
        )),
        1
    );
}

#[test]
fn pending_action_timeout_event_for_unknown_id_is_noop() {
    let mut app = test_app();
    let actions = app.handle_event(AppEvent::PendingActionTimeout(777), NOW);
    assert!(actions.is_empty(), "unknown id must silently no-op");
}

#[test]
fn fourth_toast_drops_oldest_silently() {
    let mut app = test_app();
    let mut actions = Vec::new();
    for i in 0..4 {
        app.push_toast_at(NOW, ToastKind::Success, format!("msg-{i}"), &mut actions);
    }
    assert_eq!(app.toasts.len(), MAX_TOASTS);
    let messages: Vec<String> = app.toasts.iter().map(|t| t.message.clone()).collect();
    assert_eq!(messages, vec!["msg-1", "msg-2", "msg-3"]);
}

#[test]
fn toast_sweep_drops_expired_toasts() {
    let mut app = test_app();
    let mut actions = Vec::new();
    app.push_toast_at(NOW, ToastKind::Success, "ok".into(), &mut actions);
    app.push_toast_at(NOW, ToastKind::Error, "err".into(), &mut actions);
    assert_eq!(app.toasts.len(), 2);

    let mut a = Vec::new();
    app.sweep_expired(NOW + 4_000, &mut a);
    assert_eq!(app.toasts.len(), 1);
    assert_eq!(app.toasts.back().unwrap().kind, ToastKind::Error);

    let mut a = Vec::new();
    app.sweep_expired(NOW + 9_000, &mut a);
    assert!(app.toasts.is_empty());
}

#[test]
fn daemon_error_also_lands_in_app_toasts() {
    let mut app = test_app();
    let env = Envelope {
        payload: Payload::Error(ErrorInfo {
            kind: ErrorKind::Internal,
            message: "disk full".into(),
        }),
    };
    let actions = app.handle_event(AppEvent::DaemonEnvelope(env), NOW);
    assert_eq!(app.toasts.len(), 1);
    assert_eq!(app.toasts.back().unwrap().kind, ToastKind::Error);
    assert!(app.toasts.back().unwrap().message.contains("disk full"));
    let show = count(&actions, |a| {
        matches!(
            a,
            AppAction::ShowToast { kind: ToastKind::Error, message }
                if message.contains("disk full")
        )
    });
    assert_eq!(show, 1);
}

fn inject_container_log(app: &mut App, stream: LogStream, data: &[u8]) {
    let sub_id = match &app.docker.view {
        DockerView::Logs(l) => l.sub_id,
        _ => panic!("inject_container_log: no logs view active"),
    };
    let env = Envelope {
        payload: Payload::Event(EventFrame {
            subscription_id: sub_id,
            event: Event::ContainerLog {
                stream,
                data: data.to_vec(),
            },
        }),
    };
    app.handle_event(AppEvent::DaemonEnvelope(env), NOW);
}

fn inject_stream_ended(app: &mut App, reason: &str) {
    let sub_id = match &app.docker.view {
        DockerView::Logs(l) => l.sub_id,
        _ => panic!("inject_stream_ended: no logs view active"),
    };
    let env = Envelope {
        payload: Payload::Event(EventFrame {
            subscription_id: sub_id,
            event: Event::DockerStreamEnded {
                reason: reason.into(),
            },
        }),
    };
    app.handle_event(AppEvent::DaemonEnvelope(env), NOW);
}

#[test]
fn l_with_selected_container_enters_logs_view_and_subscribes() {
    let mut app = test_app();
    populate_docker_and_focus(&mut app, vec![make_container("web", "nginx", "running")]);
    let actions = app.handle_event(AppEvent::StdinChunk(b"l".to_vec()), NOW);
    let (sub_id, container_id_envelope) = actions
        .iter()
        .find_map(|a| match a {
            AppAction::SendEnvelope(env) => match &env.payload {
                Payload::Subscribe(Subscription::DockerLogs {
                    id,
                    container_id,
                    follow,
                    tail_lines,
                }) => {
                    assert!(*follow, "logs must follow on entry");
                    assert_eq!(
                        *tail_lines, 0,
                        "C3b enters with full history (tail_lines=0)"
                    );
                    Some((*id, container_id.clone()))
                }
                _ => None,
            },
            _ => None,
        })
        .expect("l must send Subscribe(DockerLogs)");
    assert_eq!(container_id_envelope, "id-web");
    match &app.docker.view {
        DockerView::Logs(logs) => {
            assert_eq!(logs.sub_id, sub_id, "stored sub id must match envelope");
            assert_eq!(logs.container_id, "id-web");
            assert_eq!(logs.container_name, "web");
            assert!(logs.at_tail, "logs view opens tailing");
            assert_eq!(logs.scroll_offset, 0);
            assert!(logs.lines.is_empty());
            assert!(logs.stream_ended.is_none());
        }
        DockerView::List => panic!("l must transition to Logs view"),
    }
}

#[test]
fn l_is_noop_when_no_container_selected() {
    let mut app = test_app();
    populate_docker_and_focus(&mut app, Vec::new());
    let actions = app.handle_event(AppEvent::StdinChunk(b"l".to_vec()), NOW);
    assert_eq!(
        count(&actions, |a| matches!(
            a,
            AppAction::SendEnvelope(env) if matches!(
                &env.payload,
                Payload::Subscribe(Subscription::DockerLogs { .. })
            )
        )),
        0,
        "l must not subscribe when nothing is selected"
    );
    assert!(matches!(app.docker.view, DockerView::List));
}

#[test]
fn l_is_noop_when_docker_unavailable() {
    let mut app = test_app();
    let env = Envelope {
        payload: Payload::Event(EventFrame {
            subscription_id: app.docker.sub_id,
            event: Event::DockerUnavailable {
                reason: "no engine".into(),
            },
        }),
    };
    app.handle_event(AppEvent::DaemonEnvelope(env), NOW);
    app.handle_event(AppEvent::StdinChunk(b"\x02j".to_vec()), NOW); // focus Docker
    let actions = app.handle_event(AppEvent::StdinChunk(b"l".to_vec()), NOW);
    assert_eq!(
        count(&actions, |a| matches!(
            a,
            AppAction::SendEnvelope(env) if matches!(
                &env.payload,
                Payload::Subscribe(Subscription::DockerLogs { .. })
            )
        )),
        0
    );
    assert!(matches!(app.docker.view, DockerView::List));
}

#[test]
fn esc_in_logs_view_unsubscribes_and_returns_to_list() {
    let mut app = test_app();
    populate_docker_and_focus(&mut app, vec![make_container("web", "nginx", "running")]);
    app.handle_event(AppEvent::StdinChunk(b"l".to_vec()), NOW);
    let logs_sub_id = match &app.docker.view {
        DockerView::Logs(l) => l.sub_id,
        _ => unreachable!(),
    };
    let actions = app.handle_event(AppEvent::StdinChunk(b"\x1b".to_vec()), NOW);
    assert!(matches!(app.docker.view, DockerView::List));
    let unsub = count(&actions, |a| {
        matches!(
            a,
            AppAction::SendEnvelope(env) if matches!(
                &env.payload,
                Payload::Unsubscribe { id } if *id == logs_sub_id
            )
        )
    });
    assert_eq!(unsub, 1, "Esc must Unsubscribe the logs sub");
}

#[test]
fn q_in_logs_view_also_unsubscribes_and_returns_to_list() {
    let mut app = test_app();
    populate_docker_and_focus(&mut app, vec![make_container("web", "nginx", "running")]);
    app.handle_event(AppEvent::StdinChunk(b"l".to_vec()), NOW);
    let logs_sub_id = match &app.docker.view {
        DockerView::Logs(l) => l.sub_id,
        _ => unreachable!(),
    };
    let actions = app.handle_event(AppEvent::StdinChunk(b"q".to_vec()), NOW);
    assert!(matches!(app.docker.view, DockerView::List));
    assert_eq!(
        count(&actions, |a| matches!(
            a,
            AppAction::SendEnvelope(env) if matches!(
                &env.payload,
                Payload::Unsubscribe { id } if *id == logs_sub_id
            )
        )),
        1
    );
}

#[test]
fn container_log_chunks_assemble_into_lines_at_newlines() {
    let mut app = test_app();
    populate_docker_and_focus(&mut app, vec![make_container("web", "nginx", "running")]);
    app.handle_event(AppEvent::StdinChunk(b"l".to_vec()), NOW);

    inject_container_log(&mut app, LogStream::Stdout, b"fo");
    inject_container_log(&mut app, LogStream::Stdout, b"o\nbar");
    {
        let DockerView::Logs(logs) = &app.docker.view else {
            panic!();
        };
        assert_eq!(logs.lines.len(), 1);
        assert_eq!(logs.lines[0].text, "foo");
        assert_eq!(logs.lines[0].stream, LogStream::Stdout);
    }

    inject_container_log(&mut app, LogStream::Stdout, b"\nbaz\n");
    let DockerView::Logs(logs) = &app.docker.view else {
        panic!();
    };
    let texts: Vec<&str> = logs.lines.iter().map(|l| l.text.as_str()).collect();
    assert_eq!(texts, vec!["foo", "bar", "baz"]);
}

#[test]
fn crlf_terminated_lines_strip_both_bytes() {
    let mut app = test_app();
    populate_docker_and_focus(&mut app, vec![make_container("web", "nginx", "running")]);
    app.handle_event(AppEvent::StdinChunk(b"l".to_vec()), NOW);
    inject_container_log(&mut app, LogStream::Stdout, b"hello\r\nworld\n");
    let DockerView::Logs(logs) = &app.docker.view else {
        panic!();
    };
    let texts: Vec<&str> = logs.lines.iter().map(|l| l.text.as_str()).collect();
    assert_eq!(
        texts,
        vec!["hello", "world"],
        "CRLF must strip both bytes; bare LF strips just the LF"
    );
}

#[test]
fn stdout_and_stderr_pending_buffers_stay_separate() {
    let mut app = test_app();
    populate_docker_and_focus(&mut app, vec![make_container("web", "nginx", "running")]);
    app.handle_event(AppEvent::StdinChunk(b"l".to_vec()), NOW);

    inject_container_log(&mut app, LogStream::Stdout, b"foo");
    inject_container_log(&mut app, LogStream::Stderr, b"bar\n");
    {
        let DockerView::Logs(logs) = &app.docker.view else {
            panic!();
        };
        assert_eq!(logs.lines.len(), 1);
        assert_eq!(logs.lines[0].stream, LogStream::Stderr);
        assert_eq!(logs.lines[0].text, "bar");
    }

    inject_container_log(&mut app, LogStream::Stdout, b"baz\n");
    let DockerView::Logs(logs) = &app.docker.view else {
        panic!();
    };
    let lines: Vec<(LogStream, &str)> = logs
        .lines
        .iter()
        .map(|l| (l.stream, l.text.as_str()))
        .collect();
    assert_eq!(
        lines,
        vec![(LogStream::Stderr, "bar"), (LogStream::Stdout, "foobaz"),],
        "cross-stream interleave must not mix bytes"
    );
}

#[test]
fn j_k_pgup_pgdn_move_scroll_offset_and_toggle_at_tail() {
    let mut app = test_app();
    populate_docker_and_focus(&mut app, vec![make_container("web", "nginx", "running")]);
    app.handle_event(AppEvent::StdinChunk(b"l".to_vec()), NOW);
    for i in 0..30 {
        inject_container_log(
            &mut app,
            LogStream::Stdout,
            format!("line-{i}\n").as_bytes(),
        );
    }
    {
        let DockerView::Logs(logs) = &app.docker.view else {
            panic!();
        };
        assert!(logs.at_tail);
        assert_eq!(logs.scroll_offset, 0);
    }

    app.handle_event(AppEvent::StdinChunk(b"k".to_vec()), NOW);
    {
        let DockerView::Logs(logs) = &app.docker.view else {
            panic!();
        };
        assert_eq!(logs.scroll_offset, 1);
        assert!(!logs.at_tail);
    }
    app.handle_event(AppEvent::StdinChunk(b"\x1b[5~".to_vec()), NOW);
    {
        let DockerView::Logs(logs) = &app.docker.view else {
            panic!();
        };
        assert_eq!(logs.scroll_offset, 1 + LOGS_PAGE_LINES);
        assert!(!logs.at_tail);
    }
    app.handle_event(AppEvent::StdinChunk(b"j".to_vec()), NOW);
    {
        let DockerView::Logs(logs) = &app.docker.view else {
            panic!();
        };
        assert_eq!(logs.scroll_offset, LOGS_PAGE_LINES);
        assert!(!logs.at_tail);
    }
    app.handle_event(AppEvent::StdinChunk(b"\x1b[6~".to_vec()), NOW);
    {
        let DockerView::Logs(logs) = &app.docker.view else {
            panic!();
        };
        assert_eq!(logs.scroll_offset, 0);
        assert!(logs.at_tail, "reaching 0 on scroll-down re-enables at_tail");
    }
}

#[test]
fn capital_g_jumps_to_tail_and_resets_at_tail() {
    let mut app = test_app();
    populate_docker_and_focus(&mut app, vec![make_container("web", "nginx", "running")]);
    app.handle_event(AppEvent::StdinChunk(b"l".to_vec()), NOW);
    for i in 0..20 {
        inject_container_log(&mut app, LogStream::Stdout, format!("l-{i}\n").as_bytes());
    }
    for _ in 0..10 {
        app.handle_event(AppEvent::StdinChunk(b"k".to_vec()), NOW);
    }
    {
        let DockerView::Logs(logs) = &app.docker.view else {
            panic!();
        };
        assert!(!logs.at_tail);
        assert_eq!(logs.scroll_offset, 10);
    }
    app.handle_event(AppEvent::StdinChunk(b"G".to_vec()), NOW);
    let DockerView::Logs(logs) = &app.docker.view else {
        panic!();
    };
    assert!(logs.at_tail);
    assert_eq!(logs.scroll_offset, 0);
}

#[test]
fn docker_stream_ended_flushes_pending_sets_marker_and_disables_tail() {
    let mut app = test_app();
    populate_docker_and_focus(&mut app, vec![make_container("web", "nginx", "running")]);
    app.handle_event(AppEvent::StdinChunk(b"l".to_vec()), NOW);
    inject_container_log(&mut app, LogStream::Stdout, b"final-line-without-newline");
    inject_stream_ended(&mut app, "container exited");

    let DockerView::Logs(logs) = &app.docker.view else {
        panic!();
    };
    assert_eq!(
        logs.lines.len(),
        1,
        "pending bytes must flush on stream end"
    );
    assert_eq!(logs.lines[0].text, "final-line-without-newline");
    assert_eq!(
        logs.stream_ended.as_deref(),
        Some("container exited"),
        "reason must be recorded verbatim"
    );
    assert!(!logs.at_tail, "at_tail disables on stream end");
}

#[test]
fn max_log_lines_drops_oldest() {
    let mut app = test_app();
    populate_docker_and_focus(&mut app, vec![make_container("web", "nginx", "running")]);
    app.handle_event(AppEvent::StdinChunk(b"l".to_vec()), NOW);
    for i in 0..(MAX_LOG_LINES + 5) {
        inject_container_log(
            &mut app,
            LogStream::Stdout,
            format!("line-{i}\n").as_bytes(),
        );
    }
    let DockerView::Logs(logs) = &app.docker.view else {
        panic!();
    };
    assert_eq!(logs.lines.len(), MAX_LOG_LINES);
    for i in 0..5 {
        assert!(
            logs.lines.iter().all(|l| l.text != format!("line-{i}")),
            "line-{i} must have been dropped"
        );
    }
    assert_eq!(
        logs.lines.back().unwrap().text,
        format!("line-{}", MAX_LOG_LINES + 4)
    );
}

#[test]
fn stale_logs_events_after_unsubscribe_are_dropped() {
    let mut app = test_app();
    populate_docker_and_focus(&mut app, vec![make_container("web", "nginx", "running")]);
    app.handle_event(AppEvent::StdinChunk(b"l".to_vec()), NOW);
    let old_sub_id = match &app.docker.view {
        DockerView::Logs(l) => l.sub_id,
        _ => unreachable!(),
    };
    app.handle_event(AppEvent::StdinChunk(b"q".to_vec()), NOW);
    assert!(matches!(app.docker.view, DockerView::List));

    let env = Envelope {
        payload: Payload::Event(EventFrame {
            subscription_id: old_sub_id,
            event: Event::ContainerLog {
                stream: LogStream::Stdout,
                data: b"ghost\n".to_vec(),
            },
        }),
    };
    let actions = app.handle_event(AppEvent::DaemonEnvelope(env), NOW);
    assert!(
        actions.is_empty(),
        "stale log chunks after Unsubscribe must drop silently"
    );
    assert!(matches!(app.docker.view, DockerView::List));
}

#[test]
fn logs_view_ignores_r_s_k_x_and_l_keybinds() {
    let mut app = test_app();
    populate_docker_and_focus(&mut app, vec![make_container("web", "nginx", "running")]);
    app.handle_event(AppEvent::StdinChunk(b"l".to_vec()), NOW);
    for byte in [b'r', b's', b'K', b'X', b'l', b'/'] {
        let actions = app.handle_event(AppEvent::StdinChunk(vec![byte]), NOW);
        assert_eq!(
            count(&actions, |a| matches!(
                a,
                AppAction::SendEnvelope(env) if matches!(
                    &env.payload,
                    Payload::DockerAction(_) | Payload::Subscribe(_)
                )
            )),
            0,
            "byte {byte:?} must be ignored in logs view"
        );
    }
    assert!(matches!(app.docker.view, DockerView::Logs(_)));
    assert!(app.docker.pending_confirm.is_none());
    assert!(app.pending_actions.is_empty());
}

#[test]
fn focus_away_from_docker_does_not_cancel_logs_view() {
    let mut app = test_app();
    populate_docker_and_focus(&mut app, vec![make_container("web", "nginx", "running")]);
    app.handle_event(AppEvent::StdinChunk(b"l".to_vec()), NOW);
    assert!(matches!(app.docker.view, DockerView::Logs(_)));
    app.handle_event(AppEvent::StdinChunk(b"\x02k".to_vec()), NOW); // focus PTY
    assert_eq!(app.view.focused, TileId::Pty);
    assert!(
        matches!(app.docker.view, DockerView::Logs(_)),
        "logs view must persist across focus moves"
    );
}

fn make_port(
    protocol: &str,
    port: u16,
    pid: u32,
    name: &str,
    container: Option<&str>,
) -> ProbePort {
    ProbePort {
        local_ip: "0.0.0.0".into(),
        local_port: port,
        protocol: protocol.into(),
        pid,
        process_name: name.into(),
        container_id: container.map(|s| s.to_string()),
        partial: false,
    }
}

fn make_process(pid: u32, start_time: i64, command: &str) -> ProbeProcess {
    ProbeProcess {
        pid,
        parent_pid: 1,
        start_time_unix_secs: start_time,
        command: command.into(),
        cpu_percent: Some("1.5".into()),
        mem_bytes: 4_194_304,
        partial: false,
    }
}

fn populate_ports_and_focus(app: &mut App, ports: Vec<ProbePort>) {
    let env = Envelope {
        payload: Payload::Event(EventFrame {
            subscription_id: app.ports.ports_sub_id,
            event: Event::PortList {
                ports,
                source: "test".into(),
            },
        }),
    };
    app.handle_event(AppEvent::DaemonEnvelope(env), NOW);
    app.handle_event(AppEvent::StdinChunk(b"\x02j".to_vec()), NOW);
    app.handle_event(AppEvent::StdinChunk(b"\x02l".to_vec()), NOW);
}

fn populate_processes(app: &mut App, procs: Vec<ProbeProcess>) {
    let env = Envelope {
        payload: Payload::Event(EventFrame {
            subscription_id: app.ports.processes_sub_id,
            event: Event::ProcessList {
                rows: procs,
                source: "sysinfo".into(),
            },
        }),
    };
    app.handle_event(AppEvent::DaemonEnvelope(env), NOW);
}

#[test]
fn port_list_event_transitions_ports_view_to_available_and_redraws() {
    let mut app = test_app();
    let env = Envelope {
        payload: Payload::Event(EventFrame {
            subscription_id: app.ports.ports_sub_id,
            event: Event::PortList {
                ports: vec![make_port("tcp", 8080, 100, "nginx", None)],
                source: "linux-procfs".into(),
            },
        }),
    };
    let actions = app.handle_event(AppEvent::DaemonEnvelope(env), NOW);
    assert!(matches!(
        app.ports.ports.state,
        PortsViewState::Available { .. }
    ));
    assert_eq!(app.ports.ports.visible_count(), 1);
    assert!(actions.iter().any(|a| matches!(a, AppAction::DrawFrame)));
}

#[test]
fn ports_unavailable_event_transitions_to_unavailable_and_clears_selection() {
    let mut app = test_app();
    populate_ports_and_focus(&mut app, vec![make_port("tcp", 8080, 100, "nginx", None)]);
    app.ports.ports.selection = 0;
    let env = Envelope {
        payload: Payload::Event(EventFrame {
            subscription_id: app.ports.ports_sub_id,
            event: Event::PortsUnavailable {
                reason: "probe permission denied".into(),
            },
        }),
    };
    app.handle_event(AppEvent::DaemonEnvelope(env), NOW);
    assert!(matches!(
        app.ports.ports.state,
        PortsViewState::Unavailable { .. }
    ));
    assert_eq!(app.ports.ports.selection, 0);
}

#[test]
fn process_list_event_transitions_processes_view_to_available() {
    let mut app = test_app();
    populate_processes(
        &mut app,
        vec![make_process(4242, 1_700_000_000, "nginx: worker")],
    );
    assert!(matches!(
        app.ports.processes.state,
        ProcessesViewState::Available { .. }
    ));
    assert_eq!(app.ports.processes.visible_count(), 1);
}

#[test]
fn p_toggles_ports_and_processes_views_when_ports_tile_focused() {
    let mut app = test_app();
    populate_ports_and_focus(&mut app, vec![make_port("tcp", 8080, 100, "nginx", None)]);
    assert!(matches!(app.ports.active, PortsActiveView::Ports));
    app.handle_event(AppEvent::StdinChunk(b"p".to_vec()), NOW);
    assert!(matches!(app.ports.active, PortsActiveView::Processes));
    app.handle_event(AppEvent::StdinChunk(b"p".to_vec()), NOW);
    assert!(matches!(app.ports.active, PortsActiveView::Ports));
}

#[test]
fn p_does_not_toggle_while_filter_is_active_on_ports_view() {
    let mut app = test_app();
    populate_ports_and_focus(&mut app, vec![make_port("tcp", 8080, 100, "nginx", None)]);
    app.handle_event(AppEvent::StdinChunk(b"/".to_vec()), NOW); // activate filter
    assert!(app.ports.ports.filter_active);
    app.handle_event(AppEvent::StdinChunk(b"p".to_vec()), NOW);
    assert!(
        matches!(app.ports.active, PortsActiveView::Ports),
        "`p` while filter-typing must be a filter character, not toggle"
    );
    assert_eq!(app.ports.ports.filter, "p");
}

#[test]
fn j_k_navigate_ports_view_independently_of_processes_selection() {
    let mut app = test_app();
    populate_ports_and_focus(
        &mut app,
        vec![
            make_port("tcp", 3000, 200, "web", None),
            make_port("tcp", 5432, 300, "postgres", None),
            make_port("tcp", 6379, 400, "redis", None),
        ],
    );
    populate_processes(
        &mut app,
        vec![
            make_process(200, 1_700_000_001, "web"),
            make_process(300, 1_700_000_002, "postgres"),
        ],
    );

    assert_eq!(app.ports.ports.selection, 0);
    app.handle_event(AppEvent::StdinChunk(b"j".to_vec()), NOW);
    assert_eq!(app.ports.ports.selection, 1);
    app.handle_event(AppEvent::StdinChunk(b"j".to_vec()), NOW);
    assert_eq!(app.ports.ports.selection, 2);

    app.handle_event(AppEvent::StdinChunk(b"p".to_vec()), NOW);
    assert_eq!(app.ports.processes.selection, 0);

    app.handle_event(AppEvent::StdinChunk(b"j".to_vec()), NOW);
    assert_eq!(app.ports.processes.selection, 1);

    app.handle_event(AppEvent::StdinChunk(b"p".to_vec()), NOW);
    assert_eq!(app.ports.ports.selection, 2);
}

#[test]
fn ports_selection_persists_across_refresh_by_protocol_port_pid_key() {
    let mut app = test_app();
    populate_ports_and_focus(
        &mut app,
        vec![
            make_port("tcp", 3000, 200, "web", None),
            make_port("tcp", 5432, 300, "postgres", None),
            make_port("tcp", 6379, 400, "redis", None),
        ],
    );
    app.handle_event(AppEvent::StdinChunk(b"j".to_vec()), NOW); // select postgres
    assert_eq!(app.ports.ports.selection, 1);

    let env = Envelope {
        payload: Payload::Event(EventFrame {
            subscription_id: app.ports.ports_sub_id,
            event: Event::PortList {
                ports: vec![
                    make_port("tcp", 5432, 300, "postgres", None),
                    make_port("tcp", 3000, 200, "web", None),
                    make_port("tcp", 6379, 400, "redis", None),
                ],
                source: "test".into(),
            },
        }),
    };
    app.handle_event(AppEvent::DaemonEnvelope(env), NOW);

    assert_eq!(
        app.ports.ports.selection, 0,
        "selection must re-anchor to (protocol, port, pid) of postgres after reorder"
    );
}

#[test]
fn ports_selection_moves_to_next_row_when_selected_row_disappears() {
    let mut app = test_app();
    populate_ports_and_focus(
        &mut app,
        vec![
            make_port("tcp", 3000, 200, "web", None),
            make_port("tcp", 5432, 300, "postgres", None),
            make_port("tcp", 6379, 400, "redis", None),
        ],
    );
    app.handle_event(AppEvent::StdinChunk(b"j".to_vec()), NOW); // select postgres
    app.handle_event(AppEvent::StdinChunk(b"j".to_vec()), NOW); // select redis
    assert_eq!(app.ports.ports.selection, 2);

    let env = Envelope {
        payload: Payload::Event(EventFrame {
            subscription_id: app.ports.ports_sub_id,
            event: Event::PortList {
                ports: vec![make_port("tcp", 3000, 200, "web", None)],
                source: "test".into(),
            },
        }),
    };
    app.handle_event(AppEvent::DaemonEnvelope(env), NOW);
    assert_eq!(
        app.ports.ports.selection, 0,
        "disappeared-entity selection must clamp into the new visible range"
    );
}

#[test]
fn processes_selection_persists_across_refresh_by_pid_start_time_key() {
    let mut app = test_app();
    populate_processes(
        &mut app,
        vec![
            make_process(200, 1_700_000_001, "web"),
            make_process(300, 1_700_000_002, "postgres"),
        ],
    );
    app.ports.active = PortsActiveView::Processes;
    app.view.focused = TileId::Ports;
    app.handle_event(AppEvent::StdinChunk(b"j".to_vec()), NOW); // select postgres
    assert_eq!(app.ports.processes.selection, 1);

    let env = Envelope {
        payload: Payload::Event(EventFrame {
            subscription_id: app.ports.processes_sub_id,
            event: Event::ProcessList {
                rows: vec![
                    make_process(300, 1_700_000_002, "postgres"),
                    make_process(200, 1_700_000_500, "DIFFERENT_BINARY"),
                ],
                source: "sysinfo".into(),
            },
        }),
    };
    app.handle_event(AppEvent::DaemonEnvelope(env), NOW);
    assert_eq!(
        app.ports.processes.selection, 0,
        "selection must follow (pid, start_time) to postgres's new index"
    );
}

#[test]
fn filter_active_typing_accumulates_to_ports_view_filter() {
    let mut app = test_app();
    populate_ports_and_focus(&mut app, vec![make_port("tcp", 8080, 100, "nginx", None)]);
    app.handle_event(AppEvent::StdinChunk(b"/".to_vec()), NOW);
    assert!(app.ports.ports.filter_active);
    app.handle_event(AppEvent::StdinChunk(b"ngi".to_vec()), NOW);
    assert_eq!(app.ports.ports.filter, "ngi");
    app.handle_event(AppEvent::StdinChunk(b"\x7f".to_vec()), NOW); // backspace
    assert_eq!(app.ports.ports.filter, "ng");
    app.handle_event(AppEvent::StdinChunk(b"\r".to_vec()), NOW);
    assert!(!app.ports.ports.filter_active);
    assert_eq!(app.ports.ports.filter, "ng");
}

#[test]
fn esc_clears_ports_filter_and_deactivates() {
    let mut app = test_app();
    populate_ports_and_focus(&mut app, vec![make_port("tcp", 8080, 100, "nginx", None)]);
    app.handle_event(AppEvent::StdinChunk(b"/".to_vec()), NOW);
    app.handle_event(AppEvent::StdinChunk(b"xyz".to_vec()), NOW);
    assert_eq!(app.ports.ports.filter, "xyz");
    app.handle_event(AppEvent::StdinChunk(b"\x1b".to_vec()), NOW); // Esc
    assert!(!app.ports.ports.filter_active);
    assert_eq!(app.ports.ports.filter, "");
}

#[test]
fn ports_filter_narrows_visible_rows_and_reanchors_selection() {
    let mut app = test_app();
    populate_ports_and_focus(
        &mut app,
        vec![
            make_port("tcp", 3000, 200, "web", None),
            make_port("tcp", 5432, 300, "postgres", None),
            make_port("tcp", 6379, 400, "redis", None),
        ],
    );
    assert_eq!(app.ports.ports.visible_count(), 3);
    app.handle_event(AppEvent::StdinChunk(b"/".to_vec()), NOW);
    app.handle_event(AppEvent::StdinChunk(b"post".to_vec()), NOW);
    assert_eq!(app.ports.ports.visible_count(), 1);
}

#[test]
fn ports_focused_stdin_routes_to_ports_key_handler_not_send_input() {
    let mut app = test_app();
    populate_ports_and_focus(
        &mut app,
        vec![
            make_port("tcp", 3000, 200, "web", None),
            make_port("tcp", 5432, 300, "postgres", None),
        ],
    );
    let actions = app.handle_event(AppEvent::StdinChunk(b"j".to_vec()), NOW);
    let send_input_count = actions
        .iter()
        .filter(|a| {
            matches!(
                a,
                AppAction::SendEnvelope(env)
                    if matches!(&env.payload, Payload::SendInput { .. })
            )
        })
        .count();
    assert_eq!(send_input_count, 0, "j in Ports must not become SendInput");
    assert_eq!(app.ports.ports.selection, 1);
}
