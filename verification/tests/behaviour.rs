use tepegoz_tui::app::{fits_terminal, App};
use tepegoz_tui::docker::DockerView;
use tepegoz_tui::event::{AppAction, AppEvent, ToastKind};
use tepegoz_tui::fleet::FleetScopeState;
use tepegoz_tui::geometry::{FocusDir, Rect};
use tepegoz_tui::keys::ScopeKey;
use tepegoz_tui::model::MAX_TOASTS;
use tepegoz_tui::ports::PortsActiveView;
use tepegoz_tui::proto::{
    DockerActionKind, DockerActionOutcome, DockerActionResult, DockerContainer, Envelope, Event,
    EventFrame, HostEntry, HostState, Payload, ProbePort, Subscription,
};
use tepegoz_tui::pty::TermColor;
use tepegoz_tui::tile::{TileId, TileLayout};

const NOW: u64 = 1_000_000;

fn container(name: &str) -> DockerContainer {
    DockerContainer {
        id: format!("id-{name}"),
        names: vec![format!("/{name}")],
        image: "img".into(),
        image_id: "sha256:1".into(),
        command: "cmd".into(),
        created_unix_secs: 0,
        state: "running".into(),
        status: "Up".into(),
        ports: Vec::new(),
        labels: Vec::new(),
    }
}

fn event(app: &mut App, sub: u64, event: Event) -> Vec<AppAction> {
    let payload = Payload::Event(EventFrame { subscription_id: sub, event });
    app.handle_event(AppEvent::DaemonEnvelope(Envelope { payload }), NOW)
}

fn typed(app: &mut App, bytes: &[u8]) -> Vec<AppAction> {
    app.handle_event(AppEvent::StdinChunk(bytes.to_vec()), NOW)
}

/// An application with the given containers and the Docker tile focused.
fn docker_app(names: &[&str]) -> App {
    let mut app = App::new(7, (40, 120));
    let sub = app.docker.sub_id;
    let containers = names.iter().map(|n| container(n)).collect();
    event(&mut app, sub, Event::ContainerList { containers, engine_source: "t".into() });
    typed(&mut app, b"\x02j");
    assert_eq!(app.view.focused, TileId::Docker);
    app
}

fn requests(actions: &[AppAction]) -> Vec<(u64, DockerActionKind)> {
    actions
        .iter()
        .filter_map(|a| match a {
            AppAction::SendEnvelope(e) => match &e.payload {
                Payload::DockerAction(r) => Some((r.request_id, r.kind)),
                _ => None,
            },
            _ => None,
        })
        .collect()
}

#[test]
fn ids_grow_and_are_never_reused() {
    let mut app = docker_app(&["a", "b"]);
    let mut seen = Vec::new();
    for keys in [&b"r"[..], b"rs", b"K", b"y", b"l", b"q", b"r"] {
        let before = app.next_sub_id;
        for a in typed(&mut app, keys) {
            if let AppAction::SendEnvelope(e) = a {
                let id = match e.payload {
                    Payload::DockerAction(r) => r.request_id,
                    Payload::Subscribe(Subscription::DockerLogs { id, .. }) => id,
                    _ => continue,
                };
                assert!(id >= before && id < app.next_sub_id);
                seen.push(id);
            }
        }
    }
    assert_eq!(seen.len(), 6);
    assert!(seen.windows(2).all(|w| w[0] < w[1]));
}

#[test]
fn a_kill_typed_at_once_is_still_confirmed() {
    let mut app = docker_app(&["a"]);
    let kinds: Vec<DockerActionKind> =
        requests(&typed(&mut app, b"Ky")).iter().map(|r| r.1).collect();
    assert_eq!(kinds, vec![DockerActionKind::Kill]);
    assert!(requests(&typed(&mut app, b"Kn")).is_empty());
    assert!(requests(&typed(&mut app, b"y")).is_empty());
    assert!(requests(&typed(&mut app, b"KXKX")).is_empty());
    assert_eq!(requests(&typed(&mut app, b"Y"))[0].1, DockerActionKind::Kill);
}

#[test]
fn nothing_but_typing_acts_on_containers() {
    let mut app = docker_app(&["a"]);
    typed(&mut app, b"K");
    let sub = app.docker.sub_id;
    let list = Event::ContainerList { containers: vec![container("b")], engine_source: "t".into() };
    let mut all = event(&mut app, sub, list);
    all.extend(app.handle_event(AppEvent::MouseClick { x: 1, y: 30 }, NOW));
    all.extend(app.handle_event(AppEvent::MouseHover { x: 60, y: 30 }, NOW));
    all.extend(app.handle_event(AppEvent::Resize { rows: 50, cols: 150 }, NOW));
    all.extend(app.handle_event(AppEvent::Tick, NOW + 60_000));
    assert!(requests(&all).is_empty());
}

#[test]
fn a_prompt_stays_on_its_container_while_the_list_changes() {
    let mut app = docker_app(&["a", "b"]);
    typed(&mut app, b"jK");
    let sub = app.docker.sub_id;
    let list = Event::ContainerList {
        containers: vec![container("z"), container("b"), container("a")],
        engine_source: "t".into(),
    };
    event(&mut app, sub, list);
    let pending = app.docker.pending_confirm.as_ref().unwrap();
    assert_eq!(pending.container_id, "id-b");
}

#[test]
fn answers_settle_their_actions() {
    let mut app = docker_app(&["a"]);
    let (id, kind) = requests(&typed(&mut app, b"s"))[0];
    let result = DockerActionResult {
        request_id: id,
        container_id: "id-a".into(),
        kind,
        outcome: DockerActionOutcome::Success,
    };
    let payload = Payload::DockerActionResult(result);
    app.handle_event(AppEvent::DaemonEnvelope(Envelope { payload }), NOW);
    assert!(app.pending_actions.is_empty());
    assert_eq!(app.toasts.back().unwrap().message, "Stop a — succeeded");
}

#[test]
fn a_sweep_leaves_what_is_in_time() {
    let mut app = docker_app(&["a"]);
    typed(&mut app, b"r");
    let mut actions = Vec::new();
    app.sweep_expired(NOW + 29_999, &mut actions);
    assert_eq!(app.pending_actions.len(), 1);
    app.handle_event(AppEvent::StdinChunk(b"s".to_vec()), NOW + 20_000);
    app.sweep_expired(NOW + 30_000, &mut actions);
    assert_eq!(app.pending_actions.len(), 1);
    assert_eq!(app.toasts.back().unwrap().kind, ToastKind::Error);
    let ids: Vec<u64> = app.pending_actions.keys().copied().collect();
    app.sweep_in_order(NOW + 60_000, &ids, &mut actions);
    assert!(app.pending_actions.is_empty());
}

#[test]
fn toasts_stay_few_and_the_newest_is_shown() {
    let mut app = App::new(7, (40, 120));
    let mut actions = Vec::new();
    for i in 0..10 {
        app.push_toast_at(NOW + i, ToastKind::Info, format!("m{i}"), &mut actions);
        assert!(app.toasts.len() <= MAX_TOASTS);
        assert_eq!(app.toasts.back().unwrap().message, format!("m{i}"));
    }
}

#[test]
fn logs_open_and_close_their_own_subscription() {
    let mut app = docker_app(&["a"]);
    let opened: Vec<u64> = typed(&mut app, b"l")
        .iter()
        .filter_map(|a| match a {
            AppAction::SendEnvelope(e) => match e.payload {
                Payload::Subscribe(Subscription::DockerLogs { id, .. }) => Some(id),
                _ => None,
            },
            _ => None,
        })
        .collect();
    let closed: Vec<u64> = typed(&mut app, b"q")
        .iter()
        .filter_map(|a| match a {
            AppAction::SendEnvelope(e) => match e.payload {
                Payload::Unsubscribe { id } => Some(id),
                _ => None,
            },
            _ => None,
        })
        .collect();
    assert_eq!(opened.len(), 1);
    assert_eq!(opened, closed);
    assert!(matches!(app.docker.view, DockerView::List));
}

#[test]
fn tab_is_typed_into_a_focused_shell_and_cycles_elsewhere() {
    let mut app = App::new(7, (40, 120));
    let sent = typed(&mut app, b"\t");
    assert!(matches!(
        &sent[..],
        [AppAction::SendEnvelope(Envelope { payload: Payload::SendInput { data, .. } })]
            if data == b"\t"
    ));
    assert_eq!(app.view.focused, TileId::Pty);
    typed(&mut app, b"\x02j");
    let mut order = Vec::new();
    for _ in 0..3 {
        typed(&mut app, b"\t");
        order.push(app.view.focused);
    }
    assert_eq!(order, vec![TileId::Ports, TileId::Fleet, TileId::ClaudeCode]);
    typed(&mut app, b"\x1b[Z");
    assert_eq!(app.view.focused, TileId::Fleet);
}

#[test]
fn clicks_focus_and_hovering_does_not() {
    let mut app = App::new(7, (40, 120));
    let ports = app.view.layout.rect_of(TileId::Ports).unwrap();
    app.handle_event(AppEvent::MouseHover { x: ports.x, y: ports.y }, NOW);
    assert_eq!((app.view.focused, app.view.hovered), (TileId::Pty, Some(TileId::Ports)));
    app.handle_event(AppEvent::MouseClick { x: ports.x, y: ports.y }, NOW);
    assert_eq!(app.view.focused, TileId::Ports);
    assert!(app.handle_event(AppEvent::MouseClick { x: 500, y: 500 }, NOW).is_empty());
}

#[test]
fn a_view_switched_twice_is_as_it_was() {
    let mut app = App::new(7, (40, 120));
    let sub = app.ports.ports_sub_id;
    let port = |n: u16| ProbePort {
        local_ip: "0.0.0.0".into(),
        local_port: n,
        protocol: "tcp".into(),
        pid: n as u32,
        process_name: "p".into(),
        container_id: None,
        partial: false,
    };
    let list = Event::PortList { ports: vec![port(1), port(2)], source: "t".into() };
    event(&mut app, sub, list);
    typed(&mut app, b"\x02j");
    typed(&mut app, b"\x02l");
    typed(&mut app, b"j");
    typed(&mut app, b"p");
    assert_eq!(app.ports.active, PortsActiveView::Processes);
    typed(&mut app, b"p");
    assert_eq!(app.ports.active, PortsActiveView::Ports);
    assert_eq!(app.ports.ports.selection, 1);
}

#[test]
fn known_hosts_keep_their_state_over_a_refresh() {
    let mut app = App::new(7, (40, 120));
    let sub = app.fleet.sub_id;
    let host = |alias: &str| HostEntry {
        alias: alias.into(),
        hostname: "h".into(),
        user: "u".into(),
        port: 22,
        identity_files: vec![],
        proxy_jump: None,
    };
    let early = Event::HostStateChanged { alias: "a".into(), state: HostState::Connected };
    assert!(event(&mut app, sub, early.clone()).is_empty());
    event(&mut app, sub, Event::HostList { hosts: vec![host("a")], source: "s".into() });
    event(&mut app, sub, early);
    let hosts = vec![host("b"), host("a")];
    event(&mut app, sub, Event::HostList { hosts, source: "s".into() });
    match &app.fleet.state {
        FleetScopeState::Available { states, .. } => {
            assert_eq!(states.get("a"), Some(&HostState::Connected));
            assert_eq!(states.get("b"), Some(&HostState::Disconnected));
        }
        FleetScopeState::Connecting => panic!("expected a list"),
    }
}

#[test]
fn every_cell_belongs_to_exactly_one_tile() {
    for (w, h) in [(80, 24), (81, 25), (120, 40), (200, 61), (60, 20)] {
        let layout = TileLayout::default_for(Rect::new(0, 0, w, h));
        for x in 0..w {
            for y in 0..h {
                let n = layout.tiles.iter().filter(|t| t.rect.contains(x, y)).count();
                assert_eq!(n, 1, "cell {x},{y} of {w}x{h}");
            }
        }
        assert!(layout.tile_at(w, 0).is_none() && layout.tile_at(0, h).is_none());
    }
}

#[test]
fn cycling_back_undoes_cycling_forward() {
    let layout = TileLayout::default_for(Rect::new(0, 0, 120, 40));
    for id in [TileId::Pty, TileId::Docker, TileId::Ports, TileId::Fleet, TileId::ClaudeCode] {
        let next = layout.cycle_focus(id, true).unwrap();
        assert_eq!(layout.cycle_focus(next, false), Some(id));
        for dir in [FocusDir::Left, FocusDir::Right, FocusDir::Up, FocusDir::Down] {
            assert_ne!(layout.next_focus(id, dir), Some(id));
        }
    }
}

#[test]
fn the_pane_gets_the_size_of_its_tile() {
    let mut app = App::new(7, (40, 120));
    for (rows, cols) in [(24, 80), (60, 200), (10, 10)] {
        let actions = app.handle_event(AppEvent::Resize { rows, cols }, NOW);
        let (r, c) = match app.view.layout.rect_of(TileId::Pty) {
            Some(rect) => (rect.height, rect.width),
            None => tepegoz_tui::app::pty_tile_dims(&app.view.layout),
        };
        assert!(matches!(
            &actions[0],
            AppAction::SendEnvelope(Envelope {
                payload: Payload::ResizePane { rows, cols, .. }
            }) if (*rows, *cols) == (r, c)
        ));
        assert!(app.pty_parser.cell(r - 1, c - 1).is_some());
        assert!(app.pty_parser.cell(r, 0).is_none());
    }
}

#[test]
fn the_cursor_follows_its_row_over_a_refresh() {
    let mut app = App::new(7, (40, 120));
    let sub = app.fleet.sub_id;
    let list = |names: &[&str]| Event::HostList {
        hosts: names
            .iter()
            .map(|alias| HostEntry {
                alias: alias.to_string(),
                hostname: "h".into(),
                user: "u".into(),
                port: 22,
                identity_files: vec![],
                proxy_jump: None,
            })
            .collect(),
        source: "s".into(),
    };
    event(&mut app, sub, list(&["a", "b", "c"]));
    app.fleet.selection = 1;
    event(&mut app, sub, list(&["z", "y", "c", "b"]));
    assert_eq!(app.fleet.selection, 3);
    event(&mut app, sub, list(&["z", "y"]));
    assert_eq!(app.fleet.selection, 1);
}

#[test]
fn the_container_cursor_stays_on_the_list() {
    let mut app = docker_app(&["a", "b", "c"]);
    typed(&mut app, b"jj");
    let sub = app.docker.sub_id;
    let containers = vec![container("z"), container("c")];
    event(&mut app, sub, Event::ContainerList { containers, engine_source: "t".into() });
    assert_eq!(app.docker.selection, 1);
    event(&mut app, sub, Event::ContainerList { containers: vec![], engine_source: "t".into() });
    assert_eq!(app.docker.selection, 0);
}

#[test]
fn a_prompt_goes_when_the_focus_leaves() {
    for keys in [&b"\x02k"[..], b"\x02l", b"\t", b"\x1b[Z"] {
        let mut app = docker_app(&["a"]);
        typed(&mut app, b"K");
        assert!(app.docker.pending_confirm.is_some());
        typed(&mut app, keys);
        assert!(app.view.focused != TileId::Docker);
        assert!(app.docker.pending_confirm.is_none());
    }
    let mut app = docker_app(&["a"]);
    typed(&mut app, b"K\x02h");
    assert_eq!(app.view.focused, TileId::Docker);
    assert!(app.docker.pending_confirm.is_some());
}

#[test]
fn terminals_beyond_the_grid_are_told_apart() {
    assert!(fits_terminal(24, 80) && fits_terminal(10, 10) && fits_terminal(200, 400));
    assert!(!fits_terminal(40_000, 120));
    assert!(!fits_terminal(40, 65_535));
    let app = App::new(7, (40, 120));
    assert!(app.accepts(&AppEvent::Resize { rows: 50, cols: 150 }, NOW));
    assert!(!app.accepts(&AppEvent::Resize { rows: 40_000, cols: 150 }, NOW));
    assert!(app.accepts(&AppEvent::StdinChunk(b"abc".to_vec()), NOW));
    assert!(!app.accepts(&AppEvent::Tick, u64::MAX));
}

#[test]
fn a_prompt_goes_when_the_screen_gets_too_small() {
    let mut app = docker_app(&["a"]);
    typed(&mut app, b"K");
    app.handle_event(AppEvent::Resize { rows: 50, cols: 150 }, NOW);
    assert!(app.docker.pending_confirm.is_some());
    app.handle_event(AppEvent::Resize { rows: 10, cols: 40 }, NOW);
    assert_eq!(app.view.focused, TileId::TooSmall);
    assert!(app.docker.pending_confirm.is_none());
}

#[test]
fn a_prompt_is_open_only_over_the_list() {
    let mut app = docker_app(&["a"]);
    typed(&mut app, b"Kl");
    assert!(matches!(app.docker.view, DockerView::List));
    typed(&mut app, b"lK");
    assert!(matches!(app.docker.view, DockerView::Logs(_)));
    assert!(app.docker.pending_confirm.is_none());
}

fn print(app: &mut App, data: &str) {
    let sub = app.pane_sub;
    event(app, sub, Event::PaneOutput { data: data.as_bytes().to_vec() });
}

fn cell(app: &App, row: u16, col: u16) -> String {
    app.pty_parser.cell(row, col).unwrap().contents
}

#[test]
fn narrowing_keeps_the_first_half_of_a_cut_character() {
    let mut app = App::new(7, (40, 120));
    print(&mut app, "\x1b[1;119H世\x1b[2;118H世z\x1b[3;119Hxy\x1b[7;9H");
    assert!(app.pty_parser.is_whole());
    app.handle_event(AppEvent::Resize { rows: 40, cols: 119 }, NOW);
    assert_eq!(cell(&app, 0, 118), "世");
    assert_eq!(cell(&app, 1, 117), "世");
    assert_eq!(cell(&app, 2, 118), "x");
    assert!(!app.pty_parser.is_whole());
    print(&mut app, "a");
    assert_eq!(cell(&app, 6, 8), "a");
    assert_eq!(cell(&app, 0, 118), "世");
}

#[test]
fn output_is_tried_only_on_whole_screens() {
    let mut app = App::new(7, (40, 120));
    let sub = app.pane_sub;
    let output = |data: &str| {
        let event = Event::PaneOutput { data: data.as_bytes().to_vec() };
        let payload = Payload::Event(EventFrame { subscription_id: sub, event });
        AppEvent::DaemonEnvelope(Envelope { payload })
    };
    assert!(app.try_handle_event(output("\x1b[1;119H世\x1b[5;6H"), NOW).is_some());
    assert!(app.try_handle_event(AppEvent::Resize { rows: 40, cols: 119 }, NOW).is_some());
    assert!(app.try_handle_event(output("\x1b[1;119Hx"), NOW).is_none());
    assert_eq!(cell(&app, 0, 118), "世");
    assert!(app.try_handle_event(AppEvent::Tick, NOW).is_some());
    assert!(app.try_handle_event(AppEvent::Tick, u64::MAX).is_none());
    app.handle_event(output("\x1b[2J"), NOW);
    assert!(app.try_handle_event(output("\x1b[1;119Hx"), NOW).is_some());
    assert_eq!(cell(&app, 0, 118), "x");
}

#[test]
fn the_screen_out_of_view_counts_too() {
    let mut app = App::new(7, (40, 120));
    print(&mut app, "shell\x1b[1;119H世\x1b[5;6H\x1b[?1049hvi\x1b[4;3H\x1b[3");
    assert!(app.pty_parser.is_whole());
    app.handle_event(AppEvent::Resize { rows: 40, cols: 119 }, NOW);
    assert!(!app.pty_parser.is_whole());
    print(&mut app, "1mq");
    assert_eq!(cell(&app, 0, 0), "v");
    let shown = app.pty_parser.cell(3, 2).unwrap();
    assert_eq!((shown.contents.as_str(), shown.fg), ("q", TermColor::Idx(1)));
    print(&mut app, "\x1b[?1049l");
    assert_eq!(cell(&app, 0, 118), "世");
    assert!(!app.pty_parser.is_whole());
}

#[test]
fn a_key_in_the_docker_tile_destroys_only_what_was_confirmed() {
    let mut app = docker_app(&["a", "b"]);
    let mut actions = Vec::new();
    for key in [ScopeKey::Char(b'j'), ScopeKey::Char(b'X'), ScopeKey::Char(b'K')] {
        app.handle_scope_key(key, NOW, &mut actions);
    }
    assert!(requests(&actions).is_empty());
    app.handle_scope_key(ScopeKey::Char(b'Y'), NOW, &mut actions);
    let kinds: Vec<DockerActionKind> = requests(&actions).iter().map(|r| r.1).collect();
    assert_eq!(kinds, vec![DockerActionKind::Remove]);
    assert_eq!(app.docker.selection, 1);
}
