use tepegoz_tui::geometry::{FocusDir, Rect};
use tepegoz_tui::tile::{ScopeKind, TileId, TileKind, TileLayout, CLAUDE_ROWS, MIN_COLS, MIN_ROWS};

#[test]
fn default_layout_at_120x40_has_five_tiles_in_god_view_shape() {
    let area = Rect::new(0, 0, 120, 40);
    let layout = TileLayout::default_for(area);
    assert_eq!(layout.tiles.len(), 5);
    assert_eq!(layout.default_focus, TileId::Pty);

    let pty = layout.rect_of(TileId::Pty).unwrap();
    let docker = layout.rect_of(TileId::Docker).unwrap();
    let ports = layout.rect_of(TileId::Ports).unwrap();
    let fleet = layout.rect_of(TileId::Fleet).unwrap();
    let cc = layout.rect_of(TileId::ClaudeCode).unwrap();

    assert_eq!(pty.x, 0);
    assert_eq!(pty.y, 0);
    assert_eq!(pty.width, 120);

    assert_eq!(docker.y, pty.y + pty.height);
    assert_eq!(ports.y, docker.y);
    assert_eq!(fleet.y, docker.y);
    assert_eq!(docker.x, 0);
    assert_eq!(ports.x, docker.x + docker.width);
    assert_eq!(fleet.x, ports.x + ports.width);
    assert_eq!(docker.width + ports.width + fleet.width, 120);

    assert_eq!(cc.x, 0);
    assert_eq!(cc.width, 120);
    assert_eq!(cc.height, CLAUDE_ROWS);
    assert_eq!(cc.y + cc.height, 40);
}

#[test]
fn tiny_terminal_falls_back_to_single_too_small_tile() {
    let area = Rect::new(0, 0, 60, 20);
    let layout = TileLayout::default_for(area);
    assert_eq!(layout.tiles.len(), 1);
    assert_eq!(layout.default_focus, TileId::TooSmall);
    assert!(matches!(layout.tiles[0].kind, TileKind::TooSmall));
    assert_eq!(layout.tiles[0].rect, area);
}

#[test]
fn just_at_minimum_size_still_renders_full_god_view() {
    let area = Rect::new(0, 0, MIN_COLS, MIN_ROWS);
    let layout = TileLayout::default_for(area);
    assert_eq!(layout.tiles.len(), 5);
}

#[test]
fn focus_down_from_pty_lands_on_docker() {
    let layout = TileLayout::default_for(Rect::new(0, 0, 120, 40));
    let next = layout.next_focus(TileId::Pty, FocusDir::Down).unwrap();
    assert_eq!(
        next,
        TileId::Docker,
        "down from the full-width PTY biases toward Docker (left-aligned) \
         rather than Ports (centered) — matches 'down goes to the live scope'"
    );
}

#[test]
fn focus_up_from_docker_returns_pty() {
    let layout = TileLayout::default_for(Rect::new(0, 0, 120, 40));
    assert_eq!(
        layout.next_focus(TileId::Docker, FocusDir::Up),
        Some(TileId::Pty)
    );
}

#[test]
fn focus_right_from_docker_returns_ports() {
    let layout = TileLayout::default_for(Rect::new(0, 0, 120, 40));
    assert_eq!(
        layout.next_focus(TileId::Docker, FocusDir::Right),
        Some(TileId::Ports)
    );
}

#[test]
fn focus_right_from_ports_returns_fleet() {
    let layout = TileLayout::default_for(Rect::new(0, 0, 120, 40));
    assert_eq!(
        layout.next_focus(TileId::Ports, FocusDir::Right),
        Some(TileId::Fleet)
    );
}

#[test]
fn focus_left_from_fleet_returns_ports() {
    let layout = TileLayout::default_for(Rect::new(0, 0, 120, 40));
    assert_eq!(
        layout.next_focus(TileId::Fleet, FocusDir::Left),
        Some(TileId::Ports)
    );
}

#[test]
fn focus_down_from_docker_returns_claude_code() {
    let layout = TileLayout::default_for(Rect::new(0, 0, 120, 40));
    assert_eq!(
        layout.next_focus(TileId::Docker, FocusDir::Down),
        Some(TileId::ClaudeCode)
    );
}

#[test]
fn focus_up_from_claude_code_returns_docker() {
    let layout = TileLayout::default_for(Rect::new(0, 0, 120, 40));
    assert_eq!(
        layout.next_focus(TileId::ClaudeCode, FocusDir::Up),
        Some(TileId::Docker),
        "up from full-width ClaudeCode picks leftmost scope tile"
    );
}

#[test]
fn focus_up_from_pty_returns_none() {
    let layout = TileLayout::default_for(Rect::new(0, 0, 120, 40));
    assert_eq!(layout.next_focus(TileId::Pty, FocusDir::Up), None);
}

#[test]
fn focus_left_from_pty_returns_none() {
    let layout = TileLayout::default_for(Rect::new(0, 0, 120, 40));
    assert_eq!(layout.next_focus(TileId::Pty, FocusDir::Left), None);
    assert_eq!(layout.next_focus(TileId::Pty, FocusDir::Right), None);
}

#[test]
fn focus_down_from_claude_code_returns_none() {
    let layout = TileLayout::default_for(Rect::new(0, 0, 120, 40));
    assert_eq!(layout.next_focus(TileId::ClaudeCode, FocusDir::Down), None);
}

#[test]
fn too_small_tile_never_navigates() {
    let layout = TileLayout::default_for(Rect::new(0, 0, 60, 20));
    for dir in [
        FocusDir::Up,
        FocusDir::Down,
        FocusDir::Left,
        FocusDir::Right,
    ] {
        assert_eq!(layout.next_focus(TileId::TooSmall, dir), None);
    }
}

#[test]
fn routes_to_pty_only_for_pty_tile() {
    let layout = TileLayout::default_for(Rect::new(0, 0, 120, 40));
    assert!(layout.routes_to_pty(TileId::Pty));
    assert!(!layout.routes_to_pty(TileId::Docker));
    assert!(!layout.routes_to_pty(TileId::Ports));
}

#[test]
fn routes_to_scope_returns_scope_kind_only_for_scope_tiles() {
    let layout = TileLayout::default_for(Rect::new(0, 0, 120, 40));
    assert_eq!(
        layout.routes_to_scope(TileId::Docker),
        Some(ScopeKind::Docker)
    );
    assert_eq!(
        layout.routes_to_scope(TileId::Ports),
        Some(ScopeKind::Ports),
        "Phase 4 Slice 4c replaced the Ports placeholder with a real scope"
    );
    assert_eq!(
        layout.routes_to_scope(TileId::Fleet),
        Some(ScopeKind::Fleet),
        "Phase 5 Slice 5b replaced the Fleet placeholder with a real scope"
    );
    assert_eq!(layout.routes_to_scope(TileId::Pty), None);
}
