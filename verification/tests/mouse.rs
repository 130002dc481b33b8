use tepegoz_tui::event::AppEvent;
use tepegoz_tui::mouse::MouseParser;

#[test]
fn idle_bytes_pass_through_unchanged() {
    let mut p = MouseParser::new();
    let (out, events) = p.parse(b"ls -la\n");
    assert_eq!(out, b"ls -la\n");
    assert!(events.is_empty());
}

#[test]
fn sgr_left_click_emits_mouse_click_with_zero_indexed_coords() {
    let mut p = MouseParser::new();
    let (out, events) = p.parse(b"\x1b[<0;11;6M");
    assert!(out.is_empty(), "mouse bytes must be stripped");
    assert_eq!(events.len(), 1);
    assert!(matches!(
        &events[0],
        AppEvent::MouseClick { x, y } if *x == 10 && *y == 5
    ));
}

#[test]
fn sgr_motion_emits_mouse_hover() {
    let mut p = MouseParser::new();
    let (_out, events) = p.parse(b"\x1b[<32;3;4M");
    assert_eq!(events.len(), 1);
    assert!(matches!(
        &events[0],
        AppEvent::MouseHover { x, y } if *x == 2 && *y == 3
    ));
}

#[test]
fn sgr_left_release_is_ignored() {
    let mut p = MouseParser::new();
    let (out, events) = p.parse(b"\x1b[<0;10;5m");
    assert!(out.is_empty());
    assert!(events.is_empty());
}

#[test]
fn sgr_right_click_is_ignored() {
    let mut p = MouseParser::new();
    let (_out, events) = p.parse(b"\x1b[<2;5;5M");
    assert!(events.is_empty());
}

#[test]
fn sgr_wheel_event_is_ignored() {
    let mut p = MouseParser::new();
    let (_out, events) = p.parse(b"\x1b[<64;5;5M");
    assert!(events.is_empty());
}

#[test]
fn non_sgr_csi_flushes_raw_for_input_filter() {
    let mut p = MouseParser::new();
    let (out, events) = p.parse(b"\x1b[Z");
    assert_eq!(out, b"\x1b[Z");
    assert!(events.is_empty());
}

#[test]
fn bare_escape_flushes_when_non_bracket_follows() {
    let mut p = MouseParser::new();
    let (out, events) = p.parse(b"\x1ba");
    assert_eq!(out, b"\x1ba");
    assert!(events.is_empty());
}

#[test]
fn sgr_click_split_across_chunks() {
    let mut p = MouseParser::new();
    let (out1, events1) = p.parse(b"\x1b[<");
    assert!(out1.is_empty());
    assert!(events1.is_empty());
    let (out2, events2) = p.parse(b"0;7;3M");
    assert!(out2.is_empty());
    assert_eq!(events2.len(), 1);
    assert!(matches!(
        &events2[0],
        AppEvent::MouseClick { x, y } if *x == 6 && *y == 2
    ));
}

#[test]
fn bytes_around_sgr_sequence_are_preserved() {
    let mut p = MouseParser::new();
    let (out, events) = p.parse(b"foo\x1b[<0;1;1Mbar");
    assert_eq!(out, b"foobar");
    assert_eq!(events.len(), 1);
    assert!(matches!(&events[0], AppEvent::MouseClick { x: 0, y: 0 }));
}

#[test]
fn malformed_sgr_params_drop_silently() {
    let mut p = MouseParser::new();
    let (out, events) = p.parse(b"\x1b[<notdigits;;;M");
    assert!(out.is_empty());
    assert!(events.is_empty());
}

#[test]
fn coords_greater_than_u16_max_drop() {
    let mut p = MouseParser::new();
    let huge = format!("\x1b[<0;{};{}M", u32::MAX, u32::MAX);
    let (_out, events) = p.parse(huge.as_bytes());
    assert!(events.is_empty(), "coords outside u16 range must drop");
}
