use tepegoz_tui::event::AppEvent;
use tepegoz_tui::input::{is_csi_final, is_csi_param_or_intermediate, InputAction, InputFilter};
use tepegoz_tui::keys::{ScopeKey, ScopeKeyParser};
use tepegoz_tui::mouse::{parse_sgr_params, MouseParser};

fn forwarded(actions: &[InputAction]) -> Vec<u8> {
    let mut out = Vec::new();
    for a in actions {
        if let InputAction::Forward(v) = a {
            out.extend_from_slice(v);
        }
    }
    out
}

#[test]
fn nothing_follows_a_control_action_in_its_chunk() {
    let mut f = InputFilter::new();
    let a = f.process(b"abc\x02dtail");
    assert_eq!(a.len(), 2);
    assert!(matches!(&a[0], InputAction::Forward(v) if v == b"abc"));
    assert!(matches!(&a[1], InputAction::Detach));
    let b = f.process(b"next");
    assert_eq!(forwarded(&b), b"next");
}

#[test]
fn filter_loses_no_byte_without_a_control_action() {
    let mut f = InputFilter::new();
    let chunks: [&[u8]; 4] = [b"ab\x02", b"\x02x\x1b[", b"1;5", b"Hq"];
    let mut out = Vec::new();
    for c in chunks {
        out.extend_from_slice(&forwarded(&f.process(c)));
    }
    assert_eq!(out, b"ab\x02\x02x\x1b[1;5Hq");
}

#[test]
fn filter_gives_the_same_for_split_and_whole_chunks() {
    let whole = forwarded(&InputFilter::new().process(b"one\x1b[5~two"));
    let mut f = InputFilter::new();
    let mut parts = forwarded(&f.process(b"one\x1b[5"));
    parts.extend_from_slice(&forwarded(&f.process(b"~two")));
    assert_eq!(whole, parts);
    assert_eq!(whole, b"one\x1b[5~two");
}

#[test]
fn csi_bytes_are_told_apart() {
    assert!(is_csi_final(b'@') && is_csi_final(b'~') && is_csi_final(b'Z'));
    assert!(!is_csi_final(b'?') && !is_csi_final(0x7f));
    assert!(is_csi_param_or_intermediate(b'0') && is_csi_param_or_intermediate(b' '));
    assert!(!is_csi_param_or_intermediate(b'@') && !is_csi_param_or_intermediate(0x1f));
}

#[test]
fn scope_keys_of_plain_bytes() {
    let mut p = ScopeKeyParser::default();
    let keys = p.parse(b"jkgG/\r\n\x7f\x08x");
    assert_eq!(keys.len(), 10);
    assert!(matches!(keys[5], ScopeKey::Enter));
    assert!(matches!(keys[7], ScopeKey::Backspace));
    assert!(matches!(keys[8], ScopeKey::Backspace));
    assert!(matches!(keys[9], ScopeKey::Char(b'x')));
}

#[test]
fn scope_keys_may_be_cut_inside_a_sequence() {
    let mut whole = ScopeKeyParser::default();
    let all = whole.parse(b"a\x1b[5~b");
    let mut cut = ScopeKeyParser::default();
    let mut parts = cut.parse(b"a\x1b[");
    parts.extend(cut.parse(b"5~b"));
    assert_eq!(format!("{all:?}"), format!("{parts:?}"));
    assert!(matches!(all[1], ScopeKey::PgUp));
}

#[test]
fn a_lone_escape_is_a_key_at_the_end_of_its_chunk() {
    let mut p = ScopeKeyParser::default();
    let keys = p.parse(b"\x1b");
    assert!(matches!(keys[..], [ScopeKey::Escape]));
}

#[test]
fn mouse_reports_may_be_cut_anywhere() {
    let input = b"x\x1b[<0;11;6My\x1b[<35;2;9Mz";
    let (bytes, events) = MouseParser::new().parse(input);
    for cut in 0..input.len() {
        let mut p = MouseParser::new();
        let (mut b, mut e) = p.parse(&input[..cut]);
        let (b2, e2) = p.parse(&input[cut..]);
        b.extend_from_slice(&b2);
        e.extend(e2);
        assert_eq!(b, bytes, "cut at {cut}");
        assert_eq!(format!("{e:?}"), format!("{events:?}"), "cut at {cut}");
    }
    assert_eq!(bytes, b"xyz");
    assert_eq!(events.len(), 2);
}

#[test]
fn sgr_parameters_are_read_exactly() {
    assert!(matches!(
        parse_sgr_params(b"0;1;1", true),
        Some(AppEvent::MouseClick { x: 0, y: 0 })
    ));
    assert!(matches!(
        parse_sgr_params(b"35;80;24", true),
        Some(AppEvent::MouseHover { x: 79, y: 23 })
    ));
    assert!(parse_sgr_params(b"0;1;1", false).is_none());
    assert!(parse_sgr_params(b"0;1", true).is_none());
    assert!(parse_sgr_params(b"", true).is_none());
}

#[test]
fn only_a_bare_left_press_clicks() {
    for params in ["1;1;1", "2;1;1", "4;1;1", "8;1;1", "16;1;1", "64;1;1", "128;1;1"] {
        assert!(parse_sgr_params(params.as_bytes(), true).is_none(), "{params}");
    }
    assert!(matches!(
        parse_sgr_params(b"36;3;4", true),
        Some(AppEvent::MouseHover { x: 2, y: 3 })
    ));
}

#[test]
fn report_fields_are_digits_alone() {
    for params in ["+0;1;1", "0;+1;1", "0;1;+1", "0;;1", "0; 1;1", "-0;1;1"] {
        assert!(parse_sgr_params(params.as_bytes(), true).is_none(), "{params}");
    }
}

#[test]
fn a_report_right_behind_an_escape_is_taken_out() {
    for (before, input) in [
        (&b"\x1b"[..], &b"\x1b\x1b[<0;1;1M"[..]),
        (b"\x1b[", b"\x1b[\x1b[<0;1;1M"),
        (b"\x1b\x1b", b"\x1b\x1b\x1b[<0;1;1M"),
    ] {
        let mut p = MouseParser::new();
        let (out, events) = p.parse(input);
        assert_eq!(out, before);
        assert_eq!(events.len(), 1);
        assert!(matches!(events[0], AppEvent::MouseClick { x: 0, y: 0 }));
    }
}

#[test]
fn a_prefix_may_be_cut_from_its_command() {
    for input in [&b"ab\x02jcd"[..], b"\x02\x02\x02d", b"x\x02\x1b[Ay"] {
        let whole = InputFilter::new().process(input);
        for cut in 0..input.len() {
            if input[..cut].ends_with(b"\x1b") {
                continue;
            }
            let mut f = InputFilter::new();
            let mut parts = f.process(&input[..cut]);
            let ended = parts.iter().any(|a| !matches!(a, InputAction::Forward(_)));
            if ended {
                continue;
            }
            parts.extend(f.process(&input[cut..]));
            assert_eq!(forwarded(&parts), forwarded(&whole), "cut at {cut}");
            assert_eq!(
                format!("{:?}", parts.last()).starts_with("Some(Forward"),
                format!("{:?}", whole.last()).starts_with("Some(Forward"),
            );
        }
    }
}
