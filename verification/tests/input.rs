use tepegoz_tui::geometry::FocusDir;
use tepegoz_tui::input::{InputAction, InputFilter, PREFIX_BYTE};

#[test]
fn pass_through_plain_bytes() {
    let mut f = InputFilter::new();
    let a = f.process(b"ls -la\n");
    assert!(matches!(&a[..], [InputAction::Forward(v)] if v == b"ls -la\n"));
}

#[test]
fn ctrl_b_then_d_detaches() {
    let mut f = InputFilter::new();
    let a = f.process(b"\x02d");
    assert!(matches!(&a[..], [InputAction::Detach]));
}

#[test]
fn ctrl_b_then_q_is_not_detach_after_6_0() {
    let mut f = InputFilter::new();
    let a = f.process(b"\x02q");
    assert!(matches!(&a[..], [InputAction::Forward(v)] if v == b"\x02q"));
}

#[test]
fn ctrl_b_then_h_focuses_left() {
    let mut f = InputFilter::new();
    let a = f.process(b"\x02h");
    assert!(matches!(
        &a[..],
        [InputAction::FocusDirection(FocusDir::Left)]
    ));
}

#[test]
fn ctrl_b_then_j_focuses_down() {
    let mut f = InputFilter::new();
    let a = f.process(b"\x02j");
    assert!(matches!(
        &a[..],
        [InputAction::FocusDirection(FocusDir::Down)]
    ));
}

#[test]
fn ctrl_b_then_k_focuses_up() {
    let mut f = InputFilter::new();
    let a = f.process(b"\x02k");
    assert!(matches!(
        &a[..],
        [InputAction::FocusDirection(FocusDir::Up)]
    ));
}

#[test]
fn ctrl_b_then_l_focuses_right() {
    let mut f = InputFilter::new();
    let a = f.process(b"\x02l");
    assert!(matches!(
        &a[..],
        [InputAction::FocusDirection(FocusDir::Right)]
    ));
}

#[test]
fn ctrl_b_then_up_arrow_focuses_up() {
    let mut f = InputFilter::new();
    let a = f.process(b"\x02\x1b[A");
    assert!(matches!(
        &a[..],
        [InputAction::FocusDirection(FocusDir::Up)]
    ));
}

#[test]
fn ctrl_b_then_down_arrow_focuses_down() {
    let mut f = InputFilter::new();
    let a = f.process(b"\x02\x1b[B");
    assert!(matches!(
        &a[..],
        [InputAction::FocusDirection(FocusDir::Down)]
    ));
}

#[test]
fn ctrl_b_then_left_arrow_focuses_left() {
    let mut f = InputFilter::new();
    let a = f.process(b"\x02\x1b[D");
    assert!(matches!(
        &a[..],
        [InputAction::FocusDirection(FocusDir::Left)]
    ));
}

#[test]
fn ctrl_b_then_right_arrow_focuses_right() {
    let mut f = InputFilter::new();
    let a = f.process(b"\x02\x1b[C");
    assert!(matches!(
        &a[..],
        [InputAction::FocusDirection(FocusDir::Right)]
    ));
}

#[test]
fn ctrl_b_then_question_opens_help() {
    let mut f = InputFilter::new();
    let a = f.process(b"\x02?");
    assert!(matches!(&a[..], [InputAction::Help]));
}

#[test]
fn ctrl_b_then_other_forwards_both() {
    let mut f = InputFilter::new();
    let a = f.process(b"\x02x");
    assert!(matches!(&a[..], [InputAction::Forward(v)] if v == b"\x02x"));
}

#[test]
fn ctrl_b_then_esc_then_unknown_forwards_raw() {
    let mut f = InputFilter::new();
    let a = f.process(b"\x02\x1bZ");
    assert!(matches!(&a[..], [InputAction::Forward(v)] if v == b"\x02\x1bZ"));
}

#[test]
fn ctrl_b_csi_unknown_final_forwards_raw() {
    let mut f = InputFilter::new();
    let a = f.process(b"\x02\x1b[Z");
    assert!(matches!(&a[..], [InputAction::Forward(v)] if v == b"\x02\x1b[Z"));
}

#[test]
fn detach_splits_stream() {
    let mut f = InputFilter::new();
    let a = f.process(b"ls\n\x02d");
    assert_eq!(a.len(), 2);
    assert!(matches!(&a[0], InputAction::Forward(v) if v == b"ls\n"));
    assert!(matches!(&a[1], InputAction::Detach));
}

#[test]
fn focus_direction_splits_stream() {
    let mut f = InputFilter::new();
    let a = f.process(b"ls\n\x02j");
    assert_eq!(a.len(), 2);
    assert!(matches!(&a[0], InputAction::Forward(v) if v == b"ls\n"));
    assert!(matches!(&a[1], InputAction::FocusDirection(FocusDir::Down)));
}

#[test]
fn ctrl_b_split_across_chunks() {
    let mut f = InputFilter::new();
    let a = f.process(b"\x02");
    assert!(a.is_empty());
    let b = f.process(b"d");
    assert!(matches!(&b[..], [InputAction::Detach]));
}

#[test]
fn ctrl_b_j_split_across_chunks() {
    let mut f = InputFilter::new();
    let a = f.process(b"\x02");
    assert!(a.is_empty());
    let b = f.process(b"j");
    assert!(matches!(
        &b[..],
        [InputAction::FocusDirection(FocusDir::Down)]
    ));
}

#[test]
fn ctrl_b_arrow_split_across_chunks() {
    let mut f = InputFilter::new();
    let a = f.process(b"\x02");
    assert!(a.is_empty());
    let b = f.process(b"\x1b");
    assert!(b.is_empty());
    let c = f.process(b"[");
    assert!(c.is_empty());
    let d = f.process(b"A");
    assert!(matches!(
        &d[..],
        [InputAction::FocusDirection(FocusDir::Up)]
    ));
}

#[test]
fn ctrl_b_ctrl_b_emits_both_forwarded() {
    let mut f = InputFilter::new();
    let a = f.process(b"\x02\x02");
    assert!(matches!(&a[..], [InputAction::Forward(v)] if v == b"\x02\x02"));
}

#[test]
fn ctrl_b_then_ampersand_closes_pane() {
    let mut f = InputFilter::new();
    let a = f.process(b"\x02&");
    assert!(matches!(&a[..], [InputAction::PaneClose]));
}

#[test]
fn ctrl_b_then_n_is_not_pane_next_after_6_0() {
    let mut f = InputFilter::new();
    let a = f.process(b"\x02n");
    assert!(matches!(&a[..], [InputAction::Forward(v)] if v == b"\x02n"));
}

#[test]
fn ctrl_b_then_p_is_not_pane_prev_after_6_0() {
    let mut f = InputFilter::new();
    let a = f.process(b"\x02p");
    assert!(matches!(&a[..], [InputAction::Forward(v)] if v == b"\x02p"));
}

#[test]
fn ctrl_b_then_digit_is_not_pane_select_after_6_0() {
    for d in 0..=9u8 {
        let mut f = InputFilter::new();
        let buf = [PREFIX_BYTE, b'0' + d];
        let a = f.process(&buf);
        assert!(
            matches!(&a[..], [InputAction::Forward(v)] if v == &buf),
            "digit {d} must flush as raw \\x02<digit> bytes after 6.0"
        );
    }
}

#[test]
fn ctrl_b_then_w_is_not_pane_list_after_6_0() {
    let mut f = InputFilter::new();
    let a = f.process(b"\x02w");
    assert!(matches!(&a[..], [InputAction::Forward(v)] if v == b"\x02w"));
}

#[test]
fn ctrl_b_then_enter_forwards_raw_after_6_0() {
    let mut f = InputFilter::new();
    let a = f.process(b"\x02\r");
    assert!(matches!(&a[..], [InputAction::Forward(v)] if v == b"\x02\r"));
}

#[test]
fn bare_tab_emits_focus_next() {
    let mut f = InputFilter::new();
    let a = f.process(b"\t");
    assert!(matches!(&a[..], [InputAction::FocusNext]));
}

#[test]
fn bare_shift_tab_emits_focus_prev() {
    let mut f = InputFilter::new();
    let a = f.process(b"\x1b[Z");
    assert!(matches!(&a[..], [InputAction::FocusPrev]));
}

#[test]
fn tab_splits_stream_and_drops_tail() {
    let mut f = InputFilter::new();
    let a = f.process(b"abc\txyz");
    assert_eq!(a.len(), 2);
    assert!(matches!(&a[0], InputAction::Forward(v) if v == b"abc"));
    assert!(matches!(&a[1], InputAction::FocusNext));
}

#[test]
fn bare_arrow_keys_pass_through_to_out() {
    let mut f = InputFilter::new();
    let a = f.process(b"\x1b[A");
    assert!(matches!(&a[..], [InputAction::Forward(v)] if v == b"\x1b[A"));
}

#[test]
fn bare_page_down_passes_through_to_out() {
    let mut f = InputFilter::new();
    let a = f.process(b"\x1b[6~");
    assert!(matches!(&a[..], [InputAction::Forward(v)] if v == b"\x1b[6~"));
}

#[test]
fn bare_esc_alone_passes_through_without_waiting() {
    let mut f = InputFilter::new();
    let a = f.process(b"\x1b");
    assert!(matches!(&a[..], [InputAction::Forward(v)] if v == b"\x1b"));
}

#[test]
fn bare_shift_tab_split_across_chunks_after_lookahead_commit() {
    let mut f = InputFilter::new();
    let a = f.process(b"\x1b[");
    assert!(a.is_empty());
    let b = f.process(b"Z");
    assert!(matches!(&b[..], [InputAction::FocusPrev]));
}
