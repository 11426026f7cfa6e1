use bottom::input::{
    is_quit_key, is_reset_key, mouse_forward_decision, KeyCode, KeyInput, MouseKind,
    SCROLL_DEBOUNCE_MS,
};

fn key(code: KeyCode, ctrl: bool, alt: bool, shift: bool) -> KeyInput {
    KeyInput { code, ctrl, alt, shift }
}

#[test]
fn mouse_motion_is_never_forwarded() {
    let (fwd, timer) = mouse_forward_decision(MouseKind::Moved, 1000, 0);
    assert!(!fwd);
    assert_eq!(timer, 0);
    let (fwd, timer) = mouse_forward_decision(MouseKind::Drag, 1000, 0);
    assert!(!fwd);
    assert_eq!(timer, 0);
}

#[test]
fn rapid_scrolling_is_debounced() {
    assert_eq!(SCROLL_DEBOUNCE_MS, 20);
    // First scroll goes through and resets the timer.
    let (fwd, timer) = mouse_forward_decision(MouseKind::ScrollUp, 100, 0);
    assert!(fwd);
    assert_eq!(timer, 100);
    // A scroll inside the window is dropped, the timer stays.
    let (fwd, timer) = mouse_forward_decision(MouseKind::ScrollDown, 110, timer);
    assert!(!fwd);
    assert_eq!(timer, 100);
    // After the window has passed, scrolling goes through again.
    let (fwd, timer) = mouse_forward_decision(MouseKind::ScrollDown, 120, timer);
    assert!(fwd);
    assert_eq!(timer, 120);
}

#[test]
fn clicks_are_forwarded_unconditionally() {
    let (fwd, timer) = mouse_forward_decision(MouseKind::LeftDown, 5, 0);
    assert!(fwd);
    assert_eq!(timer, 0);
    let (fwd, _) = mouse_forward_decision(MouseKind::RightDown, 5, 0);
    assert!(fwd);
    let (fwd, _) = mouse_forward_decision(MouseKind::Other, 5, 0);
    assert!(fwd);
}

#[test]
fn quit_keys_are_a_bare_q_or_ctrl_c() {
    assert!(is_quit_key(key(KeyCode::Char('q'), false, false, false), false));
    // Inside a search box, `q` types instead of quitting.
    assert!(!is_quit_key(key(KeyCode::Char('q'), false, false, false), true));
    assert!(!is_quit_key(key(KeyCode::Char('q'), false, true, false), false));
    assert!(!is_quit_key(key(KeyCode::Char('q'), false, false, true), false));
    assert!(is_quit_key(key(KeyCode::Char('c'), true, false, false), false));
    assert!(is_quit_key(key(KeyCode::Char('c'), true, false, false), true));
    assert!(!is_quit_key(key(KeyCode::Char('c'), false, false, false), false));
}

#[test]
fn the_reset_chord_is_ctrl_r() {
    assert!(is_reset_key(key(KeyCode::Char('r'), true, false, false)));
    assert!(!is_reset_key(key(KeyCode::Char('r'), false, false, false)));
    assert!(!is_reset_key(key(KeyCode::Char('x'), true, false, false)));
}
