use bottom::input::{KeyCode, KeyInput};
use bottom::terminal::{TerminalAction, TerminalWidgetState};
use bottom::uptime::UptimeWidgetState;
use bottom::text::parse_u64_digits;

fn plain(code: KeyCode) -> KeyInput {
    KeyInput { code, ctrl: false, alt: false, shift: false }
}

fn type_text(t: &mut TerminalWidgetState, text: &str) {
    for c in text.chars() {
        let act = t.handle_key(plain(KeyCode::Char(c)), true);
        assert!(matches!(act, TerminalAction::Handled));
    }
}

#[test]
fn appended_output_has_its_ansi_escapes_stripped() {
    let mut t = TerminalWidgetState::default();
    t.append_output(b"\x1b[32mgreen\x1b[m text");
    assert_eq!(t.stdout, "green text");
}

#[test]
fn appended_output_replaces_invalid_utf8() {
    let mut t = TerminalWidgetState::default();
    t.append_output(b"ok \xff\xfe end");
    assert!(t.stdout.starts_with("ok "));
    assert!(t.stdout.ends_with(" end"));
    assert!(t.stdout.contains('\u{FFFD}'));
}

#[test]
fn limit_output_keeps_the_newest_characters() {
    let mut t = TerminalWidgetState::default();
    let chunk = [b'a'; 1000];
    for _ in 0..101 {
        t.append_output(&chunk);
    }
    assert_eq!(t.stdout.len(), 101000);
    t.limit_output();
    assert_eq!(t.stdout.len(), 100000);
    // Under the limit, nothing is cut.
    t.limit_output();
    assert_eq!(t.stdout.len(), 100000);
}

#[test]
fn entering_a_command_echoes_and_rotates_the_history() {
    let mut t = TerminalWidgetState::default();
    type_text(&mut t, "ls -l");
    let act = t.handle_key(plain(KeyCode::Enter), true);
    match act {
        TerminalAction::Run(cmd) => {
            let s: String = cmd.into_iter().collect();
            assert_eq!(s, "ls -l");
        }
        _ => panic!("expected the command to run"),
    }
    assert!(t.is_working);
    assert_eq!(t.stdout, "$ ls -l\n");
    // A fresh editing slot sits in front of the stored command.
    assert_eq!(t.stdin.len(), 2);
    assert!(t.stdin[0].is_empty());
    let hist: String = t.stdin[1].iter().collect();
    assert_eq!(hist, "ls -l");
    assert_eq!(t.selected_input, 0);
}

#[test]
fn a_blank_command_is_not_stored_and_not_echoed() {
    let mut t = TerminalWidgetState::default();
    type_text(&mut t, "   ");
    let act = t.handle_key(plain(KeyCode::Enter), true);
    assert!(matches!(act, TerminalAction::Run(_)));
    assert_eq!(t.stdout, "");
    // Whitespace-only input is still rotated into the history slot.
    assert_eq!(t.stdin.len(), 2);
}

#[test]
fn editing_keys_move_the_cursor_and_edit_the_line() {
    let mut t = TerminalWidgetState::default();
    type_text(&mut t, "cat");
    // Move the cursor two places left and insert: "c-at" becomes "cXat".
    t.handle_key(plain(KeyCode::Left), true);
    t.handle_key(plain(KeyCode::Left), true);
    type_text(&mut t, "X");
    let line: String = t.stdin[0].iter().collect();
    assert_eq!(line, "cXat");
    // Backspace removes the character before the cursor (the X).
    t.handle_key(plain(KeyCode::Backspace), true);
    let line: String = t.stdin[0].iter().collect();
    assert_eq!(line, "cat");
    // Delete removes the character under the cursor (the a).
    t.handle_key(plain(KeyCode::Delete), true);
    let line: String = t.stdin[0].iter().collect();
    assert_eq!(line, "ct");
}

#[test]
fn scrollback_keys_work_even_while_a_command_runs() {
    let mut t = TerminalWidgetState::default();
    t.is_working = true;
    assert!(matches!(t.handle_key(plain(KeyCode::PageUp), true), TerminalAction::Handled));
    assert_eq!(t.offset, 1);
    assert!(matches!(t.handle_key(plain(KeyCode::PageDown), true), TerminalAction::Handled));
    assert_eq!(t.offset, 0);
    assert!(matches!(t.handle_key(plain(KeyCode::PageDown), true), TerminalAction::Handled));
    assert_eq!(t.offset, 0);
    t.offset = 5;
    assert!(matches!(t.handle_key(plain(KeyCode::End), true), TerminalAction::Handled));
    assert_eq!(t.offset, 0);
}

#[test]
fn escape_collapses_and_ctrl_is_left_to_global_bindings() {
    let mut t = TerminalWidgetState::default();
    assert!(matches!(t.handle_key(plain(KeyCode::Esc), true), TerminalAction::Collapse));
    let ctrl_c = KeyInput { code: KeyCode::Char('c'), ctrl: true, alt: false, shift: false };
    assert!(matches!(t.handle_key(ctrl_c, true), TerminalAction::NotHandled));
    // Editing keys outside expanded mode are not swallowed.
    assert!(matches!(
        t.handle_key(plain(KeyCode::Char('q')), false),
        TerminalAction::NotHandled
    ));
}

#[test]
fn history_selection_recalls_older_commands() {
    let mut t = TerminalWidgetState::default();
    type_text(&mut t, "first");
    t.handle_key(plain(KeyCode::Enter), true);
    t.finish();
    assert!(!t.is_working);
    type_text(&mut t, "second");
    t.handle_key(plain(KeyCode::Enter), true);
    t.finish();
    // Up selects the most recent stored command, then the older one.
    t.handle_key(plain(KeyCode::Up), true);
    let line: String = t.stdin[t.selected_input].iter().collect();
    assert_eq!(line, "second");
    t.handle_key(plain(KeyCode::Up), true);
    let line: String = t.stdin[t.selected_input].iter().collect();
    assert_eq!(line, "first");
    t.handle_key(plain(KeyCode::Down), true);
    let line: String = t.stdin[t.selected_input].iter().collect();
    assert_eq!(line, "second");
}

#[test]
fn clearing_the_output_pane_resets_the_scrollback() {
    let mut t = TerminalWidgetState::default();
    t.append_output(b"some output");
    t.offset = 3;
    let act = t.handle_key(plain(KeyCode::F(9)), true);
    assert!(matches!(act, TerminalAction::Handled));
    assert_eq!(t.stdout, "");
    assert_eq!(t.offset, 0);
}

#[test]
fn the_uptime_streak_is_restored_from_its_saved_text() {
    assert_eq!(UptimeWidgetState::from_saved_text("17").streak, 17);
    assert_eq!(UptimeWidgetState::from_saved_text("not a number").streak, 0);
    assert_eq!(UptimeWidgetState::from_saved_text("").streak, 0);
    assert_eq!(UptimeWidgetState::default().streak, 0);
    assert_eq!(parse_u64_digits("18446744073709551615"), 18446744073709551615);
    // One past the largest u64 falls back to 0.
    assert_eq!(parse_u64_digits("18446744073709551616"), 0);
}
