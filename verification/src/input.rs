//! Models of terminal input and the input thread's forwarding decisions:
//! mouse motion is dropped, rapid scroll-wheel events are debounced, and
//! a few key chords are recognised globally.

use vstd::prelude::*;

verus! {

/// A key, as the input device reports it.
#[derive(Clone, Copy, Debug, PartialEq, Eq, Structural)]
pub enum KeyCode {
    Char(char),
    Up,
    Down,
    Left,
    Right,
    Home,
    End,
    PageUp,
    PageDown,
    Esc,
    Enter,
    Tab,
    Backspace,
    Delete,
    F(u8),
}

/// One key press with its modifiers.
#[derive(Clone, Copy, Debug, PartialEq, Eq, Structural)]
pub struct KeyInput {
    pub code: KeyCode,
    pub ctrl: bool,
    pub alt: bool,
    pub shift: bool,
}

impl KeyInput {
    /// A bare key press: no modifier held.
    pub open spec fn plain(self) -> bool {
        !self.ctrl && !self.alt && !self.shift
    }
}

/// What a mouse event is.
#[derive(Clone, Copy, Debug, PartialEq, Eq, Structural)]
pub enum MouseKind {
    ScrollUp,
    ScrollDown,
    Moved,
    Drag,
    LeftDown,
    RightDown,
    Other,
}

/// One mouse event and where it happened.
#[derive(Clone, Copy, Debug, PartialEq, Eq, Structural)]
pub struct MouseInput {
    pub kind: MouseKind,
    pub column: u16,
    pub row: u16,
}

/// Two scroll-wheel events closer together than this are treated as one.
pub const SCROLL_DEBOUNCE_MS: u64 = 20;

pub open spec fn is_scroll(kind: MouseKind) -> bool {
    kind == MouseKind::ScrollUp || kind == MouseKind::ScrollDown
}

pub open spec fn is_motion(kind: MouseKind) -> bool {
    kind == MouseKind::Moved || kind == MouseKind::Drag
}

/// The input thread's decision for one mouse event: pure motion is never
/// forwarded; a scroll event is forwarded only when the last forwarded
/// scroll is at least the debounce window old, and then resets the timer;
/// everything else is forwarded unconditionally. Returns whether to
/// forward, and the new debounce timer.
pub fn mouse_forward_decision(kind: MouseKind, now_ms: u64, last_scroll_ms: u64) -> (r: (
    bool,
    u64,
))
    requires
        last_scroll_ms <= now_ms,
    ensures
        is_motion(kind) ==> !r.0 && r.1 == last_scroll_ms,
        is_scroll(kind) ==> r.0 == (now_ms - last_scroll_ms >= SCROLL_DEBOUNCE_MS),
        is_scroll(kind) && r.0 ==> r.1 == now_ms,
        is_scroll(kind) && !r.0 ==> r.1 == last_scroll_ms,
        !is_scroll(kind) && !is_motion(kind) ==> r.0 && r.1 == last_scroll_ms,
{
    match kind {
        MouseKind::Moved => (false, last_scroll_ms),
        MouseKind::Drag => (false, last_scroll_ms),
        MouseKind::ScrollUp | MouseKind::ScrollDown => {
            if now_ms - last_scroll_ms >= SCROLL_DEBOUNCE_MS {
                (true, now_ms)
            } else {
                (false, last_scroll_ms)
            }
        },
        _ => (true, last_scroll_ms),
    }
}

/// Whether a key press asks the program to quit: a bare `q` outside a
/// search box, or Ctrl-C.
pub fn is_quit_key(key: KeyInput, in_search_widget: bool) -> (r: bool)
    ensures
        r == ((key.code == KeyCode::Char('q') && key.plain() && !in_search_widget) || (key.ctrl
            && key.code == KeyCode::Char('c'))),
{
    if key.ctrl {
        key.code == KeyCode::Char('c')
    } else if key.alt || key.shift || in_search_widget {
        false
    } else {
        key.code == KeyCode::Char('q')
    }
}

/// Whether a key press asks the collection thread to drop its history and
/// start over: Ctrl-R.
pub fn is_reset_key(key: KeyInput) -> (r: bool)
    ensures
        r == (key.ctrl && key.code == KeyCode::Char('r')),
{
    key.ctrl && key.code == KeyCode::Char('r')
}

} // verus!
