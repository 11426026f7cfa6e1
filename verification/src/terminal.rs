//! The embedded terminal widget: an editable command line with history, a
//! captured-output pane, and the key handling that edits them. A spawned
//! command's output is appended here (stripped of ANSI escapes) by the
//! main loop; the worker that reads the command's pipes reports through
//! the event bus and owns none of this state.

use vstd::prelude::*;
use crate::input::{KeyCode, KeyInput};

verus! {

/// Most characters the output pane retains.
pub const OUTPUT_LIMIT: usize = 100000;

/// Most input lines the history retains.
pub const HISTORY_LIMIT: usize = 500;

/// What `strip_ansi_escapes::strip` returns: the input bytes with ANSI
/// escape sequences removed, a function of the bytes alone.
pub uninterp spec fn stripped_ansi(b: Seq<u8>) -> Seq<u8>;

/// Relies on strip_ansi_escapes::strip: removes ANSI escape sequences;
/// the result depends on the bytes alone, and no bytes yield no bytes.
#[verifier::external_body]
fn strip_ansi(bytes: &[u8]) -> (r: Vec<u8>)
    ensures
        r@ == stripped_ansi(bytes@),
        bytes@.len() == 0 ==> r@.len() == 0,
{
    strip_ansi_escapes::strip(bytes)
}

/// What `String::from_utf8_lossy` returns, as characters: a function of
/// the bytes alone.
pub uninterp spec fn lossy_decoded(b: Seq<u8>) -> Seq<char>;

/// Relies on String::from_utf8_lossy: decodes UTF-8, substituting the
/// replacement character for invalid sequences; valid UTF-8 decodes
/// exactly.
#[verifier::external_body]
fn utf8_lossy(bytes: &[u8]) -> (r: String)
    ensures
        r@ == lossy_decoded(bytes@),
        vstd::utf8::valid_utf8(bytes@) ==> r@ == vstd::utf8::decode_utf8(bytes@),
{
    String::from_utf8_lossy(bytes).into_owned()
}

/// Relies on String::push: appends the one character.
#[verifier::external_body]
fn string_push(s: &mut String, c: char)
    ensures
        final(s)@ == old(s)@.push(c),
{
    s.push(c);
}

/// Whitespace for the purposes of trimming a command line.
pub open spec fn is_space(c: char) -> bool {
    c == ' ' || c == '\t' || c == '\n' || c == '\r'
}

/// The command with leading and trailing whitespace removed.
pub open spec fn trimmed(s: Seq<char>) -> Seq<char>
    decreases s.len(),
{
    if s.len() == 0 {
        s
    } else if is_space(s[0]) {
        trimmed(s.drop_first())
    } else if is_space(s.last()) {
        trimmed(s.drop_last())
    } else {
        s
    }
}

/// Whatever whitespace bounds hold of indices `a` and `b`, the trimmed
/// command is exactly the characters between them.
proof fn lemma_trimmed_subrange(s: Seq<char>, a: int, b: int)
    requires
        0 <= a <= b <= s.len(),
        forall|i: int| 0 <= i < a ==> is_space(#[trigger] s[i]),
        forall|i: int| b <= i < s.len() ==> is_space(#[trigger] s[i]),
        a < b ==> !is_space(s[a]) && !is_space(s[b - 1]),
    ensures
        trimmed(s) == s.subrange(a, b),
    decreases s.len(),
{
    if s.len() == 0 {
        assert(trimmed(s) =~= s.subrange(a, b));
    } else if is_space(s[0]) {
        let t = s.drop_first();
        if a == 0 {
            // The first character is whitespace, so the command is all
            // whitespace and trims to nothing.
            assert(a == b);
            assert forall|i: int| 0 <= i < t.len() implies is_space(#[trigger] t[i]) by {
                assert(t[i] == s[i + 1]);
            }
            lemma_trimmed_subrange(t, 0, 0);
            assert(trimmed(s) =~= s.subrange(a, b));
        } else {
            assert forall|i: int| 0 <= i < a - 1 implies is_space(#[trigger] t[i]) by {
                assert(t[i] == s[i + 1]);
            }
            assert forall|i: int| b - 1 <= i < t.len() implies is_space(#[trigger] t[i]) by {
                assert(t[i] == s[i + 1]);
            }
            if a < b {
                assert(t[a - 1] == s[a]);
                assert(t[b - 2] == s[b - 1]);
            }
            lemma_trimmed_subrange(t, a - 1, b - 1);
            assert(t.subrange(a - 1, b - 1) =~= s.subrange(a, b));
        }
    } else if is_space(s.last()) {
        let t = s.drop_last();
        assert(b < s.len() || a == b) by {
            if b == s.len() && a < b {
                assert(!is_space(s[b - 1]));
                assert(is_space(s.last()));
            }
        }
        if a == b {
            if a > 0 {
                assert(is_space(s[0]));
            }
            assert(a == 0 && b == 0);
            assert forall|i: int| 0 <= i < t.len() implies is_space(#[trigger] t[i]) by {
                assert(t[i] == s[i]);
            }
            lemma_trimmed_subrange(t, 0, 0);
            assert(trimmed(s) =~= s.subrange(a, b));
        } else {
            assert forall|i: int| 0 <= i < a implies is_space(#[trigger] t[i]) by {
                assert(t[i] == s[i]);
            }
            assert forall|i: int| b <= i < t.len() implies is_space(#[trigger] t[i]) by {
                assert(t[i] == s[i]);
            }
            lemma_trimmed_subrange(t, a, b);
            assert(t.subrange(a, b) =~= s.subrange(a, b));
        }
    } else {
        assert(a == 0 && b == s.len()) by {
            if a > 0 {
                assert(is_space(s[0]));
            }
            if b < s.len() {
                assert(is_space(s[s.len() - 1]));
            }
        }
        assert(trimmed(s) =~= s.subrange(a, b));
    }
}

/// What the echo of a submitted command looks like in the output pane: a
/// prompt, the trimmed command and a newline — or nothing, for a blank
/// command.
pub open spec fn prompt_echo(cmd: Seq<char>) -> Seq<char> {
    if trimmed(cmd).len() == 0 {
        Seq::empty()
    } else {
        seq!['$', ' '] + trimmed(cmd) + seq!['\n']
    }
}

/// How submitting the selected line changes the input history: a blank
/// line changes nothing; otherwise a selected historical line first
/// replaces the editing slot, a fresh empty editing slot is pushed to the
/// front, and the history is capped at its limit.
pub open spec fn taken_history(h: Seq<Seq<char>>, sel: int) -> Seq<Seq<char>> {
    let cmd = h[sel];
    if cmd.len() == 0 {
        h
    } else {
        let replaced = if sel > 0 {
            h.update(0, cmd)
        } else {
            h
        };
        let pushed = seq![Seq::<char>::empty()] + replaced;
        if pushed.len() > HISTORY_LIMIT {
            pushed.take(HISTORY_LIMIT as int)
        } else {
            pushed
        }
    }
}

/// State of one terminal widget.
pub struct TerminalWidgetState {
    /// Captured output of past commands, oldest first.
    pub stdout: String,
    /// Input lines: the editing slot at the front, then past commands,
    /// newest first.
    pub stdin: Vec<Vec<char>>,
    /// Scrollback of the output pane, in lines up from the bottom.
    pub offset: usize,
    /// Cursor position in the selected line, counted from its end.
    pub input_offset: usize,
    /// Which input line is selected; 0 is the editing slot.
    pub selected_input: usize,
    /// Whether a spawned command is still running.
    pub is_working: bool,
}

impl TerminalWidgetState {
    /// The input lines as character sequences.
    pub open spec fn lines(self) -> Seq<Seq<char>> {
        self.stdin.deep_view()
    }

    /// The selected line.
    pub open spec fn current_line(self) -> Seq<char> {
        self.lines()[self.selected_input as int]
    }

    /// Structural invariant: there is always an editing slot, the
    /// selection stays inside the history, and the cursor stays inside the
    /// selected line.
    pub open spec fn wf(self) -> bool {
        &&& self.stdin@.len() >= 1
        &&& self.selected_input < self.stdin@.len()
        &&& self.input_offset <= self.current_line().len()
    }
}

impl Default for TerminalWidgetState {
    /// A fresh widget: no output, one empty editing slot, nothing running.
    fn default() -> (t: Self)
        ensures
            t.wf(),
            t.stdout@.len() == 0,
            t.lines() =~= seq![Seq::<char>::empty()],
            t.offset == 0,
            t.input_offset == 0,
            t.selected_input == 0,
            !t.is_working,
    {
        let mut stdin: Vec<Vec<char>> = Vec::new();
        stdin.push(Vec::new());
        let t = TerminalWidgetState {
            stdout: String::new(),
            stdin,
            offset: 0,
            input_offset: 0,
            selected_input: 0,
            is_working: false,
        };
        proof {
            assert(t.lines() =~~= seq![Seq::<char>::empty()]);
        }
        t
    }
}

impl TerminalWidgetState {
    /// The line under the cursor.
    pub fn current_input(&self) -> (line: &Vec<char>)
        requires
            self.wf(),
        ensures
            line@ == self.current_line(),
    {
        &self.stdin[self.selected_input]
    }

    /// Appends a finished command's output, with ANSI escapes stripped and
    /// invalid UTF-8 replaced.
    pub fn append_output(&mut self, output: &[u8])
        requires
            old(self).wf(),
        ensures
            final(self).wf(),
            final(self).stdout@ == old(self).stdout@ + lossy_decoded(stripped_ansi(output@)),
            final(self).stdin == old(self).stdin,
            final(self).offset == old(self).offset,
            final(self).input_offset == old(self).input_offset,
            final(self).selected_input == old(self).selected_input,
            final(self).is_working == old(self).is_working,
    {
        let cleaned = strip_ansi(output);
        let text = utf8_lossy(cleaned.as_slice());
        self.stdout.append(text.as_str());
    }

    /// Truncates the output pane to its newest `OUTPUT_LIMIT` characters.
    pub fn limit_output(&mut self)
        requires
            old(self).wf(),
        ensures
            final(self).wf(),
            final(self).stdout@ == (if old(self).stdout@.len() > OUTPUT_LIMIT {
                old(self).stdout@.skip(old(self).stdout@.len() - OUTPUT_LIMIT as int)
            } else {
                old(self).stdout@
            }),
            final(self).stdin == old(self).stdin,
            final(self).offset == old(self).offset,
            final(self).input_offset == old(self).input_offset,
            final(self).selected_input == old(self).selected_input,
            final(self).is_working == old(self).is_working,
    {
        let n = self.stdout.as_str().unicode_len();
        if n > OUTPUT_LIMIT {
            let tail = self.stdout.as_str().substring_char(n - OUTPUT_LIMIT, n);
            let owned = tail.to_owned();
            self.stdout = owned;
            proof {
                assert(self.stdout@ =~= old(self).stdout@.skip(
                    old(self).stdout@.len() - OUTPUT_LIMIT as int,
                ));
            }
        }
    }

    /// Marks the spawned command as finished.
    pub fn finish(&mut self)
        ensures
            *final(self) == (TerminalWidgetState { is_working: false, ..*old(self) }),
    {
        self.is_working = false;
    }

    /// Takes the selected line as the command to run: echoes it to the
    /// output pane, rotates it into the history behind a fresh editing
    /// slot, caps the history, and puts the cursor back in the editing
    /// slot. A blank line is returned without touching the history.
    pub fn take_input(&mut self) -> (cmd: Vec<char>)
        requires
            old(self).wf(),
        ensures
            final(self).wf(),
            command_taken(*old(self), *final(self), cmd@),
            final(self).is_working == old(self).is_working,
    {
        let ghost pre_lines = self.lines();
        let ghost sel = self.selected_input as int;
        let cmd = clone_line(&self.stdin[self.selected_input]);
        proof {
            assert(cmd@ =~= pre_lines[sel]);
        }
        // Echo the trimmed command behind a prompt, unless it is blank.
        let (a, b) = trim_bounds(&cmd);
        if a < b {
            string_push(&mut self.stdout, '$');
            string_push(&mut self.stdout, ' ');
            let mut i = a;
            while i < b
                invariant
                    a <= i <= b <= cmd@.len(),
                    self.stdout@ == old(self).stdout@ + seq!['$', ' '] + cmd@.subrange(
                        a as int,
                        i as int,
                    ),
                    self.stdin == old(self).stdin,
                    self.offset == old(self).offset,
                    self.input_offset == old(self).input_offset,
                    self.selected_input == old(self).selected_input,
                    self.is_working == old(self).is_working,
                decreases b - i,
            {
                string_push(&mut self.stdout, cmd[i]);
                proof {
                    assert(cmd@.subrange(a as int, i + 1) =~= cmd@.subrange(a as int, i as int).push(
                        cmd@[i as int],
                    ));
                }
                i = i + 1;
            }
            string_push(&mut self.stdout, '\n');
            proof {
                assert(self.stdout@ =~= old(self).stdout@ + prompt_echo(cmd@));
            }
        } else {
            proof {
                assert(self.stdout@ =~= old(self).stdout@ + prompt_echo(cmd@));
            }
        }
        // Rotate the command into the history.
        if cmd.len() > 0 {
            if self.selected_input > 0 {
                self.stdin.remove(0);
                self.stdin.insert(0, clone_line(&cmd));
                proof {
                    assert(self.lines() =~~= pre_lines.update(0, cmd@));
                }
            }
            self.stdin.insert(0, Vec::new());
            proof {
                let replaced = if sel > 0 {
                    pre_lines.update(0, cmd@)
                } else {
                    pre_lines
                };
                assert(self.lines() =~~= seq![Seq::<char>::empty()] + replaced);
            }
            if self.stdin.len() > HISTORY_LIMIT {
                let ghost grown = self.lines();
                self.stdin.truncate(HISTORY_LIMIT);
                proof {
                    assert(self.lines() =~~= grown.take(HISTORY_LIMIT as int));
                }
            }
            assert(self.lines().len() >= 1);
        }
        self.selected_input = 0;
        self.input_offset = 0;
        assert(self.lines().len() == self.stdin@.len());
        cmd
    }
}

/// The output pane and its scrollback are untouched.
pub open spec fn same_output(pre: TerminalWidgetState, post: TerminalWidgetState) -> bool {
    post.stdout@ == pre.stdout@ && post.offset == pre.offset
}

/// The input lines, selection and cursor are untouched.
pub open spec fn same_input(pre: TerminalWidgetState, post: TerminalWidgetState) -> bool {
    &&& post.lines() == pre.lines()
    &&& post.selected_input == pre.selected_input
    &&& post.input_offset == pre.input_offset
}

/// A character was inserted at the cursor of the selected line.
pub open spec fn inserted_char(
    pre: TerminalWidgetState,
    post: TerminalWidgetState,
    c: char,
) -> bool {
    &&& post.lines() == pre.lines().update(
        pre.selected_input as int,
        pre.current_line().insert(pre.current_line().len() - pre.input_offset, c),
    )
    &&& post.selected_input == pre.selected_input
    &&& post.input_offset == pre.input_offset
    &&& same_output(pre, post)
    &&& post.is_working == pre.is_working
}

/// The character before the cursor was removed, if there was one.
pub open spec fn backspaced(pre: TerminalWidgetState, post: TerminalWidgetState) -> bool {
    &&& post.lines() == (if pre.current_line().len() > pre.input_offset {
        pre.lines().update(
            pre.selected_input as int,
            pre.current_line().remove(pre.current_line().len() - pre.input_offset - 1),
        )
    } else {
        pre.lines()
    })
    &&& post.selected_input == pre.selected_input
    &&& post.input_offset == pre.input_offset
    &&& same_output(pre, post)
    &&& post.is_working == pre.is_working
}

/// The character under the cursor was removed, if the cursor was not at
/// the end of the line.
pub open spec fn deleted_char(pre: TerminalWidgetState, post: TerminalWidgetState) -> bool {
    &&& (pre.input_offset > 0 ==> {
        &&& post.lines() == pre.lines().update(
            pre.selected_input as int,
            pre.current_line().remove(pre.current_line().len() - pre.input_offset),
        )
        &&& post.input_offset == pre.input_offset - 1
    })
    &&& (pre.input_offset == 0 ==> post.lines() == pre.lines() && post.input_offset == 0)
    &&& post.selected_input == pre.selected_input
    &&& same_output(pre, post)
    &&& post.is_working == pre.is_working
}

/// The next older history line was selected, the cursor clamped into it.
pub open spec fn selected_older(pre: TerminalWidgetState, post: TerminalWidgetState) -> bool {
    &&& post.lines() == pre.lines()
    &&& post.selected_input == (if pre.selected_input + 1 < pre.stdin@.len() {
        pre.selected_input + 1
    } else {
        pre.selected_input as int
    })
    &&& post.input_offset == (if pre.input_offset <= post.current_line().len() {
        pre.input_offset as int
    } else {
        post.current_line().len() as int
    })
    &&& same_output(pre, post)
    &&& post.is_working == pre.is_working
}

/// The next newer history line was selected, the cursor clamped into it.
pub open spec fn selected_newer(pre: TerminalWidgetState, post: TerminalWidgetState) -> bool {
    &&& post.lines() == pre.lines()
    &&& post.selected_input == (if pre.selected_input > 0 {
        pre.selected_input - 1
    } else {
        0int
    })
    &&& post.input_offset == (if pre.input_offset <= post.current_line().len() {
        pre.input_offset as int
    } else {
        post.current_line().len() as int
    })
    &&& same_output(pre, post)
    &&& post.is_working == pre.is_working
}

/// The cursor moved one character towards the front of the line.
pub open spec fn cursor_moved_left(pre: TerminalWidgetState, post: TerminalWidgetState) -> bool {
    &&& post.lines() == pre.lines()
    &&& post.selected_input == pre.selected_input
    &&& post.input_offset == (if pre.input_offset < pre.current_line().len() {
        pre.input_offset + 1
    } else {
        pre.input_offset as int
    })
    &&& same_output(pre, post)
    &&& post.is_working == pre.is_working
}

/// The cursor moved one character towards the end of the line.
pub open spec fn cursor_moved_right(pre: TerminalWidgetState, post: TerminalWidgetState) -> bool {
    &&& post.lines() == pre.lines()
    &&& post.selected_input == pre.selected_input
    &&& post.input_offset == (if pre.input_offset > 0 {
        pre.input_offset - 1
    } else {
        0int
    })
    &&& same_output(pre, post)
    &&& post.is_working == pre.is_working
}

/// The selected line was submitted: echoed behind a prompt, rotated into
/// the history behind a fresh editing slot, the cursor back in the slot.
pub open spec fn command_taken(
    pre: TerminalWidgetState,
    post: TerminalWidgetState,
    cmd: Seq<char>,
) -> bool {
    &&& cmd == pre.current_line()
    &&& post.lines() == taken_history(pre.lines(), pre.selected_input as int)
    &&& post.stdout@ == pre.stdout@ + prompt_echo(pre.current_line())
    &&& post.selected_input == 0
    &&& post.input_offset == 0
    &&& post.offset == pre.offset
}

/// The output pane was cleared and its scrollback reset.
pub open spec fn output_cleared(pre: TerminalWidgetState, post: TerminalWidgetState) -> bool {
    &&& post.stdout@.len() == 0
    &&& post.offset == 0
    &&& same_input(pre, post)
    &&& post.is_working == pre.is_working
}

/// What one key press did with the terminal widget.
pub enum TerminalAction {
    /// Not for this widget: the global key bindings may apply.
    NotHandled,
    /// The widget's state changed (or the key was swallowed while
    /// editing).
    Handled,
    /// The widget leaves expanded mode.
    Collapse,
    /// Run the composed command; the widget is now working.
    Run(Vec<char>),
}

impl TerminalWidgetState {
    /// Inserts a character at the cursor of the selected line.
    pub fn insert_char(&mut self, c: char)
        requires
            old(self).wf(),
        ensures
            final(self).wf(),
            inserted_char(*old(self), *final(self), c),
    {
        let idx = self.selected_input;
        let len = self.stdin[idx].len();
        let pos = len - self.input_offset;
        self.stdin[idx].insert(pos, c);
        proof {
            assert(self.lines() =~~= old(self).lines().update(
                old(self).selected_input as int,
                old(self).current_line().insert(
                    old(self).current_line().len() - old(self).input_offset,
                    c,
                ),
            ));
        }
    }

    /// Removes the character just before the cursor, if there is one.
    pub fn backspace_char(&mut self)
        requires
            old(self).wf(),
        ensures
            final(self).wf(),
            backspaced(*old(self), *final(self)),
    {
        let idx = self.selected_input;
        let len = self.stdin[idx].len();
        if len > self.input_offset {
            let pos = len - self.input_offset - 1;
            self.stdin[idx].remove(pos);
            proof {
                assert(self.lines() =~~= old(self).lines().update(
                    old(self).selected_input as int,
                    old(self).current_line().remove(
                        old(self).current_line().len() - old(self).input_offset - 1,
                    ),
                ));
            }
        } else {
            proof {
                assert(self.lines() =~~= old(self).lines());
            }
        }
    }

    /// Removes the character under the cursor, moving the cursor onto the
    /// next one, if the cursor is not already at the end of the line.
    pub fn delete_char(&mut self)
        requires
            old(self).wf(),
        ensures
            final(self).wf(),
            deleted_char(*old(self), *final(self)),
    {
        let idx = self.selected_input;
        let len = self.stdin[idx].len();
        if self.input_offset > 0 {
            let pos = len - self.input_offset;
            self.stdin[idx].remove(pos);
            self.input_offset = self.input_offset - 1;
            proof {
                assert(self.lines() =~~= old(self).lines().update(
                    old(self).selected_input as int,
                    old(self).current_line().remove(
                        old(self).current_line().len() - old(self).input_offset,
                    ),
                ));
            }
        } else {
            proof {
                assert(self.lines() =~~= old(self).lines());
            }
        }
    }

    /// Selects the next older history line, keeping the cursor inside it.
    pub fn select_older(&mut self)
        requires
            old(self).wf(),
        ensures
            final(self).wf(),
            selected_older(*old(self), *final(self)),
    {
        if self.selected_input < self.stdin.len() - 1 {
            self.selected_input = self.selected_input + 1;
            let len = self.stdin[self.selected_input].len();
            if self.input_offset > len {
                self.input_offset = len;
            }
        }
    }

    /// Selects the next newer history line (towards the editing slot),
    /// keeping the cursor inside it.
    pub fn select_newer(&mut self)
        requires
            old(self).wf(),
        ensures
            final(self).wf(),
            selected_newer(*old(self), *final(self)),
    {
        if self.selected_input > 0 {
            self.selected_input = self.selected_input - 1;
            let len = self.stdin[self.selected_input].len();
            if self.input_offset > len {
                self.input_offset = len;
            }
        }
    }

    /// Handles one key press aimed at this widget, exactly as the key map
    /// reads: scrollback keys work at any time; editing keys work only
    /// while the widget is expanded and no command is running; a key with
    /// Ctrl held is left to the global bindings.
    pub fn handle_key(&mut self, key: KeyInput, is_expanded: bool) -> (act: TerminalAction)
        requires
            old(self).wf(),
        ensures
            final(self).wf(),
            key.ctrl ==> act is NotHandled && *final(self) == *old(self),
            !key.ctrl && key.code == KeyCode::End ==> act is Handled && *final(self) == (
            TerminalWidgetState { offset: 0, ..*old(self) }),
            !key.ctrl && key.code == KeyCode::PageUp ==> act is Handled && *final(self) == (
            TerminalWidgetState {
                offset: (if old(self).offset < usize::MAX {
                    (old(self).offset + 1) as usize
                } else {
                    old(self).offset
                }),
                ..*old(self)
            }),
            !key.ctrl && key.code == KeyCode::PageDown ==> act is Handled && *final(self) == (
            TerminalWidgetState {
                offset: (if old(self).offset > 0 {
                    (old(self).offset - 1) as usize
                } else {
                    0
                }),
                ..*old(self)
            }),
            !key.ctrl && key.code == KeyCode::Esc ==> act is Collapse && *final(self) == *old(self),
            !key.ctrl && !(key.code == KeyCode::End || key.code == KeyCode::PageUp || key.code
                == KeyCode::PageDown || key.code == KeyCode::Esc) && !(is_expanded && !old(self).is_working) ==> act is NotHandled && *final(self) == *old(self),
            !key.ctrl && is_expanded && !old(self).is_working ==> match key.code {
                KeyCode::End | KeyCode::PageUp | KeyCode::PageDown | KeyCode::Esc => true,
                KeyCode::Up => act is Handled && selected_older(*old(self), *final(self)),
                KeyCode::Down => act is Handled && selected_newer(*old(self), *final(self)),
                KeyCode::Left => act is Handled && cursor_moved_left(*old(self), *final(self)),
                KeyCode::Right => act is Handled && cursor_moved_right(*old(self), *final(self)),
                KeyCode::Enter => (act matches TerminalAction::Run(cmd) && command_taken(
                    *old(self),
                    *final(self),
                    cmd@,
                )) && final(self).is_working,
                KeyCode::Backspace => act is Handled && backspaced(*old(self), *final(self)),
                KeyCode::Delete => act is Handled && deleted_char(*old(self), *final(self)),
                KeyCode::Char(c) => act is Handled && (if (c as int) < 128 {
                    inserted_char(*old(self), *final(self), c)
                } else {
                    *final(self) == *old(self)
                }),
                KeyCode::F(n) => act is Handled && (if n == 9 {
                    output_cleared(*old(self), *final(self))
                } else {
                    *final(self) == *old(self)
                }),
                _ => act is Handled && *final(self) == *old(self),
            },
    {
        if key.ctrl {
            return TerminalAction::NotHandled;
        }
        match key.code {
            KeyCode::End => {
                self.offset = 0;
                TerminalAction::Handled
            },
            KeyCode::PageUp => {
                if self.offset < usize::MAX {
                    self.offset = self.offset + 1;
                }
                TerminalAction::Handled
            },
            KeyCode::PageDown => {
                if self.offset > 0 {
                    self.offset = self.offset - 1;
                }
                TerminalAction::Handled
            },
            KeyCode::Esc => TerminalAction::Collapse,
            _ => {
                if is_expanded && !self.is_working {
                    match key.code {
                        KeyCode::Up => {
                            self.select_older();
                            TerminalAction::Handled
                        },
                        KeyCode::Down => {
                            self.select_newer();
                            TerminalAction::Handled
                        },
                        KeyCode::Left => {
                            let len = self.stdin[self.selected_input].len();
                            if self.input_offset < len {
                                self.input_offset = self.input_offset + 1;
                            }
                            TerminalAction::Handled
                        },
                        KeyCode::Right => {
                            if self.input_offset > 0 {
                                self.input_offset = self.input_offset - 1;
                            }
                            TerminalAction::Handled
                        },
                        KeyCode::Enter => {
                            let cmd = self.take_input();
                            self.is_working = true;
                            TerminalAction::Run(cmd)
                        },
                        KeyCode::Backspace => {
                            self.backspace_char();
                            TerminalAction::Handled
                        },
                        KeyCode::Delete => {
                            self.delete_char();
                            TerminalAction::Handled
                        },
                        KeyCode::Char(c) => {
                            if (c as u32) < 128 {
                                self.insert_char(c);
                            }
                            TerminalAction::Handled
                        },
                        KeyCode::F(n) => {
                            if n == 9 {
                                // Clear the output pane.
                                self.stdout = String::new();
                                self.offset = 0;
                            }
                            TerminalAction::Handled
                        },
                        _ => TerminalAction::Handled,
                    }
                } else {
                    TerminalAction::NotHandled
                }
            },
        }
    }
}

/// Copies one input line character for character.
fn clone_line(line: &Vec<char>) -> (r: Vec<char>)
    ensures
        r@ == line@,
{
    let mut r: Vec<char> = Vec::new();
    let n = line.len();
    let mut i: usize = 0;
    while i < n
        invariant
            0 <= i <= n,
            n == line@.len(),
            r@ == line@.take(i as int),
        decreases n - i,
    {
        r.push(line[i]);
        proof {
            assert(line@.take(i + 1) =~= line@.take(i as int).push(line@[i as int]));
        }
        i = i + 1;
    }
    proof {
        assert(line@.take(n as int) =~= line@);
    }
    r
}

/// The bounds of the trimmed command inside the line: everything before
/// `a` and from `b` on is whitespace, and the characters between are what
/// `trimmed` keeps.
fn trim_bounds(line: &Vec<char>) -> (r: (usize, usize))
    ensures
        0 <= r.0 <= r.1 <= line@.len(),
        trimmed(line@) == line@.subrange(r.0 as int, r.1 as int),
        (r.0 < r.1) == (trimmed(line@).len() > 0),
{
    let n = line.len();
    let mut a: usize = 0;
    while a < n
        invariant
            0 <= a <= n,
            n == line@.len(),
            forall|i: int| 0 <= i < a ==> is_space(#[trigger] line@[i]),
        ensures
            0 <= a <= n,
            forall|i: int| 0 <= i < a ==> is_space(#[trigger] line@[i]),
            a < n ==> !is_space(line@[a as int]),
        decreases n - a,
    {
        let c = line[a];
        if c == ' ' || c == '\t' || c == '\n' || c == '\r' {
            a = a + 1;
        } else {
            break ;
        }
    }
    let mut b: usize = n;
    while b > a
        invariant
            a <= b <= n,
            n == line@.len(),
            forall|i: int| b <= i < n ==> is_space(#[trigger] line@[i]),
        ensures
            a <= b <= n,
            forall|i: int| b <= i < n ==> is_space(#[trigger] line@[i]),
            b > a ==> !is_space(line@[b - 1]),
        decreases b,
    {
        let c = line[b - 1];
        if c == ' ' || c == '\t' || c == '\n' || c == '\r' {
            b = b - 1;
        } else {
            break ;
        }
    }
    proof {
        if a >= b {
            assert(a == b);
            lemma_trimmed_subrange(line@, a as int, a as int);
        } else {
            lemma_trimmed_subrange(line@, a as int, b as int);
        }
    }
    (a, b)
}

} // verus!
