//! An editing session: its windows, which of them has the focus, and what a
//! key press does to them.

use vstd::prelude::*;
use vstd::string::*;
use crate::errors::{CrbResult, ErrorKind, described, failure};
use crate::mode::{Command, Key, Mode, key_command, takes_count};
use crate::state::State;
use crate::text::{decimal, push_chars, push_decimal, text_size};
use crate::window::{CursorOp, Window, WindowView};

verus! {

/// What the host of the session has to do after a command.
#[derive(Debug, Clone, Copy, PartialEq, Eq, Structural)]
pub enum Action {
    /// Nothing but to draw the windows and wait for the next key.
    Continue,
    /// End the session.
    Quit,
    /// Write the text of the first window to its file.
    Save,
    /// Build the editor anew and show how that went.
    Recompile,
}

/// The index of the window whose text is saved.
pub const MAIN_WINDOW: usize = 0;

/// The index of the window that shows how a build went.
pub const OUTPUT_WINDOW: usize = 1;

/// The index of the window that shows the last key and command.
pub const STATUS_WINDOW: usize = 2;

pub struct Session {
    pub windows: Vec<Window>,
    /// The index of the window that the keys go to.
    pub focus: usize,
    pub state: State,
}

pub struct SessionView {
    pub windows: Seq<WindowView>,
    pub focus: int,
    pub state: State,
}

impl View for Session {
    type V = SessionView;

    open spec fn view(&self) -> SessionView {
        SessionView {
            windows: Seq::new(self.windows@.len(), |i: int| self.windows@[i]@),
            focus: self.focus as int,
            state: self.state,
        }
    }
}

impl SessionView {
    /// The session with window `i` replaced.
    pub open spec fn with_window(self, i: int, w: WindowView) -> SessionView {
        SessionView { windows: self.windows.update(i, w), ..self }
    }

    /// The window that the keys go to.
    pub open spec fn focused(self) -> WindowView {
        self.windows[self.focus]
    }

    /// Whether the machine's number ranges leave room for the command: an
    /// insertion needs room for one more character at each cursor, a digit
    /// room for one more digit of the repeat count.
    pub open spec fn can_dispatch(self, cmd: Command) -> bool {
        &&& cmd is Insert || cmd is NewLine ==> text_size(self.focused().buf.lines)
            + self.focused().cursors.len() <= i32::MAX
        &&& cmd matches Command::Digit(d) ==> self.state.typed(d) <= u32::MAX
    }

    /// The session after the command, what the host has to do next, and the
    /// kind of the failure where the command failed. Moves, insertions,
    /// deletions, scrolling and mode changes go to the focused window. A
    /// rebuild empties the status window, where there is one. A request for
    /// the focus that names no window is ignored.
    pub open spec fn dispatched(self, cmd: Command) -> (SessionView, Action, Option<ErrorKind>) {
        let w = self.focused();
        match cmd {
            Command::Quit => (self, Action::Quit, None),
            Command::MoveUp(_) | Command::MoveDown(_) | Command::MoveLeft(_) | Command::MoveRight(
                _,
            ) => (self.with_window(self.focus, w.moved(cmd).0), Action::Continue, w.moved(cmd).1),
            Command::Insert(c) => (
                self.with_window(self.focus, w.edited(CursorOp::Insert(c)).0),
                Action::Continue,
                w.edited(CursorOp::Insert(c)).1,
            ),
            Command::Delete(d) => (
                self.with_window(self.focus, w.edited(CursorOp::Delete(d)).0),
                Action::Continue,
                w.edited(CursorOp::Delete(d)).1,
            ),
            Command::NewLine => (
                self.with_window(self.focus, w.edited(CursorOp::Insert('\n')).0),
                Action::Continue,
                w.edited(CursorOp::Insert('\n')).1,
            ),
            Command::Scroll(n) => (
                self.with_window(self.focus, w.scrolled_by(n as int)),
                Action::Continue,
                None,
            ),
            Command::ChangeMode(m) => (
                self.with_window(self.focus, WindowView { mode: m, ..w }),
                Action::Continue,
                None,
            ),
            Command::RecompileSelf => (
                if STATUS_WINDOW < self.windows.len() {
                    self.with_window(
                        STATUS_WINDOW as int,
                        self.windows[STATUS_WINDOW as int].cleared(),
                    )
                } else {
                    self
                },
                Action::Recompile,
                None,
            ),
            Command::Save => (self, Action::Save, None),
            Command::Digit(d) => (
                SessionView {
                    state: State {
                        num_prefix: self.state.typed(d) as u32,
                        typing_num_prefix: true,
                        ..self.state
                    },
                    ..self
                },
                Action::Continue,
                None,
            ),
            Command::FocusWindow(n) => (
                if 1 <= n <= self.windows.len() {
                    SessionView { focus: n - 1, ..self }
                } else {
                    self
                },
                Action::Continue,
                None,
            ),
            Command::Unknown => (self, Action::Continue, None),
        }
    }
}

/// What a build printed on one of its streams, as text: the text itself, or,
/// where the bytes were no text, a note that names the stream and then the
/// description of what was wrong with them.
pub open spec fn stream_text(stream: Result<String, String>, note: Seq<char>) -> Seq<char> {
    match stream {
        Ok(text) => text@,
        Err(why) => note + why@,
    }
}

/// What the output window shows after a build: that it went well, or that
/// it failed and what it printed, the errors first.
pub open spec fn report_text(
    success: bool,
    stderr: Result<String, String>,
    stdout: Result<String, String>,
) -> Seq<char> {
    if success {
        "Compilation successful\n"@
    } else {
        "Compilation failed\n"@ + stream_text(stderr, "<stderr-utf8-error>\n"@) + seq!['\n']
            + stream_text(stdout, "<stdout-utf8-error>\n"@)
    }
}

/// What the status window shows after a key press: the key as the terminal
/// reported it, the command it stood for, and the repeat count, one to a line.
pub open spec fn status_text(event: Seq<char>, command: Seq<char>, num_prefix: u32) -> Seq<char> {
    event + seq!['\n'] + command + seq!['\n'] + "state.num_prefix = "@ + decimal(num_prefix as nat)
}

/// The text that the output window shows after a build.
pub fn compilation_report(
    success: bool,
    stderr: &Result<String, String>,
    stdout: &Result<String, String>,
) -> (report: String)
    ensures
        report@ == report_text(success, *stderr, *stdout),
{
    if success {
        String::from_str("Compilation successful\n")
    } else {
        let mut report = String::from_str("Compilation failed\n");
        match stderr {
            Ok(text) => {
                report.append(text.as_str());
            },
            Err(why) => {
                report.append("<stderr-utf8-error>\n");
                report.append(why.as_str());
            },
        }
        report.push('\n');
        match stdout {
            Ok(text) => {
                report.append(text.as_str());
            },
            Err(why) => {
                report.append("<stdout-utf8-error>\n");
                report.append(why.as_str());
            },
        }
        assert(report@ =~= report_text(success, *stderr, *stdout));
        report
    }
}

/// Shows in the window how a build went, in place of what the window held,
/// and says whether the build went well.
pub fn fill_compilation_buffer(
    w: &mut Window,
    success: bool,
    stderr: &Result<String, String>,
    stdout: &Result<String, String>,
) -> (r: CrbResult<bool>)
    requires
        old(w).wf(),
        1 + report_text(success, *stderr, *stdout).len() * old(w)@.cursors.len() <= i32::MAX,
    ensures
        final(w).wf(),
        final(w)@ == old(w)@.cleared().typed(report_text(success, *stderr, *stdout)).0,
        match r {
            Ok(restart) => restart == success && old(w)@.cleared().typed(
                report_text(success, *stderr, *stdout),
            ).1 is None,
            Err(e) => old(w)@.cleared().typed(report_text(success, *stderr, *stdout)).1 == Some(
                e.kind,
            ) && e.description@ == crate::errors::kind_text(e.kind),
        },
{
    let report = compilation_report(success, stderr, stdout);
    let _ = w.clear();
    match w.insert_s(report.as_str()) {
        Ok(()) => Ok(success),
        Err(e) => Err(e),
    }
}

/// What came of a key press.
#[derive(Debug)]
pub struct Step {
    /// The command that the key stood for.
    pub command: Command,
    /// What the host has to do next.
    pub action: Action,
    /// Whether the command could be carried out.
    pub result: CrbResult<()>,
}

impl SessionView {
    /// Whether the machine's number ranges leave room for what the key asks:
    /// the repeat count has to fit the command that takes it, and the
    /// command has to fit the session.
    pub open spec fn can_handle(self, key: Key) -> bool {
        &&& self.focused().mode == Mode::Normal && takes_count(key) ==> self.state.num_prefix
            <= i32::MAX
        &&& self.can_dispatch(key_command(self.focused().mode, key, self.state.num_prefix))
    }

    /// The session with the repeat count forgotten.
    pub open spec fn with_count_ended(self) -> SessionView {
        SessionView {
            state: State { num_prefix: 1, typing_num_prefix: false, ..self.state },
            ..self
        }
    }

    /// The session after a key press, with the command that the key stood
    /// for, what the host has to do next, and the kind of the failure where
    /// the command failed. The key is read in the mode of the focused
    /// window and with the repeat count typed so far; after any command but
    /// a digit the repeat count is forgotten.
    pub open spec fn handled(self, key: Key) -> (SessionView, Command, Action, Option<ErrorKind>) {
        let cmd = key_command(self.focused().mode, key, self.state.num_prefix);
        let (after, action, failed) = self.dispatched(cmd);
        (
            if cmd is Digit {
                after
            } else {
                after.with_count_ended()
            },
            cmd,
            action,
            failed,
        )
    }
}

impl Session {
    /// The focus is on one of the windows, and every window is well formed.
    pub open spec fn wf(&self) -> bool {
        &&& self.focus < self.windows@.len()
        &&& forall|i: int| 0 <= i < self.windows@.len() ==> (#[trigger] self.windows@[i]).wf()
    }

    /// Carries out a command.
    pub fn dispatch(&mut self, cmd: &Command) -> (r: (Action, CrbResult<()>))
        requires
            old(self).wf(),
            old(self)@.can_dispatch(*cmd),
        ensures
            final(self).wf(),
            (final(self)@, r.0, failure(r.1)) == old(self)@.dispatched(*cmd),
            described(r.1),
    {
        let focus: usize = self.focus;
        let r: (Action, CrbResult<()>) = match *cmd {
            Command::Quit => (Action::Quit, Ok(())),
            Command::MoveUp(_) | Command::MoveDown(_) | Command::MoveLeft(_) | Command::MoveRight(
                _,
            ) => (Action::Continue, self.windows[focus].move_cursors(cmd)),
            Command::Insert(c) => (Action::Continue, self.windows[focus].insert(c)),
            Command::Delete(d) => (Action::Continue, self.windows[focus].delete(d)),
            Command::NewLine => (Action::Continue, self.windows[focus].insert('\n')),
            Command::Scroll(_) => (Action::Continue, self.windows[focus].scroll(cmd)),
            Command::ChangeMode(m) => {
                self.windows[focus].set_mode(m);
                (Action::Continue, Ok(()))
            },
            Command::RecompileSelf => {
                if STATUS_WINDOW < self.windows.len() {
                    let _ = self.windows[STATUS_WINDOW].clear();
                }
                (Action::Recompile, Ok(()))
            },
            Command::Save => (Action::Save, Ok(())),
            Command::Digit(d) => {
                self.state.type_num_prefix(d);
                (Action::Continue, Ok(()))
            },
            Command::FocusWindow(n) => {
                if 1 <= n && (n as usize) <= self.windows.len() {
                    self.focus = (n - 1) as usize;
                }
                (Action::Continue, Ok(()))
            },
            Command::Unknown => (Action::Continue, Ok(())),
        };
        proof {
            let want = old(self)@.dispatched(*cmd).0;
            assert(self@.windows =~= want.windows);
        }
        r
    }

    /// The text that the status window shows after a key press.
    pub fn status_report(&self, event: &str, command: &str) -> (report: String)
        ensures
            report@ == status_text(event@, command@, self.state.num_prefix),
    {
        let mut report = String::from_str(event);
        report.push('\n');
        report.append(command);
        report.push('\n');
        report.append("state.num_prefix = ");
        let mut digits: Vec<char> = Vec::new();
        push_decimal(self.state.num_prefix as u64, &mut digits);
        push_chars(&mut report, &digits);
        assert(report@ =~= status_text(event@, command@, self.state.num_prefix));
        report
    }

    /// Shows the last key and command in the status window, in place of
    /// what the window held.
    pub fn show_status(&mut self, event: &str, command: &str) -> (r: CrbResult<()>)
        requires
            old(self).wf(),
            STATUS_WINDOW < old(self).windows@.len(),
            1 + status_text(event@, command@, old(self).state.num_prefix).len() * old(
                self,
            )@.windows[STATUS_WINDOW as int].cursors.len() <= i32::MAX,
        ensures
            final(self).wf(),
            final(self)@ == old(self)@.with_window(
                STATUS_WINDOW as int,
                old(self)@.windows[STATUS_WINDOW as int].cleared().typed(
                    status_text(event@, command@, old(self).state.num_prefix),
                ).0,
            ),
            failure(r) == old(self)@.windows[STATUS_WINDOW as int].cleared().typed(
                status_text(event@, command@, old(self).state.num_prefix),
            ).1,
            described(r),
    {
        let report = self.status_report(event, command);
        let _ = self.windows[STATUS_WINDOW].clear();
        let r = self.windows[STATUS_WINDOW].insert_s(report.as_str());
        proof {
            assert(self@.windows =~= old(self)@.windows.update(
                STATUS_WINDOW as int,
                self.windows@[STATUS_WINDOW as int]@,
            ));
        }
        r
    }

    /// Whether the session can take the key: whether the numbers that the
    /// key's command would make fit the machine.
    pub fn accepts(&self, key: Key) -> (b: bool)
        requires
            self.wf(),
        ensures
            b == self@.can_handle(key),
    {
        let w = &self.windows[self.focus];
        let mode = w.mode();
        let counts: bool = match key {
            Key::Char(c) => c == 'j' || c == 'k' || c == 'h' || c == 'l' || c == 'b' || c == 'v',
            Key::Down => true,
            Key::Up => true,
            Key::Left => true,
            Key::Right => true,
            _ => false,
        };
        if mode == Mode::Normal && counts && self.state.num_prefix > 0x7fff_ffff {
            return false;
        }
        match crate::mode::map(mode, key, &self.state) {
            Command::Insert(_) | Command::NewLine => w.count_cursors() <= w.buffer().room(),
            Command::Digit(d) => {
                if self.state.typing_num_prefix {
                    self.state.num_prefix as u64 * 10 + d as u64 <= 0xffff_ffff
                } else {
                    true
                }
            },
            _ => true,
        }
    }

    /// Takes a key press: reads it as a command, carries the command out,
    /// and forgets the repeat count unless the key was one of its digits.
    pub fn handle_key(&mut self, key: Key) -> (step: Step)
        requires
            old(self).wf(),
            old(self)@.can_handle(key),
        ensures
            final(self).wf(),
            (final(self)@, step.command, step.action, failure(step.result)) == old(self)@.handled(
                key,
            ),
            described(step.result),
            !(step.command is Digit) ==> final(self).state.num_prefix == 1,
            !(step.command is Digit) ==> !final(self).state.typing_num_prefix,
    {
        let command = crate::mode::map(self.windows[self.focus].mode(), key, &self.state);
        let (action, result) = self.dispatch(&command);
        match command {
            Command::Digit(_) => {},
            _ => {
                self.state.end_num_prefix();
            },
        }
        Step { command: command, action: action, result: result }
    }
}

} // verus!
