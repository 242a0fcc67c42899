//! What happens in the terminal panel.

use crate::focus::field_has_keys;
use crate::keys::{self, KeyEvent};
use crate::path::{self, file_name};
use crate::state::{EditorView, Effect, Side, State};
use crate::terminal::{Cell, CellRange, TerminalPanel, TerminalTab};
use crate::text::{self, decimal, joined, joined3, same, starts_with};
use vstd::prelude::*;
use vstd::string::*;

verus! {

/// The sessions of `tabs` whose programs still run.
pub open spec fn running(tabs: Seq<TerminalTab>) -> Seq<TerminalTab>
    decreases tabs.len(),
{
    if tabs.len() == 0 {
        Seq::empty()
    } else {
        let head = running(tabs.drop_last());
        if tabs.last().exited {
            head
        } else {
            head.push(tabs.last())
        }
    }
}

/// `n`, or the last of `count`.
pub open spec fn at_most_last(n: int, count: int) -> int {
    if n < count {
        n
    } else if count > 0 {
        count - 1
    } else {
        0
    }
}

impl TerminalPanel {
    /// This is `before` with other sessions, `active` in front, scrolled to
    /// the end with nothing selected. The last session takes the panel with
    /// it.
    pub open spec fn keeps(&self, before: TerminalPanel, tabs: Seq<TerminalTab>, active: int) -> bool {
        &&& self.tabs@ == tabs
        &&& *self == (TerminalPanel {
            tabs: self.tabs,
            active: active as usize,
            back: 0,
            selection: None,
            open: before.open && tabs.len() > 0,
            focus: before.focus && tabs.len() > 0,
            ..before
        })
    }

    /// Which session is in front once `index` is closed.
    pub open spec fn active_without(&self, index: int) -> int {
        at_most_last(
            if index < self.active {
                self.active - 1
            } else {
                self.active as int
            },
            self.tabs@.len() - 1,
        )
    }

    /// Closes session `index`.
    pub fn close_tab(&mut self, index: usize)
        requires
            old(self).wf(),
        ensures
            final(self).wf(),
            index >= old(self).tabs@.len() ==> *final(self) == *old(self),
            index < old(self).tabs@.len() ==> final(self).keeps(
                *old(self),
                old(self).tabs@.remove(index as int),
                old(self).active_without(index as int),
            ),
    {
        if index >= self.tabs.len() {
            return;
        }
        let gone = self.tabs.remove(index);
        if index < self.active {
            self.active -= 1;
        }
        let count = self.tabs.len();
        if count == 0 {
            self.active = 0;
            self.open = false;
            self.focus = false;
        } else if self.active >= count {
            self.active = count - 1;
        }
        self.back = 0;
        self.selection = None;
    }

    /// Whether the program of some session has ended.
    pub open spec fn any_exited(&self) -> bool {
        exists|i: int| 0 <= i < self.tabs@.len() && (#[trigger] self.tabs@[i]).exited
    }

    /// See [`TerminalPanel::any_exited`].
    fn has_exited(&self) -> (r: bool)
        ensures
            r == self.any_exited(),
    {
        let mut i: usize = 0;
        while i < self.tabs.len()
            invariant
                i <= self.tabs@.len(),
                forall|j: int| 0 <= j < i ==> !(#[trigger] self.tabs@[j]).exited,
            decreases self.tabs@.len() - i,
        {
            if self.tabs[i].exited {
                return true;
            }
            i += 1;
        }
        false
    }

    /// Closes the sessions whose programs have ended.
    fn close_exited(&mut self)
        requires
            old(self).wf(),
            old(self).any_exited(),
        ensures
            final(self).wf(),
            final(self).keeps(
                *old(self),
                running(old(self).tabs@),
                at_most_last(
                    running(old(self).tabs@.take(old(self).active as int)).len() as int,
                    running(old(self).tabs@).len() as int,
                ),
            ),
    {
        let ghost tabs = old(self).tabs@;
        let ghost front = old(self).active as int;
        let ghost mut seen: int = 0;
        let mut i: usize = 0;
        assert(tabs.take(0) =~= Seq::empty());
        assert(tabs.skip(0) =~= tabs);
        assert(self.tabs@ =~= running(tabs.take(0)) + tabs.skip(0));
        while i < self.tabs.len()
            invariant
                old(self).wf(),
                self.wf(),
                tabs == old(self).tabs@,
                front == old(self).active,
                0 <= seen <= tabs.len(),
                i == running(tabs.take(seen)).len(),
                i <= seen,
                self.tabs@ == running(tabs.take(seen)) + tabs.skip(seen),
                seen <= front ==> self.active == front - (seen - i),
                seen > front ==> self.active == at_most_last(
                    running(tabs.take(front)).len() as int,
                    self.tabs@.len() as int,
                ),
                i == seen ==> *self == *old(self),
                i < seen ==> self.keeps(*old(self), self.tabs@, self.active as int),
                front <= tabs.len(),
            decreases tabs.len() - seen,
        {
            proof {
                assert(tabs.take(seen + 1).drop_last() =~= tabs.take(seen));
                assert(self.tabs@[i as int] == tabs[seen]);
                if seen >= front {
                    running_grows(tabs, front, seen);
                }
            }
            let ghost before = *self;
            if self.tabs[i].exited {
                self.close_tab(i);
                proof {
                    assert(before.tabs@.remove(i as int) =~= running(tabs.take(seen + 1))
                        + tabs.skip(seen + 1));
                    if seen == front {
                        assert(tabs.take(front) == tabs.take(seen));
                    }
                }
            } else {
                proof {
                    assert(self.tabs@ =~= running(tabs.take(seen + 1)) + tabs.skip(seen + 1));
                    if seen == front {
                        assert(tabs.take(front) == tabs.take(seen));
                    }
                }
                i += 1;
            }
            proof {
                seen = seen + 1;
            }
        }
        proof {
            assert(seen == tabs.len()) by {
                if seen < tabs.len() {
                    assert(self.tabs@.len() > i);
                }
            }
            assert(tabs.take(seen) =~= tabs);
            assert(self.tabs@ =~= running(tabs));
            if i == seen {
                all_running(tabs);
                let k = choose|k: int| 0 <= k < tabs.len() && (#[trigger] tabs[k]).exited;
                assert(false);
            }
            if front >= tabs.len() {
                assert(tabs.len() == 0);
            }
        }
    }
}

/// As many sessions run as there are: none has ended.
proof fn all_running(tabs: Seq<TerminalTab>)
    requires
        running(tabs).len() == tabs.len(),
    ensures
        forall|i: int| 0 <= i < tabs.len() ==> !(#[trigger] tabs[i]).exited,
    decreases tabs.len(),
{
    if tabs.len() > 0 {
        running_is_short(tabs.drop_last());
        all_running(tabs.drop_last());
        assert forall|i: int| 0 <= i < tabs.len() implies !(#[trigger] tabs[i]).exited by {
            if i < tabs.len() - 1 {
                assert(tabs.drop_last()[i] == tabs[i]);
            }
        }
    }
}

/// No more run than there are.
proof fn running_is_short(tabs: Seq<TerminalTab>)
    ensures
        running(tabs).len() <= tabs.len(),
    decreases tabs.len(),
{
    if tabs.len() > 0 {
        running_is_short(tabs.drop_last());
    }
}

/// More sessions, no fewer that run.
proof fn running_grows(tabs: Seq<TerminalTab>, a: int, b: int)
    requires
        0 <= a <= b <= tabs.len(),
    ensures
        running(tabs.take(a)).len() <= running(tabs.take(b)).len(),
    decreases b - a,
{
    if a < b {
        running_grows(tabs, a, b - 1);
        assert(tabs.take(b).drop_last() =~= tabs.take(b - 1));
    }
}

impl State {
    /// The state with another terminal panel.
    pub open spec fn with_terminal(self, terminal: TerminalPanel) -> State {
        State { terminal, ..self }
    }
}

impl EditorView {
    /// Whether keys go to the terminal: it is open with the keyboard, and no
    /// field has taken it.
    pub fn terminal_has_keys(&self) -> (r: bool)
        ensures
            r == self.state.terminal_keys(),
    {
        self.state.terminal.open && self.state.terminal.focus && !field_has_keys(&self.state)
    }

    /// This is `before` with the panel's place on screen changed.
    pub open spec fn relays(&self, before: EditorView, state: State, done: Seq<Effect>, now: u64) -> bool {
        self.shows(before, state, done + seq![Effect::InvalidateCursorRects], now)
    }

    /// The panel appeared, went, or changed sessions: the editor column
    /// changed size, and so did the cursor rectangles.
    pub fn after_terminal_layout(&mut self, now: u64)
        ensures
            old(self).state.wf() ==> final(self).state.wf(),
            final(self).relays(*old(self), old(self).state, Seq::empty(), now),
    {
        self.effects.push(Effect::InvalidateCursorRects);
        let ghost done = Seq::<Effect>::empty() + seq![Effect::InvalidateCursorRects];
        assert(self.effects@ =~= old(self).effects@ + done);
        self.show(now);
        assert(self.effects@ =~= old(self).effects@ + (done + old(self).pumping(now)));
    }

    /// A session printed something, if `changed`, or its program exited. A
    /// program that exits takes its tab with it, and the last tab takes the
    /// panel, as in any terminal.
    pub fn poll_terminal(&mut self, changed: bool, now: u64)
        requires
            old(self).state.wf(),
        ensures
            final(self).state.wf(),
            ({
                let panel = old(self).state.terminal;
                if panel.any_exited() {
                    &&& final(self).state.terminal.keeps(
                        panel,
                        running(panel.tabs@),
                        at_most_last(
                            running(panel.tabs@.take(panel.active as int)).len() as int,
                            running(panel.tabs@).len() as int,
                        ),
                    )
                    &&& final(self).relays(
                        *old(self),
                        old(self).state.with_terminal(final(self).state.terminal),
                        Seq::empty(),
                        now,
                    )
                } else if changed {
                    final(self).shows(*old(self), old(self).state, Seq::empty(), now)
                } else {
                    *final(self) == *old(self)
                }
            }),
    {
        if self.state.terminal.has_exited() {
            self.state.terminal.close_exited();
            self.after_terminal_layout(now);
        } else if changed {
            self.show(now);
        }
    }
}

/// When the last session's program ends, the panel goes and gives the keyboard
/// back.
pub proof fn the_last_session_takes_the_panel(after: TerminalPanel, before: TerminalPanel)
    requires
        after.keeps(before, running(before.tabs@), 0),
        running(before.tabs@).len() == 0,
    ensures
        !after.open,
        !after.takes_keys(),
{
}

/// The first session with the assistant in it.
pub open spec fn claude_tab(tabs: Seq<TerminalTab>) -> Option<int>
    decreases tabs.len(),
{
    if tabs.len() == 0 {
        None
    } else {
        match claude_tab(tabs.drop_last()) {
            Some(i) => Some(i),
            None => if tabs.last().claude {
                Some(tabs.len() - 1)
            } else {
                None
            },
        }
    }
}

/// See [`claude_tab`].
fn find_claude(tabs: &Vec<TerminalTab>) -> (at: Option<usize>)
    ensures
        match (at, claude_tab(tabs@)) {
            (Some(i), Some(j)) => i == j && i < tabs@.len(),
            (None, None) => true,
            _ => false,
        },
{
    let mut found: Option<usize> = None;
    let mut i: usize = 0;
    assert(tabs@.take(0) =~= Seq::empty());
    while i < tabs.len()
        invariant
            i <= tabs@.len(),
            match (found, claude_tab(tabs@.take(i as int))) {
                (Some(a), Some(b)) => a == b && a < i,
                (None, None) => true,
                _ => false,
            },
        decreases tabs@.len() - i,
    {
        assert(tabs@.take(i + 1).drop_last() =~= tabs@.take(i as int));
        if found.is_none() && tabs[i].claude {
            found = Some(i);
        }
        i += 1;
    }
    assert(tabs@.take(tabs@.len() as int) =~= tabs@);
    found
}

/// The session to show: that of the assistant, or the current one.
pub open spec fn session_for(panel: TerminalPanel, claude: bool) -> Option<int> {
    if claude {
        claude_tab(panel.tabs@)
    } else if panel.tabs@.len() > 0 {
        Some(panel.active as int)
    } else {
        None
    }
}

impl EditorView {
    /// This is `before` with the panel open on the session wanted.
    pub open spec fn opens_terminal(&self, before: EditorView, claude: bool, now: u64) -> bool {
        let panel = before.state.terminal;
        let found = session_for(panel, claude);
        self.relays(
            before,
            State {
                side: Side { keys: false, ..before.state.side },
                ..before.state.with_terminal(
                    TerminalPanel {
                        open: true,
                        focus: true,
                        active: match found {
                            Some(i) => i as usize,
                            None => panel.active,
                        },
                        ..panel
                    },
                )
            },
            if found is None {
                seq![Effect::SpawnTerminal(claude)]
            } else {
                Seq::empty()
            },
            now,
        )
    }

    /// Shows the panel with the keyboard: on the assistant's session when
    /// that is wanted, started if there is none, or on the current session, started
    /// if there is none.
    pub fn open_terminal(&mut self, claude: bool, now: u64)
        requires
            old(self).state.wf(),
        ensures
            final(self).state.wf(),
            final(self).opens_terminal(*old(self), claude, now),
    {
        self.state.terminal.open = true;
        self.state.terminal.focus = true;
        self.state.side.keys = false;
        let found = if claude {
            find_claude(&self.state.terminal.tabs)
        } else if self.state.terminal.tabs.len() > 0 {
            Some(self.state.terminal.active)
        } else {
            None
        };
        let ghost mut start = Seq::<Effect>::empty();
        match found {
            Some(i) => {
                self.state.terminal.active = i;
            },
            None => {
                self.effects.push(Effect::SpawnTerminal(claude));
                proof {
                    start = seq![Effect::SpawnTerminal(claude)];
                }
            },
        }
        assert(self.effects@ =~= old(self).effects@ + start);
        self.after_terminal_layout(now);
        assert(self.effects@ =~= old(self).effects@ + (start + seq![
            Effect::InvalidateCursorRects,
        ] + old(self).pumping(now)));
    }

    /// This is `before` with the terminal shown with the keyboard, or hidden
    /// when it had it.
    pub open spec fn toggles_terminal(&self, before: EditorView, now: u64) -> bool {
        if before.state.terminal.takes_keys() {
            self.relays(
                before,
                before.state.with_terminal(
                    TerminalPanel { open: false, focus: false, ..before.state.terminal },
                ),
                Seq::empty(),
                now,
            )
        } else {
            self.opens_terminal(before, false, now)
        }
    }

    /// Shows the terminal with the keyboard, or hides it when it has it.
    pub fn toggle_terminal(&mut self, now: u64)
        requires
            old(self).state.wf(),
        ensures
            final(self).state.wf(),
            final(self).toggles_terminal(*old(self), now),
    {
        if self.state.terminal.open && self.state.terminal.focus {
            self.state.terminal.open = false;
            self.state.terminal.focus = false;
            self.after_terminal_layout(now);
        } else {
            self.open_terminal(false, now);
        }
    }

    /// Asks for a new session, in a panel that has the keyboard.
    pub fn spawn_terminal(&mut self, claude: bool)
        requires
            old(self).state.wf(),
        ensures
            final(self).state.wf(),
            final(self).becomes(
                *old(self),
                old(self).state.with_terminal(
                    TerminalPanel { open: true, focus: true, ..old(self).state.terminal },
                ),
                seq![Effect::SpawnTerminal(claude)],
            ),
    {
        self.state.terminal.open = true;
        self.state.terminal.focus = true;
        self.ask(Effect::SpawnTerminal(claude));
    }
}

/// What a session is called.
pub open spec fn session_title(
    claude: bool,
    name: Seq<char>,
    program: Seq<char>,
) -> Seq<char> {
    if claude {
        "\u{273b} "@ + name
    } else {
        match path::file_name_of(program) {
            Some(name) => name,
            None => "shell"@,
        }
    }
}

impl EditorView {
    /// A session runs `program`, or did not start.
    pub fn terminal_spawned(
        &mut self,
        claude: bool,
        program: &str,
        error: Option<String>,
        now: u64,
    )
        requires
            old(self).state.wf(),
        ensures
            final(self).state.wf(),
            match error {
                Some(error) => {
                    &&& final(self).state.says(
                        "could not start "@ + program@ + (": "@ + error@),
                        now,
                    )
                    &&& final(self).relays(
                        *old(self),
                        old(self).state.saying(final(self).state.status.message->0),
                        Seq::empty(),
                        now,
                    )
                },
                None => {
                    let panel = final(self).state.terminal;
                    let before = old(self).state.terminal;
                    &&& panel.tabs@.len() == before.tabs@.len() + 1
                    &&& panel.tabs@.drop_last() == before.tabs@
                    &&& panel.tabs@.last().title@ == session_title(
                        claude,
                        old(self).state.claude.assistant.name@,
                        program@,
                    )
                    &&& panel.tabs@.last().claude == claude
                    &&& !panel.tabs@.last().exited
                    &&& final(self).relays(
                        *old(self),
                        old(self).state.with_terminal(
                            TerminalPanel {
                                tabs: panel.tabs,
                                active: before.tabs.len(),
                                back: 0,
                                ..before
                            },
                        ),
                        Seq::empty(),
                        now,
                    )
                },
            },
    {
        match error {
            Some(error) => {
                let why = joined(": ", error.as_str());
                self.say(joined3("could not start ", program, why.as_str()), now);
            },
            None => {
                let title = if claude {
                    joined("\u{273b} ", self.state.claude.assistant.name.as_str())
                } else {
                    match file_name(program) {
                        Some(name) => name,
                        None => "shell".to_owned(),
                    }
                };
                let count = self.state.terminal.tabs.len();
                self.state.terminal.tabs.push(TerminalTab { title, claude, exited: false });
                assert(self.state.terminal.tabs@.drop_last() =~= old(self).state.terminal.tabs@);
                self.state.terminal.active = count;
                self.state.terminal.back = 0;
            },
        }
        self.after_terminal_layout(now);
    }

    /// The program of session `index` has ended.
    pub fn session_exited(&mut self, index: usize)
        requires
            old(self).state.wf(),
        ensures
            final(self).state.wf(),
            final(self).ivars == old(self).ivars,
            final(self).effects == old(self).effects,
            index >= old(self).state.terminal.tabs@.len() ==> final(self).state == old(self).state,
            index < old(self).state.terminal.tabs@.len() ==> {
                let panel = final(self).state.terminal;
                let before = old(self).state.terminal;
                &&& panel.tabs@ == before.tabs@.update(
                    index as int,
                    TerminalTab { exited: true, ..before.tabs@[index as int] },
                )
                &&& final(self).state == old(self).state.with_terminal(
                    TerminalPanel { tabs: panel.tabs, ..before },
                )
            },
    {
        if index < self.state.terminal.tabs.len() {
            self.state.terminal.tabs[index].exited = true;
        }
    }

    /// Writes to the active session, which scrolls to its end and loses its
    /// selection.
    pub fn terminal_write(&mut self, bytes: Vec<u8>)
        requires
            old(self).state.wf(),
        ensures
            final(self).state.wf(),
            final(self).writes(*old(self), bytes),
    {
        self.state.terminal.back = 0;
        self.state.terminal.selection = None;
        if self.state.terminal.tabs.len() > 0 {
            self.ask(Effect::TerminalWrite(bytes));
        } else {
            assert(self.effects@ =~= old(self).effects@ + Seq::<Effect>::empty());
        }
    }

    /// This is `before` with `bytes` written to the active session.
    pub open spec fn writes(&self, before: EditorView, bytes: Vec<u8>) -> bool {
        self.becomes(
            before,
            before.state.with_terminal(
                TerminalPanel { back: 0, selection: None, ..before.state.terminal },
            ),
            if before.state.terminal.tabs@.len() > 0 {
                seq![Effect::TerminalWrite(bytes)]
            } else {
                Seq::empty()
            },
        )
    }
}

/// The byte that a Mac line-editing shortcut is for the shell.
pub open spec fn shell_shortcut(code: u16) -> Option<u8> {
    if code == keys::DELETE {
        Some(0x15)
    } else if code == keys::LEFT {
        Some(0x01)
    } else if code == keys::RIGHT {
        Some(0x05)
    } else {
        None
    }
}

impl EditorView {
    /// This is `before` after the terminal was given a key, which it stands
    /// for as `encoded`.
    pub open spec fn handles_terminal_key(
        &self,
        before: EditorView,
        event: KeyEvent,
        encoded: Option<Vec<u8>>,
    ) -> bool {
        if event.flags.command {
            match shell_shortcut(event.code) {
                Some(byte) => exists|bytes: Vec<u8>|
                    bytes@ == seq![byte] && #[trigger] self.writes(before, bytes),
                None => *self == before,
            }
        } else {
            match encoded {
                Some(bytes) => self.writes(before, bytes),
                None => *self == before,
            }
        }
    }

    /// A key while the terminal has the keyboard. Always handled: anything
    /// unhandled would otherwise reach the text system and the document.
    /// `encoded` is what the key stands for in the session.
    pub fn terminal_key(&mut self, event: &KeyEvent, encoded: Option<Vec<u8>>) -> (handled: bool)
        requires
            old(self).state.wf(),
        ensures
            final(self).state.wf(),
            handled,
            final(self).handles_terminal_key(*old(self), *event, encoded),
    {
        if event.flags.command {
            let byte: u8 = if event.code == keys::DELETE {
                0x15
            } else if event.code == keys::LEFT {
                0x01
            } else if event.code == keys::RIGHT {
                0x05
            } else {
                return true;
            };
            let mut bytes: Vec<u8> = Vec::new();
            bytes.push(byte);
            let ghost sent = bytes;
            assert(bytes@ =~= seq![byte]);
            self.terminal_write(bytes);
            assert(self.writes(*old(self), sent));
            return true;
        }
        if let Some(bytes) = encoded {
            self.terminal_write(bytes);
        }
        true
    }

    /// This is `before` with every session's grid the size of the panel, when
    /// it is on screen.
    pub open spec fn fits_terminals(&self, before: EditorView, on_screen: bool) -> bool {
        let terminal = before.state.terminal;
        self.becomes(
            before,
            before.state,
            if on_screen && terminal.open && terminal.tabs@.len() > 0 {
                seq![Effect::ResizeTerminals]
            } else {
                Seq::empty()
            },
        )
    }

    /// Keeps every session's grid the size of the panel, when it is on
    /// screen.
    pub fn terminal_after_frame(&mut self, on_screen: bool)
        ensures
            old(self).state.wf() ==> final(self).state.wf(),
            final(self).fits_terminals(*old(self), on_screen),
    {
        if on_screen && self.state.terminal.open && self.state.terminal.tabs.len() > 0 {
            self.ask(Effect::ResizeTerminals);
        } else {
            assert(self.effects@ =~= old(self).effects@ + Seq::<Effect>::empty());
        }
    }

    /// The grid of a new session: that of the panel, or the usual one when it
    /// is not on screen.
    pub fn terminal_grid(&self, panel: Option<(usize, usize)>) -> (grid: (usize, usize))
        ensures
            grid == (match panel {
                Some(grid) => grid,
                None => (80usize, 24usize),
            }),
    {
        match panel {
            Some(grid) => grid,
            None => (80, 24),
        }
    }

    /// The grid that points in the panel are mapped to: that of the active
    /// session, when the panel is on screen.
    pub fn terminal_screen(&self, grid: Option<(usize, usize)>) -> (screen: Option<(usize, usize)>)
        ensures
            screen == (if self.state.terminal.tabs@.len() > 0 {
                grid
            } else {
                None
            }),
    {
        if self.state.terminal.tabs.len() > 0 {
            grid
        } else {
            None
        }
    }
}

/// A press in the terminal's screen.
pub struct TerminalPress {
    /// The line it is on.
    pub line: usize,
    /// The nearest boundary between two cells.
    pub boundary: usize,
    /// How many columns the screen has.
    pub columns: usize,
    /// The word or path under it, from cell to cell.
    pub word: Option<(usize, usize)>,
    /// The file reference under it.
    pub reference: Option<FileReference>,
    pub command: bool,
    pub clicks: usize,
}

/// A file named in a terminal, at its line and column when it gave them, and
/// the folder it is meant from.
pub struct FileReference {
    pub path: String,
    pub line: Option<usize>,
    pub column: Option<usize>,
    pub cwd: String,
}

/// What a press selects: nothing yet, a word on a double click, the line on a
/// triple.
pub open spec fn pressed_range(press: TerminalPress) -> Option<CellRange> {
    let line = press.line;
    if press.clicks == 2 {
        match press.word {
            Some((a, b)) => Some(
                CellRange { from: Cell { line, column: a }, to: Cell { line, column: b } },
            ),
            None => None,
        }
    } else if press.clicks >= 3 {
        Some(
            CellRange {
                from: Cell { line, column: 0 },
                to: Cell { line, column: press.columns },
            },
        )
    } else {
        Some(
            CellRange {
                from: Cell { line, column: press.boundary },
                to: Cell { line, column: press.boundary },
            },
        )
    }
}

impl EditorView {
    /// A press in the terminal's screen: starts a selection, selects a word or
    /// path on a double click and the line on a triple, and with Command opens
    /// the file reference under the pointer.
    pub fn terminal_press(&mut self, press: TerminalPress, now: u64)
        requires
            old(self).state.wf(),
        ensures
            final(self).state.wf(),
            ({
                let panel = old(self).state.terminal;
                if panel.tabs@.len() == 0 {
                    *final(self) == *old(self)
                } else if press.command {
                    final(self).shows(
                        *old(self),
                        old(self).state,
                        match press.reference {
                            Some(r) => seq![Effect::OpenReference(r.path, r.line, r.column, r.cwd)],
                            None => Seq::empty(),
                        },
                        now,
                    )
                } else {
                    final(self).shows(
                        *old(self),
                        old(self).state.with_terminal(
                            TerminalPanel {
                                selection: pressed_range(press),
                                selecting: press.clicks < 2,
                                ..panel
                            },
                        ),
                        Seq::empty(),
                        now,
                    )
                }
            }),
    {
        if self.state.terminal.tabs.len() == 0 {
            return;
        }
        if press.command {
            let ghost mut done = Seq::<Effect>::empty();
            if let Some(r) = press.reference {
                let ghost reference = r;
                self.effects.push(Effect::OpenReference(r.path, r.line, r.column, r.cwd));
                proof {
                    done = seq![
                        Effect::OpenReference(
                            reference.path,
                            reference.line,
                            reference.column,
                            reference.cwd,
                        ),
                    ];
                }
            }
            assert(self.effects@ =~= old(self).effects@ + done);
            self.show(now);
            assert(self.effects@ =~= old(self).effects@ + (done + old(self).pumping(now)));
            return;
        }
        let line = press.line;
        self.state.terminal.selection = if press.clicks == 2 {
            match press.word {
                Some((a, b)) => Some(
                    CellRange { from: Cell { line, column: a }, to: Cell { line, column: b } },
                ),
                None => None,
            }
        } else if press.clicks >= 3 {
            Some(
                CellRange {
                    from: Cell { line, column: 0 },
                    to: Cell { line, column: press.columns },
                },
            )
        } else {
            Some(
                CellRange {
                    from: Cell { line, column: press.boundary },
                    to: Cell { line, column: press.boundary },
                },
            )
        };
        self.state.terminal.selecting = press.clicks < 2;
        self.show(now);
    }

    /// A drag in the terminal's screen: the selection reaches to there.
    pub fn terminal_drag(&mut self, line: usize, boundary: usize, now: u64)
        requires
            old(self).state.wf(),
        ensures
            final(self).state.wf(),
            ({
                let panel = old(self).state.terminal;
                if panel.tabs@.len() == 0 {
                    *final(self) == *old(self)
                } else {
                    final(self).shows(
                        *old(self),
                        old(self).state.with_terminal(
                            TerminalPanel {
                                selection: match panel.selection {
                                    Some(range) => Some(
                                        CellRange {
                                            from: range.from,
                                            to: Cell { line, column: boundary },
                                        },
                                    ),
                                    None => None,
                                },
                                ..panel
                            },
                        ),
                        Seq::empty(),
                        now,
                    )
                }
            }),
    {
        if self.state.terminal.tabs.len() == 0 {
            return;
        }
        if let Some(range) = self.state.terminal.selection {
            self.state.terminal.selection = Some(
                CellRange { from: range.from, to: Cell { line, column: boundary } },
            );
        }
        self.show(now);
    }

    /// The text selected in the terminal, `between` being what lies in the
    /// selection. Nothing when that is empty.
    pub fn terminal_selected_text(&self, between: String) -> (selected: Option<String>)
        ensures
            selected == (if self.state.terminal.selection is Some
                && self.state.terminal.tabs@.len() > 0 && between@.len() > 0 {
                Some(between)
            } else {
                None
            }),
    {
        if self.state.terminal.selection.is_some() && self.state.terminal.tabs.len() > 0
            && !between.as_str().is_empty() {
            Some(between)
        } else {
            None
        }
    }
}

/// What the process was started with, as far as sessions care.
pub struct LaunchSettings {
    /// The shell to run instead of the user's.
    pub terminal_shell: Option<String>,
    pub shell: Option<String>,
    pub home: Option<String>,
    /// The command to run instead of the assistant.
    pub claude_command: Option<String>,
    pub version: String,
    /// The names of all variables that are set.
    pub names: Vec<String>,
}

/// A variable of a session.
pub struct Variable {
    pub name: String,
    pub value: String,
}

/// What a session runs.
pub struct Launch {
    pub program: String,
    pub args: Vec<String>,
    pub cwd: String,
    pub env: Vec<Variable>,
    pub unset: Vec<String>,
}

/// The first that is there.
pub open spec fn first_of(a: Option<String>, b: Option<String>, c: Seq<char>) -> Seq<char> {
    match (a, b) {
        (Some(a), _) => a@,
        (None, Some(b)) => b@,
        (None, None) => c,
    }
}

/// The variables of a session, by name and value. Every session knows the
/// window's port, so that the assistant typed in any of them connects by itself.
pub open spec fn session_env(version: Seq<char>, port: Option<u16>) -> Seq<(Seq<char>, Seq<char>)> {
    seq![
        ("TERM"@, "xterm-256color"@),
        ("COLORTERM"@, "truecolor"@),
        ("TERM_PROGRAM"@, "crc"@),
        ("TERM_PROGRAM_VERSION"@, version),
    ] + (match port {
        Some(port) => seq![
            ("CLAUDE_CODE_SSE_PORT"@, text::decimal_digits(port as nat)),
            ("ENABLE_IDE_INTEGRATION"@, "true"@),
        ],
        None => Seq::empty(),
    })
}

/// The name and value of each variable.
pub open spec fn pairs(env: Seq<Variable>) -> Seq<(Seq<char>, Seq<char>)> {
    env.map_values(|v: Variable| (v.name@, v.value@))
}

/// Whether a variable marks the process as the assistant's own: passed on, it
/// would make the assistant in a session think it is that session's child.
pub open spec fn is_marker(name: Seq<char>) -> bool {
    name == "CLAUDECODE"@ || "CLAUDE_CODE_"@.is_prefix_of(name)
}

/// The markers among `names`.
pub open spec fn markers(names: Seq<String>) -> Seq<String>
    decreases names.len(),
{
    if names.len() == 0 {
        Seq::empty()
    } else if is_marker(names.last()@) {
        markers(names.drop_last()).push(names.last())
    } else {
        markers(names.drop_last())
    }
}

/// See [`markers`].
fn find_markers(names: &Vec<String>) -> (found: Vec<String>)
    ensures
        found@ == markers(names@),
{
    let mut found: Vec<String> = Vec::new();
    let mut i: usize = 0;
    assert(names@.take(0) =~= Seq::empty());
    while i < names.len()
        invariant
            i <= names@.len(),
            found@ == markers(names@.take(i as int)),
        decreases names@.len() - i,
    {
        assert(names@.take(i + 1).drop_last() =~= names@.take(i as int));
        let name = names[i].as_str();
        if same(name, "CLAUDECODE") || starts_with(name, "CLAUDE_CODE_") {
            found.push(names[i].clone());
        }
        i += 1;
    }
    assert(names@.take(names@.len() as int) =~= names@);
    found
}

/// A variable.
fn variable(name: &str, value: &str) -> (v: Variable)
    ensures
        v.name@ == name@,
        v.value@ == value@,
{
    Variable { name: name.to_owned(), value: value.to_owned() }
}

/// The first that is there, otherwise `c`.
fn pick_first(a: &Option<String>, b: &Option<String>, c: &str) -> (s: String)
    ensures
        s@ == first_of(*a, *b, c@),
{
    match a {
        Some(a) => a.clone(),
        None => match b {
            Some(b) => b.clone(),
            None => c.to_owned(),
        },
    }
}

impl EditorView {
    /// What a new session runs: the login shell, or the assistant through it so it
    /// finds what the shell profile puts on PATH.
    pub fn terminal_launch(&self, claude: bool, settings: &LaunchSettings) -> (launch: Launch)
        ensures
            launch.program@ == first_of(settings.terminal_shell, settings.shell, "/bin/zsh"@),
            launch.cwd@ == first_of(self.state.side.tree.root, settings.home, "/"@),
            pairs(launch.env@) == session_env(
                settings.version@,
                match self.state.claude.bridge {
                    Some(bridge) => Some(bridge.port),
                    None => None,
                },
            ),
            path::texts(launch.args@) == (if claude {
                seq![
                    "-l"@,
                    "-i"@,
                    "-c"@,
                    first_of(settings.claude_command, None, self.state.claude.assistant.command@),
                ]
            } else {
                seq!["-l"@]
            }),
            launch.unset@ == markers(settings.names@),
    {
        let mut env: Vec<Variable> = Vec::new();
        env.push(variable("TERM", "xterm-256color"));
        env.push(variable("COLORTERM", "truecolor"));
        env.push(variable("TERM_PROGRAM", "crc"));
        env.push(variable("TERM_PROGRAM_VERSION", settings.version.as_str()));
        assert(pairs(env@) =~= session_env(settings.version@, None));
        if let Some(bridge) = &self.state.claude.bridge {
            let port = decimal(bridge.port as usize);
            env.push(variable("CLAUDE_CODE_SSE_PORT", port.as_str()));
            env.push(variable("ENABLE_IDE_INTEGRATION", "true"));
            assert(pairs(env@) =~= session_env(settings.version@, Some(bridge.port)));
        }
        let mut args: Vec<String> = Vec::new();
        args.push("-l".to_owned());
        if claude {
            args.push("-i".to_owned());
            args.push("-c".to_owned());
            args.push(
                pick_first(
                    &settings.claude_command,
                    &None,
                    self.state.claude.assistant.command.as_str(),
                ),
            );
            assert(path::texts(args@) =~= seq![
                "-l"@,
                "-i"@,
                "-c"@,
                first_of(settings.claude_command, None, self.state.claude.assistant.command@),
            ]);
        } else {
            assert(path::texts(args@) =~= seq!["-l"@]);
        }
        Launch {
            program: pick_first(&settings.terminal_shell, &settings.shell, "/bin/zsh"),
            args,
            cwd: pick_first(&self.state.side.tree.root, &settings.home, "/"),
            env,
            unset: find_markers(&settings.names),
        }
    }
}

} // verus!
