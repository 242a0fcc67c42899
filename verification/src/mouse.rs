//! The pointer: presses, drags, hovering and the menu under it.

use crate::buffer::{self, Buffer};
use crate::frame::{self, lands, Chrome, Hit, Rect};
use crate::input;
use crate::keys::Modifiers;
use crate::panes::PaneStore;
use crate::sidebar::{Tree, TreeDrag};
use crate::state::{
    CopiedCode, Drag, EditorView, Effect, Hints, LinePlace, SelectUnit, Selecting, Side, State,
    Status, TabBar, Task, REACH,
};
use crate::tabs::{self, default_preview};
use crate::terminal::TerminalPanel;
use vstd::prelude::*;

verus! {

/// The toolbar moves the window from here on, clear of the window's buttons.
pub const TOOLBAR_GRIP: i32 = 12_000;

/// A press of the button.
#[derive(Clone, Copy, PartialEq, Eq, Structural, Debug)]
pub struct Press {
    pub x: i32,
    pub y: i32,
    /// How many clicks in a row this is.
    pub clicks: usize,
    pub flags: Modifiers,
    /// Whether somebody really pressed.
    pub pressed: bool,
}

/// What the home screen offers.
pub enum HomeAction {
    OpenFolder,
    NewFile,
    FindFile,
    OpenProject(String),
}

/// A block of a rendered document under the pointer.
pub struct BlockHit {
    /// Its first line.
    pub line: usize,
    /// The code, when the pointer is on the block's copy button.
    pub copy: Option<String>,
    /// Where the caret goes.
    pub offset: usize,
}

/// What is under the pointer, as the outside measures it.
pub struct Under {
    /// The scrollbar's track and its thumb, when there is one.
    pub track: Rect,
    pub thumb: Option<Rect>,
    /// The line whose fold chevron it is.
    pub fold: Option<usize>,
    /// The row of the tree.
    pub row: Option<usize>,
    /// The part of the change that shows.
    pub hunk: Option<usize>,
    pub home: Option<HomeAction>,
    pub block: Option<BlockHit>,
    /// The offset in the text, and the word and the line around it.
    pub offset: usize,
    pub word: (usize, usize),
    pub line: (usize, usize),
    /// The suggestion.
    pub chip: Option<usize>,
}

/// Whether the point is in reach, so that measures can be taken from it.
pub open spec fn in_reach(x: i32, y: i32) -> bool {
    &&& -REACH <= x <= REACH
    &&& -REACH <= y <= REACH
}

impl State {
    /// The state with something else held down.
    pub open spec fn with_drag(self, drag: Drag) -> State {
        State { drag, ..self }
    }

    /// The state with no press in the text.
    pub open spec fn unselecting(self) -> State {
        self.with_drag(Drag { selecting: None, ..self.drag })
    }

    /// Whether the document is what the pointer meets: nothing covers it.
    pub open spec fn uncovered(&self) -> bool {
        self.fields.palette is None && !self.git.open && self.fields.goto_line is None
    }

    /// The state with the keyboard taken from the tree and the terminal, or
    /// given, as the press says.
    pub open spec fn handed(self, in_sidebar: bool, in_terminal: bool) -> State {
        State {
            side: Side { keys: self.side.keys && in_sidebar, ..self.side },
            terminal: TerminalPanel { focus: in_terminal, ..self.terminal },
            hints: Hints { marked: None, ..self.hints },
            ..self
        }
    }

    /// The state with another tab strip.
    pub open spec fn with_tab_bar(self, tab_bar: TabBar) -> State {
        State { tab_bar, ..self }
    }

    /// Whether the document is shown rendered.
    pub open spec fn rendered(&self) -> bool {
        self.pane.preview is Some && tabs::preview_of(self.pane.docs.front()) is Some
    }
}

/// Whether a press lands on the scrollbar.
pub open spec fn on_scrollbar(state: State, press: Press, under: Under) -> bool {
    &&& state.uncovered()
    &&& under.thumb is Some
    &&& under.track.has(press.x, press.y)
}

/// How far below its top the thumb is held.
pub open spec fn grabbed_at(press: Press, thumb: Rect) -> int {
    if thumb.has(press.x, press.y) {
        press.y - thumb.y
    } else {
        thumb.height / 2
    }
}

/// What a press on the track outside the thumb asks for: it brings the thumb
/// to the pointer.
pub open spec fn thumb_work(press: Press, thumb: Rect) -> Seq<Effect> {
    if thumb.has(press.x, press.y) {
        Seq::empty()
    } else {
        seq![Effect::ScrollToThumb((press.y - thumb.height / 2) as i32)]
    }
}

/// The command that a press on `hit` leads to, for the parts that do nothing
/// else.
pub open spec fn hit_command(hit: Hit) -> Option<Task> {
    match hit {
        Hit::ToolbarSidebar => Some(Task::ToggleSidebar),
        Hit::ToolbarSearch => Some(Task::OpenPalette),
        Hit::SidebarExplorer => Some(Task::SetSidebarView(false)),
        Hit::SidebarSourceControl => Some(Task::SetSidebarView(true)),
        Hit::SidebarAction(slot) => Some(
            if slot == 0 {
                Task::NewFile
            } else if slot == 1 {
                Task::NewFolder
            } else if slot == 2 {
                Task::CollapseTree
            } else {
                Task::RefreshTree
            },
        ),
        Hit::ResponseSegment(index) => Some(Task::ResponseSelect(index)),
        Hit::ToolbarTerminal => Some(Task::ToggleTerminal),
        Hit::TerminalClose(index) => Some(Task::CloseSession(index)),
        Hit::TerminalNew => Some(Task::NewSession),
        Hit::Terminal => Some(Task::TerminalPress),
        Hit::ReviewAccept => Some(Task::ReviewDecision(true)),
        Hit::ReviewReject => Some(Task::ReviewDecision(false)),
        Hit::Find => Some(Task::FindClick),
        _ => None,
    }
}

/// See [`hit_command`].
fn command_under(hit: Hit) -> (task: Option<Task>)
    ensures
        task == hit_command(hit),
{
    match hit {
        Hit::ToolbarSidebar => Some(Task::ToggleSidebar),
        Hit::ToolbarSearch => Some(Task::OpenPalette),
        Hit::SidebarExplorer => Some(Task::SetSidebarView(false)),
        Hit::SidebarSourceControl => Some(Task::SetSidebarView(true)),
        Hit::SidebarAction(slot) => Some(
            if slot == 0 {
                Task::NewFile
            } else if slot == 1 {
                Task::NewFolder
            } else if slot == 2 {
                Task::CollapseTree
            } else {
                Task::RefreshTree
            },
        ),
        Hit::ResponseSegment(index) => Some(Task::ResponseSelect(index)),
        Hit::ToolbarTerminal => Some(Task::ToggleTerminal),
        Hit::TerminalClose(index) => Some(Task::CloseSession(index)),
        Hit::TerminalNew => Some(Task::NewSession),
        Hit::Terminal => Some(Task::TerminalPress),
        Hit::ReviewAccept => Some(Task::ReviewDecision(true)),
        Hit::ReviewReject => Some(Task::ReviewDecision(false)),
        Hit::Find => Some(Task::FindClick),
        _ => None,
    }
}

/// Whether a press on `hit` goes on to what lies behind: the body of the
/// sidebar, the status line, the text.
pub open spec fn goes_behind(state: State, hit: Option<Hit>, under: Under) -> bool {
    match hit {
        None => true,
        Some(hit) => match hit {
            Hit::SidebarRow(_) | Hit::Status => true,
            Hit::Text => !state.reviewing() && under.fold is None,
            _ => false,
        },
    }
}

/// Whether the parts that a hit names are there.
pub open spec fn hit_exists(state: State, hit: Option<Hit>) -> bool {
    hit matches Some(hit) ==> (hit matches Hit::TerminalTab(index) ==> index
        < state.terminal.tabs@.len())
}

/// Whether `after` is `before` with a blank document in a new tab.
pub open spec fn adds_tab(after: State, before: State, fresh: u64) -> bool {
    let docs = after.pane.docs;
    let old = before.pane.docs;
    &&& docs.front().id == fresh
    &&& docs.front().is_blank()
    &&& docs.wf()
    &&& if old.at_home() {
        docs.list@ == seq![docs.front()] && docs.active == 0
    } else {
        docs.list@ == old.list@.push(docs.front()) && docs.active == old.list@.len()
    }
    &&& after == (State {
        pane: PaneStore { docs, preview: None, tab_scroll: docs.active, ..before.pane },
        ..before
    })
}

/// The state after a press on a part that changes something by itself.
pub open spec fn hit_state(s: State, hit: Hit, testing: bool) -> State {
    match hit {
        Hit::ToolbarProject => if testing {
            State { status: Status { project_menu_requested: true, ..s.status }, ..s }
        } else {
            s
        },
        Hit::SidebarDivider => s.with_drag(Drag { divider: true, ..s.drag }),
        Hit::TerminalDivider => s.with_drag(Drag { terminal: true, ..s.drag }),
        Hit::Tab(index) => s.with_tab_bar(TabBar { drag: Some(index), ..s.tab_bar }),
        Hit::TabClose(_) => s.with_tab_bar(TabBar { drag: None, ..s.tab_bar }),
        _ => s,
    }
}

/// What such a press asks for.
pub open spec fn hit_work(s: State, hit: Hit, under: Under, testing: bool) -> Seq<Effect> {
    match hit {
        Hit::ToolbarProject => if testing {
            Seq::empty()
        } else {
            seq![Effect::ShowProjectMenu]
        },
        Hit::Tab(_) | Hit::TabClose(_) => seq![Effect::Run(Task::TabClick)],
        Hit::Pane(index) => seq![
            Effect::Run(Task::FocusPane(index)),
            Effect::Run(Task::MouseDown),
        ],
        Hit::Text => if s.reviewing() {
            Seq::empty()
        } else {
            match under.fold {
                Some(line) => seq![Effect::Run(Task::ToggleFold(line))],
                None => Seq::empty(),
            }
        },
        _ => match hit_command(hit) {
            Some(task) => seq![Effect::Run(task)],
            None => Seq::empty(),
        },
    }
}

impl EditorView {
    /// This is `before` with the press taken by the part it landed on.
    pub open spec fn takes_hit(
        &self,
        before: EditorView,
        hit: Hit,
        press: Press,
        under: Under,
        fresh: u64,
        now: u64,
    ) -> bool {
        let s = before.state;
        match hit {
            Hit::TerminalTab(index) => self.shows(
                before,
                State {
                    terminal: TerminalPanel {
                        active: index,
                        back: 0,
                        selection: None,
                        ..s.terminal
                    },
                    ..s
                },
                Seq::empty(),
                now,
            ),
            Hit::TabStrip => if press.clicks >= 2 {
                exists|added: State|
                    {
                        &&& #[trigger] adds_tab(added, s, fresh)
                        &&& self.shows(before, added, seq![Effect::SyncTitle], now)
                    }
            } else {
                *self == before
            },
            _ => self.becomes(
                before,
                hit_state(s, hit, before.ivars.testing),
                hit_work(s, hit, under, before.ivars.testing),
            ),
        }
    }

    /// Takes the press.
    fn take_hit(&mut self, hit: Hit, press: Press, under: &Under, fresh: u64, now: u64)
        requires
            old(self).state.wf(),
            hit_exists(old(self).state, Some(hit)),
            !goes_behind(old(self).state, Some(hit), *under),
        ensures
            final(self).state.wf(),
            final(self).takes_hit(*old(self), hit, press, *under, fresh, now),
    {
        let ghost nothing = Seq::<Effect>::empty();
        match hit {
            Hit::TerminalTab(index) => {
                self.state.terminal.active = index;
                self.state.terminal.back = 0;
                self.state.terminal.selection = None;
                self.show(now);
            },
            Hit::TabStrip => {
                if press.clicks >= 2 {
                    self.state.pane.docs.push(Buffer::new(fresh));
                    self.state.pane.preview = None;
                    self.state.pane.tab_scroll = self.state.pane.docs.active;
                    let ghost added = self.state;
                    assert(adds_tab(added, old(self).state, fresh));
                    self.ask(Effect::SyncTitle);
                    self.show(now);
                    assert(self.effects@ =~= old(self).effects@ + (seq![Effect::SyncTitle] + old(
                        self,
                    ).pumping(now)));
                }
            },
            Hit::ToolbarProject => {
                if self.ivars.testing {
                    self.state.status.project_menu_requested = true;
                    assert(self.effects@ =~= old(self).effects@ + nothing);
                } else {
                    self.ask(Effect::ShowProjectMenu);
                }
            },
            Hit::SidebarDivider => {
                self.state.drag.divider = true;
                assert(self.effects@ =~= old(self).effects@ + nothing);
            },
            Hit::TerminalDivider => {
                self.state.drag.terminal = true;
                assert(self.effects@ =~= old(self).effects@ + nothing);
            },
            Hit::Tab(index) => {
                self.state.tab_bar.drag = Some(index);
                self.ask(Effect::Run(Task::TabClick));
            },
            Hit::TabClose(_) => {
                self.state.tab_bar.drag = None;
                self.ask(Effect::Run(Task::TabClick));
            },
            Hit::Pane(index) => {
                self.effects.push(Effect::Run(Task::FocusPane(index)));
                self.effects.push(Effect::Run(Task::MouseDown));
                assert(self.effects@ =~= old(self).effects@ + seq![
                    Effect::Run(Task::FocusPane(index)),
                    Effect::Run(Task::MouseDown),
                ]);
            },
            Hit::Text => {
                if crate::focus::active_review(&self.state) {
                    assert(self.effects@ =~= old(self).effects@ + nothing);
                } else if let Some(line) = under.fold {
                    self.ask(Effect::Run(Task::ToggleFold(line)));
                }
            },
            _ => match command_under(hit) {
                Some(task) => {
                    self.ask(Effect::Run(task));
                },
                None => {
                    assert(self.effects@ =~= old(self).effects@ + nothing);
                },
            },
        }
    }
}

/// The drag that a press on row `row` of the tree may become.
pub open spec fn drag_from(tree: Tree, row: Option<usize>, press: Press, drag: Option<TreeDrag>) -> bool {
    match row {
        Some(index) => if index < tree.rows@.len() {
            &&& drag matches Some(drag)
            &&& drag.path == tree.rows@[index as int].path
            &&& drag.origin_x == press.x
            &&& drag.origin_y == press.y
            &&& !drag.active
            &&& drag.over is None
            &&& !drag.valid
        } else {
            drag is None
        },
        None => drag is None,
    }
}

/// What the home screen's actions ask for.
pub open spec fn home_work(action: HomeAction) -> Seq<Effect> {
    match action {
        HomeAction::OpenFolder => seq![Effect::Run(Task::OpenFolder)],
        HomeAction::NewFile => seq![Effect::Run(Task::NewFile)],
        HomeAction::FindFile => seq![Effect::Run(Task::OpenPalette)],
        HomeAction::OpenProject(path) => seq![Effect::LoadFolder(path)],
    }
}

/// The state with the caret at `offset` of the active document, whose line the
/// rendering shows.
pub open spec fn caret_in_rendering(after: State, before: State, offset: usize) -> bool {
    let front = after.pane.docs.front();
    &&& after.pane.docs.fronts(
        before.pane.docs,
        before.pane.docs.front().selecting(offset, offset),
    )
    &&& after == (State {
        pane: PaneStore {
            docs: after.pane.docs,
            live_line: Some(
                LinePlace {
                    buffer: front.id,
                    line: buffer::line_at(front.text@, front.cursor as int) as usize,
                },
            ),
            ..before.pane
        },
        ..before
    })
}

impl EditorView {
    /// This is `before` with the press taken by the body of the sidebar.
    pub open spec fn takes_side(&self, before: EditorView, press: Press, under: Under) -> bool {
        if before.state.git.open {
            self.becomes(before, before.state, seq![Effect::Run(Task::GitClick)])
        } else {
            let drag = self.state.side.drag;
            &&& drag_from(before.state.side.tree, under.row, press, drag)
            &&& self.becomes(
                before,
                before.state.with_tree_drag(drag),
                seq![Effect::Run(Task::SidebarClick)],
            )
        }
    }

    /// Takes a press in the sidebar.
    fn take_side(&mut self, press: Press, under: &Under)
        requires
            old(self).state.wf(),
        ensures
            final(self).state.wf(),
            final(self).takes_side(*old(self), press, *under),
    {
        if self.state.git.open {
            self.ask(Effect::Run(Task::GitClick));
            return;
        }
        let drag = match under.row {
            Some(index) => if index < self.state.side.tree.rows.len() {
                Some(
                    TreeDrag {
                        path: self.state.side.tree.rows[index].path.clone(),
                        origin_x: press.x,
                        origin_y: press.y,
                        active: false,
                        over: None,
                        valid: false,
                    },
                )
            } else {
                None
            },
            None => None,
        };
        self.state.side.drag = drag;
        self.ask(Effect::Run(Task::SidebarClick));
    }

    /// This is `before` with the press taken by the change that shows.
    pub open spec fn takes_hunk(&self, before: EditorView, hunk: Option<usize>, now: u64) -> bool {
        let done = (match hunk {
            Some(hunk) => seq![Effect::StageHunk(hunk)],
            None => Seq::empty(),
        }) + seq![Effect::ResumeDisplayLink];
        self.marks(
            before,
            before.state,
            done + before.pumping(now) + seq![Effect::InvalidateCursorRects],
        )
    }

    /// Takes a press on a change.
    fn take_hunk(&mut self, hunk: Option<usize>, now: u64)
        requires
            old(self).state.wf(),
        ensures
            final(self).state.wf(),
            final(self).takes_hunk(*old(self), hunk, now),
    {
        if let Some(hunk) = hunk {
            self.effects.push(Effect::StageHunk(hunk));
        }
        self.effects.push(Effect::ResumeDisplayLink);
        let ghost done = (match hunk {
            Some(hunk) => seq![Effect::StageHunk(hunk)],
            None => Seq::empty(),
        }) + seq![Effect::ResumeDisplayLink];
        assert(self.effects@ =~= old(self).effects@ + done);
        self.show(now);
        self.effects.push(Effect::InvalidateCursorRects);
        assert(self.effects@ =~= old(self).effects@ + (done + old(self).pumping(now) + seq![
            Effect::InvalidateCursorRects,
        ]));
    }

    /// This is `before` with the press taken by the rendered document.
    pub open spec fn takes_block(&self, before: EditorView, block: Option<BlockHit>, now: u64) -> bool {
        let end = before.state.pane.docs.front().text@.len() as usize;
        match block {
            Some(block) => match block.copy {
                Some(code) => {
                    &&& self.state.says("copied code block"@, now)
                    &&& self.shows(
                        before,
                        State {
                            status: Status {
                                message: self.state.status.message,
                                copied: Some(CopiedCode { line: block.line, at: now }),
                                ..before.state.status
                            },
                            ..before.state
                        },
                        seq![Effect::CopyText(code)],
                        now,
                    )
                },
                None => exists|placed: State|
                    {
                        &&& #[trigger] caret_in_rendering(placed, before.state, block.offset)
                        &&& self.shows(before, placed, Seq::empty(), now)
                    },
            },
            None => exists|placed: State|
                {
                    &&& #[trigger] caret_in_rendering(placed, before.state, end)
                    &&& self.shows(before, placed, Seq::empty(), now)
                },
        }
    }

    /// Puts the caret of the rendered document at `offset`.
    fn place_in_rendering(&mut self, offset: usize)
        requires
            old(self).state.wf(),
        ensures
            final(self).state.wf(),
            caret_in_rendering(final(self).state, old(self).state, offset),
            final(self).ivars == old(self).ivars,
            final(self).effects == old(self).effects,
    {
        self.state.pane.docs.select_in_front(offset, offset);
        let id = self.state.pane.docs.active().id;
        let line = self.state.pane.docs.active().cursor_line();
        self.state.pane.live_line = Some(LinePlace { buffer: id, line });
    }

    /// Takes a press on the rendered document.
    fn take_block(&mut self, block: &Option<BlockHit>, now: u64)
        requires
            old(self).state.wf(),
        ensures
            final(self).state.wf(),
            final(self).takes_block(*old(self), *block, now),
    {
        let offset = match block {
            Some(block) => {
                if let Some(code) = &block.copy {
                    self.effects.push(Effect::CopyText(code.clone()));
                    self.state.status.copied = Some(CopiedCode { line: block.line, at: now });
                    self.say("copied code block".to_owned(), now);
                    let ghost done = seq![Effect::CopyText(*code)];
                    assert(self.effects@ =~= old(self).effects@ + done);
                    self.show(now);
                    assert(self.effects@ =~= old(self).effects@ + (done + old(self).pumping(now)));
                    return;
                }
                block.offset
            },
            None => self.state.pane.docs.active().text.len(),
        };
        self.place_in_rendering(offset);
        let ghost placed = self.state;
        assert(caret_in_rendering(placed, old(self).state, offset));
        self.show(now);
        assert(self.effects@ =~= old(self).effects@ + (Seq::<Effect>::empty() + old(self).pumping(
            now,
        )));
        assert(self.shows(*old(self), placed, Seq::empty(), now));
        assert(*block matches Some(hit) ==> hit.copy is None);
        assert(*block is None ==> offset == old(self).state.pane.docs.front().text@.len() as usize);
    }
}

/// What a press selects in: one click places the caret, two take a word, three
/// a line.
pub open spec fn unit_of(clicks: usize) -> SelectUnit {
    if clicks == 2 {
        SelectUnit::Word
    } else if clicks >= 3 {
        SelectUnit::Line
    } else {
        SelectUnit::Character
    }
}

/// What the press itself takes.
pub open spec fn taken_by(clicks: usize, under: Under) -> (usize, usize) {
    if clicks == 2 {
        under.word
    } else if clicks >= 3 {
        under.line
    } else {
        (under.offset, under.offset)
    }
}

/// Whether the press takes a word or a line at once.
pub open spec fn takes_unit(press: Press) -> bool {
    !(unit_of(press.clicks) is Character) && !press.flags.option && !press.flags.shift
}

/// Whether it is a Command-click, which goes to a definition.
pub open spec fn asks_definition(flags: Modifiers) -> bool {
    flags.command && !flags.shift && !flags.option
}

/// The state with a press in the text held down, and the list closed.
pub open spec fn pressed_text(s: State, press: Press, under: Under) -> State {
    let taken = taken_by(press.clicks, under);
    State {
        hints: Hints { completion: None, ..s.hints },
        drag: Drag {
            selecting: Some(
                Selecting { unit: unit_of(press.clicks), start: taken.0, end: taken.1 },
            ),
            ..s.drag
        },
        ..s
    }
}

/// Whether `after` is `before` with the caret moved and the selection made.
pub open spec fn places(after: State, before: State, anchor: usize, cursor: usize) -> bool {
    &&& after.pane.docs.fronts(
        before.pane.docs,
        before.pane.docs.front().selecting(anchor, cursor),
    )
    &&& after == before.with_docs(after.pane.docs)
}

impl EditorView {
    /// This is `before` with the press taken by the text.
    pub open spec fn takes_text(
        &self,
        before: EditorView,
        press: Press,
        under: Under,
        now: u64,
    ) -> bool {
        let front = before.state.pane.docs.front();
        let taken = taken_by(press.clicks, under);
        if asks_definition(press.flags) {
            exists|placed: EditorView|
                {
                    &&& places(placed.state, before.state, under.offset, under.offset)
                    &&& #[trigger] placed.becomes(
                        before,
                        placed.state,
                        seq![Effect::Run(Task::GotoDefinition)],
                    )
                    &&& input::final_frame(*self, placed, now, now)
                }
        } else if under.chip is Some {
            exists|chosen: EditorView|
                {
                    &&& #[trigger] chosen.becomes(
                        before,
                        before.state,
                        seq![Effect::Run(Task::AcceptCompletion(under.chip))],
                    )
                    &&& input::final_frame(*self, chosen, now, now)
                }
        } else if press.flags.option && !takes_unit(press) {
            exists|added: EditorView|
                {
                    &&& #[trigger] added.becomes(
                        before,
                        pressed_text(before.state, press, under),
                        seq![Effect::AddCursor(under.offset)],
                    )
                    &&& input::final_frame(*self, added, now, now)
                }
        } else {
            let anchor = if takes_unit(press) {
                taken.0
            } else if press.flags.shift {
                front.anchor
            } else {
                under.offset
            };
            let cursor = if takes_unit(press) {
                taken.1
            } else {
                under.offset
            };
            exists|placed: EditorView|
                {
                    &&& places(
                        placed.state,
                        pressed_text(before.state, press, under),
                        anchor,
                        cursor,
                    )
                    &&& #[trigger] placed.becomes(before, placed.state, Seq::empty())
                    &&& input::final_frame(*self, placed, now, now)
                }
        }
    }

    /// Notes an input made now, and gets its frame under way.
    pub(crate) fn note_now(&mut self, now: u64)
        ensures
            old(self).state.wf() ==> final(self).state.wf(),
            input::final_frame(*final(self), *old(self), now, now),
    {
        self.note_input(now);
        self.pump(now);
        assert(self.effects@ =~= old(self).effects@ + old(self).pumping(now));
    }

    /// Takes a press in the text.
    fn take_text(&mut self, press: Press, under: &Under, now: u64)
        requires
            old(self).state.wf(),
        ensures
            final(self).state.wf(),
            final(self).takes_text(*old(self), press, *under, now),
    {
        let offset = under.offset;
        if press.flags.command && !press.flags.shift && !press.flags.option {
            self.state.pane.docs.select_in_front(offset, offset);
            self.ask(Effect::Run(Task::GotoDefinition));
            let ghost placed = *self;
            assert(placed.becomes(
                *old(self),
                placed.state,
                seq![Effect::Run(Task::GotoDefinition)],
            ));
            self.note_now(now);
            return;
        }
        if let Some(index) = under.chip {
            self.ask(Effect::Run(Task::AcceptCompletion(Some(index))));
            let ghost chosen = *self;
            assert(chosen.becomes(
                *old(self),
                old(self).state,
                seq![Effect::Run(Task::AcceptCompletion(Some(index)))],
            ));
            self.note_now(now);
            return;
        }
        self.state.hints.completion = None;
        let (unit, taken) = if press.clicks == 2 {
            (SelectUnit::Word, under.word)
        } else if press.clicks >= 3 {
            (SelectUnit::Line, under.line)
        } else {
            (SelectUnit::Character, (offset, offset))
        };
        self.state.drag.selecting = Some(Selecting { unit, start: taken.0, end: taken.1 });
        assert(self.state == pressed_text(old(self).state, press, *under));
        let whole = unit != SelectUnit::Character && !press.flags.option && !press.flags.shift;
        if whole {
            self.state.pane.docs.select_in_front(taken.0, taken.1);
        } else if press.flags.option {
            self.ask(Effect::AddCursor(offset));
            let ghost added = *self;
            assert(added.becomes(
                *old(self),
                pressed_text(old(self).state, press, *under),
                seq![Effect::AddCursor(offset)],
            ));
            self.note_now(now);
            return;
        } else {
            let anchor = if press.flags.shift {
                self.state.pane.docs.active().anchor
            } else {
                offset
            };
            self.state.pane.docs.select_in_front(anchor, offset);
        }
        let ghost placed = *self;
        assert(placed.effects@ =~= old(self).effects@ + Seq::<Effect>::empty());
        assert(placed.becomes(*old(self), placed.state, Seq::empty()));
        self.note_now(now);
    }

    /// This is `before` with the press taken by what lies behind the parts of
    /// the window.
    pub open spec fn takes_behind(
        &self,
        before: EditorView,
        press: Press,
        chrome: Chrome,
        under: Under,
        now: u64,
    ) -> bool {
        let s = before.state;
        if chrome.toolbar.has(press.x, press.y) {
            self.becomes(
                before,
                s,
                if press.x > TOOLBAR_GRIP {
                    seq![Effect::DragWindow]
                } else {
                    Seq::empty()
                },
            )
        } else if frame::lands_in(chrome.sidebar, press.x, press.y) {
            self.takes_side(before, press, under)
        } else if !chrome.text.has(press.x, press.y) {
            *self == before
        } else if s.git.open && s.git.showing_diff {
            self.takes_hunk(before, under.hunk, now)
        } else if s.pane.docs.at_home() && !s.git.open && under.home is Some {
            self.shows(before, s, home_work(under.home->0), now)
        } else if s.rendered() {
            self.takes_block(before, under.block, now)
        } else {
            self.takes_text(before, press, under, now)
        }
    }

    /// Takes the press behind the parts of the window. Everything that is not
    /// text stops here: the find bar, the padding above the first line, the
    /// status line.
    fn take_behind(&mut self, press: Press, chrome: &Chrome, under: &Under, now: u64)
        requires
            old(self).state.wf(),
        ensures
            final(self).state.wf(),
            final(self).takes_behind(*old(self), press, *chrome, *under, now),
    {
        if chrome.toolbar.contains(press.x, press.y) {
            if press.x > TOOLBAR_GRIP {
                self.ask(Effect::DragWindow);
            } else {
                assert(self.effects@ =~= old(self).effects@ + Seq::<Effect>::empty());
            }
            return;
        }
        if lands(&chrome.sidebar, press.x, press.y) {
            self.take_side(press, under);
            return;
        }
        if !chrome.text.contains(press.x, press.y) {
            return;
        }
        if self.state.git.open && self.state.git.showing_diff {
            self.take_hunk(under.hunk, now);
            return;
        }
        if self.state.pane.docs.is_home() && !self.state.git.open {
            if let Some(action) = &under.home {
                match action {
                    HomeAction::OpenFolder => self.effects.push(Effect::Run(Task::OpenFolder)),
                    HomeAction::NewFile => self.effects.push(Effect::Run(Task::NewFile)),
                    HomeAction::FindFile => self.effects.push(Effect::Run(Task::OpenPalette)),
                    HomeAction::OpenProject(path) => self.effects.push(
                        Effect::LoadFolder(path.clone()),
                    ),
                }
                let ghost done = home_work(*action);
                assert(self.effects@ =~= old(self).effects@ + done);
                self.show(now);
                assert(self.effects@ =~= old(self).effects@ + (done + old(self).pumping(now)));
                return;
            }
        }
        if self.state.pane.preview.is_some() && default_preview(
            self.state.pane.docs.active(),
        ).is_some() {
            self.take_block(&under.block, now);
            return;
        }
        self.take_text(press, under, now);
    }

    /// This is `before` with the keyboard handed over as the press says.
    pub open spec fn hands_over(&self, before: EditorView, press: Press, chrome: Chrome) -> bool {
        self.becomes(
            before,
            before.state.unselecting().handed(
                frame::lands_in(chrome.sidebar, press.x, press.y),
                frame::lands_in(chrome.terminal, press.x, press.y),
            ),
            if before.state.hints.marked is Some {
                seq![Effect::DiscardMarked]
            } else {
                Seq::empty()
            },
        )
    }

    /// This is `handed` with the press taken.
    pub open spec fn takes_press(
        &self,
        handed: EditorView,
        press: Press,
        hit: Option<Hit>,
        chrome: Chrome,
        under: Under,
        fresh: u64,
        now: u64,
    ) -> bool {
        let s = handed.state;
        if press.flags.control {
            self.becomes(handed, s, seq![Effect::ShowContextMenu])
        } else if s.fields.palette is Some {
            self.becomes(handed, s, seq![Effect::Run(Task::PaletteClick)])
        } else if s.fields.sidebar_edit is Some {
            self.becomes(
                handed,
                s,
                if frame::lands_in(chrome.sidebar, press.x, press.y) {
                    seq![Effect::Run(Task::FinishSidebarEdit(true))]
                } else {
                    seq![
                        Effect::Run(Task::FinishSidebarEdit(true)),
                        Effect::Run(Task::MouseDown),
                    ]
                },
            )
        } else if goes_behind(s, hit, under) {
            self.takes_behind(handed, press, chrome, under, now)
        } else {
            self.takes_hit(handed, hit->0, press, under, fresh, now)
        }
    }

    /// Takes hold of the scrollbar's thumb, if the press is on the scrollbar.
    /// A press on the track outside the thumb brings the thumb to the pointer.
    fn grab_thumb(&mut self, press: Press, under: &Under, now: u64) -> (held: bool)
        requires
            old(self).state.wf(),
            in_reach(press.x, press.y),
            under.thumb matches Some(thumb) ==> thumb.near(),
        ensures
            final(self).state.wf(),
            held == on_scrollbar(old(self).state, press, *under),
            !held ==> *final(self) == *old(self),
            held ==> final(self).holds_thumb(*old(self), press, under.thumb->0, now),
    {
        let plain = self.state.fields.palette.is_none() && !self.state.git.open
            && self.state.fields.goto_line.is_none();
        let thumb = match &under.thumb {
            Some(thumb) => *thumb,
            None => {
                return false;
            },
        };
        if !plain || !under.track.contains(press.x, press.y) {
            return false;
        }
        let grab = if thumb.contains(press.x, press.y) {
            press.y - thumb.y
        } else {
            self.effects.push(Effect::ScrollToThumb(press.y - thumb.height / 2));
            thumb.height / 2
        };
        let ghost done = thumb_work(press, thumb);
        assert(self.effects@ =~= old(self).effects@ + done);
        self.state.drag.selecting = None;
        self.state.drag.scrollbar = Some(grab);
        self.show(now);
        assert(self.effects@ =~= old(self).effects@ + (done + old(self).pumping(now)));
        true
    }

    /// This is `before` with the thumb held.
    pub open spec fn holds_thumb(
        &self,
        before: EditorView,
        press: Press,
        thumb: Rect,
        now: u64,
    ) -> bool {
        let s = before.state.unselecting();
        self.shows(
            before,
            s.with_drag(Drag { scrollbar: Some(grabbed_at(press, thumb) as i32), ..s.drag }),
            thumb_work(press, thumb),
            now,
        )
    }

    /// Hands the keyboard over as the press says.
    fn hand_over(&mut self, press: Press, chrome: &Chrome)
        requires
            old(self).state.wf(),
        ensures
            final(self).state.wf(),
            final(self).hands_over(*old(self), press, *chrome),
    {
        self.state.drag.selecting = None;
        if !lands(&chrome.sidebar, press.x, press.y) {
            self.state.side.keys = false;
        }
        self.state.terminal.focus = lands(&chrome.terminal, press.x, press.y);
        if self.state.hints.marked.is_some() {
            self.state.hints.marked = None;
            self.ask(Effect::DiscardMarked);
        } else {
            assert(self.effects@ =~= old(self).effects@ + Seq::<Effect>::empty());
        }
    }

    /// The button goes down. `hit` is what is under the pointer, `fresh` the
    /// id of a document that the press may make. A scripted run hears no
    /// button that was really pressed.
    ///
    /// The scrollbar comes before anything that treats a press in the text as
    /// a caret placement. Anywhere but the sidebar takes the keyboard from the
    /// tree, and the terminal has it exactly when the press is in the
    /// terminal. Clicking away from a half-typed accent abandons it.
    /// Control-click is a right click. A click is the end of a name being
    /// typed; one on the tree goes no further, so the row it hit cannot shift
    /// under it as the field disappears.
    pub fn mouse_down(
        &mut self,
        press: Press,
        hit: Option<Hit>,
        chrome: &Chrome,
        under: &Under,
        fresh: u64,
        now: u64,
    )
        requires
            old(self).state.wf(),
            in_reach(press.x, press.y),
            under.thumb matches Some(thumb) ==> thumb.near(),
            hit_exists(old(self).state, hit),
        ensures
            final(self).state.wf(),
            if old(self).ivars.testing && press.pressed {
                *final(self) == *old(self)
            } else if on_scrollbar(old(self).state, press, *under) {
                final(self).holds_thumb(*old(self), press, under.thumb->0, now)
            } else {
                exists|handed: EditorView|
                    {
                        &&& #[trigger] handed.hands_over(*old(self), press, *chrome)
                        &&& final(self).takes_press(
                            handed,
                            press,
                            hit,
                            *chrome,
                            *under,
                            fresh,
                            now,
                        )
                    }
            },
    {
        if self.ivars.testing && press.pressed {
            return;
        }
        if self.grab_thumb(press, under, now) {
            return;
        }
        self.hand_over(press, chrome);
        let ghost handed = *self;
        assert(handed.hands_over(*old(self), press, *chrome));
        self.take_press(press, hit, chrome, under, fresh, now);
    }

    /// Takes the press once the keyboard has been handed over.
    fn take_press(
        &mut self,
        press: Press,
        hit: Option<Hit>,
        chrome: &Chrome,
        under: &Under,
        fresh: u64,
        now: u64,
    )
        requires
            old(self).state.wf(),
            hit_exists(old(self).state, hit),
        ensures
            final(self).state.wf(),
            final(self).takes_press(*old(self), press, hit, *chrome, *under, fresh, now),
    {
        if press.flags.control {
            self.ask(Effect::ShowContextMenu);
            return;
        }
        if self.state.fields.palette.is_some() {
            self.ask(Effect::Run(Task::PaletteClick));
            return;
        }
        if self.state.fields.sidebar_edit.is_some() {
            self.effects.push(Effect::Run(Task::FinishSidebarEdit(true)));
            if lands(&chrome.sidebar, press.x, press.y) {
                assert(self.effects@ =~= old(self).effects@ + seq![
                    Effect::Run(Task::FinishSidebarEdit(true)),
                ]);
            } else {
                self.effects.push(Effect::Run(Task::MouseDown));
                assert(self.effects@ =~= old(self).effects@ + seq![
                    Effect::Run(Task::FinishSidebarEdit(true)),
                    Effect::Run(Task::MouseDown),
                ]);
            }
            return;
        }
        let behind = match hit {
            None => true,
            Some(hit) => match hit {
                Hit::SidebarRow(_) | Hit::Status => true,
                Hit::Text => !crate::focus::active_review(&self.state) && under.fold.is_none(),
                _ => false,
            },
        };
        if behind {
            self.take_behind(press, chrome, under, now);
        } else if let Some(hit) = hit {
            self.take_hit(hit, press, under, fresh, now);
        }
    }
}

/// A press that no control takes and that is outside the text never moves the
/// caret behind it: it leaves every document as it was.
pub proof fn chrome_keeps_the_caret(
    after: EditorView,
    before: EditorView,
    press: Press,
    chrome: Chrome,
    under: Under,
    now: u64,
)
    requires
        after.takes_behind(before, press, chrome, under, now),
        !chrome.text.has(press.x, press.y),
    ensures
        after.state.pane == before.state.pane,
        after.state.panes == before.state.panes,
{
}

/// A press in the text always takes the keyboard from the tree and the
/// terminal.
pub proof fn a_press_hands_over_the_keyboard(
    handed: EditorView,
    before: EditorView,
    press: Press,
    chrome: Chrome,
)
    requires
        handed.hands_over(before, press, chrome),
        !frame::lands_in(chrome.sidebar, press.x, press.y),
        !frame::lands_in(chrome.terminal, press.x, press.y),
    ensures
        !handed.state.side.keys,
        !handed.state.terminal.takes_keys(),
        handed.state.hints.marked is None,
{
}

} // verus!
