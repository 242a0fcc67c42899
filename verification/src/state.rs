//! Everything the window knows, and what it asks the world to do.
//!
//! An [`EditorView`] decides; it does not act. Its methods change its own
//! state and write down, in order, what has to happen outside: a frame drawn,
//! a file loaded, a key handed to the text engine. Whoever owns the view does
//! that work and tells the view how it went.

use crate::buffer::{Field, Language};
use crate::claude::Bridge;
use crate::completion::CompletionPopup;
use crate::find::FindBar;
use crate::frame::Rect;
use crate::git::GitPanel;
use crate::keys::EditOp;
use crate::palette::Branch;
use crate::panes::PaneStore;
use crate::session::Session;
use crate::sidebar::{SidebarEdit, Tree, TreeDrag};
use crate::table::Table;
use crate::terminal::TerminalPanel;
use std::collections::HashMap;
use vstd::prelude::*;

verus! {

/// How far from the corner of the window anything is, in hundredths of a
/// point.
pub const REACH: i32 = 100_000_000;

/// A line, in the billionths that scrolling counts in.
pub const WHOLE_LINE: i64 = 1_000_000_000;

/// A place in a text as language servers count it.
#[derive(Clone, Copy, PartialEq, Eq, Structural, Debug)]
pub struct Position {
    pub line: u32,
    pub character: u32,
}

/// A stretch of a file, as language servers count it.
#[derive(Debug)]
pub struct Location {
    pub path: String,
    pub start: Position,
    pub end: Position,
}

/// What somebody who was asked has delivered.
pub enum Answer<T> {
    /// Nothing yet.
    Waiting,
    Came(T),
    /// Nothing, and nothing will come.
    Stopped,
}

/// An edit, as language servers count it.
#[derive(Debug)]
pub struct TextEdit {
    pub start: Position,
    pub end: Position,
    pub text: String,
}

/// The edits of a rename in one file.
#[derive(Debug)]
pub struct ServerFile {
    pub path: String,
    pub edits: Vec<TextEdit>,
}

/// A transient note for the status line, and since when it stands there.
pub struct Note {
    pub text: String,
    pub at: u64,
}

/// Which text the Edit menu is acting on.
#[derive(Clone, Copy, PartialEq, Eq, Structural, Debug)]
pub enum Focus {
    Document,
    /// The find bar's query, where a change moves the match.
    FindQuery,
    /// The line-number field, which holds digits only.
    Goto,
    /// The replacement field or the palette query.
    Field,
}

/// The text an edit is carried out on.
#[derive(Clone, Copy, PartialEq, Eq, Structural, Debug)]
pub enum Target {
    Document,
    FindQuery,
    FindReplacement,
    Palette,
    Goto,
    SidebarName,
    RenameName,
    CommitMessage,
    /// A buffer nobody sees: a review is answered, not edited.
    Nowhere,
}

/// What a drag selects in, set by how many clicks started it.
#[derive(Clone, Copy, PartialEq, Eq, Structural, Debug)]
pub enum SelectUnit {
    Character,
    Word,
    Line,
}

/// A press in the text that is still held: the unit it selects in, and what
/// the press itself selected, which a drag never shrinks below.
#[derive(Clone, Copy, PartialEq, Eq, Structural, Debug)]
pub struct Selecting {
    pub unit: SelectUnit,
    pub start: usize,
    pub end: usize,
}

/// `word_wrap` from the settings.
#[derive(Clone, Copy, PartialEq, Eq, Structural, Debug)]
pub enum WordWrap {
    On,
    Off,
    Auto,
}

/// The layout that the pointer shapes were laid out for, in hundredths of a
/// point.
#[derive(Clone, Copy, PartialEq, Eq, Structural, Debug)]
pub struct LayoutKey {
    pub x: i32,
    pub y: i32,
    pub width: i32,
    pub height: i32,
    pub sidebar: Option<i32>,
}

/// Where the tab bar last drew a tab, in hundredths of a point.
#[derive(Clone, Copy, PartialEq, Eq, Structural, Debug)]
pub struct TabHit {
    pub index: usize,
    pub x0: i32,
    pub x1: i32,
    pub close_x0: i32,
    pub close_x1: i32,
}

/// F2's field. The name goes to the server that knows `path`.
pub struct RenameField {
    pub field: Field,
    pub path: String,
    pub at: Position,
    pub language: Language,
}

/// Signature help, shown while the caret stays in the call.
pub struct SignatureTip {
    pub buffer: u64,
    /// The caret when it was asked for; moving before it closes the tip.
    pub anchor: usize,
    pub label: String,
}

/// A format in flight: the file and its text when asked, so a reply that no
/// longer fits the text is dropped rather than applied.
pub struct Formatting {
    pub path: String,
    pub text: Vec<u8>,
}

/// A document and one of its lines.
#[derive(Clone, Copy, PartialEq, Eq, Structural, Debug)]
pub struct LinePlace {
    pub buffer: u64,
    pub line: usize,
}

/// Who last changed a line, as the status line says it.
pub struct Blame {
    pub place: LinePlace,
    pub text: String,
}

/// A wish to know who changed a line, and since when the caret rests there.
#[derive(Clone, Copy, PartialEq, Eq, Structural, Debug)]
pub struct BlameWish {
    pub place: LinePlace,
    pub since: u64,
}

/// What the gutter knows about one open file.
pub struct GutterState {
    /// The file as of HEAD, with a file HEAD lacks as empty. `None` means the
    /// file is not in a repository, so there are no marks.
    pub head: Option<Vec<u8>>,
}

/// A response tab: the request behind it, and which part of the reply shows.
pub struct ResponseView {
    pub title: String,
    pub segment: usize,
    pub answered: bool,
}

/// A running language server.
pub struct Server {
    /// The key its languages share.
    pub key: u8,
    pub ready: bool,
    /// The files it has been told about.
    pub known: Vec<String>,
    /// Whether it formats.
    pub formats: bool,
    /// The characters after which it wants to be asked for suggestions.
    pub triggers: Vec<String>,
    /// The same for signatures.
    pub signature_triggers: Vec<String>,
}

/// The tab strip: what the pointer does on it, and where it ends.
#[derive(Clone, Copy, PartialEq, Eq, Structural, Debug)]
pub struct TabBar {
    /// The tab the pointer is over, so its close button can appear.
    pub hovered: Option<usize>,
    /// Tab being dragged across the strip.
    pub drag: Option<usize>,
    /// Which tab a context menu was opened on. The menu action fires later,
    /// by which time the pointer has moved.
    pub context: Option<usize>,
    /// Where the strip ends, in hundredths of a point.
    pub ends_at: i32,
}

/// The language servers of the current root.
pub struct Servers {
    pub list: Vec<Server>,
    /// Server keys whose server could not be started. Said once.
    pub unavailable: Vec<u8>,
    /// Buffers edited since their server last heard, and when.
    pub dirty: Table<u64>,
    pub formatting: Option<Formatting>,
    /// `format_on_save` from the settings.
    pub format_on_save: bool,
    /// Set while saving what a format-on-save produced, so that save does not
    /// ask for another format.
    pub saving_formatted: bool,
}

/// What Git says about the lines on screen.
pub struct Gutter {
    /// Git marks per open buffer.
    pub rows: HashMap<u64, GutterState>,
    /// Buffers whose marks are stale, and since when.
    pub dirty: Table<u64>,
    /// Buffers whose HEAD text is being fetched.
    pub pending: Vec<u64>,
    pub blame: Option<Blame>,
    pub wish: Option<BlameWish>,
    /// An answer about a line is being worked out.
    pub asking: bool,
}

/// The completion worker.
#[derive(Clone, Copy, PartialEq, Eq, Structural, Debug)]
pub struct Worker {
    pub running: bool,
    /// The last question it was asked.
    pub generation: u64,
}

/// What is known of the project's files, and what is being read.
pub struct Project {
    /// When the watcher last reported a tree change that has not been acted
    /// on.
    pub changed_at: Option<u64>,
    /// The same for Git's own bookkeeping.
    pub git_changed_at: Option<u64>,
    /// An index is being built.
    pub indexing: bool,
    /// Git's ignored paths are being read.
    pub reading_ignored: bool,
    /// Counts the changes to the tree, to tell a stale answer.
    pub tree_version: u64,
    /// Folders whose contents are being read.
    pub reading: Vec<String>,
    /// A search runs.
    pub searching: bool,
}

/// What is held down with the pointer.
#[derive(Clone, Copy, PartialEq, Eq, Structural, Debug)]
pub struct Drag {
    /// The sidebar's divider.
    pub divider: bool,
    /// The terminal panel's top edge.
    pub terminal: bool,
    /// The editor's scrollbar thumb, and how far below its top it is held, in
    /// hundredths of a point.
    pub scrollbar: Option<i32>,
    /// A press that began in the text, the only kind that selects.
    pub selecting: Option<Selecting>,
    /// Where a press in the text has been dragged to.
    pub point: Option<Spot>,
    /// What is left of a line to scroll, in billionths, while the pointer is
    /// past the edge of the text.
    pub carry: i64,
}

/// A point in the window, in hundredths of a point.
#[derive(Clone, Copy, PartialEq, Eq, Structural, Debug)]
pub struct Spot {
    pub x: i32,
    pub y: i32,
}

/// A code block of a preview that was copied: its first line, and when.
#[derive(Clone, Copy, PartialEq, Eq, Structural, Debug)]
pub struct CopiedCode {
    pub line: usize,
    pub at: u64,
}

/// On the way out.
pub struct Quit {
    /// Launched on one file and no folder opened since. Quitting it must not
    /// replace the saved session of the real project with one stray file.
    pub ephemeral: bool,
    /// Every dirty document has already been asked about on the way to
    /// closing the window.
    pub confirmed: bool,
    /// What was open when those questions started.
    pub session: Option<Session>,
}

/// When frames were drawn and what they are waiting for.
#[derive(Clone, Copy, PartialEq, Eq, Structural, Debug)]
pub struct Pacing {
    /// When the last frame was presented.
    pub last_draw: Option<u64>,
    /// When the oldest unpresented input arrived.
    pub pending_input: Option<u64>,
    /// The title is updated after the new content frame.
    pub title_sync_pending: bool,
    /// One refresh interval, learned from the display, in microseconds.
    pub interval: u64,
    /// The layout the current pointer shapes were built for.
    pub cursor_rects: Option<LayoutKey>,
    /// The last key or click. The caret is solid for a blink phase after it.
    pub caret_since: u64,
    /// From the settings: whether the caret blinks at all.
    pub caret_blink: bool,
}

/// The fields that can take the keyboard from the document.
pub struct Fields {
    /// A name being typed into the tree.
    pub sidebar_edit: Option<SidebarEdit>,
    /// F2's field: the new name, and where the rename was asked.
    pub rename: Option<RenameField>,
    pub find: Option<FindBar>,
    /// Palette state: the query and which row is selected.
    pub palette: Option<PaletteState>,
    pub palette_scroll: usize,
    /// The palette is picking a branch: the local branches, read when it
    /// opened. `None` in every other mode.
    pub branch_list: Option<Vec<Branch>>,
    /// Cmd-L's line-number field.
    pub goto_line: Option<Field>,
}

/// What is offered at the caret.
pub struct Hints {
    pub completion: Option<CompletionPopup>,
    pub worker: Worker,
    /// The signature of the call the caret is in, while the server has one.
    pub signature: Option<SignatureTip>,
    /// Text an input method is still composing.
    pub marked: Option<String>,
}

/// The sidebar and the tree in it.
pub struct Side {
    pub tree: Tree,
    /// A row being dragged onto a folder.
    pub drag: Option<TreeDrag>,
    /// Whether the sidebar is showing.
    pub open: bool,
    /// How wide it was dragged, in hundredths of a point.
    pub width: i32,
    /// Whether the project tree has the keyboard: after a click on a folder
    /// row or a right-click on any row, until a click elsewhere or typing in
    /// the document. Only then does Cmd-Delete trash the tree's selection.
    pub keys: bool,
    /// Project folders opened before, most recent first.
    pub recent: Vec<String>,
}

/// The requests of `.http` files.
pub struct Requests {
    /// A request in flight: the id of its response tab's buffer.
    pub in_flight: Option<u64>,
    /// Response tabs, by buffer id.
    pub responses: HashMap<u64, ResponseView>,
}

/// What the assistant goes by.
pub struct Assistant {
    /// The product, in full.
    pub product: String,
    /// What it is called.
    pub name: String,
    /// The command that runs it.
    pub command: String,
}

/// The assistant, while a project is open.
pub struct Claude {
    pub assistant: Assistant,
    pub bridge: Option<Bridge>,
    /// The root a bridge was last started for, so a failure is reported once
    /// rather than retried every frame.
    pub tried: Option<String>,
}

/// The status line and what it answers for.
pub struct Status {
    /// A transient note: save results, errors.
    pub message: Option<Note>,
    /// An update check in flight, and whether someone asked for it.
    pub update: Option<bool>,
    /// The project menu has been asked for.
    pub project_menu_requested: bool,
    /// The code block whose copy button was pressed last.
    pub copied: Option<CopiedCode>,
    pub word_wrap: WordWrap,
}

/// `theme` from the settings.
#[derive(Clone, Copy, PartialEq, Eq, Structural, Debug)]
pub enum ThemeChoice {
    /// As the system is.
    System,
    Dark,
    Light,
}

/// How the window looks.
pub struct Look {
    pub font: String,
    /// The size of the code, in hundredths of a point.
    pub size: i32,
    pub theme: ThemeChoice,
    /// The colours are the dark ones.
    pub dark: bool,
    /// Where the agent for remote repositories listens.
    pub ssh_auth_sock: Option<String>,
    /// Where the window is on the screen, if it is.
    pub window: Option<Rect>,
}

/// Everything the window knows.
pub struct State {
    /// The focused pane: every open document and how it is shown. The other
    /// panes are in `panes`, and focusing a pane swaps it in here, so
    /// everything that edits, saves, finds or draws "the document" works on
    /// whichever pane has the keys.
    pub pane: PaneStore,
    /// The panes without the keyboard, in pane order with the focused one
    /// left out.
    pub panes: Vec<PaneStore>,
    /// Which pane, in the full order, is the focused one.
    pub focused_pane: usize,
    pub fields: Fields,
    pub git: GitPanel,
    pub side: Side,
    pub project: Project,
    pub servers: Servers,
    pub gutter: Gutter,
    pub hints: Hints,
    pub http: Requests,
    pub terminal: TerminalPanel,
    pub claude: Claude,
    pub tab_bar: TabBar,
    pub drag: Drag,
    pub quit: Quit,
    pub frame: Pacing,
    pub look: Look,
    pub status: Status,
}

/// The palette's query and its selected row.
pub struct PaletteState {
    pub query: Field,
    pub selected: usize,
}

/// What is kept outside the state, so that asking for a redraw never needs
/// anything else.
#[derive(Clone, Copy, PartialEq, Eq, Structural, Debug)]
pub struct Ivars {
    /// A scripted run: physical input is ignored and nothing modal is shown.
    pub testing: bool,
    /// Input has changed something that is not on screen yet.
    pub needs_redraw: bool,
    /// Set while a key is with the input system. Text that arrives then is a
    /// keystroke; text that arrives at any other moment has to get itself
    /// onto the screen.
    pub in_key_down: bool,
    /// Delay nested redraw requests until the outer key handler can attach
    /// its input timestamp to the changed frame.
    pub handling_key: bool,
    /// Frames drawn while a key was being handled; there should be none.
    pub draws_during_key_handler: usize,
}

/// Something for the outside to do.
#[derive(Debug)]
pub enum Effect {
    /// Draw a frame now.
    Draw,
    /// Unpause the display link, making it on first use.
    ResumeDisplayLink,
    /// Show, move or take away the system's preview of the active file.
    SyncNativePreview,
    /// Write the window's title.
    SyncTitle,
    /// Have the pointer shapes laid out again.
    InvalidateCursorRects,
    /// Hand an edit to the text engine.
    Edit(Target, EditOp),
    /// Put text where an edit would go.
    Insert(Target, String),
    /// Put one character into the document, with its other half when it opens
    /// a pair.
    InsertPaired(String),
    /// Select, in units of the input system, what the next text replaces.
    SelectInput(Target, usize, usize),
    /// Text was typed into the document.
    Typed(String),
    /// Rank what is offered against the text from the list's anchor to the
    /// caret.
    Rank,
    /// Bring the caret of the active document into view.
    ScrollToCursor,
    /// Keep the scroll position of the active document in range.
    ClampScroll,
    /// Parse the document within the budget, forget the trees of documents
    /// that are closed.
    Parse(u64, usize),
    /// Run one of the view's own commands next.
    Run(Task),
    /// Hand the key to the input system.
    Interpret,
    /// Write to the active terminal session.
    TerminalWrite(Vec<u8>),
    ResizeTerminals,
    SpawnTerminal(bool),
    CheckForUpdate,
    OpenUrl(String),
    RefreshGit,
    Commit,
    /// Stage or unstage a change.
    Stage(usize, bool),
    /// Show a change.
    SelectChange(usize),
    /// Switch to a branch, or create it.
    ChooseBranch(String, bool),
    SwitchBranch(String),
    CreateBranch(String),
    /// Read which menu commands apply now.
    ReadCommands,
    /// Read what the document and the project define.
    ReadSymbols,
    /// Go to a definition: in a file, or in the active document.
    GoToSymbol(Option<String>, u32),
    /// Send a menu item's action.
    RunCommand(String),
    GitRemote(GitVerb),
    StartIndex(String),
    /// Look at the repository of a folder.
    NewGitPanel(String),
    RefreshIndex(u64),
    /// Take the finished index's files, not its tree.
    TakeFinder,
    /// Give the finished index the ignored set of the tree there is, which is
    /// newer.
    KeepIgnored,
    /// Take the finished index: tree and files.
    TakeIndex,
    /// Take Git's answer about what it ignores.
    TakeIgnored,
    CollapseTree,
    ToggleRow(usize),
    InstallChildren(String),
    ReadIgnored(String),
    ReadChildren(String, usize),
    WatchProject,
    PokeIndexer,
    DidClose(String),
    DidOpen(u64),
    DidChange(u64),
    DidSave(String),
    StartServer(Language),
    References(String, Position),
    Definition(String, Position),
    Hover(String, Position),
    Signature(String, Position),
    Completion(String, Position),
    /// Have a file formatted: its indent width, whether with spaces, and
    /// whether a save asked.
    Format(String, u32, bool, bool),
    RenameSymbol(String, Position, String),
    /// Open what a server found, and go there.
    OpenDefinition(Location),
    ShowReferences(Vec<Location>),
    ApplyRename(Vec<ServerFile>),
    ApplyFormat(String, Vec<TextEdit>, bool),
    FetchHead(u64),
    Diff(u64),
    /// Forget the marks of a document.
    ClearMarks(u64),
    AskBlame(LinePlace),
    StartCompleter,
    AskWorker(u64),
    /// Remember what was taken: for which project, in which language, after
    /// what, and the text.
    RememberChoice(String, String, String, String),
    ForgetHistory(String),
    SearchProject,
    CancelProjectSearch,
    LoadPath(String),
    LoadFolder(String),
    /// Find and open a file that something refers to: its path, line and
    /// column, and the folder it is meant from.
    OpenReference(String, Option<usize>, Option<usize>, String),
    /// Select a range of the active document and bring it into view.
    SelectInActive(usize, usize),
    RevealInTree(String),
    ReloadFromDisk(u64),
    SendHttp(u64),
    CopyText(String),
    /// Read the clipboard for the find bar; see
    /// [`EditorView::paste_in_find`].
    PasteInFind,
    /// Put what is selected on the clipboard.
    CopyFrom(Target),
    /// Put what is selected on the clipboard, and take it out.
    CutFrom(Target),
    AskAboutChanges,
    AskToRevert,
    /// Ask where to save, suggesting a name.
    ShowSavePanel(String),
    AskAboutConflict(bool),
    TooLarge(String),
    /// Write the active document, elsewhere or in place, over what is there
    /// or not.
    WriteActive(Option<String>, bool),
    NewFilePanel,
    ScrollReview(i64),
    DecideReview(u64, bool),
    RejectReviews,
    ShutdownServers,
    StartBridge(String),
    /// Point the running bridge at another root.
    MoveBridge(String),
    /// Answer what the assistant asked.
    AnswerClaude(String),
    TellSelection,
    ArmCaretBlink(u64),
    CancelCaretBlink,
    /// Scroll the active document to where the thumb would stand.
    ScrollToThumb(i32),
    /// Scroll the active document by lines.
    ScrollLines(i64),
    /// Scroll it sideways.
    ScrollColumns(i64),
    /// Scroll it by points, as the pointer says.
    ScrollSmooth,
    /// Scroll the tree by rows.
    ScrollTree(i64),
    /// Scroll source control by rows: the list of changes, or the change.
    ScrollGit(i64, bool),
    /// Find what of the active document is under a point, for a drag.
    ReachTo(Spot),
    /// Put another caret into the active document.
    AddCursor(usize),
    /// Stage or unstage a part of the change that shows.
    StageHunk(usize),
    /// Drop what an input method is composing.
    DiscardMarked,
    /// Pop up the menu for where the pointer is.
    ShowContextMenu,
    ShowProjectMenu,
    /// Move the window with the pointer.
    DragWindow,
    /// Comment or uncomment lines with a token.
    ToggleComment(String),
    /// Close the window.
    CloseWindow,
    /// Show a file where the system shows files.
    RevealInFinder(String),
    /// Draw the letters of a font at a size, in hundredths of a point.
    BuildAtlas(String, i32),
    /// Keep the scroll positions of all panes in range.
    ClampScrolls,
    /// Have the system draw its own parts so.
    ForceAppearance(ThemeChoice),
    /// Note the text of every document, in case it has to be recovered.
    PublishRecovery,
}

/// The remote commands of source control.
#[derive(Clone, Copy, PartialEq, Eq, Structural, Debug)]
pub enum GitVerb {
    Fetch,
    Pull,
    Push,
}

/// Commands of the view that a key or a click leads to.
#[derive(Clone, Copy, PartialEq, Eq, Structural, Debug)]
pub enum Task {
    ToggleTerminal,
    ToggleSidebar,
    SetSidebarView(bool),
    FindReferences,
    GotoDefinition,
    StartRename,
    FormatDocument(bool),
    ShowHover,
    RequestCompletion(bool),
    RequestSignature,
    SaveFormatted,
    AcceptCompletion(Option<usize>),
    SendRequest,
    ReviewDecision(bool),
    FinishSidebarEdit(bool),
    CloseFind,
    OpenResult(usize),
    SearchProject,
    ReplaceOne,
    FindStep(bool),
    AfterFocusedEdit(Focus),
    RefreshFind,
    Reparse,
    LspSyncOpen,
    LspFlushChanges,
    CheckOpenFiles,
    LspAfterKey(bool),
    ApplySettings,
    CloseTab(usize),
    OpenPalette,
    OpenFolder,
    NewFile,
    NewFolder,
    CollapseTree,
    RefreshTree,
    ResponseSelect(usize),
    TerminalPress,
    CloseSession(usize),
    NewSession,
    TabClick,
    FindClick,
    PaletteClick,
    GitClick,
    SidebarClick,
    FocusPane(usize),
    ToggleFold(usize),
    TreeDragMoved,
    TerminalDrag,
    PaletteWheel,
    ReplaceAll,
    ReplaceInProject,
    /// The same press again.
    MouseDown,
    /// The letters are drawn; see what fits now.
    FontApplied,
    Pump,
    Show,
}

/// The window.
pub struct EditorView {
    pub ivars: Ivars,
    pub state: State,
    /// What has to be done outside, oldest first.
    pub effects: Vec<Effect>,
}

impl State {
    /// The invariant every operation keeps: each pane has a document in
    /// front, and the focused pane has a place among the others.
    pub open spec fn wf(&self) -> bool {
        &&& self.pane.docs.wf()
        &&& forall|i: int| 0 <= i < self.panes@.len() ==> (#[trigger] self.panes@[i]).docs.wf()
        &&& self.focused_pane <= self.panes@.len()
        &&& self.panes@.len() < 4
        &&& self.servers.dirty.wf()
        &&& self.gutter.dirty.wf()
        &&& (self.claude.bridge matches Some(bridge) ==> bridge.wf())
        &&& self.side.tree.wf()
        &&& self.terminal.wf()
        &&& (self.fields.find matches Some(bar) ==> bar.wf())
        &&& (self.hints.completion matches Some(popup) ==> popup.wf())
        &&& -WHOLE_LINE < self.drag.carry < WHOLE_LINE
        &&& (self.drag.scrollbar matches Some(grab) ==> 0 <= grab <= REACH)
        &&& (self.drag.point matches Some(at) ==> -REACH <= at.x <= REACH && -REACH <= at.y
            <= REACH)
    }

    /// The state with the pointer shapes to be laid out again.
    pub open spec fn restless(self) -> State {
        State { frame: Pacing { cursor_rects: None, ..self.frame }, ..self }
    }

    /// The state with `note` in the status line.
    pub open spec fn saying(self, note: Note) -> State {
        State { status: Status { message: Some(note), ..self.status }, ..self }
    }

    /// Whether the status line says `text`, and has since `now`.
    pub open spec fn says(&self, text: Seq<char>, now: u64) -> bool {
        self.status.message matches Some(note) && note.text@ == text && note.at == now
    }

    /// The review in the active tab, when it is one.
    pub open spec fn reviewing(&self) -> bool {
        self.claude.bridge matches Some(bridge) && bridge.has_review(self.pane.docs.front().id)
    }

    /// Whether typing goes to a field rather than to the document.
    pub open spec fn field_open(&self) -> bool {
        ||| self.fields.sidebar_edit is Some
        ||| self.fields.rename is Some
        ||| self.fields.palette is Some
        ||| self.fields.find is Some
        ||| self.fields.goto_line is Some
        ||| (self.git.open && self.git.focus)
    }

    /// Whether keys go to the terminal.
    pub open spec fn terminal_keys(&self) -> bool {
        self.terminal.takes_keys() && !self.field_open()
    }

    /// Which text has the keyboard, in the order the keys are offered.
    pub open spec fn target(&self) -> Target {
        if self.fields.sidebar_edit is Some {
            Target::SidebarName
        } else if self.fields.rename is Some {
            Target::RenameName
        } else if self.git.open {
            Target::CommitMessage
        } else if self.fields.goto_line is Some {
            Target::Goto
        } else if self.fields.palette is Some {
            Target::Palette
        } else if self.fields.find is Some {
            self.fields.find->0.field_target()
        } else if self.reviewing() || self.terminal_keys() {
            Target::Nowhere
        } else {
            Target::Document
        }
    }
}

/// How an edit of `target` is followed up.
pub open spec fn focus_of(target: Target) -> Focus {
    match target {
        Target::Document => Focus::Document,
        Target::FindQuery => Focus::FindQuery,
        Target::Goto | Target::Nowhere => Focus::Goto,
        _ => Focus::Field,
    }
}

impl EditorView {
    /// What [`EditorView::pump`] asks for from here at `now`.
    pub open spec fn pumping(&self, now: u64) -> Seq<Effect> {
        if self.ivars.handling_key {
            Seq::empty()
        } else {
            seq![
                Effect::SyncNativePreview,
                if self.frame_due(now) {
                    Effect::Draw
                } else {
                    Effect::ResumeDisplayLink
                },
            ]
        }
    }

    /// Whether the display is ready for another frame.
    pub open spec fn frame_due(&self, now: u64) -> bool {
        match self.state.frame.last_draw {
            Some(at) => (now - at) * 1_000 >= self.state.frame.interval,
            None => true,
        }
    }

    /// This is `before` with the state `state`, having asked for `done`.
    pub open spec fn becomes(&self, before: EditorView, state: State, done: Seq<Effect>) -> bool {
        &&& self.state == state
        &&& self.ivars == before.ivars
        &&& self.effects@ == before.effects@ + done
    }

    /// The same, with a redraw asked for.
    pub open spec fn marks(&self, before: EditorView, state: State, done: Seq<Effect>) -> bool {
        &&& self.state == state.restless()
        &&& self.ivars == (Ivars { needs_redraw: true, ..before.ivars })
        &&& self.effects@ == before.effects@ + done
    }

    /// The same, with a redraw asked for and the frame under way.
    pub open spec fn shows(
        &self,
        before: EditorView,
        state: State,
        done: Seq<Effect>,
        now: u64,
    ) -> bool {
        self.marks(before, state, done + before.pumping(now))
    }

    /// Writes down one more thing to do.
    pub fn ask(&mut self, effect: Effect)
        ensures
            final(self).becomes(*old(self), old(self).state, seq![effect]),
    {
        self.effects.push(effect);
        assert(self.effects@ =~= old(self).effects@ + seq![effect]);
    }

    /// Puts `text` into the status line.
    pub fn say(&mut self, text: String, now: u64)
        ensures
            final(self).state == old(self).state.saying(Note { text, at: now }),
            final(self).ivars == old(self).ivars,
            final(self).effects == old(self).effects,
    {
        self.state.status.message = Some(Note { text, at: now });
    }
}

/// A document's id among the open ones, in any pane.
pub open spec fn is_open_in(state: State, id: u64) -> bool {
    ||| exists|i: int| 0 <= i < state.pane.docs.list@.len() && (#[trigger] state.pane.docs.list@[i]).id == id
    ||| exists|p: int, i: int|
        0 <= p < state.panes@.len() && 0 <= i < state.panes@[p].docs.list@.len()
            && #[trigger] state.panes@[p].docs.list@[i].id == id
}

} // verus!
