//! How the window starts: what is open in it, and what it asks for first.

use crate::buffer::{Buffer, Field};
use crate::documents::{self, Documents};
use crate::frame::Rect;
use crate::git::GitPanel;
use crate::panes::PaneStore;
use crate::path::{self, parent};
use crate::project::{self, with_recent};
use crate::session::Session;
use crate::settings::Settings;
use crate::sidebar::{Tree, TreeEntry};
use crate::state::{
    Assistant, Claude, Drag, EditorView, Effect, Fields, Gutter, Hints, Ivars, Look, Pacing,
    Project, Quit, Requests, Servers, Side, State, Status, TabBar, Task, ThemeChoice, Worker,
};
use crate::table::Table;
use crate::tabs::{self, default_preview};
use crate::terminal::TerminalPanel;
use std::collections::HashMap;
use vstd::prelude::*;

verus! {

/// Where a new window stands, and how large it is.
pub open spec fn new_frame() -> Rect {
    Rect { x: 12_000, y: 12_000, width: 110_000, height: 76_000 }
}

/// One refresh of a fast display, a hundred and twentieth of a second, in
/// microseconds.
pub const FIRST_INTERVAL: u64 = 8_333;

/// What is found at launch.
pub struct Start {
    /// What was open last time, without what is gone.
    pub session: Session,
    /// Its files that could be opened, in order.
    pub opened: Vec<Buffer>,
    /// Documents recovered after a crash, when they are wanted back.
    pub recovered: Vec<Buffer>,
    pub settings: Settings,
    /// The rows of the project's folder.
    pub rows: Vec<TreeEntry>,
    /// What the project's folder and the recent ones resolve to, and how many
    /// of those are kept.
    pub root_key: Option<String>,
    pub resolved: Vec<String>,
    pub recent_limit: usize,
    /// What Git says of the folder.
    pub repository: Option<String>,
    pub branch: String,
    pub git_busy: bool,
    pub assistant: Assistant,
    /// A scripted run.
    pub testing: bool,
    /// The system is dark.
    pub system_dark: bool,
    /// A launch check for updates is due.
    pub check_due: bool,
    /// How tall the terminal panel is at first.
    pub terminal_height: i32,
}

/// Whether the window was launched on something.
pub open spec fn has_target(buffer: Buffer, folder: Option<String>) -> bool {
    buffer.path is Some || folder is Some
}

/// The project: the folder the window was launched on, the folder of the file
/// it was launched on, so that the sidebar is useful at once, or that of the
/// last session.
pub open spec fn first_root(buffer: Buffer, folder: Option<String>, last: Option<String>) -> Option<
    Seq<char>,
> {
    match folder {
        Some(folder) => Some(folder@),
        None => match buffer.path {
            Some(place) => path::parent_of(place@),
            None => match last {
                Some(last) => Some(last@),
                None => None,
            },
        },
    }
}

/// Where a list has `place` open.
pub open spec fn position_in(list: Seq<Buffer>, place: Seq<char>) -> Option<int> {
    documents::first_where(list, |b: Buffer| b.is_at(place))
}

/// Whether a list is the home screen.
pub open spec fn is_home_list(list: Seq<Buffer>) -> bool {
    &&& list.len() == 1
    &&& list[0].path is None
    &&& list[0].label is None
    &&& list[0].text@.len() == 0
    &&& !list[0].dirty
}

/// Tabs and the one in front, with one more document in front.
pub open spec fn with_one_more(tabs: (Seq<Buffer>, int), b: Buffer) -> (Seq<Buffer>, int) {
    if is_home_list(tabs.0) {
        (seq![b], 0)
    } else {
        (tabs.0.push(b), tabs.0.len() as int)
    }
}

/// Tabs with a document opened: the tab that has its file comes to the front,
/// or it gets a tab of its own.
pub open spec fn with_opened(tabs: (Seq<Buffer>, int), b: Buffer) -> (Seq<Buffer>, int) {
    match b.path {
        Some(place) => match position_in(tabs.0, place@) {
            Some(at) => (tabs.0, at),
            None => with_one_more(tabs, b),
        },
        None => with_one_more(tabs, b),
    }
}

/// Tabs with documents opened one by one.
pub open spec fn with_all_opened(tabs: (Seq<Buffer>, int), opened: Seq<Buffer>) -> (Seq<Buffer>, int)
    decreases opened.len(),
{
    if opened.len() == 0 {
        tabs
    } else {
        with_opened(with_all_opened(tabs, opened.drop_last()), opened.last())
    }
}

/// Tabs with a recovered document: it takes the place of the tab that has its
/// file, as unsaved changes, or gets a tab of its own.
pub open spec fn with_restored(tabs: (Seq<Buffer>, int), b: Buffer) -> (Seq<Buffer>, int) {
    match b.path {
        Some(place) => match position_in(tabs.0, place@) {
            Some(at) => (tabs.0.update(at, b), at),
            None => with_one_more(tabs, b),
        },
        None => with_one_more(tabs, b),
    }
}

/// Tabs with documents restored one by one.
pub open spec fn with_all_restored(
    tabs: (Seq<Buffer>, int),
    recovered: Seq<Buffer>,
) -> (Seq<Buffer>, int)
    decreases recovered.len(),
{
    if recovered.len() == 0 {
        tabs
    } else {
        with_restored(with_all_restored(tabs, recovered.drop_last()), recovered.last())
    }
}

/// Tabs with tab `at` in front, if there is one.
pub open spec fn with_front(tabs: (Seq<Buffer>, int), at: int) -> (Seq<Buffer>, int) {
    if at < tabs.0.len() {
        (tabs.0, at)
    } else {
        tabs
    }
}

/// The tabs of a new window: what it was launched on, or what was open last
/// time; and what is restored.
pub open spec fn first_tabs(buffer: Buffer, folder: Option<String>, start: Start) -> (
    Seq<Buffer>,
    int,
) {
    let alone = (seq![buffer], 0int);
    let tabs = if has_target(buffer, folder) {
        alone
    } else {
        with_front(with_all_opened(alone, start.opened@), start.session.active as int)
    };
    with_all_restored(tabs, start.recovered@)
}

/// The file that the tree shows at first: the one in front of the last
/// session's, unless the window was launched on something.
pub open spec fn shown_first(buffer: Buffer, folder: Option<String>, start: Start) -> Option<
    String,
> {
    if has_target(buffer, folder) {
        None
    } else {
        let tabs = with_front(
            with_all_opened((seq![buffer], 0int), start.opened@),
            start.session.active as int,
        );
        tabs.0[tabs.1].path
    }
}

/// A document's tab, if there is one.
fn place_in(docs: &Documents, b: &Buffer) -> (at: Option<usize>)
    ensures
        match b.path {
            Some(place) => match (at, position_in(docs.list@, place@)) {
                (Some(i), Some(j)) => i == j && i < docs.list@.len(),
                (None, None) => true,
                _ => false,
            },
            None => at is None,
        },
{
    match &b.path {
        Some(place) => docs.index_of(place.as_str()),
        None => None,
    }
}

/// See [`with_opened`].
fn open_in(docs: &mut Documents, b: Buffer)
    requires
        old(docs).wf(),
        b.wf(),
    ensures
        final(docs).wf(),
        (final(docs).list@, final(docs).active as int) == with_opened(
            (old(docs).list@, old(docs).active as int),
            b,
        ),
{
    match place_in(docs, &b) {
        Some(at) => {
            let shown = docs.switch(at);
        },
        None => {
            docs.push(b);
        },
    }
}

/// See [`with_restored`].
fn restore_in(docs: &mut Documents, b: Buffer)
    requires
        old(docs).wf(),
        b.wf(),
    ensures
        final(docs).wf(),
        (final(docs).list@, final(docs).active as int) == with_restored(
            (old(docs).list@, old(docs).active as int),
            b,
        ),
{
    match place_in(docs, &b) {
        Some(at) => {
            docs.list.set(at, b);
            docs.active = at;
        },
        None => {
            docs.push(b);
        },
    }
}

/// Whether every document of a list is sound.
pub open spec fn all_sound(list: Seq<Buffer>) -> bool {
    forall|i: int| 0 <= i < list.len() ==> (#[trigger] list[i]).wf()
}

/// See [`with_all_opened`].
fn open_all(docs: &mut Documents, opened: Vec<Buffer>)
    requires
        old(docs).wf(),
        all_sound(opened@),
    ensures
        final(docs).wf(),
        (final(docs).list@, final(docs).active as int) == with_all_opened(
            (old(docs).list@, old(docs).active as int),
            opened@,
        ),
{
    let ghost all = opened@;
    let ghost tabs = (docs.list@, docs.active as int);
    let mut left = opened;
    let ghost mut done: int = 0;
    assert(all.take(0) =~= Seq::empty());
    assert(left@ =~= all.skip(0));
    while left.len() > 0
        invariant
            0 <= done <= all.len(),
            left@ == all.skip(done),
            all_sound(all),
            docs.wf(),
            (docs.list@, docs.active as int) == with_all_opened(tabs, all.take(done)),
        decreases left@.len(),
    {
        assert(all.skip(done)[0] == all[done]);
        assert(all.take(done + 1).drop_last() =~= all.take(done));
        let b = left.remove(0);
        assert(left@ =~= all.skip(done + 1));
        open_in(docs, b);
        proof {
            done = done + 1;
        }
    }
    assert(all.take(done) =~= all);
}

/// See [`with_all_restored`].
fn restore_all(docs: &mut Documents, recovered: Vec<Buffer>)
    requires
        old(docs).wf(),
        all_sound(recovered@),
    ensures
        final(docs).wf(),
        (final(docs).list@, final(docs).active as int) == with_all_restored(
            (old(docs).list@, old(docs).active as int),
            recovered@,
        ),
{
    let ghost all = recovered@;
    let ghost tabs = (docs.list@, docs.active as int);
    let mut left = recovered;
    let ghost mut done: int = 0;
    assert(all.take(0) =~= Seq::empty());
    assert(left@ =~= all.skip(0));
    while left.len() > 0
        invariant
            0 <= done <= all.len(),
            left@ == all.skip(done),
            all_sound(all),
            docs.wf(),
            (docs.list@, docs.active as int) == with_all_restored(tabs, all.take(done)),
        decreases left@.len(),
    {
        assert(all.skip(done)[0] == all[done]);
        assert(all.take(done + 1).drop_last() =~= all.take(done));
        let b = left.remove(0);
        assert(left@ =~= all.skip(done + 1));
        restore_in(docs, b);
        proof {
            done = done + 1;
        }
    }
    assert(all.take(done) =~= all);
}

/// Where the window stands: where it was, unless it was launched on something.
pub open spec fn first_frame(session: Session, target: bool) -> Rect {
    if session.frame is Some && !target {
        session.frame->0
    } else {
        new_frame()
    }
}

/// Where the window stands, and whether it is centred.
pub fn launch_frame(buffer: &Buffer, folder: &Option<String>, session: &Session) -> (r: (
    Rect,
    bool,
))
    ensures
        r.0 == first_frame(*session, has_target(*buffer, *folder)),
        r.1 == (session.frame is None || buffer.path is Some),
{
    let target = buffer.path.is_some() || folder.is_some();
    let fresh = Rect { x: 12_000, y: 12_000, width: 110_000, height: 76_000 };
    let frame = match session.frame {
        Some(frame) => if target {
            fresh
        } else {
            frame
        },
        None => fresh,
    };
    (frame, session.frame.is_none() || buffer.path.is_some())
}

/// Whether nothing has been asked or held yet.
pub open spec fn idle_fields(f: Fields) -> bool {
    &&& f.sidebar_edit is None
    &&& f.rename is None
    &&& f.find is None
    &&& f.palette is None
    &&& f.palette_scroll == 0
    &&& f.branch_list is None
    &&& f.goto_line is None
}

/// Whether nothing of the project has changed, is being read or is searched
/// for yet.
pub open spec fn idle_project(p: Project) -> bool {
    &&& p.changed_at is None
    &&& p.git_changed_at is None
    &&& !p.reading_ignored
    &&& p.tree_version == 0
    &&& p.reading@.len() == 0
    &&& !p.searching
}

/// Whether nothing runs or is offered yet.
pub open spec fn idle_work(s: State) -> bool {
    &&& s.servers.list@.len() == 0
    &&& s.servers.unavailable@.len() == 0
    &&& s.servers.dirty@ == Map::<u64, u64>::empty()
    &&& s.servers.formatting is None
    &&& !s.servers.saving_formatted
    &&& s.gutter.rows@ == Map::<u64, crate::state::GutterState>::empty()
    &&& s.gutter.dirty@ == Map::<u64, u64>::empty()
    &&& s.gutter.pending@.len() == 0
    &&& s.gutter.blame is None
    &&& s.gutter.wish is None
    &&& !s.gutter.asking
    &&& s.hints.completion is None
    &&& s.hints.worker == (Worker { running: false, generation: 0 })
    &&& s.hints.signature is None
    &&& s.hints.marked is None
    &&& s.http.in_flight is None
    &&& s.http.responses@ == Map::<u64, crate::state::ResponseView>::empty()
    &&& s.claude.bridge is None
    &&& s.claude.tried is None
}

/// Whether nothing is held down, said or waited for yet.
pub open spec fn idle_window(s: State, now: u64) -> bool {
    &&& s.tab_bar == (TabBar { hovered: None, drag: None, context: None, ends_at: 0 })
    &&& s.drag == (Drag {
        divider: false,
        terminal: false,
        scrollbar: None,
        selecting: None,
        point: None,
        carry: 0,
    })
    &&& !s.quit.confirmed
    &&& s.quit.session is None
    &&& s.frame.last_draw is None
    &&& s.frame.pending_input is None
    &&& !s.frame.title_sync_pending
    &&& s.frame.interval == FIRST_INTERVAL
    &&& s.frame.cursor_rects is None
    &&& s.frame.caret_since == now
    &&& s.status.message is None
    &&& s.status.update is None
    &&& !s.status.project_menu_requested
    &&& s.status.copied is None
}

/// Whether the panel under the editor is closed, without sessions.
pub open spec fn idle_terminal(t: TerminalPanel, height: i32) -> bool {
    &&& !t.open
    &&& !t.focus
    &&& t.height == height
    &&& t.tabs@.len() == 0
    &&& t.active == 0
    &&& t.back == 0
    &&& t.selection is None
    &&& !t.selecting
}

/// Whether `s` is the state of a new window.
pub open spec fn is_new_window(
    s: State,
    buffer: Buffer,
    folder: Option<String>,
    font: Seq<char>,
    size: i32,
    start: Start,
    now: u64,
) -> bool {
    let target = has_target(buffer, folder);
    let root = first_root(buffer, folder, start.session.folder);
    let recent = project::recent_with(start.session.recent@, start.resolved@, start.root_key);
    &&& (s.pane.docs.list@, s.pane.docs.active as int) == first_tabs(buffer, folder, start)
    &&& s.pane.preview == tabs::preview_of(s.pane.docs.front())
    &&& s.pane.tab_scroll == 0
    &&& s.pane.tab_hits@.len() == 0
    &&& s.pane.live_line is None
    &&& s.panes@.len() == 0
    &&& s.focused_pane == 0
    &&& idle_fields(s.fields)
    &&& match (s.side.tree.root, root) {
        (Some(a), Some(b)) => a@ == b,
        (None, None) => true,
        _ => false,
    }
    &&& s.side.tree.rows == start.rows
    &&& s.side.tree.selected is None
    &&& s.side.tree.scroll == 0
    &&& s.side.drag is None
    &&& s.side.open == (target || start.session.sidebar)
    &&& s.side.width == start.session.sidebar_width
    &&& !s.side.keys
    &&& s.side.recent@ == (if start.recent_limit < recent.len() {
        recent.take(start.recent_limit as int)
    } else {
        recent
    })
    &&& s.project.indexing == (root is Some)
    &&& idle_project(s.project)
    &&& s.quit.ephemeral == (buffer.path is Some)
    &&& s.git.root == start.repository
    &&& s.git.branch == start.branch
    &&& s.git.message.text@.len() == 0
    &&& s.git.message.cursor == 0
    &&& s.git.message.anchor == 0
    &&& s.git.busy == start.git_busy
    &&& !s.git.open
    &&& !s.git.focus
    &&& !s.git.showing_diff
    &&& s.look.font@ == font
    &&& s.look.size == size
    &&& s.look.theme == start.settings.theme
    &&& s.look.dark == State::is_dark(start.settings.theme, start.system_dark)
    &&& s.look.ssh_auth_sock == start.settings.ssh_auth_sock
    &&& s.look.window == Some(first_frame(start.session, target))
    &&& s.frame.caret_blink == start.settings.caret_blink
    &&& s.servers.format_on_save == start.settings.format_on_save
    &&& s.status.word_wrap == start.settings.word_wrap
    &&& s.claude.assistant == start.assistant
    &&& idle_terminal(s.terminal, start.terminal_height)
    &&& idle_work(s)
    &&& idle_window(s, now)
}

/// What a new window asks for first: its first frame, among other things. A folder that is being indexed, or a
/// repository that is being read, keeps the display link awake; a launch check
/// for updates runs when the settings want one and it is due, but never in a
/// scripted run.
pub open spec fn first_work(s: State, start: Start, shown: Option<String>) -> Seq<Effect> {
    (match s.side.tree.root {
        Some(root) => seq![Effect::StartIndex(root)],
        None => Seq::empty(),
    }) + (match shown {
        Some(place) => seq![Effect::RevealInTree(place)],
        None => Seq::empty(),
    }) + (if start.recovered@.len() > 0 {
        seq![Effect::PublishRecovery]
    } else {
        Seq::empty()
    }) + seq![
        Effect::SyncNativePreview,
        Effect::Draw,
        Effect::WatchProject,
        Effect::ForceAppearance(s.look.theme),
        Effect::Run(Task::LspSyncOpen),
        Effect::SyncTitle,
        Effect::Run(Task::Reparse),
    ] + (if s.project.indexing || s.git.busy {
        seq![Effect::ResumeDisplayLink]
    } else {
        Seq::empty()
    })
}

/// Whether a launch check for updates runs.
pub open spec fn checks_at_launch(start: Start) -> bool {
    !start.testing && start.settings.update_check && start.check_due
}

/// The tabs of a new window.
fn launch_tabs(
    buffer: Buffer,
    target: bool,
    opened: Vec<Buffer>,
    active: usize,
    recovered: Vec<Buffer>,
) -> (r: (Documents, Option<String>))
    requires
        buffer.wf(),
        all_sound(opened@),
        all_sound(recovered@),
    ensures
        r.0.wf(),
        ({
            let alone = (seq![buffer], 0int);
            let tabs = if target {
                alone
            } else {
                with_front(with_all_opened(alone, opened@), active as int)
            };
            &&& (r.0.list@, r.0.active as int) == with_all_restored(tabs, recovered@)
            &&& r.1 == (if target {
                None
            } else {
                tabs.0[tabs.1].path
            })
        }),
{
    let mut docs = Documents::new(buffer);
    let mut front: Option<String> = None;
    if !target {
        open_all(&mut docs, opened);
        let shown = docs.switch(active);
        if let Some(place) = &docs.active().path {
            front = Some(place.clone());
        }
    }
    restore_all(&mut docs, recovered);
    (docs, front)
}

/// The project of a new window.
fn launch_root(buffer: &Buffer, folder: &Option<String>, last: &Option<String>) -> (root: Option<
    String,
>)
    ensures
        match (root, first_root(*buffer, *folder, *last)) {
            (Some(a), Some(b)) => a@ == b,
            (None, None) => true,
            _ => false,
        },
{
    match folder {
        Some(folder) => Some(folder.clone()),
        None => match &buffer.path {
            Some(place) => parent(place.as_str()),
            None => last.clone(),
        },
    }
}

/// The fields of a new window.
fn new_fields() -> (f: Fields)
    ensures
        idle_fields(f),
{
    Fields {
        sidebar_edit: None,
        rename: None,
        find: None,
        palette: None,
        palette_scroll: 0,
        branch_list: None,
        goto_line: None,
    }
}

/// The panel of a new window.
fn new_terminal(height: i32) -> (t: TerminalPanel)
    ensures
        idle_terminal(t, height),
        t.wf(),
{
    TerminalPanel {
        open: false,
        focus: false,
        height,
        tabs: Vec::new(),
        active: 0,
        back: 0,
        selection: None,
        selecting: false,
    }
}

/// A new window, on the document it was launched with, on `folder`, or on what
/// was open last time. Whoever opens it does what it asks for, in order, and
/// runs until somebody quits.
///
/// Launched on one file, the window must not replace the saved session of the
/// real project with that file when it goes.
pub fn run(
    buffer: Buffer,
    folder: Option<String>,
    font: &str,
    size: i32,
    start: Start,
    now: u64,
) -> (view: EditorView)
    requires
        buffer.wf(),
        all_sound(start.opened@),
        all_sound(start.recovered@),
        start.resolved@.len() == start.session.recent@.len(),
    ensures
        view.state.wf(),
        ({
            let s = State {
                status: Status { update: None, ..view.state.status },
                ..view.state
            };
            let shown = shown_first(buffer, folder, start);
            &&& is_new_window(s, buffer, folder, font@, size, start, now)
            &&& view.ivars == (Ivars {
                testing: start.testing,
                needs_redraw: true,
                in_key_down: false,
                handling_key: false,
                draws_during_key_handler: 0,
            })
            &&& if checks_at_launch(start) {
                &&& view.state.status.update == Some(false)
                &&& view.effects@ == first_work(s, start, shown) + seq![
                    Effect::CheckForUpdate,
                    Effect::ResumeDisplayLink,
                ]
            } else {
                &&& view.state.status.update is None
                &&& view.effects@ == first_work(s, start, shown)
            }
        }),
{
    let ghost given = start;
    let target = buffer.path.is_some() || folder.is_some();
    let ephemeral = buffer.path.is_some();
    let (window, centred) = launch_frame(&buffer, &folder, &start.session);
    let root = launch_root(&buffer, &folder, &start.session.folder);
    let restored = start.recovered.len() > 0;
    let check = !start.testing && start.settings.update_check && start.check_due;
    let ghost shown = shown_first(buffer, folder, start);
    let (docs, front) = launch_tabs(
        buffer,
        target,
        start.opened,
        start.session.active,
        start.recovered,
    );
    let preview = default_preview(docs.active());
    let recent = with_recent(
        start.session.recent,
        &start.resolved,
        start.root_key,
        start.recent_limit,
    );
    let indexing = root.is_some();
    let dark = match start.settings.theme {
        ThemeChoice::System => start.system_dark,
        ThemeChoice::Dark => true,
        ThemeChoice::Light => false,
    };
    let state = State {
        pane: PaneStore {
            docs,
            preview,
            tab_scroll: 0,
            tab_hits: Vec::new(),
            live_line: None,
        },
        panes: Vec::new(),
        focused_pane: 0,
        fields: new_fields(),
        git: GitPanel {
            root: start.repository,
            branch: start.branch,
            message: Field::new(),
            showing_diff: false,
            busy: start.git_busy,
            open: false,
            focus: false,
        },
        side: Side {
            tree: Tree { root, rows: start.rows, selected: None, scroll: 0 },
            drag: None,
            open: target || start.session.sidebar,
            width: start.session.sidebar_width,
            keys: false,
            recent,
        },
        project: Project {
            changed_at: None,
            git_changed_at: None,
            indexing,
            reading_ignored: false,
            tree_version: 0,
            reading: Vec::new(),
            searching: false,
        },
        servers: Servers {
            list: Vec::new(),
            unavailable: Vec::new(),
            dirty: Table::new(),
            formatting: None,
            format_on_save: start.settings.format_on_save,
            saving_formatted: false,
        },
        gutter: Gutter {
            rows: HashMap::new(),
            dirty: Table::new(),
            pending: Vec::new(),
            blame: None,
            wish: None,
            asking: false,
        },
        hints: Hints {
            completion: None,
            worker: Worker { running: false, generation: 0 },
            signature: None,
            marked: None,
        },
        http: Requests { in_flight: None, responses: HashMap::new() },
        terminal: new_terminal(start.terminal_height),
        claude: Claude { assistant: start.assistant, bridge: None, tried: None },
        tab_bar: TabBar { hovered: None, drag: None, context: None, ends_at: 0 },
        drag: Drag {
            divider: false,
            terminal: false,
            scrollbar: None,
            selecting: None,
            point: None,
            carry: 0,
        },
        quit: Quit { ephemeral, confirmed: false, session: None },
        frame: Pacing {
            last_draw: None,
            pending_input: None,
            title_sync_pending: false,
            interval: FIRST_INTERVAL,
            cursor_rects: None,
            caret_since: now,
            caret_blink: start.settings.caret_blink,
        },
        look: Look {
            font: font.to_owned(),
            size,
            theme: start.settings.theme,
            dark,
            ssh_auth_sock: start.settings.ssh_auth_sock,
            window: Some(window),
        },
        status: Status {
            message: None,
            update: None,
            project_menu_requested: false,
            copied: None,
            word_wrap: start.settings.word_wrap,
        },
    };
    let ivars = Ivars {
        testing: start.testing,
        needs_redraw: true,
        in_key_down: false,
        handling_key: false,
        draws_during_key_handler: 0,
    };
    let mut view = EditorView { ivars, state, effects: Vec::new() };
    view.begin(front, restored);
    let ghost begun = view;
    assert(begun.effects@ =~= first_work(begun.state, given, shown));
    if check {
        view.start_update_check(false);
    }
    view
}

impl EditorView {
    /// Asks for what a new window asks for first.
    fn begin(&mut self, shown: Option<String>, restored: bool)
        ensures
            final(self).state == old(self).state,
            final(self).ivars == old(self).ivars,
            final(self).effects@ == old(self).effects@ + ((match old(self).state.side.tree.root {
                Some(root) => seq![Effect::StartIndex(root)],
                None => Seq::empty(),
            }) + (match shown {
                Some(place) => seq![Effect::RevealInTree(place)],
                None => Seq::empty(),
            }) + (if restored {
                seq![Effect::PublishRecovery]
            } else {
                Seq::empty()
            }) + seq![
                Effect::SyncNativePreview,
                Effect::Draw,
                Effect::WatchProject,
                Effect::ForceAppearance(old(self).state.look.theme),
                Effect::Run(Task::LspSyncOpen),
                Effect::SyncTitle,
                Effect::Run(Task::Reparse),
            ] + (if old(self).state.project.indexing || old(self).state.git.busy {
                seq![Effect::ResumeDisplayLink]
            } else {
                Seq::empty()
            })),
    {
        let ghost before = self.effects@;
        let ghost given = shown;
        let root = self.state.side.tree.root.clone();
        if let Some(root) = root {
            self.effects.push(Effect::StartIndex(root));
        }
        if let Some(place) = shown {
            self.effects.push(Effect::RevealInTree(place));
        }
        if restored {
            self.effects.push(Effect::PublishRecovery);
        }
        self.effects.push(Effect::SyncNativePreview);
        self.effects.push(Effect::Draw);
        self.effects.push(Effect::WatchProject);
        self.effects.push(Effect::ForceAppearance(self.state.look.theme));
        self.effects.push(Effect::Run(Task::LspSyncOpen));
        self.effects.push(Effect::SyncTitle);
        self.effects.push(Effect::Run(Task::Reparse));
        if self.state.project.indexing || self.state.git.busy {
            self.effects.push(Effect::ResumeDisplayLink);
        }
        assert(self.effects@ =~= before + ((match self.state.side.tree.root {
            Some(root) => seq![Effect::StartIndex(root)],
            None => Seq::empty(),
        }) + (match given {
            Some(place) => seq![Effect::RevealInTree(place)],
            None => Seq::empty(),
        }) + (if restored {
            seq![Effect::PublishRecovery]
        } else {
            Seq::empty()
        }) + seq![
            Effect::SyncNativePreview,
            Effect::Draw,
            Effect::WatchProject,
            Effect::ForceAppearance(self.state.look.theme),
            Effect::Run(Task::LspSyncOpen),
            Effect::SyncTitle,
            Effect::Run(Task::Reparse),
        ] + (if self.state.project.indexing || self.state.git.busy {
            seq![Effect::ResumeDisplayLink]
        } else {
            Seq::empty()
        })));
    }
}

/// A window that was launched on something opens that and nothing of the last
/// session.
pub proof fn a_target_opens_alone(buffer: Buffer, folder: Option<String>, start: Start)
    requires
        has_target(buffer, folder),
        start.recovered@.len() == 0,
    ensures
        first_tabs(buffer, folder, start) == (seq![buffer], 0int),
        first_frame(start.session, true) == new_frame(),
{
}

/// Restoring loses no document: every tab is still there, under the same path,
/// unless a recovered text took its place.
pub proof fn restoring_keeps_the_tabs(tabs: (Seq<Buffer>, int), b: Buffer, i: int)
    requires
        0 <= i < tabs.0.len(),
        !is_home_list(tabs.0),
    ensures
        with_restored(tabs, b).0.len() >= tabs.0.len(),
        with_restored(tabs, b).0[i] == tabs.0[i] || (b.path matches Some(place)
            && with_restored(tabs, b).0[i] == b && position_in(tabs.0, place@) == Some(i)),
{
    if b.path is Some {
        documents::first_where_is_first(tabs.0, |x: Buffer| x.is_at(b.path->0@));
    }
}

/// One more document leaves what has a file or changes where it was.
proof fn one_more_keeps(tabs: (Seq<Buffer>, int), b: Buffer, d: Buffer)
    requires
        tabs.0.contains(d),
        d.dirty || d.path is Some,
    ensures
        with_one_more(tabs, b).0.contains(d),
        with_one_more(tabs, b).0.contains(b),
{
    let list = with_one_more(tabs, b).0;
    let k = tabs.0.index_of(d);
    if is_home_list(tabs.0) {
        assert(tabs.0[k] == tabs.0[0]);
    } else {
        assert(list[k] == d);
        assert(list.last() == b);
    }
}

/// A document that is restored is there, and those with other files and with
/// changes of their own stay.
proof fn restoring_keeps(tabs: (Seq<Buffer>, int), b: Buffer, d: Buffer)
    requires
        tabs.0.contains(d),
        d.dirty || d.path is Some,
        b.path matches Some(place) ==> !d.is_at(place@),
    ensures
        with_restored(tabs, b).0.contains(d),
{
    if let Some(place) = b.path {
        documents::first_where_is_first(tabs.0, |x: Buffer| x.is_at(place@));
        match position_in(tabs.0, place@) {
            Some(at) => {
                let k = tabs.0.index_of(d);
                assert(tabs.0[at].is_at(place@));
                assert(k != at);
                assert(tabs.0.update(at, b)[k] == d);
            },
            None => one_more_keeps(tabs, b, d),
        }
    } else {
        one_more_keeps(tabs, b, d);
    }
}

/// A document that is restored is among the tabs.
proof fn what_is_restored_is_there(tabs: (Seq<Buffer>, int), b: Buffer)
    ensures
        with_restored(tabs, b).0.contains(b),
{
    let one = with_one_more(tabs, b).0;
    assert(one.last() == b);
    assert(one.contains(b));
    if let Some(place) = b.path {
        documents::first_where_is_first(tabs.0, |x: Buffer| x.is_at(place@));
        if let Some(at) = position_in(tabs.0, place@) {
            assert(tabs.0.update(at, b)[at] == b);
        }
    }
}

/// Every document that was recovered is open in the new window as it was
/// recovered, whatever else is opened, as long as nothing else that was
/// recovered has the same file.
pub proof fn every_recovered_document_is_open(
    tabs: (Seq<Buffer>, int),
    recovered: Seq<Buffer>,
    r: int,
)
    requires
        0 <= r < recovered.len(),
        recovered[r].dirty,
        forall|q: int|
            r < q < recovered.len() ==> ((#[trigger] recovered[q]).path matches Some(place)
                ==> !recovered[r].is_at(place@)),
    ensures
        with_all_restored(tabs, recovered).0.contains(recovered[r]),
    decreases recovered.len(),
{
    let rest = recovered.drop_last();
    let before = with_all_restored(tabs, rest);
    let b = recovered.last();
    if r == recovered.len() - 1 {
        what_is_restored_is_there(before, b);
    } else {
        assert(rest[r] == recovered[r]);
        assert forall|q: int| r < q < rest.len() implies ((#[trigger] rest[q]).path matches Some(
            place,
        ) ==> !rest[r].is_at(place@)) by {
            assert(rest[q] == recovered[q]);
        }
        every_recovered_document_is_open(tabs, rest, r);
        assert(b == recovered[recovered.len() - 1]);
        restoring_keeps(before, b, recovered[r]);
    }
}

/// Whether `list` has the file `place` open.
pub open spec fn has_file(list: Seq<Buffer>, place: Seq<char>) -> bool {
    exists|i: int|
        0 <= i < list.len() && ((#[trigger] list[i]).path matches Some(own) && path::same_path(
            own@,
            place,
        ))
}

/// One more document closes no file.
proof fn opening_closes_no_file(tabs: (Seq<Buffer>, int), b: Buffer, place: Seq<char>)
    requires
        has_file(tabs.0, place),
    ensures
        has_file(with_opened(tabs, b).0, place),
        has_file(with_restored(tabs, b).0, place),
{
    let i = choose|i: int|
        0 <= i < tabs.0.len() && ((#[trigger] tabs.0[i]).path matches Some(own) && path::same_path(
            own@,
            place,
        ));
    let one = with_one_more(tabs, b).0;
    assert(!is_home_list(tabs.0)) by {
        if is_home_list(tabs.0) {
            assert(i == 0);
        }
    }
    assert(one[i] == tabs.0[i]);
    if let Some(own) = b.path {
        documents::first_where_is_first(tabs.0, |x: Buffer| x.is_at(own@));
        if let Some(at) = position_in(tabs.0, own@) {
            let list = tabs.0.update(at, b);
            if at == i {
                assert(tabs.0[at].is_at(own@));
                assert(path::same_path(list[i].path->0@, place));
            } else {
                assert(list[i] == tabs.0[i]);
            }
        }
    }
}

/// Every file of the last session that could be read is open again, each of
/// them.
pub proof fn every_file_of_the_session_is_open(
    tabs: (Seq<Buffer>, int),
    opened: Seq<Buffer>,
    r: int,
)
    requires
        0 <= r < opened.len(),
        opened[r].path is Some,
    ensures
        has_file(with_all_opened(tabs, opened).0, opened[r].path->0@),
    decreases opened.len(),
{
    let rest = opened.drop_last();
    let before = with_all_opened(tabs, rest);
    let b = opened.last();
    if r == opened.len() - 1 {
        let place = b.path->0@;
        documents::first_where_is_first(before.0, |x: Buffer| x.is_at(place));
        match position_in(before.0, place) {
            Some(at) => {
                assert(before.0[at].is_at(place));
            },
            None => {
                let one = with_one_more(before, b).0;
                assert(one.last() == b);
                assert(one[one.len() - 1].path is Some);
            },
        }
    } else {
        assert(rest[r] == opened[r]);
        every_file_of_the_session_is_open(tabs, rest, r);
        opening_closes_no_file(before, b, opened[r].path->0@);
    }
}

/// Restoring closes no file.
proof fn restoring_closes_no_file(tabs: (Seq<Buffer>, int), recovered: Seq<Buffer>, place: Seq<char>)
    requires
        has_file(tabs.0, place),
    ensures
        has_file(with_all_restored(tabs, recovered).0, place),
    decreases recovered.len(),
{
    if recovered.len() > 0 {
        restoring_closes_no_file(tabs, recovered.drop_last(), place);
        opening_closes_no_file(
            with_all_restored(tabs, recovered.drop_last()),
            recovered.last(),
            place,
        );
    }
}

/// A window that is launched on nothing has every file of the last session and
/// every recovered document; one that is launched on a file has that file.
pub proof fn a_new_window_has_what_it_should(
    buffer: Buffer,
    folder: Option<String>,
    start: Start,
    place: Seq<char>,
)
    ensures
        buffer.path is None && folder is None && has_file(start.opened@, place) ==> has_file(
            first_tabs(buffer, folder, start).0,
            place,
        ),
        (buffer.path matches Some(own) && path::same_path(own@, place)) ==> has_file(
            first_tabs(buffer, folder, start).0,
            place,
        ),
        forall|r: int|
            0 <= r < start.recovered@.len() && (#[trigger] start.recovered@[r]).dirty && (forall|
                q: int,
            |
                r < q < start.recovered@.len() ==> ((#[trigger] start.recovered@[q]).path matches Some(
                    own,
                ) ==> !start.recovered@[r].is_at(own@))) ==> first_tabs(
                buffer,
                folder,
                start,
            ).0.contains(start.recovered@[r]),
{
    let alone = (seq![buffer], 0int);
    let tabs = if has_target(buffer, folder) {
        alone
    } else {
        with_front(with_all_opened(alone, start.opened@), start.session.active as int)
    };
    if buffer.path is None && folder is None && has_file(start.opened@, place) {
        let r = choose|r: int|
            0 <= r < start.opened@.len() && ((#[trigger] start.opened@[r]).path matches Some(own)
                && path::same_path(own@, place));
        every_file_of_the_session_is_open(alone, start.opened@, r);
        let list = tabs.0;
        let i = choose|i: int|
            0 <= i < list.len() && ((#[trigger] list[i]).path matches Some(own) && path::same_path(
                own@,
                start.opened@[r].path->0@,
            ));
        assert(path::same_path(list[i].path->0@, place));
        restoring_closes_no_file(tabs, start.recovered@, place);
    }
    if buffer.path matches Some(own) && path::same_path(own@, place) {
        assert(tabs.0[0] == buffer);
        restoring_closes_no_file(tabs, start.recovered@, place);
    }
    assert forall|r: int|
        0 <= r < start.recovered@.len() && (#[trigger] start.recovered@[r]).dirty && (forall|q: int|
            r < q < start.recovered@.len() ==> ((#[trigger] start.recovered@[q]).path matches Some(
                own,
            ) ==> !start.recovered@[r].is_at(own@))) implies first_tabs(
        buffer,
        folder,
        start,
    ).0.contains(start.recovered@[r]) by {
        every_recovered_document_is_open(tabs, start.recovered@, r);
    }
}

} // verus!
