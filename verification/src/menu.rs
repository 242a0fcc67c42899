//! The menu bar, the context menus, and what is greyed out in them.

use crate::focus::{field_has_keys, focused_buffer};
use crate::http::{self, can_send_from};
use crate::keys::Modifiers;
use crate::panes::pane_count;
use crate::state::{EditorView, State, Target};
use crate::suggest::{self, lsp_server_for};
use crate::text::{self, chars_of, same_ignoring_case};
use vstd::prelude::*;
use vstd::string::*;

verus! {

/// What a menu item does.
#[derive(Clone, Copy, PartialEq, Eq, Structural, Debug)]
pub enum Action {
    AboutCrc,
    OpenSettings,
    Hide,
    Terminate,
    NewDocument,
    OpenDocument,
    OpenFolder,
    OpenQuickly,
    SaveDocument,
    SaveDocumentAs,
    RevertDocumentToSaved,
    TrashProjectItem,
    CloseTabOrWindow,
    Undo,
    Redo,
    Cut,
    Copy,
    Paste,
    SelectAll,
    PerformFindPanelAction,
    FindNext,
    FindPrevious,
    FindInProject,
    ReplaceAll,
    GoToLine,
    SelectNextOccurrence,
    ToggleComment,
    DuplicateLines,
    MoveLineUp,
    MoveLineDown,
    ToggleSidebar,
    TogglePreview,
    FoldBlock,
    UnfoldBlock,
    FoldAll,
    UnfoldAll,
    ToggleWordWrap,
    ZoomIn,
    ZoomOut,
    ZoomActual,
    SplitEditor,
    ClosePane,
    FocusNextPane,
    FocusPreviousPane,
    OpenClaude,
    ToggleTerminal,
    NewTerminal,
    ShowSourceControl,
    GitRefresh,
    GitCommit,
    SwitchBranch,
    GitFetch,
    GitPull,
    GitPush,
    GoToDefinition,
    ShowHover,
    FindReferences,
    RenameSymbol,
    FormatDocument,
    GoToSymbol,
    GoToProjectSymbol,
    TriggerCompletion,
    ForgetCompletionHistory,
    SendRequest,
    SelectNextTab,
    SelectPreviousTab,
    PerformMiniaturize,
    CheckForUpdates,
    ReportProblem,
    ShowCrashLogs,
    CloseContextTab,
    CloseOtherTabs,
    CloseAllTabs,
    MoveContextTabLeft,
    MoveContextTabRight,
    CopyContextTabPath,
    RevealContextTab,
    NewFolder,
    RevealProjectInFinder,
    RenameProjectItem,
    RevealInFinder,
}

/// One command in a menu.
pub struct MenuItem {
    pub title: String,
    /// The key that runs it, or nothing.
    pub key: String,
    pub mask: Modifiers,
    pub action: Action,
}

/// A row of a menu.
pub enum Entry {
    Item(MenuItem),
    Separator,
}

/// A menu.
pub struct Menu {
    pub title: String,
    pub entries: Vec<Entry>,
    /// Whether the system may append services of its own.
    pub services: bool,
}

/// Command.
pub open spec fn command_only() -> Modifiers {
    Modifiers { command: true, shift: false, option: false, control: false }
}

/// Command and Shift.
pub open spec fn command_shift() -> Modifiers {
    Modifiers { command: true, shift: true, option: false, control: false }
}

/// Command and Option.
pub open spec fn command_option() -> Modifiers {
    Modifiers { command: true, shift: false, option: true, control: false }
}

/// Option.
pub open spec fn option_only() -> Modifiers {
    Modifiers { command: false, shift: false, option: true, control: false }
}

/// Control.
pub open spec fn control_only() -> Modifiers {
    Modifiers { command: false, shift: false, option: false, control: true }
}

/// Shift and Option.
pub open spec fn shift_option() -> Modifiers {
    Modifiers { command: false, shift: true, option: true, control: false }
}

/// No modifier.
pub open spec fn unmodified() -> Modifiers {
    Modifiers { command: false, shift: false, option: false, control: false }
}

/// A command's row: its title, its key, the modifiers and the action.
pub open spec fn row(
    title: Seq<char>,
    action: Action,
    key: Seq<char>,
    mask: Modifiers,
) -> (Seq<char>, Seq<char>, Modifiers, Option<Action>) {
    (title, key, mask, Some(action))
}

/// A separator's row.
pub open spec fn line() -> (Seq<char>, Seq<char>, Modifiers, Option<Action>) {
    (Seq::empty(), Seq::empty(), unmodified(), None)
}

impl Entry {
    /// The entry as a row.
    pub open spec fn shown(&self) -> (Seq<char>, Seq<char>, Modifiers, Option<Action>) {
        match *self {
            Entry::Item(item) => row(item.title@, item.action, item.key@, item.mask),
            Entry::Separator => line(),
        }
    }
}

/// A menu's entries as rows.
pub open spec fn rows(
    entries: Seq<Entry>,
) -> Seq<(Seq<char>, Seq<char>, Modifiers, Option<Action>)> {
    Seq::new(entries.len(), |i: int| entries[i].shown())
}

/// The modifiers with these held.
fn held(command: bool, shift: bool, option: bool, control: bool) -> (mask: Modifiers)
    ensures
        mask == (Modifiers { command, shift, option, control }),
{
    Modifiers { command, shift, option, control }
}

impl Menu {
    /// A menu with nothing in it.
    fn titled(title: &str, services: bool) -> (menu: Menu)
        ensures
            menu.title@ == title@,
            menu.services == services,
            rows(menu.entries@) == Seq::<(Seq<char>, Seq<char>, Modifiers, Option<Action>)>::empty(),
    {
        let menu = Menu { title: title.to_owned(), entries: Vec::new(), services };
        assert(rows(menu.entries@) =~= Seq::empty());
        menu
    }

    /// Adds a command at the end.
    fn add(&mut self, title: &str, action: Action, key: &str, mask: Modifiers)
        ensures
            final(self).title == old(self).title,
            final(self).services == old(self).services,
            rows(final(self).entries@) == rows(old(self).entries@).push(
                row(title@, action, key@, mask),
            ),
    {
        self.entries.push(
            Entry::Item(MenuItem { title: title.to_owned(), key: key.to_owned(), mask, action }),
        );
        assert(rows(self.entries@) =~= rows(old(self).entries@).push(
            row(title@, action, key@, mask),
        ));
    }

    /// Adds a separator at the end.
    fn rule(&mut self)
        ensures
            final(self).title == old(self).title,
            final(self).services == old(self).services,
            rows(final(self).entries@) == rows(old(self).entries@).push(line()),
    {
        self.entries.push(Entry::Separator);
        assert(rows(self.entries@) =~= rows(old(self).entries@).push(line()));
    }
}

/// What the crc menu holds.
pub open spec fn crc_rows() -> Seq<(Seq<char>, Seq<char>, Modifiers, Option<Action>)> {
    seq![
        row("About crc"@, Action::AboutCrc, ""@, command_only()),
        line(),
        row("Settings\u{2026}"@, Action::OpenSettings, ","@, command_only()),
        line(),
        row("Hide crc"@, Action::Hide, "h"@, command_only()),
        line(),
        row("Quit crc"@, Action::Terminate, "q"@, command_only()),
    ]
}

/// The crc menu.
fn crc_menu_items() -> (menu: Menu)
    ensures
        menu.title@ == "crc"@,
        menu.services == true,
        rows(menu.entries@) == crc_rows(),
{
    let mut menu = Menu::titled("crc", true);
    menu.add("About crc", Action::AboutCrc, "", held(true, false, false, false));
    menu.rule();
    menu.add("Settings\u{2026}", Action::OpenSettings, ",", held(true, false, false, false));
    menu.rule();
    menu.add("Hide crc", Action::Hide, "h", held(true, false, false, false));
    menu.rule();
    menu.add("Quit crc", Action::Terminate, "q", held(true, false, false, false));
    assert(rows(menu.entries@) =~= crc_rows());
    menu
}

/// What the File menu holds.
pub open spec fn file_rows() -> Seq<(Seq<char>, Seq<char>, Modifiers, Option<Action>)> {
    seq![
        row("New File\u{2026}"@, Action::NewDocument, "n"@, command_only()),
        line(),
        row("Open\u{2026}"@, Action::OpenDocument, "o"@, command_only()),
        row("Open Folder\u{2026}"@, Action::OpenFolder, "o"@, command_shift()),
        row("Open Quickly\u{2026}"@, Action::OpenQuickly, "p"@, command_only()),
        line(),
        row("Save"@, Action::SaveDocument, "s"@, command_only()),
        row("Save As\u{2026}"@, Action::SaveDocumentAs, "s"@, command_shift()),
        row("Revert to Saved"@, Action::RevertDocumentToSaved, ""@, command_only()),
        line(),
        row("Move to Trash"@, Action::TrashProjectItem, "\u{8}"@, command_only()),
        line(),
        row("Close Tab"@, Action::CloseTabOrWindow, "w"@, command_only()),
    ]
}

/// The File menu.
fn file_menu_items() -> (menu: Menu)
    ensures
        menu.title@ == "File"@,
        menu.services == true,
        rows(menu.entries@) == file_rows(),
{
    let mut menu = Menu::titled("File", true);
    menu.add("New File\u{2026}", Action::NewDocument, "n", held(true, false, false, false));
    menu.rule();
    menu.add("Open\u{2026}", Action::OpenDocument, "o", held(true, false, false, false));
    menu.add("Open Folder\u{2026}", Action::OpenFolder, "o", held(true, true, false, false));
    menu.add("Open Quickly\u{2026}", Action::OpenQuickly, "p", held(true, false, false, false));
    menu.rule();
    menu.add("Save", Action::SaveDocument, "s", held(true, false, false, false));
    menu.add("Save As\u{2026}", Action::SaveDocumentAs, "s", held(true, true, false, false));
    menu.add("Revert to Saved", Action::RevertDocumentToSaved, "", held(true, false, false, false));
    menu.rule();
    menu.add("Move to Trash", Action::TrashProjectItem, "\u{8}", held(true, false, false, false));
    menu.rule();
    menu.add("Close Tab", Action::CloseTabOrWindow, "w", held(true, false, false, false));
    assert(rows(menu.entries@) =~= file_rows());
    menu
}

/// What the Edit menu holds.
pub open spec fn edit_rows() -> Seq<(Seq<char>, Seq<char>, Modifiers, Option<Action>)> {
    seq![
        row("Undo"@, Action::Undo, "z"@, command_only()),
        row("Redo"@, Action::Redo, "z"@, command_shift()),
        line(),
        row("Cut"@, Action::Cut, "x"@, command_only()),
        row("Copy"@, Action::Copy, "c"@, command_only()),
        row("Paste"@, Action::Paste, "v"@, command_only()),
        line(),
        row("Select All"@, Action::SelectAll, "a"@, command_only()),
        line(),
        row("Find\u{2026}"@, Action::PerformFindPanelAction, "f"@, command_only()),
        row("Find Next"@, Action::FindNext, "g"@, command_only()),
        row("Find Previous"@, Action::FindPrevious, "g"@, command_shift()),
        row("Find in Project\u{2026}"@, Action::FindInProject, "f"@, command_shift()),
        row("Replace All"@, Action::ReplaceAll, ""@, command_only()),
        row("Go to Line\u{2026}"@, Action::GoToLine, "l"@, command_only()),
        line(),
        row("Select Next Occurrence"@, Action::SelectNextOccurrence, "d"@, command_only()),
        line(),
        row("Toggle Comment"@, Action::ToggleComment, "/"@, command_only()),
        row("Duplicate Line"@, Action::DuplicateLines, "d"@, command_shift()),
        row("Move Line Up"@, Action::MoveLineUp, "\u{f700}"@, command_shift()),
        row("Move Line Down"@, Action::MoveLineDown, "\u{f701}"@, command_shift()),
    ]
}

/// The Edit menu.
fn edit_menu_items() -> (menu: Menu)
    ensures
        menu.title@ == "Edit"@,
        menu.services == true,
        rows(menu.entries@) == edit_rows(),
{
    let mut menu = Menu::titled("Edit", true);
    menu.add("Undo", Action::Undo, "z", held(true, false, false, false));
    menu.add("Redo", Action::Redo, "z", held(true, true, false, false));
    menu.rule();
    menu.add("Cut", Action::Cut, "x", held(true, false, false, false));
    menu.add("Copy", Action::Copy, "c", held(true, false, false, false));
    menu.add("Paste", Action::Paste, "v", held(true, false, false, false));
    menu.rule();
    menu.add("Select All", Action::SelectAll, "a", held(true, false, false, false));
    menu.rule();
    menu.add("Find\u{2026}", Action::PerformFindPanelAction, "f", held(true, false, false, false));
    menu.add("Find Next", Action::FindNext, "g", held(true, false, false, false));
    menu.add("Find Previous", Action::FindPrevious, "g", held(true, true, false, false));
    menu.add("Find in Project\u{2026}", Action::FindInProject, "f", held(true, true, false, false));
    menu.add("Replace All", Action::ReplaceAll, "", held(true, false, false, false));
    menu.add("Go to Line\u{2026}", Action::GoToLine, "l", held(true, false, false, false));
    menu.rule();
    menu.add(
        "Select Next Occurrence",
        Action::SelectNextOccurrence,
        "d",
        held(true, false, false, false),
    );
    menu.rule();
    menu.add("Toggle Comment", Action::ToggleComment, "/", held(true, false, false, false));
    menu.add("Duplicate Line", Action::DuplicateLines, "d", held(true, true, false, false));
    menu.add("Move Line Up", Action::MoveLineUp, "\u{f700}", held(true, true, false, false));
    menu.add("Move Line Down", Action::MoveLineDown, "\u{f701}", held(true, true, false, false));
    assert(rows(menu.entries@) =~= edit_rows());
    menu
}

/// What the View menu holds.
pub open spec fn view_rows(product: Seq<char>) -> Seq<(Seq<char>, Seq<char>, Modifiers, Option<Action>)> {
    seq![
        row("Toggle Sidebar"@, Action::ToggleSidebar, "b"@, command_only()),
        row("Toggle Markdown Preview"@, Action::TogglePreview, "e"@, command_only()),
        row("Fold"@, Action::FoldBlock, "\u{f702}"@, command_option()),
        row("Unfold"@, Action::UnfoldBlock, "\u{f703}"@, command_option()),
        row("Fold All"@, Action::FoldAll, ""@, command_only()),
        row("Unfold All"@, Action::UnfoldAll, ""@, command_only()),
        row("Word Wrap"@, Action::ToggleWordWrap, "z"@, option_only()),
        line(),
        row("Zoom In"@, Action::ZoomIn, "="@, command_only()),
        row("Zoom Out"@, Action::ZoomOut, "-"@, command_only()),
        row("Actual Size"@, Action::ZoomActual, "0"@, command_only()),
        line(),
        row("Split Editor Right"@, Action::SplitEditor, "\\"@, command_only()),
        row("Close Pane"@, Action::ClosePane, "w"@, command_option()),
        row("Focus Next Pane"@, Action::FocusNextPane, "]"@, command_option()),
        row("Focus Previous Pane"@, Action::FocusPreviousPane, "["@, command_option()),
        line(),
        row(product, Action::OpenClaude, "c"@, command_shift()),
        row("Terminal"@, Action::ToggleTerminal, "`"@, control_only()),
        row("New Terminal"@, Action::NewTerminal, ""@, command_only()),
        row("Toggle Panel"@, Action::ToggleTerminal, "j"@, command_only()),
    ]
}

/// The View menu.
fn view_menu_items(product: &str) -> (menu: Menu)
    ensures
        menu.title@ == "View"@,
        menu.services == true,
        rows(menu.entries@) == view_rows(product@),
{
    let mut menu = Menu::titled("View", true);
    menu.add("Toggle Sidebar", Action::ToggleSidebar, "b", held(true, false, false, false));
    menu.add(
        "Toggle Markdown Preview",
        Action::TogglePreview,
        "e",
        held(true, false, false, false),
    );
    menu.add("Fold", Action::FoldBlock, "\u{f702}", held(true, false, true, false));
    menu.add("Unfold", Action::UnfoldBlock, "\u{f703}", held(true, false, true, false));
    menu.add("Fold All", Action::FoldAll, "", held(true, false, false, false));
    menu.add("Unfold All", Action::UnfoldAll, "", held(true, false, false, false));
    menu.add("Word Wrap", Action::ToggleWordWrap, "z", held(false, false, true, false));
    menu.rule();
    menu.add("Zoom In", Action::ZoomIn, "=", held(true, false, false, false));
    menu.add("Zoom Out", Action::ZoomOut, "-", held(true, false, false, false));
    menu.add("Actual Size", Action::ZoomActual, "0", held(true, false, false, false));
    menu.rule();
    menu.add("Split Editor Right", Action::SplitEditor, "\\", held(true, false, false, false));
    menu.add("Close Pane", Action::ClosePane, "w", held(true, false, true, false));
    menu.add("Focus Next Pane", Action::FocusNextPane, "]", held(true, false, true, false));
    menu.add("Focus Previous Pane", Action::FocusPreviousPane, "[", held(true, false, true, false));
    menu.rule();
    menu.add(product, Action::OpenClaude, "c", held(true, true, false, false));
    menu.add("Terminal", Action::ToggleTerminal, "`", held(false, false, false, true));
    menu.add("New Terminal", Action::NewTerminal, "", held(true, false, false, false));
    menu.add("Toggle Panel", Action::ToggleTerminal, "j", held(true, false, false, false));
    assert(rows(menu.entries@) =~= view_rows(product@));
    menu
}

/// What the Git menu holds.
pub open spec fn git_rows() -> Seq<(Seq<char>, Seq<char>, Modifiers, Option<Action>)> {
    seq![
        row("Source Control"@, Action::ShowSourceControl, "g"@, command_option()),
        row("Refresh"@, Action::GitRefresh, ""@, command_only()),
        row("Commit\u{2026}"@, Action::GitCommit, ""@, command_only()),
        line(),
        row("Switch Branch\u{2026}"@, Action::SwitchBranch, ""@, command_only()),
        row("Fetch"@, Action::GitFetch, ""@, command_only()),
        row("Pull"@, Action::GitPull, ""@, command_only()),
        row("Push"@, Action::GitPush, ""@, command_only()),
    ]
}

/// The Git menu.
fn git_menu_items() -> (menu: Menu)
    ensures
        menu.title@ == "Git"@,
        menu.services == true,
        rows(menu.entries@) == git_rows(),
{
    let mut menu = Menu::titled("Git", true);
    menu.add("Source Control", Action::ShowSourceControl, "g", held(true, false, true, false));
    menu.add("Refresh", Action::GitRefresh, "", held(true, false, false, false));
    menu.add("Commit\u{2026}", Action::GitCommit, "", held(true, false, false, false));
    menu.rule();
    menu.add("Switch Branch\u{2026}", Action::SwitchBranch, "", held(true, false, false, false));
    menu.add("Fetch", Action::GitFetch, "", held(true, false, false, false));
    menu.add("Pull", Action::GitPull, "", held(true, false, false, false));
    menu.add("Push", Action::GitPush, "", held(true, false, false, false));
    assert(rows(menu.entries@) =~= git_rows());
    menu
}

/// What the Go menu holds.
pub open spec fn go_rows() -> Seq<(Seq<char>, Seq<char>, Modifiers, Option<Action>)> {
    seq![
        row("Go to Definition"@, Action::GoToDefinition, "\u{f70f}"@, command_only()),
        row("Show Hover"@, Action::ShowHover, "\u{f704}"@, command_only()),
        row("Find References"@, Action::FindReferences, "\u{f70f}"@, command_shift()),
        row("Rename Symbol\u{2026}"@, Action::RenameSymbol, "\u{f705}"@, unmodified()),
        row("Format Document"@, Action::FormatDocument, "f"@, shift_option()),
        line(),
        row("Go to Symbol\u{2026}"@, Action::GoToSymbol, "r"@, command_only()),
        row("Go to Symbol in Project\u{2026}"@, Action::GoToProjectSymbol, "t"@, command_only()),
        line(),
        row("Trigger Completion"@, Action::TriggerCompletion, " "@, control_only()),
        row("Forget Completion History"@, Action::ForgetCompletionHistory, ""@, command_only()),
    ]
}

/// The Go menu.
fn go_menu_items() -> (menu: Menu)
    ensures
        menu.title@ == "Go"@,
        menu.services == true,
        rows(menu.entries@) == go_rows(),
{
    let mut menu = Menu::titled("Go", true);
    menu.add(
        "Go to Definition",
        Action::GoToDefinition,
        "\u{f70f}",
        held(true, false, false, false),
    );
    menu.add("Show Hover", Action::ShowHover, "\u{f704}", held(true, false, false, false));
    menu.add("Find References", Action::FindReferences, "\u{f70f}", held(true, true, false, false));
    menu.add(
        "Rename Symbol\u{2026}",
        Action::RenameSymbol,
        "\u{f705}",
        held(false, false, false, false),
    );
    menu.add("Format Document", Action::FormatDocument, "f", held(false, true, true, false));
    menu.rule();
    menu.add("Go to Symbol\u{2026}", Action::GoToSymbol, "r", held(true, false, false, false));
    menu.add(
        "Go to Symbol in Project\u{2026}",
        Action::GoToProjectSymbol,
        "t",
        held(true, false, false, false),
    );
    menu.rule();
    menu.add("Trigger Completion", Action::TriggerCompletion, " ", held(false, false, false, true));
    menu.add(
        "Forget Completion History",
        Action::ForgetCompletionHistory,
        "",
        held(true, false, false, false),
    );
    assert(rows(menu.entries@) =~= go_rows());
    menu
}

/// What the Run menu holds.
pub open spec fn run_rows() -> Seq<(Seq<char>, Seq<char>, Modifiers, Option<Action>)> {
    seq![
        row("Send Request"@, Action::SendRequest, "\r"@, command_only()),
    ]
}

/// The Run menu.
fn run_menu_items() -> (menu: Menu)
    ensures
        menu.title@ == "Run"@,
        menu.services == true,
        rows(menu.entries@) == run_rows(),
{
    let mut menu = Menu::titled("Run", true);
    menu.add("Send Request", Action::SendRequest, "\r", held(true, false, false, false));
    assert(rows(menu.entries@) =~= run_rows());
    menu
}

/// What the Window menu holds.
pub open spec fn window_rows() -> Seq<(Seq<char>, Seq<char>, Modifiers, Option<Action>)> {
    seq![
        row("Show Next Tab"@, Action::SelectNextTab, "]"@, command_only()),
        row("Show Previous Tab"@, Action::SelectPreviousTab, "["@, command_only()),
        line(),
        row("Minimize"@, Action::PerformMiniaturize, "m"@, command_only()),
    ]
}

/// The Window menu.
fn window_menu_items() -> (menu: Menu)
    ensures
        menu.title@ == "Window"@,
        menu.services == true,
        rows(menu.entries@) == window_rows(),
{
    let mut menu = Menu::titled("Window", true);
    menu.add("Show Next Tab", Action::SelectNextTab, "]", held(true, false, false, false));
    menu.add("Show Previous Tab", Action::SelectPreviousTab, "[", held(true, false, false, false));
    menu.rule();
    menu.add("Minimize", Action::PerformMiniaturize, "m", held(true, false, false, false));
    assert(rows(menu.entries@) =~= window_rows());
    menu
}

/// What the Help menu holds.
pub open spec fn help_rows() -> Seq<(Seq<char>, Seq<char>, Modifiers, Option<Action>)> {
    seq![
        row("Check for Updates\u{2026}"@, Action::CheckForUpdates, ""@, command_only()),
        row("Report a Problem\u{2026}"@, Action::ReportProblem, ""@, command_only()),
        row("Show Crash Logs"@, Action::ShowCrashLogs, ""@, command_only()),
    ]
}

/// The Help menu.
fn help_menu_items() -> (menu: Menu)
    ensures
        menu.title@ == "Help"@,
        menu.services == true,
        rows(menu.entries@) == help_rows(),
{
    let mut menu = Menu::titled("Help", true);
    menu.add(
        "Check for Updates\u{2026}",
        Action::CheckForUpdates,
        "",
        held(true, false, false, false),
    );
    menu.add(
        "Report a Problem\u{2026}",
        Action::ReportProblem,
        "",
        held(true, false, false, false),
    );
    menu.add("Show Crash Logs", Action::ShowCrashLogs, "", held(true, false, false, false));
    assert(rows(menu.entries@) =~= help_rows());
    menu
}

/// What [`tab_menu`] holds.
pub open spec fn tab_rows() -> Seq<(Seq<char>, Seq<char>, Modifiers, Option<Action>)> {
    seq![
        row("Close Tab"@, Action::CloseContextTab, ""@, command_only()),
        row("Close Other Tabs"@, Action::CloseOtherTabs, ""@, command_only()),
        row("Close All Tabs"@, Action::CloseAllTabs, ""@, command_only()),
        line(),
        row("Move Tab Left"@, Action::MoveContextTabLeft, ""@, command_only()),
        row("Move Tab Right"@, Action::MoveContextTabRight, ""@, command_only()),
        line(),
        row("Copy Path"@, Action::CopyContextTabPath, ""@, command_only()),
        row("Reveal in Finder"@, Action::RevealContextTab, ""@, command_only()),
    ]
}

/// Right-click menu for a tab.
pub fn tab_menu() -> (menu: Menu)
    ensures
        menu.title@ == ""@,
        menu.services == true,
        rows(menu.entries@) == tab_rows(),
{
    let mut menu = Menu::titled("", true);
    menu.add("Close Tab", Action::CloseContextTab, "", held(true, false, false, false));
    menu.add("Close Other Tabs", Action::CloseOtherTabs, "", held(true, false, false, false));
    menu.add("Close All Tabs", Action::CloseAllTabs, "", held(true, false, false, false));
    menu.rule();
    menu.add("Move Tab Left", Action::MoveContextTabLeft, "", held(true, false, false, false));
    menu.add("Move Tab Right", Action::MoveContextTabRight, "", held(true, false, false, false));
    menu.rule();
    menu.add("Copy Path", Action::CopyContextTabPath, "", held(true, false, false, false));
    menu.add("Reveal in Finder", Action::RevealContextTab, "", held(true, false, false, false));
    assert(rows(menu.entries@) =~= tab_rows());
    menu
}

/// What [`project_menu`] holds.
pub open spec fn project_rows() -> Seq<(Seq<char>, Seq<char>, Modifiers, Option<Action>)> {
    seq![
        row("New File\u{2026}"@, Action::NewDocument, ""@, command_only()),
        row("New Folder\u{2026}"@, Action::NewFolder, ""@, command_only()),
        line(),
        row("Open Folder\u{2026}"@, Action::OpenFolder, ""@, command_only()),
        row("Reveal Project in Finder"@, Action::RevealProjectInFinder, ""@, command_only()),
    ]
}

/// The toolbar title is a project switcher, so its menu deals with the
/// project as a whole rather than the last selected tree row.
pub fn project_menu() -> (menu: Menu)
    ensures
        menu.title@ == ""@,
        menu.services == false,
        rows(menu.entries@) == project_rows(),
{
    let mut menu = Menu::titled("", false);
    menu.add("New File\u{2026}", Action::NewDocument, "", held(true, false, false, false));
    menu.add("New Folder\u{2026}", Action::NewFolder, "", held(true, false, false, false));
    menu.rule();
    menu.add("Open Folder\u{2026}", Action::OpenFolder, "", held(true, false, false, false));
    menu.add(
        "Reveal Project in Finder",
        Action::RevealProjectInFinder,
        "",
        held(true, false, false, false),
    );
    assert(rows(menu.entries@) =~= project_rows());
    menu
}

/// What [`sidebar_item_menu`] holds.
pub open spec fn sidebar_rows() -> Seq<(Seq<char>, Seq<char>, Modifiers, Option<Action>)> {
    seq![
        row("New File\u{2026}"@, Action::NewDocument, ""@, command_only()),
        row("New Folder\u{2026}"@, Action::NewFolder, ""@, command_only()),
        line(),
        row("Rename\u{2026}"@, Action::RenameProjectItem, ""@, command_only()),
        row("Move to Trash"@, Action::TrashProjectItem, ""@, command_only()),
        line(),
        row("Reveal in Finder"@, Action::RevealInFinder, ""@, command_only()),
    ]
}

/// Right-click menu for a row of the tree.
pub fn sidebar_item_menu() -> (menu: Menu)
    ensures
        menu.title@ == ""@,
        menu.services == false,
        rows(menu.entries@) == sidebar_rows(),
{
    let mut menu = Menu::titled("", false);
    menu.add("New File\u{2026}", Action::NewDocument, "", held(true, false, false, false));
    menu.add("New Folder\u{2026}", Action::NewFolder, "", held(true, false, false, false));
    menu.rule();
    menu.add("Rename\u{2026}", Action::RenameProjectItem, "", held(true, false, false, false));
    menu.add("Move to Trash", Action::TrashProjectItem, "", held(true, false, false, false));
    menu.rule();
    menu.add("Reveal in Finder", Action::RevealInFinder, "", held(true, false, false, false));
    assert(rows(menu.entries@) =~= sidebar_rows());
    menu
}

/// What [`editor_context_menu`] holds.
pub open spec fn editor_rows() -> Seq<(Seq<char>, Seq<char>, Modifiers, Option<Action>)> {
    seq![
        row("Cut"@, Action::Cut, ""@, command_only()),
        row("Copy"@, Action::Copy, ""@, command_only()),
        row("Paste"@, Action::Paste, ""@, command_only()),
        line(),
        row("Select All"@, Action::SelectAll, ""@, command_only()),
        line(),
        row("Find\u{2026}"@, Action::PerformFindPanelAction, ""@, command_only()),
    ]
}

/// Right-click menu for the text.
pub fn editor_context_menu() -> (menu: Menu)
    ensures
        menu.title@ == ""@,
        menu.services == true,
        rows(menu.entries@) == editor_rows(),
{
    let mut menu = Menu::titled("", true);
    menu.add("Cut", Action::Cut, "", held(true, false, false, false));
    menu.add("Copy", Action::Copy, "", held(true, false, false, false));
    menu.add("Paste", Action::Paste, "", held(true, false, false, false));
    menu.rule();
    menu.add("Select All", Action::SelectAll, "", held(true, false, false, false));
    menu.rule();
    menu.add("Find\u{2026}", Action::PerformFindPanelAction, "", held(true, false, false, false));
    assert(rows(menu.entries@) =~= editor_rows());
    menu
}

/// What the menu bar holds, `product` being what the assistant is called.
pub open spec fn bar_rows(product: Seq<char>) -> Seq<(Seq<char>, Seq<(Seq<char>, Seq<char>, Modifiers, Option<Action>)>)> {
    seq![
        ("crc"@, crc_rows()),
        ("File"@, file_rows()),
        ("Edit"@, edit_rows()),
        ("View"@, view_rows(product)),
        ("Git"@, git_rows()),
        ("Go"@, go_rows()),
        ("Run"@, run_rows()),
        ("Window"@, window_rows()),
        ("Help"@, help_rows()),
    ]
}

/// A menu bar's titles and rows.
pub open spec fn bar_shown(
    bar: Seq<Menu>,
) -> Seq<(Seq<char>, Seq<(Seq<char>, Seq<char>, Modifiers, Option<Action>)>)> {
    Seq::new(bar.len(), |i: int| (bar[i].title@, rows(bar[i].entries@)))
}

/// The menu bar.
///
/// Not decoration: an app with no main menu has no Cmd-Q, and the only way
/// out is to kill the process. The first menu is the application's, whatever
/// its title, and the last is the help menu. The system may append services
/// to each.
pub fn install_menu(product: &str) -> (bar: Vec<Menu>)
    ensures
        bar_shown(bar@) == bar_rows(product@),
        forall|i: int| 0 <= i < bar@.len() ==> (#[trigger] bar@[i]).services,
{
    let mut bar: Vec<Menu> = Vec::new();
    bar.push(crc_menu_items());
    bar.push(file_menu_items());
    bar.push(edit_menu_items());
    bar.push(view_menu_items(product));
    bar.push(git_menu_items());
    bar.push(go_menu_items());
    bar.push(run_menu_items());
    bar.push(window_menu_items());
    bar.push(help_menu_items());
    assert(bar_shown(bar@) =~= bar_rows(product@));
    bar
}
/// What the standard library's `char::is_uppercase` says of a character.
pub uninterp spec fn uppercase(c: char) -> bool;

/// `char::is_uppercase` of the standard library.
#[verifier::external_body]
fn is_uppercase(c: char) -> (r: bool)
    ensures
        r == uppercase(c),
{
    c.is_uppercase()
}

/// Whether a key is written as a capital, which stands for Shift.
pub open spec fn capital(key: Seq<char>) -> bool {
    exists|i: int| 0 <= i < key.len() && uppercase(#[trigger] key[i])
}

/// The modifiers that run an item.
pub open spec fn wanted(item: MenuItem) -> Modifiers {
    if capital(item.key@) {
        Modifiers { shift: true, ..item.mask }
    } else {
        item.mask
    }
}

impl Entry {
    /// Whether `chars` with `flags` is this entry's key.
    pub open spec fn answers(&self, chars: Seq<char>, flags: Modifiers) -> bool {
        &&& *self matches Entry::Item(item)
        &&& item.key@.len() > 0
        &&& text::ascii_lowered(item.key@) == text::ascii_lowered(chars)
        &&& wanted(item) == flags
    }

    /// What the entry does.
    pub open spec fn action(&self) -> Option<Action> {
        match *self {
            Entry::Item(item) => Some(item.action),
            Entry::Separator => None,
        }
    }
}

/// The action of the first entry whose key is `chars` with `flags`.
pub open spec fn action_in(entries: Seq<Entry>, chars: Seq<char>, flags: Modifiers) -> Option<
    Action,
>
    decreases entries.len(),
{
    if entries.len() == 0 {
        None
    } else {
        match action_in(entries.drop_last(), chars, flags) {
            Some(action) => Some(action),
            None => if entries.last().answers(chars, flags) {
                entries.last().action()
            } else {
                None
            },
        }
    }
}

/// The action of the first entry, menu by menu, whose key is `chars` with
/// `flags`.
pub open spec fn action_in_bar(bar: Seq<Menu>, chars: Seq<char>, flags: Modifiers) -> Option<Action>
    decreases bar.len(),
{
    if bar.len() == 0 {
        None
    } else {
        match action_in_bar(bar.drop_last(), chars, flags) {
            Some(action) => Some(action),
            None => action_in(bar.last().entries@, chars, flags),
        }
    }
}

/// See [`capital`].
fn has_capital(key: &str) -> (r: bool)
    ensures
        r == capital(key@),
{
    let chars = chars_of(key);
    let mut i: usize = 0;
    while i < chars.len()
        invariant
            chars@ == key@,
            i <= chars@.len(),
            forall|j: int| 0 <= j < i ==> !uppercase(#[trigger] key@[j]),
        decreases chars@.len() - i,
    {
        if is_uppercase(chars[i]) {
            assert(uppercase(key@[i as int]));
            return true;
        }
        i += 1;
    }
    false
}

/// See [`Entry::answers`].
fn entry_answers(entry: &Entry, chars: &str, flags: Modifiers) -> (r: bool)
    ensures
        r == entry.answers(chars@, flags),
{
    match entry {
        Entry::Separator => false,
        Entry::Item(item) => {
            if chars_of(item.key.as_str()).len() == 0 {
                return false;
            }
            if !same_ignoring_case(item.key.as_str(), chars) {
                return false;
            }
            let mut mask = item.mask;
            if has_capital(item.key.as_str()) {
                mask.shift = true;
            }
            mask == flags
        },
    }
}

/// See [`action_in`].
fn find_action(entries: &Vec<Entry>, chars: &str, flags: Modifiers) -> (action: Option<Action>)
    ensures
        action == action_in(entries@, chars@, flags),
{
    let mut action: Option<Action> = None;
    let mut i: usize = 0;
    assert(entries@.take(0) =~= Seq::empty());
    while i < entries.len()
        invariant
            i <= entries@.len(),
            action == action_in(entries@.take(i as int), chars@, flags),
        decreases entries@.len() - i,
    {
        assert(entries@.take(i + 1).drop_last() =~= entries@.take(i as int));
        if action.is_none() && entry_answers(&entries[i], chars, flags) {
            if let Entry::Item(item) = &entries[i] {
                action = Some(item.action);
            }
        }
        i += 1;
    }
    assert(entries@.take(entries@.len() as int) =~= entries@);
    action
}

/// The action of the menu item whose key equivalent is `chars` with `flags`,
/// searching the menus in order.
pub fn menu_action_for(bar: &Vec<Menu>, chars: &str, flags: Modifiers) -> (action: Option<Action>)
    ensures
        action == action_in_bar(bar@, chars@, flags),
{
    let mut action: Option<Action> = None;
    let mut i: usize = 0;
    assert(bar@.take(0) =~= Seq::empty());
    while i < bar.len()
        invariant
            i <= bar@.len(),
            action == action_in_bar(bar@.take(i as int), chars@, flags),
        decreases bar@.len() - i,
    {
        assert(bar@.take(i + 1).drop_last() =~= bar@.take(i as int));
        if action.is_none() {
            action = find_action(&bar[i].entries, chars, flags);
        }
        i += 1;
    }
    assert(bar@.take(bar@.len() as int) =~= bar@);
    action
}

/// A key nobody has runs nothing: an item without a key is never found, in
/// whatever menu it stands.
pub proof fn an_item_without_a_key_is_not_found(
    entries: Seq<Entry>,
    chars: Seq<char>,
    flags: Modifiers,
)
    requires
        forall|i: int|
            0 <= i < entries.len() ==> ((#[trigger] entries[i]) matches Entry::Item(item)
                ==> item.key@.len() == 0),
    ensures
        action_in(entries, chars, flags) is None,
    decreases entries.len(),
{
    if entries.len() > 0 {
        let rest = entries.drop_last();
        assert forall|i: int| 0 <= i < rest.len() implies ((#[trigger] rest[i]) matches Entry::Item(
            item,
        ) ==> item.key@.len() == 0) by {
            assert(rest[i] == entries[i]);
        }
        an_item_without_a_key_is_not_found(rest, chars, flags);
        assert(entries.last() == entries[entries.len() - 1]);
    }
}

/// What only the outside knows when a menu opens.
#[derive(Clone, Copy, PartialEq, Eq, Structural, Debug)]
pub struct MenuFacts {
    /// The text with the keyboard has something to undo.
    pub can_undo: bool,
    /// The same for redo.
    pub can_redo: bool,
    /// The active file is not as it was on disk.
    pub disk_changed: bool,
    /// There is text on the clipboard.
    pub clipboard: bool,
}

/// Whether something is selected in the text with the keyboard.
pub open spec fn selected_in_focus(state: State) -> bool {
    match state.target() {
        Target::Document => state.pane.docs.front().has_selection(),
        Target::FindQuery => state.fields.find->0.query.has_selection(),
        Target::FindReplacement => state.fields.find->0.replacement.has_selection(),
        Target::Palette => state.fields.palette->0.query.has_selection(),
        Target::Goto => state.fields.goto_line->0.has_selection(),
        Target::SidebarName => state.fields.sidebar_edit->0.field.has_selection(),
        Target::RenameName => state.fields.rename->0.field.has_selection(),
        Target::CommitMessage => state.git.message.has_selection(),
        Target::Nowhere => false,
    }
}

/// Whether an action can be taken now.
pub open spec fn enabled(state: State, action: Action, facts: MenuFacts) -> bool {
    let front = state.pane.docs.front();
    match action {
        Action::Copy => if state.terminal_keys() {
            state.terminal.selection is Some
        } else {
            selected_in_focus(state)
        },
        Action::Cut => !state.terminal_keys() && selected_in_focus(state),
        Action::Undo => !state.terminal_keys() && facts.can_undo,
        Action::Redo => !state.terminal_keys() && facts.can_redo,
        Action::SaveDocument => front.dirty || front.path is None,
        Action::RevertDocumentToSaved => front.path is Some && (front.dirty || facts.disk_changed),
        Action::Paste => facts.clipboard,
        Action::MoveContextTabLeft => state.tab_bar.context matches Some(index) && index > 0,
        Action::MoveContextTabRight => state.tab_bar.context matches Some(index) && index + 1
            < state.pane.docs.list@.len(),
        Action::RenameProjectItem | Action::TrashProjectItem => state.side.tree.selected is Some
            && state.side.keys && !state.field_open(),
        Action::RevealProjectInFinder | Action::GitRefresh | Action::GitCommit => state.side.tree.root
            is Some,
        Action::SendRequest => state.http.in_flight is None && http::sendable(state),
        Action::ClosePane | Action::FocusNextPane | Action::FocusPreviousPane => state.panes@.len()
            > 0,
        Action::TriggerCompletion => !state.field_open(),
        Action::GoToDefinition | Action::ShowHover => !state.field_open()
            && suggest::ready_server(state.servers.list@, front) is Some,
        _ => true,
    }
}

/// See [`selected_in_focus`].
pub(crate) fn focus_selected(state: &State) -> (r: bool)
    requires
        state.wf(),
    ensures
        r == selected_in_focus(*state),
{
    match focused_buffer(state) {
        Target::Document => {
            let front = state.pane.docs.active();
            front.anchor != front.cursor
        },
        Target::FindQuery => match &state.fields.find {
            Some(bar) => bar.query.anchor != bar.query.cursor,
            None => false,
        },
        Target::FindReplacement => match &state.fields.find {
            Some(bar) => bar.replacement.anchor != bar.replacement.cursor,
            None => false,
        },
        Target::Palette => match &state.fields.palette {
            Some(palette) => palette.query.anchor != palette.query.cursor,
            None => false,
        },
        Target::Goto => match &state.fields.goto_line {
            Some(field) => field.anchor != field.cursor,
            None => false,
        },
        Target::SidebarName => match &state.fields.sidebar_edit {
            Some(edit) => edit.field.anchor != edit.field.cursor,
            None => false,
        },
        Target::RenameName => match &state.fields.rename {
            Some(rename) => rename.field.anchor != rename.field.cursor,
            None => false,
        },
        Target::CommitMessage => state.git.message.anchor != state.git.message.cursor,
        Target::Nowhere => false,
    }
}

impl EditorView {
    /// Greys out what cannot be done right now. Without this, Undo and Paste
    /// stay enabled forever and the menu lies about the state of the document.
    pub fn validate_menu_item(&self, action: Action, facts: MenuFacts) -> (r: bool)
        requires
            self.state.wf(),
        ensures
            r == enabled(self.state, action, facts),
    {
        let state = &self.state;
        let terminal = state.terminal.open && state.terminal.focus && !field_has_keys(state);
        let front = state.pane.docs.active();
        match action {
            Action::Copy => if terminal {
                state.terminal.selection.is_some()
            } else {
                focus_selected(state)
            },
            Action::Cut => !terminal && focus_selected(state),
            Action::Undo => !terminal && facts.can_undo,
            Action::Redo => !terminal && facts.can_redo,
            Action::SaveDocument => front.dirty || front.path.is_none(),
            Action::RevertDocumentToSaved => front.path.is_some() && (front.dirty
                || facts.disk_changed),
            Action::Paste => facts.clipboard,
            Action::MoveContextTabLeft => match state.tab_bar.context {
                Some(index) => index > 0,
                None => false,
            },
            Action::MoveContextTabRight => match state.tab_bar.context {
                Some(index) => index < state.pane.docs.len() - 1,
                None => false,
            },
            Action::RenameProjectItem | Action::TrashProjectItem => {
                state.side.tree.selected.is_some() && state.side.keys && !field_has_keys(state)
            },
            Action::RevealProjectInFinder | Action::GitRefresh | Action::GitCommit => {
                state.side.tree.root.is_some()
            },
            Action::SendRequest => state.http.in_flight.is_none() && can_send_from(state),
            Action::ClosePane | Action::FocusNextPane | Action::FocusPreviousPane => {
                pane_count(state) > 1
            },
            Action::TriggerCompletion => !field_has_keys(state),
            Action::GoToDefinition | Action::ShowHover => {
                !field_has_keys(state) && lsp_server_for(&state.servers.list, front).is_some()
            },
            _ => true,
        }
    }
}

/// Cmd-Delete reaches the tree's selection only while the tree has the
/// keyboard and no field does: anywhere else it edits text.
pub proof fn only_the_tree_loses_files(state: State, facts: MenuFacts)
    ensures
        enabled(state, Action::TrashProjectItem, facts) ==> {
            &&& state.side.keys
            &&& !state.field_open()
            &&& state.side.tree.selected is Some
        },
        enabled(state, Action::TrashProjectItem, facts) == enabled(
            state,
            Action::RenameProjectItem,
            facts,
        ),
{
}

} // verus!
