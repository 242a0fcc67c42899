use crc_window::actions::Closing;
use crc_window::buffer::{Buffer, Edit, Language};
use crc_window::delegate::DelegateIvars;
use crc_window::disk::{DiskReport, DiskState};
use crc_window::files::Opened;
use crc_window::folding::{Block, Columns, FoldCommand};
use crc_window::host::Proposal;
use crc_window::keyboard::{key_route, Route};
use crc_window::keys::{self, EditOp, KeyEvent, Modifiers, Motion};
use crc_window::launch::{run, Start};
use crc_window::link::Release;
use crc_window::menu::{Action, MenuFacts};
use crc_window::moves::{NewFile, NewFolder};
use crc_window::pacing::{Drawn, Frame};
use crc_window::palette::Pick;
use crc_window::panes::pane_count;
use crc_window::places::FilePlace;
use crc_window::project_search::hit_at;
use crc_window::references::Reference;
use crc_window::ignore::{ignore_preview, previewed, rows_below};
use crc_window::render::{Diagnostic, Draw, FrameFacts, Paint, PreviewSync, Severity};
use crc_window::servers::Launch;
use crc_window::replacing::FileMatches;
use crc_window::save::{Conflict, Saving, Written};
use crc_window::session::{Leaving, Session};
use crc_window::settings::{Settings, Zoom};
use crc_window::sidebar::{SidebarAction, SidebarEditKind, TreeDrag, TreeEntry};
use crc_window::state::{
    Answer, Assistant, EditorView, Effect, Focus, LayoutKey, Position, Server, TabHit, Target,
    Task, ThemeChoice, WordWrap,
};
use crc_window::tabs::Discard;
use crc_window::trash::Trash;

const NONE: Modifiers = Modifiers {
    command: false,
    shift: false,
    option: false,
    control: false,
};

const COMMAND: Modifiers = Modifiers {
    command: true,
    shift: false,
    option: false,
    control: false,
};

fn start() -> Start {
    Start {
        session: Session {
            folder: None,
            files: Vec::new(),
            active: 0,
            sidebar: true,
            sidebar_width: 24_000,
            frame: None,
            recent: Vec::new(),
        },
        opened: Vec::new(),
        recovered: Vec::new(),
        settings: Settings {
            font: "Menlo".to_string(),
            font_size: 1_300,
            theme: ThemeChoice::System,
            caret_blink: true,
            update_check: true,
            format_on_save: false,
            word_wrap: WordWrap::Auto,
            ssh_auth_sock: None,
        },
        rows: Vec::new(),
        root_key: None,
        resolved: Vec::new(),
        recent_limit: 10,
        repository: None,
        branch: String::new(),
        git_busy: false,
        assistant: Assistant {
            product: "Assistant Code".to_string(),
            name: "Assistant".to_string(),
            command: "assistant".to_string(),
        },
        testing: false,
        system_dark: true,
        check_due: false,
        terminal_height: 26_000,
    }
}

fn view() -> EditorView {
    let mut view = run(Buffer::new(1), None, "Menlo", 1_300, start(), 0);
    view.effects.clear();
    view
}

fn doc(id: u64, place: &str, text: &str) -> Buffer {
    let mut b = Buffer::new(id);
    b.path = Some(place.to_string());
    b.text = text.as_bytes().to_vec();
    b
}

fn open(view: &mut EditorView, id: u64, place: &str, text: &str) {
    assert!(view.load_path(
        place,
        place,
        None,
        Opened::File(doc(id, place, text)),
        "512 MB",
        0
    ));
    view.effects.clear();
}

fn done(view: &mut EditorView) -> String {
    let text = format!("{:?}", view.effects);
    view.effects.clear();
    text
}

fn note(view: &EditorView) -> &str {
    view.state
        .status
        .message
        .as_ref()
        .map_or("", |note| note.text.as_str())
}

fn key(code: u16, flags: Modifiers, bare: Option<char>) -> KeyEvent {
    KeyEvent { code, flags, bare }
}

fn row(path: &str, is_dir: bool) -> TreeEntry {
    TreeEntry {
        path: path.to_string(),
        name: path.rsplit('/').next().unwrap_or("").to_string(),
        is_dir,
        expanded: false,
        depth: 0,
    }
}

fn place(path: &str) -> FilePlace {
    FilePlace {
        path: path.to_string(),
        same: Vec::new(),
    }
}

fn edit(start: usize, end: usize) -> Edit {
    Edit {
        start,
        end,
        with: Vec::new(),
    }
}

#[test]
fn a_window_on_nothing_is_the_home_screen() {
    let view = run(Buffer::new(1), None, "Menlo", 1_300, start(), 5);
    assert!(view.state.pane.docs.is_home());
    assert!(!view.state.quit.ephemeral);
    assert!(view.state.look.dark);
    assert_eq!(view.state.status.update, None);
    assert_eq!(
        format!("{:?}", view.effects),
        "[SyncNativePreview, Draw, WatchProject, ForceAppearance(System), Run(LspSyncOpen), \
         SyncTitle, Run(Reparse)]"
    );
}

#[test]
fn a_window_on_a_file_is_a_passing_one() {
    let view = run(
        doc(1, "/p/src/main.rs", "fn main() {}"),
        None,
        "Menlo",
        1_300,
        start(),
        5,
    );
    assert!(view.state.quit.ephemeral);
    assert_eq!(view.state.side.tree.root.as_deref(), Some("/p/src"));
    assert_eq!(view.state.pane.docs.list.len(), 1);
    assert!(matches!(&view.effects[0], Effect::StartIndex(root) if root == "/p/src"));
    assert!(matches!(
        view.effects.last(),
        Some(Effect::ResumeDisplayLink)
    ));
}

#[test]
fn a_restored_session_keeps_its_tabs() {
    let mut start = start();
    start.session.folder = Some("/p".to_string());
    start.session.files = vec!["/p/a".to_string(), "/p/b".to_string()];
    start.session.active = 0;
    start.opened = vec![doc(2, "/p/a", "a"), doc(3, "/p/b", "b")];
    let mut lost = doc(4, "/p/b", "better");
    lost.dirty = true;
    start.recovered = vec![lost];
    let view = run(Buffer::new(1), None, "Menlo", 1_300, start, 5);
    let docs = &view.state.pane.docs;
    assert_eq!(docs.list.len(), 2);
    assert_eq!(docs.list[1].text, b"better".to_vec());
    assert!(docs.list[1].dirty);
    assert_eq!(view.state.side.tree.root.as_deref(), Some("/p"));
    assert_eq!(
        format!("{:?}", &view.effects[..3]),
        "[StartIndex(\"/p\"), RevealInTree(\"/p/a\"), PublishRecovery]"
    );
}

#[test]
fn an_update_is_looked_for_when_it_is_due() {
    let mut due = start();
    due.check_due = true;
    let view = run(Buffer::new(1), None, "Menlo", 1_300, due, 5);
    assert_eq!(view.state.status.update, Some(false));
    let mut scripted = start();
    scripted.check_due = true;
    scripted.testing = true;
    let view = run(Buffer::new(1), None, "Menlo", 1_300, scripted, 5);
    assert_eq!(view.state.status.update, None);
}

#[test]
fn an_opened_file_says_what_saving_will_run_into() {
    let mut v = view();
    assert!(v.load_path(
        "/p/a.txt",
        "/p/a.txt",
        Some("/p".to_string()),
        Opened::File(doc(2, "/p/a.txt", "a")),
        "512 MB",
        7
    ));
    assert_eq!(note(&v), "opened /p/a.txt");
    assert_eq!(v.state.side.tree.root.as_deref(), Some("/p"));
    assert_eq!(
        done(&mut v),
        "[NewGitPanel(\"/p\"), StartIndex(\"/p\"), WatchProject, ResumeDisplayLink, Run(LspSyncOpen)]"
    );
    let mut big = doc(3, "/p/big", "b");
    big.read_only = true;
    v.load_path("/p/big", "/p/big", None, Opened::File(big), "512 MB", 8);
    assert_eq!(note(&v), "opened /p/big read-only: it is over 512 MB");
    let mut odd = doc(4, "/p/odd", "o");
    odd.windows_1252 = true;
    v.load_path("/p/odd", "/p/odd", None, Opened::File(odd), "512 MB", 8);
    assert_eq!(
        note(&v),
        "opened /p/odd as Windows-1252; unsupported characters cannot be saved"
    );
    let mut mixed = doc(5, "/p/mixed", "m");
    mixed.mixed_endings = true;
    v.load_path("/p/mixed", "/p/mixed", None, Opened::File(mixed), "512 MB", 8);
    assert_eq!(note(&v), "opened /p/mixed with mixed line endings");
    assert_eq!(v.state.pane.docs.list.len(), 4);
}

#[test]
fn a_file_that_does_not_open_says_why() {
    let mut v = view();
    v.load_path(
        "/p/x",
        "/p/x",
        None,
        Opened::Failed("no such file".to_string()),
        "512 MB",
        1,
    );
    assert_eq!(note(&v), "open failed: no such file");
    v.effects.clear();
    v.load_path(
        "/p/x",
        "/p/x",
        None,
        Opened::TooLarge("3 GB".to_string()),
        "512 MB",
        1,
    );
    assert_eq!(note(&v), "not opened: 3 GB");
    assert_eq!(done(&mut v), "[TooLarge(\"3 GB\")]");
    v.ivars.testing = true;
    v.load_path(
        "/p/x",
        "/p/x",
        None,
        Opened::TooLarge("3 GB".to_string()),
        "512 MB",
        1,
    );
    assert_eq!(done(&mut v), "[]");
    v.load_path("/p", "/p", None, Opened::Folder, "512 MB", 1);
    assert_eq!(done(&mut v), "[LoadFolder(\"/p\")]");
}

#[test]
fn a_file_opens_once() {
    let mut v = view();
    open(&mut v, 2, "/p/a", "a");
    open(&mut v, 3, "/p/b", "b");
    open(&mut v, 4, "/p/a", "other");
    assert_eq!(v.state.pane.docs.list.len(), 2);
    assert_eq!(v.state.pane.docs.active, 0);
    assert_eq!(v.state.pane.docs.list[0].id, 2);
    v.split_pane(9, 10);
    open(&mut v, 5, "/p/c", "c");
    assert_eq!(v.state.focused_pane, 1);
    open(&mut v, 6, "/p/b", "again");
    assert_eq!(v.state.focused_pane, 0);
    assert_eq!(v.state.pane.docs.list.len(), 2);
    assert_eq!(v.state.pane.docs.list[v.state.pane.docs.active].id, 3);
}

#[test]
fn there_are_four_panes_at_most() {
    let mut v = view();
    open(&mut v, 2, "/p/a", "a");
    for n in 0..5 {
        v.split_pane(10 + n, 0);
    }
    assert_eq!(pane_count(&v.state), 4);
    assert_eq!(note(&v), "four panes is the limit");
    let before = v.state.focused_pane;
    v.action_focus_step(true, 0);
    v.action_focus_step(false, 0);
    assert_eq!(v.state.focused_pane, before);
}

#[test]
fn a_changed_tab_is_asked_about() {
    let mut v = view();
    open(&mut v, 2, "/p/a", "a");
    open(&mut v, 3, "/p/b", "b");
    v.state.pane.docs.list[0].dirty = true;
    assert!(v.close_tab(0, Buffer::new(8), 0));
    assert_eq!(done(&mut v), "[SyncTitle, AskAboutChanges]");
    assert_eq!(v.state.pane.docs.list.len(), 2);
    assert_eq!(v.state.pane.docs.active, 0);
    v.close_answered(0, Discard::Cancel, Buffer::new(8), 0);
    assert_eq!(v.state.pane.docs.list.len(), 2);
    v.close_answered(0, Discard::Dropped, Buffer::new(8), 0);
    assert_eq!(v.state.pane.docs.list.len(), 1);
    assert_eq!(v.state.pane.docs.list[0].id, 3);
    assert!(!v.close_tab(0, Buffer::new(8), 0));
    assert!(v.state.pane.docs.is_home());
}

#[test]
fn nobody_quits_over_unsaved_work() {
    let mut v = view();
    open(&mut v, 2, "/p/a", "a");
    v.state.pane.docs.list[0].dirty = true;
    assert!(matches!(v.confirm_discard_all(0), Leaving::Asking(_)));
    let stay = v.leaving_answered(0, 0, Discard::Cancel, Buffer::new(8), 0);
    assert!(matches!(stay, Leaving::Stay));
    assert_eq!(v.state.pane.docs.list.len(), 1);
    v.state.pane.docs.list[0].dirty = false;
    assert!(matches!(v.confirm_discard_all(0), Leaving::Go));
    let session = v.should_terminate().expect("a session is written");
    assert_eq!(session.files, vec!["/p/a".to_string()]);
    let mut passing = run(doc(1, "/p/a", ""), None, "Menlo", 1_300, start(), 0);
    assert!(matches!(passing.confirm_discard_all(0), Leaving::Go));
    assert!(passing.should_terminate().is_none());
}

#[test]
fn closing_asks_in_order_from_the_back() {
    let mut v = view();
    for n in 0..4 {
        open(&mut v, 2 + n, &format!("/p/{n}"), "x");
    }
    v.state.tab_bar.context = Some(1);
    assert_eq!(v.action_close_other_tabs(), Some(vec![3, 2, 0]));
    assert_eq!(v.action_close_all_tabs(), vec![3, 2, 1, 0]);
    v.state.tab_bar.context = None;
    assert_eq!(v.action_close_other_tabs(), None);
    assert!(!v.action_close_context_tab(Buffer::new(9), 0));
    assert_eq!(v.state.pane.docs.list.len(), 4);
    assert!(matches!(
        v.action_close_tab(Buffer::new(9), 0),
        Closing::Tab(false)
    ));
    assert_eq!(v.state.pane.docs.list.len(), 3);
}

#[test]
fn tabs_cycle_both_ways() {
    let mut v = view();
    open(&mut v, 2, "/p/a", "a");
    open(&mut v, 3, "/p/b", "b");
    v.action_cycle_tab(true, 0);
    assert_eq!(v.state.pane.docs.active, 0);
    v.action_cycle_tab(false, 0);
    assert_eq!(v.state.pane.docs.active, 1);
    v.state.tab_bar.context = Some(0);
    v.move_context_tab(true, 0);
    assert_eq!(v.state.pane.docs.list[1].id, 2);
    assert_eq!(v.state.tab_bar.context, Some(1));
}

#[test]
fn keys_go_where_they_belong() {
    let mut v = view();
    open(&mut v, 2, "/p/a", "a");
    let route = |v: &EditorView, event: KeyEvent| key_route(&v.state, &event);
    assert_eq!(
        route(&v, key(keys::LEFT, NONE, None)),
        Route::Document(EditOp::Left(Motion::Move))
    );
    let shift = Modifiers {
        shift: true,
        ..NONE
    };
    assert_eq!(
        route(&v, key(keys::LEFT, shift, None)),
        Route::Document(EditOp::Left(Motion::Extend))
    );
    assert_eq!(
        route(&v, key(keys::LEFT, COMMAND, None)),
        Route::Document(EditOp::LineStart(Motion::Move))
    );
    let option = Modifiers {
        option: true,
        ..NONE
    };
    assert_eq!(
        route(&v, key(keys::DELETE, option, None)),
        Route::Document(EditOp::DeleteWordBackward)
    );
    let control = Modifiers {
        control: true,
        ..NONE
    };
    assert_eq!(
        route(&v, key(0, control, Some('k'))),
        Route::Document(EditOp::DeleteToLineEnd)
    );
    assert_eq!(
        route(&v, key(keys::GRAVE, control, Some('`'))),
        Route::ToggleTerminal
    );
    assert_eq!(
        route(&v, key(keys::SPACE, control, Some(' '))),
        Route::RequestCompletion
    );
    assert_eq!(route(&v, key(keys::F12, NONE, None)), Route::GotoDefinition);
    assert_eq!(route(&v, key(keys::F12, shift, None)), Route::FindReferences);
    assert_eq!(route(&v, key(keys::F2, NONE, None)), Route::StartRename);
    assert_eq!(route(&v, key(keys::F1, NONE, None)), Route::ShowHover);
    assert_eq!(route(&v, key(18, COMMAND, Some('3'))), Route::Tab(2));
    assert_eq!(route(&v, key(0, NONE, Some('a'))), Route::Text);
    assert_eq!(
        route(&v, key(keys::ESCAPE, NONE, None)),
        Route::CollapseCursors
    );
    v.open_palette(0);
    assert_eq!(route(&v, key(0, NONE, Some('a'))), Route::Palette);
    assert_eq!(route(&v, key(keys::F12, NONE, None)), Route::Palette);
    v.close_palette(0);
    v.open_goto(0);
    assert_eq!(route(&v, key(0, NONE, Some('4'))), Route::Goto);
}

#[test]
fn a_search_without_a_match_quotes_the_query() {
    let mut v = view();
    open(&mut v, 2, "/p/a", "one two one");
    v.open_find(0);
    if let Some(bar) = &mut v.state.fields.find {
        bar.query.text = "a\"b".to_string();
    }
    v.effects.clear();
    v.find_step(true, &Ok(Vec::new()), 3);
    assert_eq!(note(&v), "no match for \"a\\\"b\"");
    v.find_step(true, &Err("unclosed group".to_string()), 3);
    assert_eq!(note(&v), "invalid regex: unclosed group");
    let found = Ok(vec![edit(0, 3), edit(8, 11)]);
    v.find_step(true, &found, 3);
    let front = &v.state.pane.docs.list[0];
    assert_eq!((front.anchor, front.cursor), (0, 3));
    v.find_step(true, &found, 3);
    let front = &v.state.pane.docs.list[0];
    assert_eq!((front.anchor, front.cursor), (8, 11));
    v.find_step(false, &found, 3);
    assert_eq!(v.state.pane.docs.list[0].anchor, 0);
}

#[test]
fn replacing_all_counts() {
    let mut v = view();
    open(&mut v, 2, "/p/a", "one two one");
    v.open_find(0);
    if let Some(bar) = &mut v.state.fields.find {
        bar.query.text = "one".to_string();
    }
    let found = Ok(vec![
        Edit {
            start: 0,
            end: 3,
            with: b"1".to_vec(),
        },
        Edit {
            start: 8,
            end: 11,
            with: b"1".to_vec(),
        },
    ]);
    v.replace_all(&found, 0);
    assert_eq!(v.state.pane.docs.list[0].text, b"1 two 1".to_vec());
    assert_eq!(note(&v), "replaced 2 occurrences");
}

#[test]
fn the_palette_takes_the_chosen_row() {
    let mut v = view();
    open(&mut v, 2, "/p/a", "a");
    v.open_palette(0);
    v.effects.clear();
    let picks = || {
        vec![
            Pick::File("/p/b".to_string()),
            Pick::Command("undo:".to_string()),
        ]
    };
    assert!(v.handle_palette_key(&key(keys::DOWN, NONE, None), picks(), 8, 0));
    assert_eq!(v.state.fields.palette.as_ref().map(|p| p.selected), Some(1));
    v.effects.clear();
    assert!(v.handle_palette_key(&key(keys::RETURN, NONE, None), picks(), 8, 0));
    assert!(v.state.fields.palette.is_none());
    assert!(v
        .effects
        .iter()
        .any(|e| matches!(e, Effect::RunCommand(a) if a == "undo:")));
    v.open_palette(0);
    assert!(v.handle_palette_key(&key(keys::ESCAPE, NONE, None), picks(), 8, 0));
    assert!(v.state.fields.palette.is_none());
}

#[test]
fn a_find_field_takes_one_pasted_line() {
    let mut v = view();
    open(&mut v, 2, "/p/a", "a");
    v.paste_in_find(Some("x".to_string()), 0);
    v.open_find(0);
    v.effects.clear();
    assert!(v.handle_find_key(&key(9, COMMAND, Some('v')), 0));
    assert!(matches!(v.effects[0], Effect::PasteInFind));
    v.effects.clear();
    v.paste_in_find(Some("one\u{8}\ntwo".to_string()), 0);
    assert!(matches!(&v.effects[0], Effect::Insert(Target::FindQuery, put) if put == "one"));
    assert!(matches!(v.effects[1], Effect::Run(Task::RefreshFind)));
    v.effects.clear();
    v.paste_in_find(None, 0);
    assert!(v.effects.is_empty());
}

#[test]
fn a_closed_field_passes_its_keys_on() {
    let mut v = view();
    open(&mut v, 2, "/p/a", "a");
    v.effects.clear();
    let picks = || vec![Pick::File("/p/b".to_string())];
    assert!(!v.handle_palette_key(&key(keys::RETURN, NONE, None), picks(), 8, 0));
    assert!(!v.handle_palette_key(&key(keys::LEFT, NONE, None), picks(), 8, 0));
    assert!(!v.handle_find_key(&key(keys::LEFT, NONE, None), 0));
    assert!(!v.handle_completion_key(&key(keys::TAB, NONE, None), 0));
    assert!(v.effects.is_empty());
    assert!(v.handle_find_key(&key(keys::RETURN, NONE, None), 0));
    assert!(matches!(v.effects[0], Effect::Run(Task::FindStep(true))));
    assert!(v.handle_completion_key(&key(keys::ESCAPE, NONE, None), 0));
    assert!(v.handle_palette_key(&key(keys::DOWN, NONE, None), picks(), 8, 0));
    assert!(v.state.fields.palette.is_none());
}

#[test]
fn saving_asks_where_and_over_what() {
    let mut v = view();
    v.save(false);
    assert_eq!(done(&mut v), "[ShowSavePanel(\"Untitled.txt\")]");
    assert_eq!(v.save_chosen(None), Saving::NotSaved);
    assert_eq!(v.save_chosen(Some("/p/a".to_string())), Saving::Waiting);
    assert_eq!(done(&mut v), "[WriteActive(Some(\"/p/a\"), false)]");
    open(&mut v, 2, "/p/a", "a");
    v.save(false);
    assert_eq!(done(&mut v), "[WriteActive(None, false)]");
    v.save(true);
    assert_eq!(done(&mut v), "[ShowSavePanel(\"a\")]");
    let saving = v.save_written(Written::Failed("disk full".to_string()), false, false, 0);
    assert_eq!(saving, Saving::NotSaved);
    assert_eq!(note(&v), "save failed: disk full");
    v.effects.clear();
    let saving = v.save_written(Written::Changed("changed".to_string()), false, false, 0);
    assert_eq!(saving, Saving::Waiting);
    assert_eq!(done(&mut v), "[AskAboutConflict(false)]");
    assert_eq!(
        v.conflict_answered(Conflict::Overwrite, 0),
        Saving::Waiting
    );
    assert_eq!(done(&mut v), "[WriteActive(None, true)]");
    assert_eq!(v.conflict_answered(Conflict::Cancel, 0), Saving::NotSaved);
    assert_eq!(note(&v), "not saved");
    let saving = v.save_written(Written::Done(doc(2, "/p/a", "a")), false, false, 0);
    assert_eq!(saving, Saving::Saved);
    assert_eq!(note(&v), "saved /p/a");
}

#[test]
fn the_disk_is_followed_by_clean_tabs_only() {
    let mut v = view();
    open(&mut v, 2, "/p/a", "a");
    let changed = |id: u64| {
        vec![DiskReport {
            id,
            found: DiskState::Changed(Some(b"new".to_vec())),
        }]
    };
    v.check_open_files(&changed(2), 1);
    assert_eq!(v.state.pane.docs.list[0].text, b"new".to_vec());
    assert_eq!(note(&v), "a changed on disk, reloaded");
    v.state.pane.docs.list[0].text = b"mine".to_vec();
    v.state.pane.docs.list[0].dirty = true;
    v.check_open_files(&changed(2), 2);
    assert_eq!(v.state.pane.docs.list[0].text, b"mine".to_vec());
    assert_eq!(
        note(&v),
        "a changed on disk; you have unsaved changes, Save will ask"
    );
    v.state.status.message = None;
    v.check_open_files(&changed(2), 3);
    assert_eq!(note(&v), "");
    v.state.pane.docs.list[0].dirty = false;
    v.state.pane.docs.list[0].conflict_noticed = false;
    let gone = vec![DiskReport {
        id: 2,
        found: DiskState::Missing,
    }];
    v.check_open_files(&gone, 4);
    assert!(v.state.pane.docs.list[0].dirty);
    assert_eq!(v.state.pane.docs.list[0].text, b"mine".to_vec());
    assert_eq!(note(&v), "a was deleted on disk");
}

#[test]
fn folding_hides_and_unfolding_shows() {
    let mut v = view();
    open(&mut v, 2, "/p/a", "a\n  b\n  c\nd\n");
    let blocks = vec![Block { head: 0, last: 2 }];
    v.fold_command(FoldCommand::Fold, &blocks, 0);
    assert_eq!(v.state.pane.docs.list[0].folds, vec![0]);
    v.fold_command(FoldCommand::Unfold, &blocks, 0);
    assert!(v.state.pane.docs.list[0].folds.is_empty());
    v.fold_command(FoldCommand::Unfold, &blocks, 0);
    assert_eq!(note(&v), "nothing to fold here");
    v.fold_command(FoldCommand::FoldAll, &blocks, 0);
    assert_eq!(v.state.pane.docs.list[0].folds, vec![0]);
    v.action_unfold_all(0);
    assert!(v.state.pane.docs.list[0].folds.is_empty());
    assert_eq!(
        v.state.pane.docs.list[0].text,
        b"a\n  b\n  c\nd\n".to_vec()
    );
}

#[test]
fn wrapping_twice_is_back() {
    let mut v = view();
    open(&mut v, 2, "/p/a.rs", "a");
    let cols = Columns { wide: 80, least: 10 };
    v.toggle_word_wrap(cols, 0);
    assert_eq!(v.state.pane.docs.list[0].wrap, Some(79));
    v.toggle_word_wrap(cols, 0);
    assert_eq!(v.state.pane.docs.list[0].wrap, None);
    v.toggle_word_wrap(Columns { wide: 4, least: 10 }, 0);
    assert_eq!(v.state.pane.docs.list[0].wrap, Some(10));
}

#[test]
fn the_code_zooms_within_bounds() {
    let mut v = view();
    let size = v.action_zoom(Zoom::In, 1_300);
    assert_eq!(size, 1_400);
    let saved = v.set_font_size(size, 800, 3_200).expect("another size");
    assert_eq!(saved.font_size, 1_400);
    assert_eq!(v.state.look.size, 1_400);
    assert_eq!(v.action_zoom(Zoom::Out, 1_300), 1_300);
    assert_eq!(v.action_zoom(Zoom::Actual, 1_300), 1_300);
    assert!(v.set_font_size(9_000, 800, 1_400).is_none());
}

#[test]
fn the_theme_follows_only_when_told_to() {
    let mut v = view();
    v.appearance_changed(false);
    assert!(!v.state.look.dark);
    v.state.look.theme = ThemeChoice::Dark;
    v.apply_theme(false);
    assert!(v.state.look.dark);
    v.appearance_changed(false);
    assert!(v.state.look.dark);
}

#[test]
fn a_new_name_is_checked() {
    let mut v = view();
    v.state.side.tree.root = Some("/p".to_string());
    v.state.side.tree.rows = vec![row("/p/a.rs", false)];
    v.start_sidebar_edit(SidebarEditKind::NewFile, Some(20), 0);
    assert!(v.state.fields.sidebar_edit.is_some());
    if let Some(edit) = &mut v.state.fields.sidebar_edit {
        edit.field.text = "../x".to_string();
    }
    assert!(matches!(
        v.finish_sidebar_edit(true, 0),
        SidebarAction::Nothing
    ));
    assert_eq!(note(&v), "not a valid name: ../x");
    v.start_sidebar_edit(SidebarEditKind::NewFile, Some(20), 0);
    if let Some(edit) = &mut v.state.fields.sidebar_edit {
        edit.field.text = "b.rs".to_string();
    }
    assert!(matches!(
        v.finish_sidebar_edit(true, 0),
        SidebarAction::CreateFile { target, .. } if target == "/p/b.rs"
    ));
    assert!(v.state.fields.sidebar_edit.is_none());
}

#[test]
fn a_move_keeps_the_tab_on_its_file() {
    let mut v = view();
    v.state.side.tree.root = Some("/p".to_string());
    v.state.side.tree.rows = vec![row("/p/docs", true), row("/p/a.rs", false)];
    open(&mut v, 2, "/p/a.rs", "a");
    let drag = TreeDrag {
        path: "/p/a.rs".to_string(),
        origin_x: 0,
        origin_y: 0,
        active: true,
        over: Some(0),
        valid: true,
    };
    assert!(matches!(
        v.drop_tree_item(&drag, "/p/a.rs", 0),
        crc_window::moves::Drop::Move { to, .. } if to == "/p/docs/a.rs"
    ));
    v.item_dropped("/p/a.rs", "/p/docs/a.rs", "a.rs", "docs", &Ok(()), 0);
    assert_eq!(
        v.state.pane.docs.list[0].path.as_deref(),
        Some("/p/docs/a.rs")
    );
    v.state.pane.docs.list[0].dirty = true;
    let drag = TreeDrag {
        path: "/p/docs".to_string(),
        over: None,
        ..drag
    };
    assert!(matches!(
        v.drop_tree_item(&drag, "/p/docs", 0),
        crc_window::moves::Drop::Unsaved
    ));
    assert_eq!(note(&v), "save the affected tabs before moving this item");
}

#[test]
fn unsaved_work_is_not_thrown_away() {
    let mut v = view();
    v.state.side.tree.root = Some("/p".to_string());
    v.state.side.tree.rows = vec![row("/p/a.rs", false)];
    assert!(matches!(
        v.action_trash_project_item("/p/a.rs"),
        Trash::Nothing
    ));
    v.state.side.tree.selected = Some(0);
    open(&mut v, 2, "/p/a.rs", "a");
    v.state.pane.docs.list[0].dirty = true;
    assert!(matches!(
        v.action_trash_project_item("/p/a.rs"),
        Trash::Blocked(_)
    ));
    v.state.pane.docs.list[0].dirty = false;
    match v.action_trash_project_item("/p/a.rs") {
        Trash::Ask(question, place) => {
            assert_eq!(question.message, "Move \u{201c}a.rs\u{201d} to Trash?");
            assert_eq!(place, "/p/a.rs");
        }
        _ => panic!("it asks"),
    }
    v.item_trashed("/p/a.rs", "a.rs", Err("busy".to_string()), 9, 0);
    assert_eq!(note(&v), "could not move to Trash: busy");
    assert_eq!(v.state.pane.docs.list.len(), 1);
    v.item_trashed("/p/a.rs", "a.rs", Ok(()), 9, 0);
    assert!(v.state.pane.docs.is_home());
}

#[test]
fn the_terminal_comes_and_goes() {
    let mut v = view();
    v.toggle_terminal(0);
    assert!(v.state.terminal.open && v.state.terminal.focus);
    v.terminal_spawned(false, "/bin/zsh", None, 0);
    assert_eq!(v.state.terminal.tabs.len(), 1);
    assert!(v.terminal_has_keys());
    v.toggle_terminal(0);
    assert!(!v.state.terminal.open);
    assert_eq!(v.state.terminal.tabs.len(), 1);
    v.toggle_terminal(0);
    v.open_palette(0);
    assert!(!v.terminal_has_keys());
    v.close_palette(0);
    v.close_session(0, 0);
    assert!(!v.state.terminal.open);
}

fn bridged() -> EditorView {
    let mut v = view();
    v.state.side.tree.root = Some("/p".to_string());
    open(&mut v, 2, "/p/a.rs", "one\ntwo\n");
    v.claude_after_frame(false, 0);
    v.bridge_started("/p".to_string(), Ok(4_711), 0);
    v.effects.clear();
    v
}

fn proposal(name: &str) -> Proposal {
    Proposal {
        tab_name: name.to_string(),
        path: "/p/a.rs".to_string(),
        contents: b"three\n".to_vec(),
        old_path: "/p/a.rs".to_string(),
        unreadable: None,
    }
}

#[test]
fn a_proposed_edit_is_a_tab_of_its_own() {
    let mut v = bridged();
    assert!(v.state.claude.bridge.is_some());
    assert!(v.open_diff(proposal("first"), 50, 0).is_ok());
    assert_eq!(v.state.pane.docs.list.len(), 2);
    assert_eq!(
        key_route(&v.state, &key(keys::RETURN, COMMAND, None)),
        Route::Review
    );
    assert_eq!(
        key_route(&v.state, &key(0, NONE, Some('x'))),
        Route::Review
    );
    assert_eq!(v.all_reviews(), vec![50]);
    v.effects.clear();
    v.claude_decide(true, 0);
    assert!(v
        .effects
        .iter()
        .any(|e| matches!(e, Effect::DecideReview(50, true))));
    assert_eq!(v.close_diff("nobody", Buffer::new(60), 0), (false, false));
}

#[test]
fn closing_a_review_is_answering_it() {
    let mut v = bridged();
    assert!(v.open_diff(proposal("first"), 50, 0).is_ok());
    assert!(v.open_diff(proposal("second"), 51, 0).is_ok());
    v.effects.clear();
    let (closed, asking) = v.close_all_diffs(vec![Buffer::new(60), Buffer::new(61)], 0);
    assert_eq!(closed, 2);
    assert_eq!(asking, vec![false, false]);
    assert!(v.all_reviews().is_empty());
    assert!(v
        .effects
        .iter()
        .any(|e| matches!(e, Effect::DecideReview(50, false))));
    assert!(v
        .effects
        .iter()
        .any(|e| matches!(e, Effect::DecideReview(51, false))));
    assert_eq!(v.state.pane.docs.list.len(), 1);
    let mut off = view();
    assert!(matches!(off.open_diff(proposal("x"), 5, 0), Err(e) if e == "not connected"));
}

#[test]
fn the_assistant_opens_and_selects() {
    let mut v = bridged();
    let opened = v.open_for_assistant(
        "/p/b.rs",
        "/p/b.rs",
        None,
        Opened::File(doc(3, "/p/b.rs", "let a = b;")),
        "512 MB",
        &b"a".to_vec(),
        &b"b".to_vec(),
        0,
    );
    assert!(opened.is_ok());
    let front = &v.state.pane.docs.list[v.state.pane.docs.active];
    assert_eq!((front.anchor, front.cursor), (4, 9));
    let refused = v.open_for_assistant(
        "/p",
        "/p",
        None,
        Opened::Folder,
        "512 MB",
        &Vec::new(),
        &Vec::new(),
        0,
    );
    assert_eq!(refused, Err("cannot open /p".to_string()));
    assert_eq!(v.document_state(&place("/p/b.rs")), Some((false, false)));
    assert_eq!(v.document_state(&place("/p/zz")), None);
    assert_eq!(v.workspace_folders(), vec!["/p".to_string()]);
    assert_eq!(v.open_editors().len(), 2);
}

#[test]
fn an_update_is_announced() {
    let mut v = view();
    v.state.status.update = Some(false);
    v.poll_update(
        Answer::Came(Ok(Some(Release {
            version: "0.3.0".to_string(),
            url: "https://example.org/crc".to_string(),
        }))),
        "0.2.0",
        0,
    );
    assert_eq!(
        note(&v),
        "crc 0.3.0 is out: Help > Check for Updates opens its page"
    );
    v.state.status.update = Some(true);
    v.poll_update(Answer::Came(Ok(None)), "0.2.0", 0);
    assert_eq!(note(&v), "crc 0.2.0 is the latest release");
    v.state.status.update = Some(true);
    v.poll_update(Answer::Came(Err("offline".to_string())), "0.2.0", 0);
    assert_eq!(note(&v), "could not check for updates: offline");
    v.state.status.message = None;
    v.state.status.update = Some(false);
    v.poll_update(Answer::Came(Err("offline".to_string())), "0.2.0", 0);
    assert_eq!(note(&v), "");
}

#[test]
fn menu_items_grey_out() {
    let mut v = view();
    let facts = MenuFacts {
        can_undo: false,
        can_redo: false,
        disk_changed: false,
        clipboard: true,
    };
    assert!(!v.validate_menu_item(Action::Undo, facts));
    assert!(v.validate_menu_item(Action::Paste, facts));
    assert!(!v.validate_menu_item(Action::Copy, facts));
    assert!(!v.validate_menu_item(Action::ClosePane, facts));
    assert!(!v.validate_menu_item(Action::TrashProjectItem, facts));
    open(&mut v, 2, "/p/a", "abc");
    v.state.pane.docs.list[0].cursor = 2;
    assert!(v.validate_menu_item(Action::Copy, facts));
    assert!(!v.validate_menu_item(Action::SaveDocument, facts));
    v.state.side.tree.rows = vec![row("/p/a", false)];
    v.state.side.tree.selected = Some(0);
    v.state.side.keys = true;
    assert!(v.validate_menu_item(Action::TrashProjectItem, facts));
    v.open_goto(0);
    assert!(!v.validate_menu_item(Action::TrashProjectItem, facts));
}

#[test]
fn the_line_field_takes_digits() {
    let mut v = view();
    open(&mut v, 2, "/p/a", "one\ntwo\nthree\n");
    v.open_goto(0);
    v.effects.clear();
    assert_eq!(v.commit_text("3x".to_string(), None), Focus::Goto);
    assert!(v
        .effects
        .iter()
        .any(|e| matches!(e, Effect::Insert(_, text) if text == "3")));
}

#[test]
fn text_being_composed_is_counted_as_the_input_system_does() {
    let mut v = view();
    open(&mut v, 2, "/p/a", "");
    v.set_marked_text("a\u{1f600}".to_string(), 0);
    assert!(v.has_marked_text());
    assert_eq!(v.marked_range(4), Some((4, 3)));
    v.set_marked_text(String::new(), 0);
    assert!(!v.has_marked_text());
    assert_eq!(v.marked_range(4), None);
}

#[test]
fn the_frame_is_paced() {
    let mut v = view();
    v.show(100);
    assert_eq!(done(&mut v), "[SyncNativePreview, Draw]");
    v.state.frame.last_draw = Some(100);
    assert_eq!(v.state.frame.interval, 8_333);
    v.show(108);
    assert_eq!(done(&mut v), "[SyncNativePreview, ResumeDisplayLink]");
    v.show(109);
    assert_eq!(done(&mut v), "[SyncNativePreview, Draw]");
    v.ivars.handling_key = true;
    v.show(200);
    assert_eq!(done(&mut v), "[]");
    v.note_input(1);
    v.note_input(2);
    assert_eq!(v.state.frame.pending_input, Some(1));
}

#[test]
fn a_frame_is_drawn_from_back_to_front() {
    let mut v = view();
    open(&mut v, 2, "/p/a", "a");
    v.open_palette(0);
    let facts = FrameFacts {
        room: true,
        cols: Columns { wide: 80, least: 10 },
        key_window: true,
        caret_visible: true,
        blocks: 0,
        others: Vec::new(),
        found: vec![Severity::Warning],
        ignore_file: false,
        matched: None,
    };
    let plan = v.render(&facts, 0).expect("there is room");
    assert_eq!(plan.last(), Some(&Draw::Palette));
    let columns = plan
        .iter()
        .filter(|d| {
            matches!(
                d,
                Draw::Diff | Draw::Review | Draw::Home | Draw::Rendering(_) | Draw::Text(..)
            )
        })
        .count();
    assert_eq!(columns, 1);
}

#[test]
fn the_status_line_names_the_document() {
    let mut v = view();
    open(&mut v, 2, "/p/a", "a");
    v.state.status.message = None;
    assert_eq!(v.status_line(&Vec::new(), false, 0), "a   All changes saved");
    v.state.pane.docs.list[0].dirty = true;
    assert_eq!(v.status_line(&Vec::new(), false, 0), "a   Unsaved changes");
    let wrong = vec![Diagnostic {
        start_line: 0,
        end_line: 0,
        error: true,
        message: "expected one of".to_string(),
    }];
    assert!(!v.status_line(&wrong, false, 0).is_empty());
    v.say("hello".to_string(), 10);
    assert_eq!(v.status_line(&Vec::new(), false, 20), "hello");
}

#[test]
fn the_preview_follows_the_document() {
    let mut v = view();
    let mut picture = doc(2, "/p/a.png", "");
    picture.preview_file = true;
    v.load_path("/p/a.png", "/p/a.png", None, Opened::File(picture), "512 MB", 0);
    assert!(matches!(
        v.sync_native_preview(&None),
        PreviewSync::Replace(Some(p)) if p == "/p/a.png"
    ));
    assert!(matches!(
        v.sync_native_preview(&Some("/p/a.png".to_string())),
        PreviewSync::Stay
    ));
    open(&mut v, 3, "/p/b", "b");
    assert!(matches!(
        v.sync_native_preview(&Some("/p/a.png".to_string())),
        PreviewSync::Replace(None)
    ));
    v.effects.clear();
    v.resize(true, 0);
    assert_eq!(
        done(&mut v),
        "[BuildAtlas(\"Menlo\", 1300), SyncNativePreview, Draw]"
    );
}

#[test]
fn the_system_hands_over_documents() {
    let mut app = DelegateIvars { view: view() };
    assert!(app.should_terminate_after_close());
    assert!(app.open_file(
        "/p/a",
        "/p/a",
        None,
        Opened::File(doc(2, "/p/a", "a")),
        "512 MB",
        0
    ));
    assert_eq!(
        done(&mut app.view),
        "[Run(LspSyncOpen), SyncTitle, Run(Reparse), SyncNativePreview, Draw]"
    );
}

#[test]
fn a_scripted_run_opens_no_panels() {
    let mut v = view();
    assert!(v.open_folder(0));
    v.ivars.testing = true;
    assert!(!v.open_folder(0));
    assert_eq!(note(&v), "would show the Open Folder panel");
}

#[test]
fn a_server_is_asked_only_when_there_is_one() {
    let mut v = view();
    open(&mut v, 2, "/p/a.rs", "a");
    let at = Position {
        line: 0,
        character: 0,
    };
    v.find_references(at, 0);
    assert_eq!(note(&v), "no language server for this file");
    v.state.pane.docs.list[0].language = Some(Language { id: 1, server: 1 });
    v.state.servers.list.push(Server {
        key: 1,
        ready: true,
        known: vec!["/p/a.rs".to_string()],
        formats: true,
        triggers: Vec::new(),
        signature_triggers: Vec::new(),
    });
    v.effects.clear();
    v.find_references(at, 0);
    assert_eq!(note(&v), "finding references\u{2026}");
    assert!(v
        .effects
        .iter()
        .any(|e| matches!(e, Effect::References(p, _) if p == "/p/a.rs")));
}

#[test]
fn the_line_before_the_caret_is_what_is_completed() {
    let mut v = view();
    open(&mut v, 2, "/p/a", "one\n./sr\n");
    v.state.pane.docs.list[0].cursor = 8;
    v.state.pane.docs.list[0].anchor = 8;
    assert_eq!(v.text_before_caret(), b"./sr".to_vec());
}

#[test]
fn reverting_asks_first() {
    let mut v = view();
    v.revert_to_saved();
    assert_eq!(done(&mut v), "[]");
    open(&mut v, 2, "/p/a", "a");
    v.revert_to_saved();
    assert_eq!(done(&mut v), "[ReloadFromDisk(2)]");
    v.state.pane.docs.list[0].dirty = true;
    v.revert_to_saved();
    assert_eq!(done(&mut v), "[AskToRevert]");
    v.reverted(Ok(b"disk".to_vec()), 0);
    assert_eq!(note(&v), "reverted to the saved version");
    assert_eq!(v.state.pane.docs.list[0].text, b"disk".to_vec());
    v.reverted(Err("gone".to_string()), 0);
    assert_eq!(note(&v), "revert failed: gone");
    assert!(matches!(
        v.effects.last(),
        Some(Effect::SyncTitle)
    ));
    assert!(!v
        .effects
        .iter()
        .any(|e| matches!(e, Effect::Run(Task::ReplaceAll))));
}

#[test]
fn replacing_in_the_project_is_accounted_for() {
    let mut v = view();
    open(&mut v, 2, "/p/a.rs", "one one");
    open(&mut v, 3, "/q/link.rs", "two");
    v.open_find(0);
    assert!(v.replace_in_project(0).is_none());
    assert_eq!(
        note(&v),
        "search the project first; Replace All uses its results"
    );
    if let Some(bar) = &mut v.state.fields.find {
        bar.query.text = "one".to_string();
        bar.results = vec![hit_at("/p/a.rs", &b"one one".to_vec(), 0, 3)];
    }
    let plan = v.replace_in_project(0).expect("there is a result");
    assert_eq!(plan.files, vec!["/p/a.rs"]);
    assert_eq!(
        plan.question.map(|question| question.message),
        Some("Replace 1 match in 1 file?".to_string())
    );
    v.ivars.testing = true;
    let plan = v.replace_in_project(0).expect("there is a result");
    assert!(plan.question.is_none());
    v.ivars.testing = false;
    v.effects.clear();
    let with = |start: usize, end: usize| Edit {
        start,
        end,
        with: b"1".to_vec(),
    };
    let files = vec![
        FileMatches {
            place: place("/p/a.rs"),
            found: Some(vec![with(0, 3), with(4, 7)]),
            written: None,
        },
        FileMatches {
            place: FilePlace {
                path: "/p/b.rs".to_string(),
                same: vec![3],
            },
            found: Some(Vec::new()),
            written: None,
        },
        FileMatches {
            place: place("/p/c.rs"),
            found: None,
            written: Some(1),
        },
        FileMatches {
            place: place("/p/d.rs"),
            found: None,
            written: None,
        },
    ];
    v.replace_files(&files, 70);
    assert_eq!(
        note(&v),
        "replaced 3 in 2 files, 1 open and unsaved; could not edit d.rs"
    );
    assert_eq!(v.state.pane.docs.list[0].text, b"1 1".to_vec());
    assert!(v.state.pane.docs.list[0].dirty && !v.state.pane.docs.list[1].dirty);
    assert_eq!(v.state.servers.dirty.get(2), Some(&70));
    assert_eq!(v.state.servers.dirty.get(3), None);
    assert!(done(&mut v).starts_with("[RefreshGit, PokeIndexer, Run(Reparse), SyncTitle"));
}

#[test]
fn references_are_listed_in_the_find_bar() {
    let mut v = view();
    open(&mut v, 2, "/p/a.rs", "fn a() {}\n  a();\n");
    v.show_references(&Vec::new(), 3, 4, 5);
    assert_eq!(note(&v), "no references found");
    let at = |path: &str, start: usize, end: usize, text: Option<&str>| Reference {
        place: place(path),
        start,
        end,
        text: text.map(|text| text.as_bytes().to_vec()),
    };
    let references = vec![
        at("/p/a.rs", 12, 13, Some("stale")),
        at("/p/b.rs", 2, 3, Some("\ta\n")),
        at("/p/gone.rs", 0, 1, None),
    ];
    v.show_references(&references, 3, 4, 5);
    assert_eq!(note(&v), "2 references");
    let bar = v.state.fields.find.as_ref().expect("the bar is open");
    assert_eq!(bar.query.text, "a");
    assert!(bar.project && bar.options.case_sensitive && bar.options.whole_word);
    assert_eq!(bar.results.len(), 2);
    assert_eq!((bar.results[0].line, bar.results[0].start), (1, 12));
    assert_eq!(bar.results[0].snippet, "a();");
    assert_eq!((bar.results[1].line, bar.results[1].end), (0, 3));
    let unreadable = vec![at("/p/gone.rs", 0, 1, None)];
    v.show_references(&unreadable, 3, 4, 5);
    assert_eq!(note(&v), "0 references");
}

#[test]
fn the_assistant_saves_what_is_open() {
    let mut v = view();
    open(&mut v, 2, "/p/a.rs", "text");
    v.state.pane.docs.list[0].dirty = true;
    let saved = || doc(2, "/p/a.rs", "text");
    assert_eq!(
        v.save_for_assistant(&place("/p/zz"), Ok(saved()), 0),
        Ok(false)
    );
    assert_eq!(
        v.save_for_assistant(&place("/p/a.rs"), Err("read-only".to_string()), 0),
        Err("read-only".to_string())
    );
    assert!(v.effects.is_empty() && v.state.pane.docs.list[0].dirty);
    assert_eq!(
        v.save_for_assistant(&place("/p/a.rs"), Ok(saved()), 0),
        Ok(true)
    );
    assert!(!v.state.pane.docs.list[0].dirty);
    assert!(done(&mut v)
        .starts_with("[RefreshGit, Run(LspFlushChanges), DidSave(\"/p/a.rs\"), SyncTitle"));
}

#[test]
fn what_was_made_is_told() {
    let mut v = view();
    v.state.side.tree.root = Some("/p".to_string());
    v.file_made("a.rs", "/p/a.rs", "/p/a.rs", NewFile::Exists, 0);
    assert_eq!(note(&v), "a.rs already exists");
    v.file_made(
        "a.rs",
        "/p/a.rs",
        "/p/a.rs",
        NewFile::Failed("disk full".to_string()),
        0,
    );
    assert_eq!(note(&v), "could not create: disk full");
    v.effects.clear();
    let made = NewFile::Made(Some(doc(9, "/p/a.rs", "")));
    v.file_made("a.rs", "/p/a.rs", "/p/a.rs", made, 0);
    assert_eq!(note(&v), "created /p/a.rs");
    assert_eq!(v.state.pane.docs.list[v.state.pane.docs.active].id, 9);
    assert!(done(&mut v).contains("RefreshGit"));
    v.folder_made("docs", NewFolder::Exists, 0);
    assert_eq!(note(&v), "could not create folder: already exists");
    v.folder_made("docs", NewFolder::Failed("denied".to_string()), 0);
    assert_eq!(note(&v), "could not create folder: denied");
    v.folder_made("docs", NewFolder::Made, 0);
    assert_eq!(note(&v), "created folder docs");
    v.item_renamed("/p/a.rs", "/p/b.rs", &Ok(()), 0);
    assert_eq!(note(&v), "renamed to /p/b.rs");
    assert_eq!(
        v.state.pane.docs.list[v.state.pane.docs.active]
            .path
            .as_deref(),
        Some("/p/b.rs")
    );
    v.item_renamed("/p/b.rs", "/p/c.rs", &Err("exists".to_string()), 0);
    assert_eq!(note(&v), "rename failed: exists");
}

#[test]
fn workers_that_stop_are_told_of() {
    let mut v = view();
    v.state.status.update = Some(true);
    v.poll_update(Answer::Waiting, "0.2.0", 0);
    assert_eq!(v.state.status.update, Some(true));
    v.poll_update(Answer::Stopped, "0.2.0", 0);
    assert_eq!(note(&v), "could not check for updates: the check stopped");
    v.open_find(0);
    v.state.project.searching = true;
    v.poll_project_search(Answer::Stopped, 0);
    assert_eq!(note(&v), "project search: project search stopped");
    assert!(!v.state.project.searching);
}

#[test]
fn a_file_that_cannot_be_read_is_not_reviewed() {
    let mut v = bridged();
    let mut p = proposal("first");
    p.unreadable = Some("denied".to_string());
    assert_eq!(
        v.open_diff(p, 50, 0),
        Err("cannot read /p/a.rs: denied".to_string())
    );
    assert_eq!(v.state.pane.docs.list.len(), 1);
}

#[test]
fn a_file_that_is_open_needs_no_reading() {
    let mut v = view();
    open(&mut v, 2, "/p/a.rs", "a");
    open(&mut v, 3, "/p/b.rs", "b");
    assert!(v.load_path(
        "/p/a.rs",
        "/p/a.rs",
        None,
        Opened::Failed("unmounted".to_string()),
        "512 MB",
        0
    ));
    assert_eq!(note(&v), "opened /p/a.rs");
    assert_eq!(v.state.pane.docs.active, 0);
}

#[test]
fn a_frame_times_the_oldest_input() {
    let mut v = view();
    let drawn = Drawn {
        layout: LayoutKey {
            x: 0,
            y: 0,
            width: 50_000,
            height: 40_000,
            sidebar: None,
        },
        unshaped: false,
        key_window: true,
        alone: true,
        panel: true,
    };
    v.note_input(5);
    v.note_input(9);
    assert_eq!(v.draw_now(Frame::Failed, drawn, 12), None);
    assert!(v.ivars.needs_redraw);
    assert_eq!(done(&mut v), "[ResumeDisplayLink]");
    assert_eq!(v.draw_now(Frame::Presented, drawn, 20), Some(15));
    assert!(!v.ivars.needs_redraw);
    assert!(done(&mut v)
        .starts_with("[CancelCaretBlink, ArmCaretBlink(519), InvalidateCursorRects"));
    assert_eq!(v.draw_now(Frame::Presented, drawn, 21), None);
    assert_eq!(done(&mut v), "[CancelCaretBlink, ArmCaretBlink(518)]");
    assert_eq!(v.draw_now(Frame::NoRoom, drawn, 22), None);
}

#[test]
fn a_refresh_draws_only_what_is_wanted() {
    let mut v = view();
    v.ivars.needs_redraw = false;
    v.state.status.message = None;
    assert!(v.on_display_link(16_667, 0));
    assert_eq!(v.state.frame.interval, 16_667);
    assert!(v.on_display_link(1_000_000, 0));
    assert_eq!(v.state.frame.interval, 16_667);
    v.refresh(false);
    assert!(v.effects.is_empty());
    v.refresh(true);
    assert_eq!(done(&mut v), "[Draw]");
    assert!(v.ivars.needs_redraw && !v.on_display_link(8, 0));
    v.say("hello".to_string(), 0);
    v.ivars.needs_redraw = false;
    assert!(!v.on_display_link(8, 3_999));
    assert!(!v.on_display_link(8, 4_000));
    assert_eq!(note(&v), "");
}

#[test]
fn a_window_asks_for_its_first_frame() {
    let v = run(Buffer::new(1), None, "Menlo", 1_300, start(), 0);
    assert!(v.ivars.needs_redraw);
    assert!(v.effects.iter().any(|e| matches!(e, Effect::Draw)));
}

#[test]
fn a_review_in_another_pane_is_closed_there() {
    let mut v = bridged();
    v.split_pane(9, 0);
    assert!(v.open_diff(proposal("first"), 50, 0).is_ok());
    v.focus_pane(0, 0);
    let open_there: Vec<u64> = v.state.panes[0].docs.list.iter().map(|b| b.id).collect();
    assert!(open_there.contains(&50));
    while v.state.panes[0].docs.list.len() > 1 {
        let other = v.state.panes[0].docs.list.iter().position(|b| b.id != 50);
        v.state.panes[0].docs.close(other.expect("another"), Buffer::new(70));
    }
    assert!(!v.claude_close_review(50, Buffer::new(60), 0));
    assert!(v.all_reviews().is_empty());
    assert!(v.state.panes.is_empty());
    assert_eq!(v.state.focused_pane, 0);
    assert_eq!(v.state.pane.docs.list[0].id, 2);
    assert!(v
        .effects
        .iter()
        .any(|e| matches!(e, Effect::DecideReview(50, false))));
}

#[test]
fn an_explicit_reload_drops_the_search() {
    let mut v = view();
    open(&mut v, 2, "/p/a", "a");
    v.open_find(0);
    v.state.project.searching = true;
    v.effects.clear();
    v.after_reload(false, 5);
    assert!(v.state.fields.find.is_some() && v.state.project.searching);
    assert_eq!(done(&mut v), "[Run(Reparse)]");
    v.after_reload(true, 6);
    assert!(v.state.fields.find.is_none() && !v.state.project.searching);
    assert_eq!(done(&mut v), "[Run(Reparse), CancelProjectSearch]");
    assert_eq!(v.state.servers.dirty.get(2), Some(&6));
}

#[test]
fn a_taken_index_reveals_the_file_in_front() {
    let mut v = view();
    v.state.side.tree.root = Some("/p".to_string());
    open(&mut v, 2, "/p/a", "a");
    v.state.project.indexing = true;
    v.state.project.tree_version = 4;
    v.poll_project_index(Some(("/p".to_string(), 4)));
    assert_eq!(v.state.project.tree_version, 5);
    assert_eq!(
        done(&mut v),
        "[KeepIgnored, TakeIndex, RevealInTree(\"/p/a\"), ReadIgnored(\"/p\"), ResumeDisplayLink]"
    );
    v.state.project.indexing = true;
    v.poll_project_index(Some(("/p".to_string(), 4)));
    assert_eq!(done(&mut v), "[TakeFinder, RefreshIndex(5)]");
}

#[test]
fn an_item_moves_whatever_another_pane_has_unsaved() {
    let mut v = view();
    v.state.side.tree.root = Some("/p".to_string());
    v.state.side.tree.rows = vec![row("/p/docs", true)];
    open(&mut v, 2, "/p/a.rs", "a");
    v.state.pane.docs.list[0].dirty = true;
    let drag = TreeDrag {
        path: "/p/a.rs".to_string(),
        origin_x: 0,
        origin_y: 0,
        active: true,
        over: Some(0),
        valid: true,
    };
    assert!(matches!(
        v.drop_tree_item(&drag, "/p/a.rs", 0),
        crc_window::moves::Drop::Unsaved
    ));
    v.split_pane(9, 0);
    match v.drop_tree_item(&drag, "/p/a.rs", 0) {
        crc_window::moves::Drop::Move { from, to, folder } => {
            assert_eq!(from, "/p/a.rs");
            assert_eq!(to, "/p/docs/a.rs");
            assert_eq!(folder, "/p/docs");
        }
        _ => panic!("the item should move"),
    }
}

#[test]
fn the_session_keeps_where_the_window_stands() {
    let mut v = view();
    let frame = crc_window::frame::Rect {
        x: 1_000,
        y: 2_000,
        width: 90_000,
        height: 60_000,
    };
    v.window_framed(Some(frame));
    assert_eq!(v.capture_session().frame, Some(frame));
    assert!(v.effects.is_empty());
    v.window_framed(None);
    assert_eq!(v.capture_session().frame, None);
}

#[test]
fn another_pane_is_clamped_before_it_is_drawn() {
    let mut v = view();
    open(&mut v, 2, "/p/a", "a");
    v.split_pane(9, 0);
    let cols = crc_window::folding::Columns {
        wide: 80,
        least: 20,
    };
    let setting = v.state.status.word_wrap;
    let plan = crc_window::render::draw_other_pane(&mut v.state.panes[0], setting, cols, false, true, 0);
    assert_eq!(
        plan,
        vec![
            crc_window::render::PaneDraw::ClampScroll,
            crc_window::render::PaneDraw::Tabs,
            crc_window::render::PaneDraw::Breadcrumbs,
            crc_window::render::PaneDraw::Text,
            crc_window::render::PaneDraw::GutterMarks,
            crc_window::render::PaneDraw::Seam,
        ]
    );
}

#[test]
fn a_read_only_document_is_not_replaced_in() {
    let mut v = view();
    open(&mut v, 2, "/p/a", "one two one");
    v.state.pane.docs.list[0].read_only = true;
    v.open_find(0);
    if let Some(bar) = &mut v.state.fields.find {
        bar.query.text = "one".to_string();
    }
    let found = Ok(vec![Edit {
        start: 0,
        end: 3,
        with: b"1".to_vec(),
    }]);
    v.replace_all(&found, 0);
    assert_eq!(v.state.pane.docs.list[0].text, b"one two one".to_vec());
    assert!(!v.state.pane.docs.list[0].dirty);
    assert_eq!(note(&v), "no matches for \"one\"");
    v.replace_one(&found, 0);
    assert_eq!(v.state.pane.docs.list[0].text, b"one two one".to_vec());
    assert!(!v.state.pane.docs.list[0].dirty);
}

#[test]
fn a_tab_that_has_gone_is_not_switched_to() {
    let mut v = view();
    open(&mut v, 2, "/p/a", "a");
    v.state.pane.tab_hits = vec![TabHit {
        index: 7,
        x0: 0,
        x1: 100,
        close_x0: 80,
        close_x1: 100,
    }];
    v.tab_click(50, 0);
    assert_eq!(v.state.pane.docs.active, 0);
}

#[test]
fn a_rule_being_typed_shows_what_it_hides() {
    let mut v = view();
    v.state.side.tree.root = Some("/p".to_string());
    v.state.side.tree.rows = vec![row("/p/src", true), row("/p/a.log", false), row("/q", false)];
    open(&mut v, 2, "/p/.gitignore", "src\n*.log");
    v.state.pane.docs.list[0].dirty = true;
    v.state.pane.docs.list[0].cursor = 6;
    let b = &v.state.pane.docs.list[0];
    let preview = ignore_preview(b, &None, true).expect("a rule");
    assert_eq!((preview.rule.as_str(), preview.base.as_str()), ("*.log", "/p"));
    let below = rows_below(&v.state.side.tree.rows, "/p");
    let relative: Vec<&str> = below.iter().map(|r| r.relative.as_str()).collect();
    assert_eq!(relative, vec!["src", "a.log"]);
    let rows = &v.state.side.tree.rows;
    assert_eq!(
        previewed(rows, &below, &Some(vec![false, true])),
        vec!["/p/a.log"]
    );
    assert!(previewed(rows, &below, &None).is_empty());
    let facts = FrameFacts {
        room: true,
        cols: Columns { wide: 80, least: 10 },
        key_window: true,
        caret_visible: true,
        blocks: 0,
        others: Vec::new(),
        found: Vec::new(),
        ignore_file: true,
        matched: Some(vec![false, true]),
    };
    v.state.side.open = true;
    let plan = v.render(&facts, 0).expect("there is room");
    let at = plan.iter().position(|d| *d == Draw::Sidebar).expect("a sidebar");
    assert_eq!(plan[at - 1], Draw::Ignored("/p/a.log".to_string()));
    assert!(done(&mut v).contains("ScrollTree(0)"));
    v.state.side.open = false;
    let plan = v.render(&facts, 0).expect("there is room");
    assert!(!plan.iter().any(|d| matches!(d, Draw::Ignored(_))));
    assert!(!done(&mut v).contains("ScrollTree(0)"));
}

#[test]
fn what_is_wrong_is_underlined_by_how_bad_it_is() {
    let mut v = view();
    open(&mut v, 2, "/p/a.rs", "a");
    v.state.pane.docs.list[0].language = Some(Language { id: 1, server: 1 });
    v.state.servers.list = vec![server(1)];
    let facts = FrameFacts {
        room: true,
        cols: Columns { wide: 80, least: 10 },
        key_window: true,
        caret_visible: true,
        blocks: 0,
        others: Vec::new(),
        found: vec![Severity::Hint, Severity::Error, Severity::Warning],
        ignore_file: false,
        matched: None,
    };
    let plan = v.render(&facts, 0).expect("there is room");
    assert!(plan.contains(&Draw::Underline(0, Paint::StatusText)));
    assert!(plan.contains(&Draw::Underline(1, Paint::DiffRemoved)));
    assert!(plan.contains(&Draw::Underline(2, Paint::SynConstant)));
    assert!(plan.contains(&Draw::Text(true, false)));
    v.open_find(0);
    v.state.fields.find.as_mut().expect("a bar").query.text = "a".to_string();
    let plan = v.render(&facts, 0).expect("there is room");
    assert!(plan.contains(&Draw::Text(true, true)));
}

fn server(key: u8) -> Server {
    Server {
        key,
        ready: true,
        known: Vec::new(),
        formats: false,
        triggers: Vec::new(),
        signature_triggers: Vec::new(),
    }
}

#[test]
fn syncing_twice_sends_once() {
    let mut v = view();
    v.state.side.tree.root = Some("/p".to_string());
    open(&mut v, 2, "/p/a.rs", "a");
    open(&mut v, 3, "/p/b.rs", "b");
    open(&mut v, 4, "/p/c.py", "c");
    for (i, key) in [1, 1, 2].into_iter().enumerate() {
        v.state.pane.docs.list[i].language = Some(Language { id: key, server: key });
    }
    v.state.servers.list = vec![server(1)];
    v.effects.clear();
    v.lsp_sync_open();
    assert_eq!(
        done(&mut v),
        "[StartServer(Language { id: 2, server: 2 }), DidOpen(2), DidOpen(3)]"
    );
    v.server_started(2, Launch::Absent("no server".to_string()), 0);
    v.lsp_sync_open();
    assert_eq!(done(&mut v), "[]");
}
