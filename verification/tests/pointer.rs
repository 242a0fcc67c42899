use crc_window::buffer::{Buffer, Edit};
use crc_window::clicks::{Amount, Scrolled, Turn, Wheel};
use crc_window::completion::{
    popup_key_of, takes_popup_key, Candidate, CompletionPopup, PopupKey, Source,
};
use crc_window::cursors::{CursorParts, GitPlace, PalettePlace, Pointer};
use crc_window::files::Opened;
use crc_window::frame::{frame_of, hit, Chrome, Hit, Metrics, OtherPane, Parts, Rect};
use crc_window::http::{HttpReply, Pending, Shown};
use crc_window::keys::{self, KeyEvent, Modifiers};
use crc_window::launch::{run, Start};
use crc_window::menu::{install_menu, Action};
use crc_window::mouse::{HomeAction, Press, Under};
use crc_window::places::FilePlace;
use crc_window::rename::FileEdits;
use crc_window::selftest::{Ignored, Move, Player, ReportFacts, Step};
use crc_window::session::Session;
use crc_window::settings::Settings;
use crc_window::sidebar::TreeEntry;
use crc_window::state::{
    Assistant, EditorView, Effect, GitVerb, Spot, Task, ThemeChoice, WordWrap,
};
use crc_window::suggest::WorkerAnswer;

const NONE: Modifiers = Modifiers {
    command: false,
    shift: false,
    option: false,
    control: false,
};

const COMMAND: Modifiers = Modifiers {
    command: true,
    shift: false,
    option: false,
    control: false,
};

fn start() -> Start {
    Start {
        session: Session {
            folder: None,
            files: Vec::new(),
            active: 0,
            sidebar: true,
            sidebar_width: 24_000,
            frame: None,
            recent: Vec::new(),
        },
        opened: Vec::new(),
        recovered: Vec::new(),
        settings: Settings {
            font: "Menlo".to_string(),
            font_size: 1_300,
            theme: ThemeChoice::System,
            caret_blink: true,
            update_check: true,
            format_on_save: false,
            word_wrap: WordWrap::Auto,
            ssh_auth_sock: None,
        },
        rows: Vec::new(),
        root_key: None,
        resolved: Vec::new(),
        recent_limit: 10,
        repository: None,
        branch: String::new(),
        git_busy: false,
        assistant: Assistant {
            product: "Assistant Code".to_string(),
            name: "Assistant".to_string(),
            command: "assistant".to_string(),
        },
        testing: false,
        system_dark: true,
        check_due: false,
        terminal_height: 26_000,
    }
}

fn view() -> EditorView {
    let mut view = run(Buffer::new(1), None, "Menlo", 1_300, start(), 0);
    view.effects.clear();
    view
}

fn doc(id: u64, place: &str, text: &str) -> Buffer {
    let mut b = Buffer::new(id);
    b.path = Some(place.to_string());
    b.text = text.as_bytes().to_vec();
    b
}

fn open(view: &mut EditorView, id: u64, place: &str, text: &str) {
    assert!(view.load_path(
        place,
        place,
        None,
        Opened::File(doc(id, place, text)),
        "512 MB",
        0
    ));
    view.effects.clear();
}

fn done(view: &mut EditorView) -> String {
    let text = format!("{:?}", view.effects);
    view.effects.clear();
    text
}

fn note(view: &EditorView) -> &str {
    view.state
        .status
        .message
        .as_ref()
        .map_or("", |note| note.text.as_str())
}

fn key(code: u16, flags: Modifiers, bare: Option<char>) -> KeyEvent {
    KeyEvent { code, flags, bare }
}

fn row(path: &str, is_dir: bool) -> TreeEntry {
    TreeEntry {
        path: path.to_string(),
        name: path.rsplit('/').next().unwrap_or("").to_string(),
        is_dir,
        expanded: false,
        depth: 0,
    }
}

fn edit(start: usize, end: usize) -> Edit {
    Edit {
        start,
        end,
        with: Vec::new(),
    }
}

fn rect(x: i32, y: i32, width: i32, height: i32) -> Rect {
    Rect {
        x,
        y,
        width,
        height,
    }
}

fn nothing() -> Rect {
    rect(0, 0, 0, 0)
}

/// A window of a thousand by eight hundred points with a sidebar.
fn chrome() -> Chrome {
    Chrome {
        toolbar: rect(0, 0, 100_000, 4_000),
        tabs: rect(24_000, 4_000, 76_000, 3_000),
        text: rect(24_000, 7_000, 76_000, 70_000),
        status: rect(0, 77_000, 100_000, 3_000),
        sidebar: Some(rect(0, 4_000, 24_000, 73_000)),
        response: None,
        find: None,
        terminal: None,
        others: Vec::new(),
    }
}

fn parts() -> Parts {
    Parts {
        toolbar_sidebar: rect(8_000, 0, 2_000, 4_000),
        toolbar_project: rect(11_000, 0, 10_000, 4_000),
        toolbar_search: rect(40_000, 0, 20_000, 4_000),
        toolbar_terminal: nothing(),
        explorer: rect(0, 4_000, 12_000, 3_000),
        source_control: rect(12_000, 4_000, 12_000, 3_000),
        actions: vec![rect(20_000, 7_000, 2_000, 2_000)],
        visible_rows: 30,
        header_height: 6_000,
        row_height: 2_200,
        segments: Vec::new(),
        accept: nothing(),
        reject: nothing(),
        sessions: Vec::new(),
        new_session: nothing(),
        screen: nothing(),
    }
}

fn under() -> Under {
    Under {
        track: nothing(),
        thumb: None,
        fold: None,
        row: None,
        hunk: None,
        home: None,
        block: None,
        offset: 0,
        word: (0, 0),
        line: (0, 0),
        chip: None,
    }
}

fn press(x: i32, y: i32) -> Press {
    Press {
        x,
        y,
        clicks: 1,
        flags: NONE,
        pressed: true,
    }
}

#[test]
fn the_window_is_one_thing_at_every_point() {
    let mut v = view();
    v.state.side.tree.rows = vec![row("/p/a", false), row("/p/b", false)];
    open(&mut v, 2, "/p/a", "a");
    let frame = frame_of(&v.state, &chrome(), &parts());
    assert_eq!(hit(&frame, 9_000, 1_000), Some(Hit::ToolbarSidebar));
    assert_eq!(hit(&frame, 12_000, 1_000), Some(Hit::ToolbarProject));
    assert_eq!(hit(&frame, 1_000, 5_000), Some(Hit::SidebarExplorer));
    assert_eq!(hit(&frame, 1_000, 11_000), Some(Hit::SidebarRow(0)));
    assert_eq!(hit(&frame, 1_000, 13_000), Some(Hit::SidebarRow(1)));
    assert_eq!(hit(&frame, 50_000, 30_000), Some(Hit::Text));
    assert_eq!(hit(&frame, 50_000, 78_000), Some(Hit::Status));
    assert_eq!(hit(&frame, 24_000, 30_000), Some(Hit::SidebarDivider));
}

#[test]
fn another_pane_is_hit_as_a_whole() {
    let mut v = view();
    open(&mut v, 2, "/p/a", "a");
    v.split_pane(9, 0);
    let mut whole = chrome();
    whole.others = vec![OtherPane {
        index: 0,
        whole: rect(24_000, 4_000, 38_000, 73_000),
    }];
    whole.text = rect(62_000, 7_000, 38_000, 70_000);
    whole.tabs = rect(62_000, 4_000, 38_000, 3_000);
    let frame = frame_of(&v.state, &whole, &parts());
    assert_eq!(hit(&frame, 40_000, 30_000), Some(Hit::Pane(0)));
    v.focus_scrolled(Some(Hit::Text), 0);
    assert_eq!(v.state.focused_pane, 1);
    v.focus_scrolled(hit(&frame, 40_000, 30_000), 0);
    assert_eq!(v.state.focused_pane, 0);
    assert_eq!(v.state.panes.len(), 1);
}

#[test]
fn the_grid_counts_whole_cells() {
    let v = view();
    let metrics = Metrics {
        line_height: 1_800,
        advance: 780,
    };
    assert_eq!(v.grid(rect(0, 0, 10_000, 9_000), metrics, 2_200), (5, 10));
    assert_eq!(v.grid(rect(0, 0, 1_000, -5), metrics, 2_200), (0, 0));
}

#[test]
fn a_press_in_the_text_puts_the_caret_there() {
    let mut v = view();
    open(&mut v, 2, "/p/a", "one two");
    let mut below = under();
    below.offset = 4;
    v.mouse_down(
        press(50_000, 30_000),
        Some(Hit::Text),
        &chrome(),
        &below,
        90,
        0,
    );
    let front = &v.state.pane.docs.list[0];
    assert_eq!((front.anchor, front.cursor), (4, 4));
    let before = v.state.pane.docs.list[0].cursor;
    v.mouse_down(
        press(9_000, 1_000),
        Some(Hit::ToolbarSidebar),
        &chrome(),
        &below,
        90,
        0,
    );
    assert_eq!(v.state.pane.docs.list[0].cursor, before);
    v.mouse_up(true);
    assert!(v.state.drag.selecting.is_none());
}

#[test]
fn the_home_screen_has_buttons() {
    let mut v = view();
    let mut below = under();
    below.home = Some(HomeAction::FindFile);
    v.mouse_down(
        press(50_000, 30_000),
        Some(Hit::Text),
        &chrome(),
        &below,
        90,
        0,
    );
    assert!(v
        .effects
        .iter()
        .any(|e| matches!(e, Effect::Run(Task::OpenPalette))));
}

#[test]
fn a_scripted_run_hears_no_hands() {
    let mut v = view();
    open(&mut v, 2, "/p/a", "one two");
    v.ivars.testing = true;
    let mut below = under();
    below.offset = 4;
    v.mouse_down(
        press(50_000, 30_000),
        Some(Hit::Text),
        &chrome(),
        &below,
        90,
        0,
    );
    assert_eq!(v.state.pane.docs.list[0].cursor, 0);
    v.mouse_down(
        Press {
            pressed: false,
            ..press(50_000, 30_000)
        },
        Some(Hit::Text),
        &chrome(),
        &below,
        90,
        0,
    );
    assert_eq!(v.state.pane.docs.list[0].cursor, 4);
}

#[test]
fn the_wheel_turns_what_is_under_it() {
    let mut v = view();
    open(&mut v, 2, "/p/a", "a");
    let at = |x: i32, y: i32| Spot { x, y };
    let by = Amount {
        tabs: 1,
        columns: 0,
        lines: 3,
        last_block: 0,
    };
    assert_eq!(
        v.scroll_at(at(50_000, 5_000), &chrome(), false, by, 0),
        Scrolled::Tabs
    );
    assert_eq!(
        v.scroll_at(at(50_000, 30_000), &chrome(), true, by, 0),
        Scrolled::Smooth
    );
    assert_eq!(
        v.scroll_at(at(50_000, 30_000), &chrome(), false, by, 0),
        Scrolled::Text
    );
    assert_eq!(
        v.scroll_at(at(1_000, 30_000), &chrome(), true, by, 0),
        Scrolled::Tree
    );
    v.open_palette(0);
    assert_eq!(
        v.scroll_wheel(at(50_000, 30_000), Turn::Down, &chrome(), 0, false, 0),
        Wheel::Palette
    );
}

fn candidate(label: &str) -> Candidate {
    Candidate {
        label: label.to_string(),
        insert: label.to_string(),
        source: Source::Word,
        why: "near the caret".to_string(),
        weight: 1_000,
        server: None,
    }
}

fn popup() -> CompletionPopup {
    CompletionPopup {
        buffer: 2,
        anchor: 0,
        request: 0,
        generation: 4,
        items: Vec::new(),
        local: Vec::new(),
        boosts: Vec::new(),
        shown: vec![candidate("alpha"), candidate("beta")],
        selected: 0,
        chosen: false,
        path: false,
        context: String::new(),
        language: String::new(),
    }
}

#[test]
fn return_is_a_new_line_until_you_choose() {
    let mut list = popup();
    let ret = key(keys::RETURN, NONE, None);
    assert_eq!(popup_key_of(&list, &ret), PopupKey::CloseAndPass);
    assert!(!takes_popup_key(&list, &ret));
    assert_eq!(
        popup_key_of(&list, &key(keys::TAB, NONE, None)),
        PopupKey::Accept(None)
    );
    let option = Modifiers {
        option: true,
        ..NONE
    };
    assert_eq!(
        popup_key_of(&list, &key(19, option, None)),
        PopupKey::Accept(Some(1))
    );
    assert_eq!(popup_key_of(&list, &key(20, option, None)), PopupKey::Pass);
    list.chosen = true;
    assert_eq!(popup_key_of(&list, &ret), PopupKey::Accept(None));
}

#[test]
fn up_undoes_down_in_the_list() {
    let mut v = view();
    open(&mut v, 2, "/p/a", "al");
    v.state.hints.completion = Some(popup());
    assert!(v.handle_completion_key(&key(keys::DOWN, NONE, None), 0));
    let list = v.state.hints.completion.as_ref().expect("a list");
    assert_eq!((list.selected, list.chosen), (1, true));
    assert!(v.handle_completion_key(&key(keys::UP, NONE, None), 0));
    let list = v.state.hints.completion.as_ref().expect("a list");
    assert_eq!(list.selected, 0);
    assert!(v.handle_completion_key(&key(keys::ESCAPE, NONE, None), 0));
    assert!(v.state.hints.completion.is_none());
}

#[test]
fn what_was_forgotten_is_counted() {
    let mut v = view();
    v.poll_completion(Some(1), None, 0);
    assert_eq!(note(&v), "forgot 1 remembered completion for this project");
    v.poll_completion(Some(2), None, 0);
    assert_eq!(note(&v), "forgot 2 remembered completions for this project");
    v.poll_completion(
        None,
        Some(WorkerAnswer {
            generation: 9,
            candidates: vec![candidate("x")],
            boosts: Vec::new(),
        }),
        0,
    );
    assert!(v.state.hints.completion.is_none());
}

#[test]
fn a_request_has_one_tab() {
    let mut v = view();
    let shown = |text: &str| Shown {
        text: text.as_bytes().to_vec(),
        display: None,
    };
    let pending = || Pending {
        title: "GET /".to_string(),
        shown: shown("waiting"),
    };
    open(&mut v, 2, "/p/a", "a");
    v.send_request(Ok(pending()), 30, 0);
    assert_eq!(note(&v), "Send Request works in a .http file");
    v.state.pane.docs.list[0].request_file = true;
    v.send_request(Err("no URL here".to_string()), 30, 0);
    assert_eq!(note(&v), "no URL here");
    v.send_request(Ok(pending()), 30, 0);
    assert_eq!(note(&v), "sending GET /");
    assert_eq!(v.state.pane.docs.list.len(), 2);
    assert_eq!(v.state.http.in_flight, Some(30));
    v.send_request(Ok(pending()), 31, 0);
    assert_eq!(note(&v), "a request is still in flight");
    v.poll_http(
        Some(HttpReply {
            status: "200 OK".to_string(),
            shown: shown("hello"),
        }),
        0,
    );
    assert_eq!(v.state.http.in_flight, None);
    v.send_request(Ok(pending()), 32, 0);
    assert_eq!(v.state.pane.docs.list.len(), 2);
}

#[test]
fn git_needs_a_repository() {
    let mut v = view();
    v.git_remote(GitVerb::Push, 0);
    assert_eq!(note(&v), "not a Git repository");
    v.state.git.root = Some("/p".to_string());
    v.effects.clear();
    v.git_remote(GitVerb::Push, 0);
    assert_eq!(note(&v), "pushing\u{2026}");
    assert!(v
        .effects
        .iter()
        .any(|e| matches!(e, Effect::GitRemote(GitVerb::Push))));
}

#[test]
fn escape_steps_out_of_the_panel() {
    let mut v = view();
    v.state.side.tree.root = Some("/p".to_string());
    v.state.git.open = true;
    v.state.git.focus = true;
    v.state.git.showing_diff = true;
    let escape = key(keys::ESCAPE, NONE, None);
    assert!(v.handle_git_key(&escape, 0));
    assert!(!v.state.git.focus && v.state.git.open);
    assert!(v.handle_git_key(&escape, 0));
    assert!(!v.state.git.showing_diff && v.state.git.open);
    assert!(v.handle_git_key(&escape, 0));
    assert!(!v.state.git.open);
}

fn place(path: &str) -> FilePlace {
    FilePlace {
        path: path.to_string(),
        same: Vec::new(),
    }
}

#[test]
fn a_rename_is_accounted_for() {
    let mut v = view();
    open(&mut v, 2, "/p/a", "old");
    v.apply_rename(&Vec::new(), 0);
    assert_eq!(note(&v), "the server had nothing to rename");
    let files = vec![
        FileEdits {
            place: place("/p/a"),
            empty: false,
            ranges: Some(vec![Edit {
                start: 0,
                end: 3,
                with: b"new".to_vec(),
            }]),
            written: false,
        },
        FileEdits {
            place: place("/p/b"),
            empty: false,
            ranges: None,
            written: true,
        },
    ];
    v.apply_rename(&files, 0);
    assert_eq!(v.state.pane.docs.list[0].text, b"new".to_vec());
    assert_eq!(note(&v), "renamed in 2 files, 1 open and unsaved");
}

fn cursor_parts() -> CursorParts {
    CursorParts {
        window: rect(0, 0, 100_000, 80_000),
        home: vec![rect(40_000, 20_000, 20_000, 4_000)],
        palette: PalettePlace {
            rect: rect(20_000, 10_000, 60_000, 40_000),
            count: 3,
            visible: 8,
            header: 5_600,
            row: 4_000,
        },
        native_preview: false,
        gutter: 4_000,
        hunks: Vec::new(),
        find_row: 4_000,
        explorer: rect(0, 4_000, 12_000, 3_000),
        source_control: rect(12_000, 4_000, 12_000, 3_000),
        git: GitPlace {
            refresh: nothing(),
            message: nothing(),
            commit: nothing(),
            can_commit: false,
            files: Vec::new(),
        },
        actions: vec![nothing()],
        tree_rows: 30,
        header: 6_000,
        row: 2_200,
    }
}

#[test]
fn every_control_has_its_pointer() {
    let mut v = view();
    v.state.side.tree.rows = vec![row("/p/a", false), row("/p/b", false)];
    open(&mut v, 2, "/p/a", "a");
    let shapes = v.reset_cursor_rects(&chrome(), &Vec::new(), &cursor_parts());
    assert_eq!(shapes[0].pointer, Pointer::Arrow);
    assert!(shapes
        .iter()
        .any(|s| s.pointer == Pointer::Beam && s.rect == rect(28_000, 7_000, 72_000, 70_000)));
    assert!(shapes
        .iter()
        .any(|s| s.pointer == Pointer::Hand && s.rect == rect(0, 10_000, 24_000, 4_400)));
    assert!(shapes
        .iter()
        .any(|s| s.pointer == Pointer::Columns && s.rect == rect(23_500, 4_000, 1_000, 73_000)));
    assert!(shapes.iter().all(|s| s.rect.width > 0 && s.rect.height > 0));
    v.open_palette(0);
    let shapes = v.reset_cursor_rects(&chrome(), &Vec::new(), &cursor_parts());
    assert_eq!(shapes.len(), 4);
    assert_eq!(shapes[1].pointer, Pointer::Beam);
    assert_eq!(shapes[3].rect, rect(20_800, 15_600, 58_400, 12_000));
}

fn facts() -> ReportFacts {
    ReportFacts {
        branch: "main".to_string(),
        parameter: Some("b: u8".to_string()),
        unshaped: false,
        ignored: vec![Ignored::No, Ignored::Inside],
        changes: 2,
        staged: 1,
        hunks_staged: 0,
        hunks_working: 3,
        click_time: "0.250".to_string(),
        finder_entries: 12,
        first_row: Some("main.rs".to_string()),
        servers: vec!["rust-analyzer Ready".to_string(), "gopls Starting".to_string()],
        diagnostics: 0,
        window_title: "a".to_string(),
        shaping_pending: false,
        caret_shaped: true,
        height: "260".to_string(),
        selection: Some("ls".to_string()),
        screen: "$ ls\n".to_string(),
        document: "text: a".to_string(),
    }
}

#[test]
fn a_script_can_ask_for_everything() {
    let mut v = view();
    open(&mut v, 2, "/p/a", "a");
    v.say("hello".to_string(), 0);
    let report = v.report(&facts());
    assert!(report.starts_with("message: hello\nbranch: main\nblame: \nfind_results: \n"));
    assert!(report.contains("\nread_only: false\nunshaped: false\nignored_rows: -I\n"));
    assert!(report.contains("\ngit_changes: 2\ngit_staged: 1\n"));
    assert!(report.contains("\nlast_click_ms: 0.250\nfinder_entries: 12\n"));
    assert!(report.contains("\npalette_first: \n"));
    assert!(report.contains("\npanes: 1\nfocused_pane: 0\n"));
    assert!(report.contains("\nlsp: rust-analyzer Ready, gopls Starting\ndiagnostics: 0\n"));
    assert!(report.contains("\nassistant: off\n"));
    assert!(report.contains(
        "\nterminal: open=false focus=false height=260 tabs= selection=Some(\"ls\") screen=\"$ ls\\n\"\n"
    ));
    assert!(report.ends_with("\ntext: a"));
    v.open_palette(0);
    assert!(v.report(&facts()).contains("\npalette_first: main.rs\n"));
}

#[test]
fn a_script_plays_step_by_step() {
    let bar = install_menu("Assistant");
    let mut player = Player {
        pointer: Spot { x: 0, y: 0 },
    };
    let place = Some(rect(1_000, 2_000, 400, 200));
    let moves = player.play(
        Step::DownNamed {
            name: "tab".to_string(),
        },
        place,
        &bar,
        false,
    );
    assert!(matches!(moves[0], Move::Press(p) if p.x == 1_200 && p.y == 2_100 && !p.pressed));
    let moves = player.play(Step::DragBy { dx: 300, dy: -100 }, None, &bar, false);
    assert!(matches!(moves[0], Move::Dragged(Spot { x: 1_500, y: 2_000 })));
    let moves = player.play(
        Step::ClickNamed {
            name: "nowhere".to_string(),
            count: 1,
        },
        None,
        &bar,
        false,
    );
    assert!(
        matches!(&moves[0], Move::Complain(s) if s == "selftest: no region named nowhere in this frame")
    );
    let moves = player.play(
        Step::Key {
            code: 1,
            mods: COMMAND,
            chars: "s".to_string(),
        },
        None,
        &bar,
        false,
    );
    assert!(matches!(moves[0], Move::Perform(Action::SaveDocument)));
    let moves = player.play(
        Step::Key {
            code: 1,
            mods: NONE,
            chars: "s".to_string(),
        },
        None,
        &bar,
        false,
    );
    assert!(matches!(moves[0], Move::Key(1, _, _)));
    let moves = player.play(Step::Wheel(3), None, &bar, false);
    assert!(
        matches!(&moves[0], Move::Complain(s) if s == "selftest: wheel only drives the palette")
    );
    let moves = player.play(Step::Wheel(3), None, &bar, true);
    assert!(matches!(moves[0], Move::PaletteWheel(3)));
    let moves = player.play(
        Step::Write("/p/a".to_string(), "new".to_string()),
        None,
        &bar,
        false,
    );
    assert!(matches!(&moves[0], Move::WriteFile(p, t, true) if p == "/p/a" && t == "new\n"));
    let moves = player.play(Step::Quit, None, &bar, false);
    assert!(matches!(moves[0], Move::Shutdown));
    assert!(matches!(moves[1], Move::Exit));
}

#[test]
fn a_reply_finds_its_tab_in_another_pane() {
    let mut v = view();
    let shown = |text: &str| Shown {
        text: text.as_bytes().to_vec(),
        display: None,
    };
    open(&mut v, 2, "/p/a", "a");
    v.state.pane.docs.list[0].request_file = true;
    let pending = Pending {
        title: "GET /".to_string(),
        shown: shown("waiting"),
    };
    v.send_request(Ok(pending), 30, 0);
    v.split_pane(9, 0);
    v.poll_http(
        Some(HttpReply {
            status: "200 OK".to_string(),
            shown: shown("hello"),
        }),
        0,
    );
    assert_eq!(note(&v), "GET /: 200 OK");
    let tab = v.state.panes[0].docs.list.iter().find(|b| b.id == 30);
    assert_eq!(tab.map(|b| b.text.clone()), Some(b"hello".to_vec()));
    assert_eq!(v.state.panes[0].docs.list[0].text, b"a".to_vec());
}

#[test]
fn a_taken_suggestion_replaces_the_prefix() {
    let mut v = view();
    open(&mut v, 2, "/p/a", "x al y");
    v.state.pane.docs.list[0].cursor = 4;
    v.state.pane.docs.list[0].anchor = 4;
    v.state.hints.completion = Some(CompletionPopup { anchor: 2, ..popup() });
    v.effects.clear();
    v.accept_completion(Some(1), (0, 0));
    let front = &v.state.pane.docs.list[0];
    assert_eq!(front.text, b"x beta y".to_vec());
    assert_eq!((front.cursor, front.anchor, front.dirty), (6, 6, true));
    assert!(v.state.hints.completion.is_none());
    v.state.hints.completion = Some(CompletionPopup { anchor: 2, ..popup() });
    v.accept_completion(Some(7), (0, 0));
    assert_eq!(v.state.pane.docs.list[0].text, b"x beta y".to_vec());
}

#[test]
fn a_read_only_document_takes_no_suggestion() {
    let mut v = view();
    open(&mut v, 2, "/p/a", "x al y");
    v.state.pane.docs.list[0].read_only = true;
    v.state.pane.docs.list[0].cursor = 4;
    v.state.pane.docs.list[0].anchor = 4;
    v.state.hints.completion = Some(CompletionPopup { anchor: 2, ..popup() });
    v.accept_completion(Some(1), (0, 0));
    assert_eq!(v.state.pane.docs.list[0].text, b"x al y".to_vec());
    assert!(!v.state.pane.docs.list[0].dirty);
}
