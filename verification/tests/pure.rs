use std::collections::HashMap;

use crc_window::buffer::{
    apply_edits, find_bytes, line_end, line_of, line_start, offset_of_line, Buffer, Edit,
};
use crc_window::completion::completion_language;
use crc_window::diagnostics::{diagnostics, path_before, same_file, FileProblems, Wanted};
use crc_window::edit::digits_of;
use crc_window::find::{find_next, find_previous, ProjectHit};
use crc_window::folding::wraps_by_default;
use crc_window::formatting::indent_style;
use crc_window::frame::{clamp_sidebar, hit, Hit, Rect, Region};
use crc_window::gutter::blame_note;
use crc_window::keys::{digit_of, motion_for, Modifiers, Motion};
use crc_window::pacing::caret_phase;
use crc_window::palette::{
    branch_rows, palette_follow, palette_heading, palette_mode, palette_rows, ranked, Branch,
    Command, FileHit, PaletteMode, PaletteRow, PaletteSources, Pick, RowIcon, SymbolHit,
};
use crc_window::path::{
    changes_ignore_rules, display_name, file_name, file_stem, join, parent, path_ends_in, path_eq,
    path_within, split_path, strip_prefix, valid_drop,
};
use crc_window::project::{after_count, with_recent};
use crc_window::project_search::{
    collect_hits, distinct_files, hit_at, is_searched, name_list, replace_question, search_files,
    SearchedFile,
};
use crc_window::recovery::{ask_to_restore, restore_question, Recovered};
use crc_window::render::Diagnostic;
use crc_window::save::{
    ask_about_conflict, changes_question, conflict_question, discard_answer, revert_question,
    Conflict,
};
use crc_window::table::{keep_only, Table};
use crc_window::tabs::{default_preview, Discard};
use crc_window::text::{
    decimal, has_char, joined, joined3, parse_number, plural_ending, read, same,
    same_ignoring_case, shortened, single_line, starts_with, trim, typed_text,
};

const NONE: Modifiers = Modifiers {
    command: false,
    shift: false,
    option: false,
    control: false,
};

fn at(place: &str, text: &str) -> Buffer {
    let mut b = Buffer::new(7);
    b.path = Some(place.to_string());
    b.text = text.as_bytes().to_vec();
    b
}

fn hit_in(path: &str, line: usize) -> ProjectHit {
    ProjectHit {
        path: path.to_string(),
        start: 0,
        end: 1,
        line,
        snippet: String::new(),
    }
}

#[test]
fn texts_are_read_and_cut() {
    assert_eq!(read(&"h\u{e9}".as_bytes().to_vec()), "h\u{e9}");
    assert_eq!(read(&vec![0xc3]), "");
    assert_eq!(shortened("abcdef", 3), "abc");
    assert_eq!(shortened("ab", 3), "ab");
    assert_eq!(trim(" \u{3000}a b\n"), "a b");
    assert_eq!(joined("a", "b"), "ab");
    assert_eq!(joined3("a", "b", "c"), "abc");
    assert!(has_char("a/b", '/'));
    assert!(!has_char("ab", '/'));
    assert!(starts_with("abc", "ab"));
    assert!(!starts_with("a", "ab"));
    assert!(same("x", "x"));
    assert!(!same("x", "y"));
    assert!(same_ignoring_case("README.md", "readme.MD"));
    assert!(!same_ignoring_case("a", "b"));
}

#[test]
fn numbers_are_written_and_read() {
    assert_eq!(decimal(0), "0");
    assert_eq!(decimal(1_048_576), "1048576");
    assert_eq!(parse_number("42"), Some(42));
    assert_eq!(parse_number("+42"), Some(42));
    assert_eq!(parse_number(""), None);
    assert_eq!(parse_number("4x"), None);
    assert_eq!(parse_number("99999999999999999999999999"), None);
    assert_eq!(digits_of("l4i2"), "42");
    assert_eq!(plural_ending(1), "");
    assert_eq!(plural_ending(2), "s");
    assert_eq!(digit_of(Some('7')), Some(7));
    assert_eq!(digit_of(Some('x')), None);
    assert_eq!(digit_of(None), None);
}

#[test]
fn typing_twice_filters_nothing_more() {
    let once = typed_text("a\u{7f}b\u{f704}c");
    assert_eq!(once, "abc");
    assert_eq!(typed_text(&once), once);
}

#[test]
fn a_field_never_holds_a_line_feed() {
    assert!(!single_line("a\nb\nc").contains('\n'));
}

#[test]
fn shift_extends() {
    assert_eq!(motion_for(NONE), Motion::Move);
    assert_eq!(
        motion_for(Modifiers {
            shift: true,
            ..NONE
        }),
        Motion::Extend
    );
}

#[test]
fn paths_are_taken_apart() {
    assert_eq!(split_path("/a//b/"), vec!["/", "a", "b"]);
    assert_eq!(file_name("/a/b.rs"), Some("b.rs".to_string()));
    assert_eq!(file_name("/"), None);
    assert_eq!(file_name("/a/.."), None);
    assert_eq!(parent("/a/b.rs"), Some("/a".to_string()));
    assert_eq!(parent("/"), None);
    assert_eq!(display_name("/"), "/");
    assert_eq!(display_name("/a/b"), "b");
    assert_eq!(join("/a", "b/c"), "/a/b/c");
    assert_eq!(join("/a", "/b"), "/b");
    assert_eq!(strip_prefix("/a/b/c", "/a"), Some("b/c".to_string()));
    assert_eq!(strip_prefix("/ab", "/a"), None);
    assert_eq!(file_stem("a.tar.gz"), "a.tar");
    assert_eq!(file_stem(".gitignore"), ".gitignore");
    assert!(path_eq("/a/b/", "/a/b"));
    assert!(path_within("/a/b", "/a"));
    assert!(!path_within("/ab", "/a"));
    assert!(path_ends_in("/p/.git/info/exclude", "info/exclude"));
    assert!(!path_ends_in("/p/xinfo/exclude", "info/exclude"));
}

#[test]
fn ignore_rules_live_in_two_places() {
    assert!(changes_ignore_rules("/p/sub/.gitignore"));
    assert!(changes_ignore_rules("/p/.git/info/exclude"));
    assert!(!changes_ignore_rules("/p/exclude"));
}

#[test]
fn a_drop_does_not_mind_a_trailing_slash() {
    assert!(!valid_drop("/p/src/", "/p/src"));
    assert!(!valid_drop("/p/src", "/p/src/"));
    assert!(valid_drop("/p/src/", "/p/docs"));
}

#[test]
fn recent_projects_start_with_the_last_opened() {
    let recent = vec!["/b".to_string(), "/a".to_string(), "/c".to_string()];
    let resolved = vec!["/b".to_string(), "/real/a".to_string(), "/c".to_string()];
    assert_eq!(
        with_recent(recent, &resolved, Some("/real/a".to_string()), 2),
        vec!["/real/a", "/b"]
    );
    let recent = vec!["/b".to_string()];
    let resolved = vec!["/b".to_string()];
    assert_eq!(with_recent(recent, &resolved, None, 2), vec!["/b"]);
}

#[test]
fn counts_go_round() {
    assert_eq!(after_count(4), 5);
    assert_eq!(after_count(u64::MAX), 0);
}

#[test]
fn lines_and_offsets_agree() {
    let text = b"one\ntwo\n\nfour".to_vec();
    assert_eq!(line_of(&text, 0), 0);
    assert_eq!(line_of(&text, 4), 1);
    assert_eq!(line_of(&text, text.len()), 3);
    assert_eq!(line_start(&text, 6), 4);
    assert_eq!(line_end(&text, 4), 7);
    assert_eq!(offset_of_line(&text, 3), 9);
}

#[test]
fn edits_apply_together() {
    let text = b"a b a".to_vec();
    let edits = vec![
        Edit {
            start: 0,
            end: 1,
            with: b"xx".to_vec(),
        },
        Edit {
            start: 4,
            end: 5,
            with: b"y".to_vec(),
        },
    ];
    let (after, _) = apply_edits(&text, &edits);
    assert_eq!(after, b"xx b y".to_vec());
    assert_eq!(find_bytes(&text, &b"a".to_vec(), 1), Some(4));
    assert_eq!(find_bytes(&text, &b"z".to_vec(), 0), None);
}

#[test]
fn matches_go_round() {
    let found = vec![
        Edit {
            start: 2,
            end: 3,
            with: Vec::new(),
        },
        Edit {
            start: 9,
            end: 10,
            with: Vec::new(),
        },
    ];
    assert_eq!(find_next(&found, 0), Some(0));
    assert_eq!(find_next(&found, 3), Some(1));
    assert_eq!(find_next(&found, 10), Some(0));
    assert_eq!(find_previous(&found, 9), Some(0));
    assert_eq!(find_previous(&found, 2), Some(1));
    assert_eq!(find_next(&Vec::new(), 0), None);
}

#[test]
fn the_palette_has_a_mode_for_each_mark() {
    assert_eq!(palette_mode("", false), PaletteMode::Files);
    assert_eq!(palette_mode("main", false), PaletteMode::Files);
    assert_eq!(palette_mode("@run", false), PaletteMode::DocumentSymbols);
    assert_eq!(palette_mode("#", false), PaletteMode::ProjectSymbols(false));
    assert_eq!(palette_mode("#r", false), PaletteMode::ProjectSymbols(true));
    assert_eq!(palette_mode(">close", false), PaletteMode::Commands);
    assert_eq!(palette_mode(">close", true), PaletteMode::Branches);
    assert_eq!(
        palette_heading("", false),
        ("Project files", "No matching files")
    );
    assert_eq!(
        palette_heading(">x", false),
        ("Commands", "No matching commands")
    );
    assert_eq!(
        palette_heading("@x", false),
        ("Symbols in this file", "No matching symbols")
    );
    assert_eq!(
        palette_heading("#", false),
        ("Symbols in the project", "Type a name")
    );
    assert_eq!(
        palette_heading("#x", false),
        ("Symbols in the project", "No matching symbols")
    );
    assert_eq!(
        palette_heading("x", true),
        ("Switch branch, or type a new name", "No branches")
    );
}

fn branch(name: &str, upstream: Option<&str>, current: bool) -> Branch {
    Branch {
        name: name.to_string(),
        upstream: upstream.map(str::to_string),
        current,
    }
}

fn sources() -> PaletteSources {
    PaletteSources {
        scores: Vec::new(),
        symbols: vec![SymbolHit {
            name: "run".to_string(),
            detail: "fn in src".to_string(),
            kind: "function".to_string(),
            path: Some("/p/src/main.rs".to_string()),
            line: 11,
        }],
        commands: vec![
            Command {
                title: "Save".to_string(),
                group: "File".to_string(),
                shortcut: "S".to_string(),
                action: "saveDocument:".to_string(),
            },
            Command {
                title: "Undo".to_string(),
                group: "Edit".to_string(),
                shortcut: "Z".to_string(),
                action: "undo:".to_string(),
            },
        ],
        matches: vec![1, 0],
        files: vec![
            FileHit {
                row: None,
                path: Some("/p/gone".to_string()),
            },
            FileHit {
                row: Some(PaletteRow {
                    icon: Some(RowIcon::File("rust".to_string())),
                    title: "main.rs".to_string(),
                    detail: "src".to_string(),
                    shortcut: String::new(),
                }),
                path: Some("/p/src/main.rs".to_string()),
            },
        ],
    }
}

#[test]
fn branches_are_ranked_and_one_can_be_made() {
    assert_eq!(
        ranked(&vec![Some(1), None, Some(5), Some(1)]),
        vec![2, 0, 3]
    );
    let branches = vec![
        branch("main", Some("origin/main"), true),
        branch("fix", Some("origin/fix"), false),
        branch("try", None, false),
    ];
    let rows = branch_rows(&branches, &vec![Some(1), Some(9), Some(3)], " new ");
    let titles: Vec<&str> = rows.iter().map(|r| r.0.title.as_str()).collect();
    assert_eq!(
        titles,
        vec!["fix", "try", "main", "Create branch \u{201c}new\u{201d}"]
    );
    let details: Vec<&str> = rows.iter().map(|r| r.0.detail.as_str()).collect();
    assert_eq!(
        details,
        vec![
            "tracks origin/fix",
            "local only",
            "current branch",
            "from here, keeping your changes"
        ]
    );
    assert!(matches!(&rows[3].1, Pick::NewBranch(name) if name == "new"));
    let rows = branch_rows(&branches, &vec![Some(1), None, None], "main");
    assert_eq!(rows.len(), 1);
    assert!(matches!(&rows[0].1, Pick::Branch(name) if name == "main"));
}

#[test]
fn the_palette_lists_by_mode() {
    let all = sources();
    let rows = palette_rows(&None, &all, "@r", 50);
    assert_eq!(rows.len(), 1);
    assert!(matches!(&rows[0].1, Pick::Symbol(Some(p), 11) if p == "/p/src/main.rs"));
    assert!(matches!(&rows[0].0.icon, Some(RowIcon::Kind(kind)) if kind == "function"));
    let rows = palette_rows(&None, &all, ">u", 1);
    assert_eq!(rows.len(), 1);
    assert_eq!(rows[0].0.title, "Undo");
    assert_eq!(rows[0].0.detail, "Edit");
    assert!(matches!(&rows[0].1, Pick::Command(a) if a == "undo:"));
    let rows = palette_rows(&None, &all, "main", 50);
    assert_eq!(rows.len(), 1);
    assert!(matches!(&rows[0].1, Pick::File(p) if p == "/p/src/main.rs"));
    let mut all = sources();
    all.scores = vec![Some(2)];
    let rows = palette_rows(&Some(vec![branch("main", None, false)]), &all, "@", 50);
    assert_eq!(rows.len(), 2);
    assert_eq!(rows[0].0.title, "main");
}

#[test]
fn the_list_follows_the_selection() {
    assert_eq!(palette_follow(0, 12, 40, 10), 3);
    assert_eq!(palette_follow(5, 2, 40, 10), 2);
    assert_eq!(palette_follow(5, 7, 40, 10), 5);
}

#[test]
fn a_search_keeps_so_much() {
    assert!(is_searched(2 * 1024 * 1024));
    assert!(!is_searched(2 * 1024 * 1024 + 1));
    let text = b"fn a() {}\n    let b = a();\n".to_vec();
    let hit = hit_at("/p/a.rs", &text, 22, 23);
    assert_eq!(hit.line, 1);
    assert_eq!(hit.snippet, "let b = a();");
    let mut found = Vec::new();
    let matches: Vec<Edit> = (0..600)
        .map(|_| Edit {
            start: 0,
            end: 1,
            with: Vec::new(),
        })
        .collect();
    assert!(collect_hits(&mut found, "/p/a.rs", &text, &matches));
    assert_eq!(found.len(), 500);
}

#[test]
fn every_result_file_is_named_once() {
    let hits = vec![
        hit_in("/p/a.rs", 1),
        hit_in("/p/b.rs", 2),
        hit_in("/p/a.rs", 3),
    ];
    assert_eq!(distinct_files(&hits), vec!["/p/a.rs", "/p/b.rs"]);
    assert_eq!(
        name_list(&vec!["/p/a.rs".to_string(), "/q/b.rs".to_string()]),
        "a.rs, b.rs"
    );
    let question = replace_question(3, 1);
    assert_eq!(question.message, "Replace 3 matches in 1 file?");
    assert_eq!(
        question.detail,
        "Open files are changed in their tabs and can be undone there. \
         Files that are not open are saved to disk."
    );
    assert_eq!(question.buttons, vec!["Replace", "Cancel"]);
    assert_eq!(
        replace_question(1, 2).message,
        "Replace 1 match in 2 files?"
    );
}

fn searched(path: &str, bytes: u64, text: &str, matches: usize) -> SearchedFile {
    SearchedFile {
        path: path.to_string(),
        bytes: Some(bytes),
        text: Some(text.as_bytes().to_vec()),
        found: Ok((0..matches)
            .map(|i| Edit {
                start: i,
                end: i + 1,
                with: Vec::new(),
            })
            .collect()),
    }
}

#[test]
fn a_search_skips_what_is_no_text_or_too_large() {
    let mut binary = searched("/p/b", 3, "", 0);
    binary.text = None;
    binary.found = Err("not asked".to_string());
    let files = vec![
        searched("/p/a", 2, "ab", 2),
        binary,
        searched("/p/c", 2 * 1024 * 1024 + 1, "abc", 3),
        searched("/p/d", 2 * 1024 * 1024, "  d\n", 1),
    ];
    let hits = search_files(&files).expect("nothing failed");
    let places: Vec<_> = hits.iter().map(|h| (h.path.as_str(), h.start)).collect();
    assert_eq!(places, vec![("/p/a", 0), ("/p/a", 1), ("/p/d", 0)]);
    assert_eq!(hits[2].snippet, "d");
}

#[test]
fn a_search_ends_at_its_limit_or_at_an_error() {
    let text = "x".repeat(400);
    let mut broken = searched("/p/z", 3, "abc", 0);
    broken.found = Err("unclosed group".to_string());
    let full = vec![
        searched("/p/a", 400, &text, 400),
        searched("/p/b", 400, &text, 400),
        broken,
    ];
    assert_eq!(search_files(&full).map(|hits| hits.len()), Ok(500));
    let mut broken = searched("/p/z", 3, "abc", 0);
    broken.found = Err("unclosed group".to_string());
    let short = vec![searched("/p/a", 400, &text, 400), broken];
    assert_eq!(
        search_files(&short).map(|hits| hits.len()),
        Err("unclosed group".to_string())
    );
}

#[test]
fn the_parts_of_a_reply_are_called() {
    assert_eq!(
        crc_window::labels::segment_labels(12),
        vec!["Body", "Headers 12", "Request"]
    );
}

#[test]
fn blame_says_who_and_when() {
    assert_eq!(
        blame_note(&Some("Ada".to_string()), "2 days ago", "Fix it"),
        "Ada, 2 days ago: Fix it"
    );
    assert_eq!(blame_note(&None, "now", ""), "not committed yet");
}

#[test]
fn questions_name_the_document() {
    let b = at("/p/src/main.rs", "");
    assert_eq!(
        changes_question(&b).message,
        "Do you want to save the changes to \u{201c}main.rs\u{201d}?"
    );
    assert_eq!(
        changes_question(&Buffer::new(1)).message,
        "Do you want to save the changes to \u{201c}Untitled\u{201d}?"
    );
    assert_eq!(
        changes_question(&b).buttons,
        vec!["Save", "Cancel", "Don't Save"]
    );
    assert_eq!(
        revert_question(&b).message,
        "Revert \u{201c}main.rs\u{201d} to the saved version?"
    );
    assert_eq!(
        conflict_question(&b, false).buttons,
        vec!["Overwrite", "Cancel", "Reload"]
    );
    let restore = restore_question(&vec![Recovered {
        path: None,
        text: Vec::new(),
    }]);
    assert_eq!(restore.message, "crc quit unexpectedly.");
    assert_eq!(restore.buttons, vec!["Restore", "Discard"]);
}

#[test]
fn buttons_mean_what_they_say() {
    assert_eq!(discard_answer(0, true), Discard::Saved);
    assert_eq!(discard_answer(0, false), Discard::Cancel);
    assert_eq!(discard_answer(1, true), Discard::Cancel);
    assert_eq!(discard_answer(2, true), Discard::Dropped);
    assert_eq!(ask_about_conflict(0, false), Conflict::Overwrite);
    assert_eq!(ask_about_conflict(1, false), Conflict::Cancel);
    assert_eq!(ask_about_conflict(2, false), Conflict::Reload);
    assert!(ask_to_restore(None));
    assert!(ask_to_restore(Some("restore")));
    assert!(!ask_to_restore(Some("discard")));
}

#[test]
fn documents_show_as_their_kind() {
    let mut md = at("/p/a.md", "# A");
    md.extension = Some("md".to_string());
    assert!(wraps_by_default(&md));
    assert_eq!(default_preview(&md), Some(0));
    let mut rs = at("/p/a.rs", "");
    rs.extension = Some("rs".to_string());
    assert!(!wraps_by_default(&rs));
    assert_eq!(default_preview(&rs), None);
    assert_eq!(completion_language(&rs), "rs");
}

#[test]
fn indentation_is_read_from_the_text() {
    assert_eq!(indent_style(&b"a\n\tb\n".to_vec()), (false, 4));
    assert_eq!(indent_style(&b"a\n    b\n".to_vec()), (true, 4));
    assert_eq!(indent_style(&b"a\n  b\n".to_vec()), (true, 2));
    assert_eq!(indent_style(&Vec::new()), (true, 4));
}

#[test]
fn the_caret_changes_when_it_says_it_will() {
    let (on, left) = caret_phase(1100);
    let (later, _) = caret_phase(1100 + left);
    assert_ne!(on, later);
}

#[test]
fn the_sidebar_keeps_its_bounds() {
    assert_eq!(clamp_sidebar(0), 14_000);
    assert_eq!(clamp_sidebar(25_000), 25_000);
    assert_eq!(clamp_sidebar(90_000), 60_000);
}

#[test]
fn a_point_lands_on_what_was_named_first() {
    let rect = Rect {
        x: 0,
        y: 0,
        width: 1_000,
        height: 1_000,
    };
    let frame = vec![
        Region {
            hit: Hit::TabClose(1),
            rect,
        },
        Region {
            hit: Hit::Tab(1),
            rect: Rect {
                width: 2_000,
                ..rect
            },
        },
    ];
    assert_eq!(hit(&frame, 10, 10), Some(Hit::TabClose(1)));
    assert_eq!(hit(&frame, 1_500, 10), Some(Hit::Tab(1)));
    assert_eq!(hit(&frame, 2_000, 10), None);
}

#[test]
fn a_table_has_a_row_for_each_id() {
    let mut t: Table<u8> = Table::new();
    t.insert(3, 30);
    t.insert(4, 40);
    t.insert(3, 31);
    assert_eq!(t.get(3), Some(&31));
    assert_eq!(t.remove(3), Some(31));
    assert_eq!(t.get(3), None);
    assert!(t.contains(4));
}

#[test]
fn closed_documents_take_what_was_kept_for_them() {
    let mut map: HashMap<u64, u8> = HashMap::new();
    map.insert(3, 30);
    map.insert(4, 40);
    keep_only(&mut map, &vec![9, 4, 4]);
    assert_eq!(map.get(&4), Some(&40));
    assert_eq!(map.len(), 1);
}

fn problems(path: &str, resolved: Option<&str>, n: usize) -> FileProblems {
    FileProblems {
        path: path.to_string(),
        resolved: resolved.map(str::to_string),
        list: (0..n)
            .map(|_| Diagnostic {
                start_line: 0,
                end_line: 0,
                error: true,
                message: String::new(),
            })
            .collect(),
    }
}

#[test]
fn problems_come_in_the_order_of_their_files() {
    assert!(path_before("/p/a/b", "/p/a.b"));
    assert!(path_before("/p", "/p/a"));
    assert!(!path_before("/p/a", "/p/a/"));
    assert!(path_before("/z", "a"));
    let files = vec![
        problems("/p/z.rs", None, 1),
        problems("/p/a.rs", None, 0),
        problems("/p/m/x.rs", None, 2),
        problems("/p/m/x.rs", None, 1),
    ];
    assert_eq!(diagnostics(&files, &None), vec![2, 3, 0]);
    let wanted = Wanted {
        path: "/link/a.rs".to_string(),
        resolved: Some("/p/a.rs".to_string()),
    };
    let file = problems("/p/a.rs", Some("/p/a.rs"), 0);
    assert!(same_file(&wanted, &file));
    assert!(!same_file(&wanted, &files[1]));
    assert_eq!(
        diagnostics(&vec![file], &Some(wanted)),
        vec![0]
    );
}
