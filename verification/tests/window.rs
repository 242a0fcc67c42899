use crc_window::pacing::caret_phase;
use crc_window::path::valid_drop;
use crc_window::recovery::{restore_summary, Recovered};
use crc_window::text::{single_line, typed_text};

#[test]
fn the_restore_prompt_names_what_came_back() {
    let one = vec![Recovered {
        path: Some("/work/garden-log/src/main.rs".into()),
        text: Vec::new(),
    }];
    let text = restore_summary(&one);
    assert!(
        text.starts_with("Unsaved changes to 1 document were"),
        "{text}"
    );
    assert!(text.contains(": main.rs (in src)."), "{text}");

    let many: Vec<Recovered> = (0..10)
        .map(|n: i32| Recovered {
            path: if n > 0 {
                Some(format!("/notes/{n}.md"))
            } else {
                None
            },
            text: Vec::new(),
        })
        .collect();
    let text = restore_summary(&many);
    assert!(text.contains("10 documents"), "{text}");
    assert!(text.contains(": Untitled, 1.md (in notes),"), "{text}");
    assert!(text.contains("7.md (in notes) and 2 more."), "{text}");
}

#[test]
fn the_caret_is_solid_after_input_then_blinks() {
    assert_eq!(caret_phase(0), (true, 530));
    assert_eq!(caret_phase(529), (true, 1));
    assert_eq!(caret_phase(530), (false, 530));
    assert_eq!(caret_phase(1100), (true, 490));
}

#[test]
fn keys_without_a_character_type_nothing() {
    // F5, Help, Insert, keypad Clear: AppKit's private-use code points.
    for key in ['\u{f708}', '\u{f746}', '\u{f727}', '\u{f739}'] {
        assert_eq!(typed_text(&key.to_string()), "", "{key:?}");
    }
    // Control characters, keypad Enter's U+0003 among them.
    assert_eq!(typed_text("\u{3}\r\t\u{1b}"), "");
    // Everything that is text stays, what sits near that block too.
    assert_eq!(
        typed_text("a\u{e9}\u{65e5}\u{1f600}"),
        "a\u{e9}\u{65e5}\u{1f600}"
    );
    assert_eq!(typed_text("\u{f6ff}\u{f900}"), "\u{f6ff}\u{f900}");
}

#[test]
fn a_paste_into_a_field_keeps_its_first_line() {
    assert_eq!(single_line("needle\nand the rest"), "needle");
    assert_eq!(single_line("tab\there\r\n"), "tabhere");
    assert_eq!(single_line(""), "");
    assert_eq!(single_line("\nsecond"), "");
}

#[test]
fn a_folder_cannot_be_dropped_into_itself_or_its_own_subtree() {
    let src = "/p/src";
    assert!(!valid_drop(src, src), "onto itself");
    assert!(!valid_drop(src, "/p/src/render"), "into a child");
    assert!(!valid_drop(src, "/p/src/render/font"), "into a grandchild");
}

#[test]
fn an_item_cannot_be_dropped_where_it_already_is() {
    assert!(!valid_drop("/p/src/main.rs", "/p/src"));
    assert!(!valid_drop("/p/src", "/p"));
}

#[test]
fn a_real_move_is_allowed() {
    assert!(valid_drop("/p/src/main.rs", "/p/docs"));
    assert!(valid_drop("/p/docs", "/p/src"));
    assert!(valid_drop("/p/a/deep/file.rs", "/p"));
}

/// A sibling whose name merely starts with the source's is not inside it.
/// A prefix test on strings would refuse this; whole components are compared.
#[test]
fn a_similarly_named_sibling_is_not_a_subtree() {
    assert!(valid_drop("/p/src", "/p/src-generated"));
}
