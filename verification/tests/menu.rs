use crc_window::keys::Modifiers;
use crc_window::menu::{
    editor_context_menu, install_menu, menu_action_for, project_menu, sidebar_item_menu, tab_menu,
    Action, Entry, Menu, MenuItem,
};

const NONE: Modifiers = Modifiers {
    command: false,
    shift: false,
    option: false,
    control: false,
};

fn command() -> Modifiers {
    Modifiers {
        command: true,
        ..NONE
    }
}

fn shifted() -> Modifiers {
    Modifiers {
        command: true,
        shift: true,
        ..NONE
    }
}

fn optioned() -> Modifiers {
    Modifiers {
        command: true,
        option: true,
        ..NONE
    }
}

fn titles(menu: &Menu) -> Vec<&str> {
    menu.entries
        .iter()
        .map(|entry| match entry {
            Entry::Item(item) => item.title.as_str(),
            Entry::Separator => "-",
        })
        .collect()
}

#[test]
fn the_keys_of_the_menu_bar_run_its_commands() {
    let bar = install_menu("Assistant");
    let run = |chars: &str, flags: Modifiers| menu_action_for(&bar, chars, flags);
    assert_eq!(run("n", command()), Some(Action::NewDocument));
    assert_eq!(run("o", command()), Some(Action::OpenDocument));
    assert_eq!(run("o", shifted()), Some(Action::OpenFolder));
    assert_eq!(run("s", command()), Some(Action::SaveDocument));
    assert_eq!(run("s", shifted()), Some(Action::SaveDocumentAs));
    assert_eq!(run("z", command()), Some(Action::Undo));
    assert_eq!(run("z", shifted()), Some(Action::Redo));
    assert_eq!(run("f", command()), Some(Action::PerformFindPanelAction));
    assert_eq!(run("f", shifted()), Some(Action::FindInProject));
    assert_eq!(run("p", command()), Some(Action::OpenQuickly));
    assert_eq!(run("d", command()), Some(Action::SelectNextOccurrence));
    assert_eq!(run("d", shifted()), Some(Action::DuplicateLines));
    assert_eq!(run("l", command()), Some(Action::GoToLine));
    assert_eq!(run("b", command()), Some(Action::ToggleSidebar));
    assert_eq!(run("\\", command()), Some(Action::SplitEditor));
    assert_eq!(run("w", optioned()), Some(Action::ClosePane));
    assert_eq!(run("g", optioned()), Some(Action::ShowSourceControl));
    assert_eq!(run("c", shifted()), Some(Action::OpenClaude));
    assert_eq!(run("j", command()), Some(Action::ToggleTerminal));
    assert_eq!(run(",", command()), Some(Action::OpenSettings));
    assert_eq!(run("=", command()), Some(Action::ZoomIn));
    assert_eq!(run("-", command()), Some(Action::ZoomOut));
    assert_eq!(run("0", command()), Some(Action::ZoomActual));
    assert_eq!(run("w", command()), Some(Action::CloseTabOrWindow));
    assert_eq!(run("q", command()), Some(Action::Terminate));
    assert_eq!(run("S", command()), Some(Action::SaveDocument));
    assert_eq!(run("s", NONE), None);
    assert_eq!(run("", command()), None);
    assert_eq!(run("y", command()), None);
}

#[test]
fn no_two_items_of_the_menu_bar_share_a_key() {
    let bar = install_menu("Assistant");
    let mut seen: Vec<(String, Modifiers)> = Vec::new();
    for menu in &bar {
        for entry in &menu.entries {
            if let Entry::Item(item) = entry {
                if !item.key.is_empty() {
                    let key = (item.key.clone(), item.mask);
                    assert!(!seen.contains(&key), "{}", item.title);
                    seen.push(key);
                }
            }
        }
    }
    assert!(seen.len() > 40);
}

#[test]
fn a_capital_letter_wants_shift() {
    let item = |key: &str| {
        vec![Menu {
            title: "Menu".to_string(),
            entries: vec![
                Entry::Separator,
                Entry::Item(MenuItem {
                    title: "Item".to_string(),
                    key: key.to_string(),
                    mask: command(),
                    action: Action::Undo,
                }),
            ],
            services: true,
        }]
    };
    assert_eq!(menu_action_for(&item("T"), "t", shifted()), Some(Action::Undo));
    assert_eq!(menu_action_for(&item("T"), "t", command()), None);
    assert_eq!(menu_action_for(&item("t"), "t", command()), Some(Action::Undo));
    assert_eq!(menu_action_for(&item("t"), "t", shifted()), None);
    assert_eq!(
        menu_action_for(&item("\u{c9}"), "\u{c9}", shifted()),
        Some(Action::Undo)
    );
    assert_eq!(menu_action_for(&item("\u{e9}"), "\u{e9}", shifted()), None);
}

#[test]
fn the_menu_bar_has_its_menus_in_order() {
    let bar = install_menu("Assistant");
    let names: Vec<&str> = bar.iter().map(|m| m.title.as_str()).collect();
    assert_eq!(names[0], "crc");
    assert_eq!(names[1], "File");
    assert_eq!(names[2], "Edit");
    assert_eq!(
        titles(&bar[0]),
        vec![
            "About crc",
            "-",
            "Settings\u{2026}",
            "-",
            "Hide crc",
            "-",
            "Quit crc"
        ]
    );
}

#[test]
fn context_menus_offer_what_fits() {
    assert_eq!(
        titles(&tab_menu()),
        vec![
            "Close Tab",
            "Close Other Tabs",
            "Close All Tabs",
            "-",
            "Move Tab Left",
            "Move Tab Right",
            "-",
            "Copy Path",
            "Reveal in Finder"
        ]
    );
    assert_eq!(titles(&project_menu())[0], "New File\u{2026}");
    assert!(!project_menu().services);
    assert!(titles(&sidebar_item_menu()).contains(&"Move to Trash"));
    assert!(titles(&editor_context_menu()).contains(&"Paste"));
}
