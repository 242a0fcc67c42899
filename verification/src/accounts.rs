//! What lists and texts say of what they are about: each entry of a list that
//! is looked up, and each note that counts or names something.
use crate::buffer::{self, Buffer, Edit};
use crate::claude::Review;
use crate::clicks;
use crate::completion;
use crate::cursors::{self, CursorRect, Pointer};
use crate::diagnostics;
use crate::disk;
use crate::documents;
use crate::edit;
use crate::events;
use crate::files;
use crate::find;
use crate::formatting;
use crate::frame::{Hit, Rect, Region};
use crate::host;
use crate::jump;
use crate::labels;
use crate::link;
use crate::palette::{self, PaletteMode};
use crate::panes::PaneStore;
use crate::path;
use crate::project_search;
use crate::readout::{self, Detail};
use crate::render::Diagnostic;
use crate::replace;
use crate::recovery::{self, Recovered};
use crate::rename::{self, FileEdits, Renamed};
use crate::sessions;
use crate::state::{self, State};
use crate::tabs;
use crate::text;
use crate::trash;
use vstd::prelude::*;

verus! {

/// The diagnostic shown for a line is about it, and none before it in the list
/// is; there is one whenever some diagnostic is about the line.
pub proof fn the_first_trouble_of_a_line_is_shown(list: Seq<Diagnostic>, line: int, i: int)
    requires
        0 <= i < list.len(),
        list[i].start_line <= line <= list[i].end_line,
    ensures
        readout::diagnostic_at(list, line) matches Some(at) && 0 <= at <= i
            && list[at].start_line <= line <= list[at].end_line,
    decreases list.len(),
{
    if i < list.len() - 1 {
        assert(list.drop_last()[i] == list[i]);
        the_first_trouble_of_a_line_is_shown(list.drop_last(), line, i);
    } else if let Some(at) = readout::diagnostic_at(list.drop_last(), line) {
        trouble_is_about_its_line(list.drop_last(), line);
    }
}

/// A line that no diagnostic is about has none shown.
pub proof fn a_line_without_trouble_shows_none(list: Seq<Diagnostic>, line: int)
    requires
        forall|i: int|
            0 <= i < list.len() ==> !((#[trigger] list[i]).start_line <= line
                <= list[i].end_line),
    ensures
        readout::diagnostic_at(list, line) is None,
    decreases list.len(),
{
    if list.len() > 0 {
        assert forall|i: int| 0 <= i < list.drop_last().len() implies !((
        #[trigger] list.drop_last()[i]).start_line <= line <= list.drop_last()[i].end_line) by {
            assert(list.drop_last()[i] == list[i]);
        }
        a_line_without_trouble_shows_none(list.drop_last(), line);
    }
}

/// What is found is in the list and about the line.
proof fn trouble_is_about_its_line(list: Seq<Diagnostic>, line: int)
    ensures
        readout::diagnostic_at(list, line) matches Some(at) ==> 0 <= at < list.len()
            && list[at].start_line <= line <= list[at].end_line,
    decreases list.len(),
{
    if list.len() > 0 {
        trouble_is_about_its_line(list.drop_last(), line);
    }
}

/// The errors and the rest make up the list.
pub proof fn the_errors_are_counted(list: Seq<Diagnostic>)
    ensures
        readout::error_count(list) == list.filter(|d: Diagnostic| d.error).len(),
        readout::error_count(list) + list.filter(|d: Diagnostic| !d.error).len() == list.len(),
    decreases list.len(),
{
    reveal(Seq::filter);
    if list.len() > 0 {
        the_errors_are_counted(list.drop_last());
    }
}

/// The chip that is pressed lies under the pointer, and none before it does.
pub proof fn the_first_chip_is_pressed(options: Seq<Rect>, x: i32, y: i32, i: int)
    requires
        0 <= i < options.len(),
        options[i].has(x, y),
    ensures
        clicks::chip_at(options, x, y) matches Some(at) && 0 <= at <= i && options[at].has(x, y),
    decreases options.len(),
{
    if i < options.len() - 1 {
        assert(options.drop_last()[i] == options[i]);
        the_first_chip_is_pressed(options.drop_last(), x, y, i);
    } else {
        a_pressed_chip_is_there(options.drop_last(), x, y);
    }
}

/// A chip that is pressed is one of them, under the pointer.
proof fn a_pressed_chip_is_there(options: Seq<Rect>, x: i32, y: i32)
    ensures
        clicks::chip_at(options, x, y) matches Some(at) ==> 0 <= at < options.len()
            && options[at].has(x, y),
    decreases options.len(),
{
    if options.len() > 0 {
        a_pressed_chip_is_there(options.drop_last(), x, y);
    }
}

/// The match counted from is the first that starts at the caret or after it.
pub proof fn matches_are_counted_from_the_caret(found: Seq<Edit>, cursor: int, i: int)
    requires
        0 <= i < found.len(),
        found[i].start >= cursor,
    ensures
        labels::match_from(found, cursor) matches Some(at) && 0 <= at <= i && found[at].start
            >= cursor,
    decreases found.len(),
{
    if i < found.len() - 1 {
        assert(found.drop_last()[i] == found[i]);
        matches_are_counted_from_the_caret(found.drop_last(), cursor, i);
    } else {
        a_counted_match_is_ahead(found.drop_last(), cursor);
    }
}

/// The match counted from is one of them and ahead of the caret.
proof fn a_counted_match_is_ahead(found: Seq<Edit>, cursor: int)
    ensures
        labels::match_from(found, cursor) matches Some(at) ==> 0 <= at < found.len()
            && found[at].start >= cursor,
    decreases found.len(),
{
    if found.len() > 0 {
        a_counted_match_is_ahead(found.drop_last(), cursor);
    }
}

/// The assistant finds a review by the name of its tab.
pub proof fn a_review_is_found_by_its_tab(rows: Seq<(u64, Review)>, name: Seq<char>)
    ensures
        host::tab_named(rows, name) matches Some(id) ==> exists|i: int|
            0 <= i < rows.len() && (#[trigger] rows[i]).0 == id && rows[i].1.tab_name@ == name,
        host::tab_named(rows, name) is None ==> forall|i: int|
            0 <= i < rows.len() ==> (#[trigger] rows[i]).1.tab_name@ != name,
    decreases rows.len(),
{
    if rows.len() > 0 {
        let head = rows.drop_last();
        a_review_is_found_by_its_tab(head, name);
        match host::tab_named(head, name) {
            Some(id) => {
                let i = choose|i: int|
                    0 <= i < head.len() && (#[trigger] head[i]).0 == id && head[i].1.tab_name@
                        == name;
                assert(rows[i] == head[i]);
            },
            None => {
                assert forall|i: int| 0 <= i < rows.len() - 1 implies (
                #[trigger] rows[i]).1.tab_name@ != name by {
                    assert(head[i] == rows[i]);
                }
                assert(rows[rows.len() - 1] == rows.last());
            },
        }
    }
}

/// The variables kept from a session are those that mark the assistant's own
/// process, and no others.
pub proof fn the_markers_are_found(names: Seq<String>, i: int)
    requires
        0 <= i < names.len(),
    ensures
        sessions::markers(names) == names.filter(|n: String| sessions::is_marker(n@)),
        sessions::is_marker("CLAUDECODE"@),
        "CLAUDE_CODE_"@.is_prefix_of(names[i]@) ==> sessions::is_marker(names[i]@),
{
    the_markers_are_filtered(names);
}

/// Finding the markers is filtering.
proof fn the_markers_are_filtered(names: Seq<String>)
    ensures
        sessions::markers(names) == names.filter(|n: String| sessions::is_marker(n@)),
    decreases names.len(),
{
    reveal(Seq::filter);
    if names.len() > 0 {
        the_markers_are_filtered(names.drop_last());
    }
}

/// Whether `part` stands in `whole` at `k`.
pub open spec fn stands_at(whole: Seq<char>, part: Seq<char>, k: int) -> bool {
    &&& 0 <= k
    &&& k + part.len() <= whole.len()
    &&& whole.subrange(k, k + part.len()) == part
}

/// Whether `part` stands somewhere in `whole`.
pub open spec fn says(whole: Seq<char>, part: Seq<char>) -> bool {
    exists|k: int| #[trigger] stands_at(whole, part, k)
}

/// What a text says it still says with more around it.
proof fn still_said(before: Seq<char>, whole: Seq<char>, after: Seq<char>, part: Seq<char>)
    requires
        says(whole, part),
    ensures
        says(before + whole + after, part),
{
    let k = choose|k: int| #[trigger] stands_at(whole, part, k);
    let all = before + whole + after;
    let at = before.len() + k;
    assert(all.subrange(at, at + part.len()) =~= whole.subrange(k, k + part.len()));
    assert(stands_at(all, part, at));
}

/// A text says what is put together with something after it.
proof fn says_its_beginning(part: Seq<char>, after: Seq<char>)
    ensures
        says(part + after, part),
{
    assert((part + after).subrange(0, part.len() as int) =~= part);
    assert(stands_at(part + after, part, 0));
}

/// A text says itself.
proof fn says_itself(part: Seq<char>)
    ensures
        says(part, part),
{
    says_its_beginning(part, Seq::empty());
    assert(part + Seq::<char>::empty() =~= part);
}

/// A list of files says the name of each of them that has one.
pub proof fn every_file_is_named(files: Seq<String>, i: int)
    requires
        0 <= i < files.len(),
    ensures
        path::file_name_of(files[i]@) matches Some(name) ==> says(
            project_search::named(files),
            name,
        ),
    decreases files.len(),
{
    if let Some(name) = path::file_name_of(files[i]@) {
        let head = project_search::named(files.drop_last());
        let all = project_search::named(files);
        if i < files.len() - 1 {
            assert(files.drop_last()[i] == files[i]);
            every_file_is_named(files.drop_last(), i);
            match path::file_name_of(files.last()@) {
                None => {},
                Some(last) => {
                    if head.len() == 0 {
                        assert(name.len() == 0);
                        assert(name =~= Seq::empty());
                        says_its_beginning(name, all);
                        assert(name + all =~= all);
                    } else {
                        a_longer_list_says_it(head, last, name);
                    }
                },
            }
        } else {
            says_itself(name);
            if head.len() > 0 {
                a_longer_list_says_it(head, name, name);
            }
        }
    }
}

/// The prompt about recovered documents says how each of those it lists is
/// named, and how many there are when there is more than one.
pub proof fn every_recovered_document_is_named(documents: Seq<Recovered>, i: int)
    requires
        0 <= i < documents.len(),
        i < recovery::LISTED,
    ensures
        says(recovery::summary(documents), recovery::named(documents[i])),
        documents.len() > 1 ==> says(
            recovery::summary(documents),
            text::decimal_digits(documents.len()),
        ),
        documents.len() > recovery::LISTED ==> says(
            recovery::summary(documents),
            text::decimal_digits((documents.len() - recovery::LISTED) as nat),
        ),
{
    let few = recovery::first_listed(documents);
    let n = documents.len() as int;
    let all = recovery::summary(documents);
    let start = recovery::how_many(n) + " written to disk as the app went down: "@;
    let listed = recovery::listed(few);
    let tail = recovery::and_more(n) + recovery::choice();
    assert(few[i] == documents[i]);
    every_listed_document_is_named(few, i);
    still_said(start, listed, tail, recovery::named(documents[i]));
    assert(start + listed + tail =~= all);
    if n > 1 {
        let digits = text::decimal_digits(n as nat);
        says_itself(digits);
        let rest = " documents were"@ + " written to disk as the app went down: "@ + listed + tail;
        still_said("Unsaved changes to "@, digits, rest, digits);
        assert("Unsaved changes to "@ + digits + rest =~= all);
    }
    if n > recovery::LISTED {
        let digits = text::decimal_digits((n - recovery::LISTED) as nat);
        says_itself(digits);
        still_said(
            start + listed + " and "@,
            digits,
            " more"@ + recovery::choice(),
            digits,
        );
        assert(start + listed + " and "@ + digits + (" more"@ + recovery::choice()) =~= all);
    }
}

/// A list says how each of its documents is named.
proof fn every_listed_document_is_named(list: Seq<Recovered>, i: int)
    requires
        0 <= i < list.len(),
    ensures
        says(recovery::listed(list), recovery::named(list[i])),
    decreases list.len(),
{
    let name = recovery::named(list[i]);
    if list.len() == 1 {
        says_itself(name);
    } else {
        if i < list.len() - 1 {
            assert(list.drop_last()[i] == list[i]);
            every_listed_document_is_named(list.drop_last(), i);
        }
        a_longer_list_says_it(
            recovery::listed(list.drop_last()),
            recovery::named(list.last()),
            name,
        );
    }
}

/// A list with one more says what it said, and the one more.
proof fn a_longer_list_says_it(head: Seq<char>, last: Seq<char>, part: Seq<char>)
    requires
        says(head, part) || last == part,
    ensures
        says(head + ", "@ + last, part),
{
    if last == part {
        says_itself(part);
        still_said(head + ", "@, last, Seq::empty(), part);
        assert(head + ", "@ + last + Seq::<char>::empty() =~= head + ", "@ + last);
    } else {
        still_said(Seq::empty(), head, ", "@ + last, part);
        assert(Seq::<char>::empty() + head + (", "@ + last) =~= head + ", "@ + last);
    }
}

/// Whether a region is one that is pressed, with something of it to see.
pub open spec fn is_pressable(region: Region) -> bool {
    &&& region.rect.width > 0
    &&& region.rect.height > 0
    &&& match region.hit {
        Hit::Tab(_) | Hit::TabClose(_) | Hit::TerminalTab(_) | Hit::TerminalClose(_) => true,
        Hit::ToolbarSidebar | Hit::ToolbarProject | Hit::ToolbarSearch => true,
        Hit::ToolbarTerminal | Hit::TerminalNew | Hit::SidebarExplorer => true,
        Hit::SidebarSourceControl | Hit::SidebarAction(_) | Hit::ResponseSegment(_) => true,
        Hit::ReviewAccept | Hit::ReviewReject => true,
        _ => false,
    }
}

/// The pointer is a hand over each button that can be seen, and only there.
pub proof fn the_pointer_is_a_hand_over_buttons(frame: Seq<Region>)
    ensures
        forall|i: int|
            0 <= i < frame.len() && is_pressable(#[trigger] frame[i])
                ==> cursors::buttons_shown(frame).contains(
                CursorRect { rect: frame[i].rect, pointer: Pointer::Hand },
            ),
        forall|k: int|
            0 <= k < cursors::buttons_shown(frame).len() ==> exists|i: int|
                0 <= i < frame.len() && is_pressable(#[trigger] frame[i])
                    && #[trigger] cursors::buttons_shown(frame)[k] == (CursorRect {
                    rect: frame[i].rect,
                    pointer: Pointer::Hand,
                }),
    decreases frame.len(),
{
    if frame.len() > 0 {
        let head = frame.drop_last();
        the_pointer_is_a_hand_over_buttons(head);
        let before = cursors::buttons_shown(head);
        let all = cursors::buttons_shown(frame);
        assert forall|i: int| 0 <= i < frame.len() && is_pressable(
            #[trigger] frame[i],
        ) implies all.contains(CursorRect { rect: frame[i].rect, pointer: Pointer::Hand }) by {
            let wanted = CursorRect { rect: frame[i].rect, pointer: Pointer::Hand };
            if i < head.len() {
                assert(head[i] == frame[i]);
                let k = before.index_of(wanted);
                assert(all[k] == wanted);
            } else {
                assert(all.last() == wanted);
            }
        }
        assert forall|k: int| 0 <= k < all.len() implies exists|i: int|
            0 <= i < frame.len() && is_pressable(#[trigger] frame[i]) && #[trigger] all[k] == (
            CursorRect { rect: frame[i].rect, pointer: Pointer::Hand }) by {
            if k < before.len() {
                assert(all[k] == before[k]);
                let i = choose|i: int|
                    0 <= i < head.len() && is_pressable(#[trigger] head[i]) && before[k] == (
                    CursorRect { rect: head[i].rect, pointer: Pointer::Hand });
                assert(frame[i] == head[i]);
            } else {
                assert(frame[frame.len() - 1] == frame.last());
            }
        }
    }
}

/// The first word has no space in it, and a space or nothing follows it.
pub proof fn the_first_word_ends_at_a_space(s: Seq<char>)
    ensures
        completion::first_word(s).is_prefix_of(s),
        forall|i: int|
            0 <= i < completion::first_word(s).len() ==> #[trigger] completion::first_word(s)[i]
                != ' ',
        completion::first_word(s).len() < s.len() ==> s[completion::first_word(s).len() as int]
            == ' ',
    decreases s.len(),
{
    if s.len() > 0 && s[0] != ' ' {
        let rest = s.drop_first();
        the_first_word_ends_at_a_space(rest);
        let word = completion::first_word(rest);
        let all = completion::first_word(s);
        assert(all =~= seq![s[0]] + word);
        assert forall|i: int| 0 <= i < all.len() implies all[i] == s[i] by {
            if i > 0 {
                assert(word[i - 1] == rest[i - 1]);
            }
        }
        assert forall|i: int| 0 <= i < all.len() implies #[trigger] all[i] != ' ' by {
            if i > 0 {
                assert(all[i] == word[i - 1]);
            }
        }
        assert(all =~= s.subrange(0, all.len() as int));
    }
}

/// The stem of a name and what is left of it make up the name; what is left is
/// nothing or the extension with its dot, and a name that only begins with a
/// dot has none.
pub proof fn a_name_is_its_stem_and_extension(stem: Seq<char>, extension: Seq<char>)
    requires
        stem.len() > 0,
        !extension.contains('.'),
    ensures
        path::stem_of(stem + seq!['.'] + extension) == stem,
        path::stem_of(seq!['.'] + extension) == seq!['.'] + extension,
        path::stem_of(extension) == extension,
{
    a_dot_is_found(stem, extension);
    a_dot_is_found(Seq::empty(), extension);
    assert(Seq::<char>::empty() + seq!['.'] + extension =~= seq!['.'] + extension);
    assert((stem + seq!['.'] + extension).take(stem.len() as int) =~= stem);
    no_dot_is_found(extension);
}

/// The last dot is the one after which there is none.
proof fn a_dot_is_found(before: Seq<char>, after: Seq<char>)
    requires
        !after.contains('.'),
    ensures
        path::last_dot(before + seq!['.'] + after) == before.len(),
    decreases after.len(),
{
    let all = before + seq!['.'] + after;
    if after.len() > 0 {
        let shorter = after.drop_last();
        assert(all.last() == after[after.len() - 1]);
        assert forall|c: char| shorter.contains(c) implies after.contains(c) by {
            let k = shorter.index_of(c);
            assert(after[k] == c);
        }
        assert(all.drop_last() =~= before + seq!['.'] + shorter);
        a_dot_is_found(before, shorter);
    } else {
        assert(all.last() == '.');
    }
}

/// A text without a dot has none.
proof fn no_dot_is_found(s: Seq<char>)
    requires
        !s.contains('.'),
    ensures
        path::last_dot(s) == -1,
    decreases s.len(),
{
    if s.len() > 0 {
        let shorter = s.drop_last();
        assert(s.contains(s.last()));
        assert forall|c: char| shorter.contains(c) implies s.contains(c) by {
            let k = shorter.index_of(c);
            assert(s[k] == c);
        }
        no_dot_is_found(shorter);
    }
}

/// The first character of a query says what is looked for.
pub proof fn a_query_says_what_is_looked_for(rest: Seq<char>, c: char)
    ensures
        palette::mode_of(seq!['@'] + rest, false) is DocumentSymbols,
        palette::mode_of(seq!['#'] + rest, false) == PaletteMode::ProjectSymbols(rest.len() > 0),
        palette::mode_of(seq!['>'] + rest, false) is Commands,
        c != '@' && c != '#' && c != '>' ==> palette::mode_of(seq![c] + rest, false) is Files,
        palette::mode_of(Seq::empty(), false) is Files,
        palette::mode_of(rest, true) is Branches,
{
    assert((seq!['@'] + rest)[0] == '@');
    assert((seq!['#'] + rest)[0] == '#');
    assert((seq!['>'] + rest)[0] == '>');
    assert((seq![c] + rest)[0] == c);
}

/// Whether `b` has unsaved changes and its file lies in `folder`.
pub open spec fn is_unsaved_in(b: Buffer, folder: Seq<char>) -> bool {
    &&& b.dirty
    &&& b.path matches Some(own)
    &&& path::parent_of(own@) matches Some(parent)
    &&& path::same_path(parent, folder)
}

/// A document with unsaved changes in a folder is noticed before the folder is
/// thrown away, whichever pane it is in.
pub proof fn unsaved_work_is_noticed(s: State, folder: Seq<char>, p: int, i: int)
    ensures
        0 <= i < s.pane.docs.list@.len() && is_unsaved_in(s.pane.docs.list@[i], folder)
            ==> trash::unsaved_under(s, folder),
        0 <= p < s.panes@.len() && 0 <= i < s.panes@[p].docs.list@.len() && is_unsaved_in(
            s.panes@[p].docs.list@[i],
            folder,
        ) ==> trash::unsaved_under(s, folder),
{
    if 0 <= i < s.pane.docs.list@.len() && is_unsaved_in(s.pane.docs.list@[i], folder) {
        a_file_is_within_its_folder(s.pane.docs.list@[i].path->0@, folder);
    }
    if 0 <= p < s.panes@.len() && 0 <= i < s.panes@[p].docs.list@.len() && is_unsaved_in(
        s.panes@[p].docs.list@[i],
        folder,
    ) {
        a_file_is_within_its_folder(s.panes@[p].docs.list@[i].path->0@, folder);
        assert(s.panes@[p].docs.dirty_under(folder));
    }
}

/// What lies in a folder is within it.
proof fn a_file_is_within_its_folder(place: Seq<char>, folder: Seq<char>)
    requires
        path::parent_of(place) is Some,
        path::same_path(path::parent_of(place)->0, folder),
    ensures
        path::is_within(place, folder),
{
    path::parent_drops_the_last(place);
}

/// Every document in every pane counts as open, and nothing else does.
pub proof fn every_document_counts_as_open(s: State, p: int, i: int)
    ensures
        0 <= i < s.pane.docs.list@.len() ==> state::is_open_in(s, s.pane.docs.list@[i].id),
        0 <= p < s.panes@.len() && 0 <= i < s.panes@[p].docs.list@.len() ==> state::is_open_in(
            s,
            s.panes@[p].docs.list@[i].id,
        ),
{
    if 0 <= p < s.panes@.len() && 0 <= i < s.panes@[p].docs.list@.len() {
        assert(s.panes@[p].docs.list@[i].id == s.panes@[p].docs.list@[i].id);
    }
}

/// A full path is looked for where it says; another one in the folder of what
/// refers to it first, and then in the project.
pub proof fn a_reference_is_looked_for_nearby_first(
    s: Seq<char>,
    home: Option<Seq<char>>,
    cwd: Seq<char>,
    root: Option<Seq<char>>,
)
    ensures
        s.len() > 0 && s[0] == '/' ==> jump::candidates(s, home, cwd, root) == seq![s],
        s.len() > 0 && s[0] != '/' && s[0] != '~' && cwd.len() > 0 && cwd.last() != '/' ==> jump::candidates(
            s,
            home,
            cwd,
            root,
        )[0] == cwd + seq!['/'] + s,
        s.len() > 0 && s[0] != '/' && s[0] != '~' ==> jump::candidates(s, home, cwd, root).len() == (
        if root is Some {
            2nat
        } else {
            1nat
        }),
        s.len() > 0 && s[0] != '/' && s[0] != '~' ==> (root matches Some(folder) ==> (folder.len() > 0
            && folder.last() != '/' ==> jump::candidates(s, home, cwd, root)[1] == folder + seq!['/']
            + s)),
{
}

/// What has been noticed on the disk is said; nothing is said of nothing. A
/// file on its own is named, and none that is in conflict or gone is passed
/// off as reloaded.
pub proof fn what_is_noticed_is_said(
    reloaded: Seq<Seq<char>>,
    conflicts: Seq<Seq<char>>,
    gone: Seq<Seq<char>>,
)
    ensures
        disk::disk_note(reloaded, conflicts, gone) is None <==> reloaded.len() + conflicts.len()
            + gone.len() == 0,
        reloaded.len() == 1 && conflicts.len() + gone.len() == 0 ==> says(
            disk::disk_note(reloaded, conflicts, gone)->0,
            reloaded[0],
        ),
        reloaded.len() > 1 && conflicts.len() + gone.len() == 0 ==> says(
            disk::disk_note(reloaded, conflicts, gone)->0,
            text::decimal_digits(reloaded.len()),
        ),
        conflicts.len() == 1 && gone.len() == 0 ==> says(
            disk::disk_note(reloaded, conflicts, gone)->0,
            conflicts[0],
        ),
        conflicts.len() == 0 && gone.len() == 1 ==> says(
            disk::disk_note(reloaded, conflicts, gone)->0,
            gone[0],
        ),
{
    if conflicts.len() == 0 && gone.len() == 0 {
        if reloaded.len() == 1 {
            says_its_beginning(reloaded[0], " changed on disk, reloaded"@);
        }
        says_its_beginning(
            text::decimal_digits(reloaded.len()),
            " files changed on disk, reloaded"@,
        );
    }
    if conflicts.len() == 1 {
        says_its_beginning(
            conflicts[0],
            " changed on disk; you have unsaved changes, Save will ask"@,
        );
    }
    if gone.len() == 1 {
        says_its_beginning(gone[0], " was deleted on disk"@);
    }
}

/// A note that has not stood for its time is what the status line says. After
/// it, what is wrong on the caret's line; and when nothing is, the name of the
/// document and whether it is saved.
pub proof fn the_status_line_says_what_matters_most(
    s: State,
    list: Seq<Diagnostic>,
    unshaped: bool,
    now: u64,
)
    ensures
        s.status.message matches Some(note) ==> (now < note.at + link::NOTE_TIME ==> readout::status_words(
            s,
            list,
            unshaped,
            now,
        ) == note.text@),
        s.status.message is None && list.len() == 0 ==> says(
            readout::status_words(s, list, unshaped, now),
            readout::called(s.pane.docs.front()),
        ),
        s.status.message is None && list.len() == 0 && s.pane.docs.front().dirty
            && !s.pane.docs.front().read_only ==> says(
            readout::status_words(s, list, unshaped, now),
            "Unsaved changes"@,
        ),
        s.status.message is None && list.len() == 0 && !s.pane.docs.front().dirty
            && !s.pane.docs.front().read_only ==> says(
            readout::status_words(s, list, unshaped, now),
            "All changes saved"@,
        ),
{
    let front = s.pane.docs.front();
    let tail = (if unshaped {
        "   Long lines drawn without shaping"@
    } else {
        ""@
    }) + readout::blame_words(s);
    let name = readout::called(front);
    let saved = readout::saved_words(front);
    says_its_beginning(name, "   "@ + saved + tail);
    assert(name + ("   "@ + saved + tail) =~= name + "   "@ + saved + tail);
    says_itself(saved);
    still_said(name + "   "@, saved, tail, saved);
}

/// Who changed a line last is said of that line only, and of that document.
pub proof fn blame_is_about_the_carets_line(s: State)
    ensures
        s.gutter.blame matches Some(blame) ==> (blame.place.buffer == s.pane.docs.front().id
            && blame.place.line == buffer::line_at(
            s.pane.docs.front().text@,
            s.pane.docs.front().cursor as int,
        ) ==> says(readout::blame_words(s), blame.text@)),
        s.gutter.blame matches Some(blame) ==> (blame.place.buffer != s.pane.docs.front().id
            || blame.place.line != buffer::line_at(
            s.pane.docs.front().text@,
            s.pane.docs.front().cursor as int,
        ) ==> readout::blame_words(s) == ""@),
        s.gutter.blame is None ==> readout::blame_words(s) == ""@,
{
    if let Some(blame) = s.gutter.blame {
        let note = blame.text@;
        says_itself(note);
        still_said("   \u{b7}   "@, note, Seq::empty(), note);
        assert("   \u{b7}   "@ + note + Seq::<char>::empty() =~= "   \u{b7}   "@ + note);
        if note.len() == 0 {
            says_its_beginning(note, readout::blame_words(s));
            assert(note + readout::blame_words(s) =~= readout::blame_words(s));
        }
    }
}

/// The right of the status line says the line and the column of the caret,
/// counted from one.
pub proof fn the_caret_is_counted_from_one(s: State, list: Seq<Diagnostic>, detail: Detail)
    requires
        detail.latency is None,
    ensures
        says(
            readout::detail_words(s, list, detail),
            "Ln "@ + text::decimal_digits(
                buffer::line_at(s.pane.docs.front().text@, s.pane.docs.front().cursor as int) + 1,
            ) + ", Col "@ + text::decimal_digits((detail.column + 1) as nat),
        ),
        says(readout::detail_words(s, list, detail), detail.branch@),
{
    let line = buffer::line_at(s.pane.docs.front().text@, s.pane.docs.front().cursor as int);
    let there = s.claude.bridge matches Some(bridge) && bridge.connected;
    let assistant = if there {
        "\u{273b} "@ + s.claude.assistant.name@ + "     "@
    } else {
        ""@
    };
    let branch = if detail.branch@.len() == 0 {
        ""@
    } else {
        detail.branch@ + "     "@
    };
    let caret = "Ln "@ + text::decimal_digits(line + 1) + ", Col "@ + text::decimal_digits(
        (detail.column + 1) as nat,
    );
    let counts = readout::count_words(readout::shown_diagnostics(s, list));
    let end = "     "@ + detail.encoding@ + "     "@ + detail.endings@;
    let all = readout::detail_words(s, list, detail);
    says_itself(caret);
    still_said(assistant + branch + counts, caret, end, caret);
    assert(assistant + branch + counts + caret + end =~= all);
    says_itself(detail.branch@);
    if detail.branch@.len() > 0 {
        still_said(assistant, detail.branch@, "     "@ + (counts + caret + end), detail.branch@);
        assert(assistant + detail.branch@ + ("     "@ + (counts + caret + end)) =~= all);
    } else {
        says_its_beginning(detail.branch@, all);
        assert(detail.branch@ + all =~= all);
    }
}

/// The counts in the status line say how many errors there are and how much
/// else; of nothing there are no counts.
pub proof fn the_counts_are_said(list: Seq<Diagnostic>)
    ensures
        list.len() == 0 ==> readout::count_words(list) == ""@,
        list.len() > 0 ==> says(
            readout::count_words(list),
            text::decimal_digits(list.filter(|d: Diagnostic| d.error).len()),
        ),
        list.len() > 0 ==> says(
            readout::count_words(list),
            text::decimal_digits(list.filter(|d: Diagnostic| !d.error).len()),
        ),
{
    if list.len() > 0 {
        the_errors_are_counted(list);
        let errors = text::decimal_digits(readout::error_count(list));
        let rest = text::decimal_digits((list.len() - readout::error_count(list)) as nat);
        let all = readout::count_words(list);
        says_itself(errors);
        still_said("\u{2715} "@, errors, "  \u{26a0} "@ + (rest + "     "@), errors);
        assert("\u{2715} "@ + errors + ("  \u{26a0} "@ + (rest + "     "@)) =~= all);
        says_itself(rest);
        still_said("\u{2715} "@ + errors + "  \u{26a0} "@, rest, "     "@, rest);
        assert("\u{2715} "@ + errors + "  \u{26a0} "@ + rest + "     "@ =~= all);
    }
}

/// The find field says how many matches there are, and which one the caret is
/// at or comes to next.
pub proof fn the_find_field_counts(s: State, found: Vec<Edit>, i: int)
    requires
        s.fields.find is Some,
        !s.fields.find->0.project,
        labels::searches(s),
        0 <= i < found@.len(),
        found@[i].start >= s.pane.docs.front().cursor,
        forall|j: int| 0 <= j < i ==> (#[trigger] found@[j]).start < s.pane.docs.front().cursor,
    ensures
        labels::count_label(s, Some(found)) == Some(
            text::decimal_digits((i + 1) as nat) + " of "@ + text::decimal_digits(found@.len()),
        ),
{
    matches_are_counted_from_the_caret(found@, s.pane.docs.front().cursor as int, i);
}

/// A document that indents with a tab somewhere is indented with tabs;
/// otherwise with spaces, two when a line has two and none has one, four when
/// nothing says otherwise.
pub proof fn a_document_is_indented_as_it_was(lines: Seq<Seq<char>>, i: int)
    requires
        0 <= i < lines.len(),
    ensures
        lines[i].len() > 0 && lines[i][0] == '\t' ==> !formatting::indent_of(lines).0,
        (forall|k: int| 0 <= k < lines.len() ==> (#[trigger] lines[k]).len() == 0 || lines[k][0] != '\t')
            ==> formatting::indent_of(lines).0,
        (forall|k: int| 0 <= k < lines.len() ==> (#[trigger] lines[k]).len() == 0 || (lines[k][0] != '\t'
            && lines[k][0] != ' ')) ==> formatting::indent_of(lines) == (true, 4u32),
        (forall|k: int| 0 <= k < lines.len() ==> (#[trigger] lines[k]).len() > 2 && lines[k][0] == ' '
            && lines[k][1] == ' ' && !text::is_space(lines[k][2])) ==> formatting::indent_of(lines)
            == (true, 2u32),
{
    if forall|k: int| 0 <= k < lines.len() ==> (#[trigger] lines[k]).len() > 2 && lines[k][0] == ' '
        && lines[k][1] == ' ' && !text::is_space(lines[k][2]) {
        assert forall|k: int| 0 <= k < lines.len() implies formatting::leading_spaces(
            #[trigger] lines[k],
        ) == 2 by {
            let line = lines[k];
            let one = line.drop_first();
            let two = one.drop_first();
            assert(one[0] == line[1] && two[0] == line[2]);
            assert(two[0] != ' ');
            assert(formatting::leading_spaces(two) == 0);
            assert(formatting::leading_spaces(one) == 1);
        }
        assert(formatting::indented_by(lines[i], 2));
    }
}

/// Two texts that differ have a first place where they do, or one goes on where
/// the other ends.
proof fn where_they_part<T>(a: Seq<T>, b: Seq<T>, from: int) -> (k: int)
    requires
        a != b,
        0 <= from <= a.len(),
        from <= b.len(),
        forall|j: int| 0 <= j < from ==> #[trigger] a[j] == b[j],
    ensures
        from <= k <= a.len(),
        k <= b.len(),
        forall|j: int| 0 <= j < k ==> #[trigger] a[j] == b[j],
        k < a.len() || k < b.len(),
        k < a.len() && k < b.len() ==> a[k] != b[k],
    decreases a.len() - from,
{
    if from == a.len() || from == b.len() || a[from] != b[from] {
        if from == a.len() && from == b.len() {
            assert(a =~= b);
        }
        from
    } else {
        where_they_part(a, b, from + 1)
    }
}

/// When of two different things exactly one is less, of two different sequences
/// of them exactly one comes first.
proof fn sequences_are_ordered<T>(a: Seq<T>, b: Seq<T>, less: spec_fn(T, T) -> bool)
    requires
        forall|x: T, y: T| x != y ==> #[trigger] less(x, y) != less(y, x),
        forall|x: T| !(#[trigger] less(x, x)),
    ensures
        a != b ==> diagnostics::lex_less(a, b, less) != diagnostics::lex_less(b, a, less),
        !diagnostics::lex_less(a, a, less),
{
    assert forall|i: int| !(#[trigger] diagnostics::parts_at(a, a, i, less)) by {}
    if a != b {
        let k = where_they_part(a, b, 0);
        if k == a.len() || (k < b.len() && less(a[k], b[k])) {
            assert(diagnostics::parts_at(a, b, k, less));
            assert forall|i: int| !(#[trigger] diagnostics::parts_at(b, a, i, less)) by {
                if diagnostics::parts_at(b, a, i, less) {
                    if i < k {
                        assert(a[i] == b[i]);
                    } else if i > k {
                        assert(b[k] == a[k]);
                    }
                }
            }
        } else {
            assert forall|j: int| 0 <= j < k implies #[trigger] b[j] == a[j] by {
                assert(a[j] == b[j]);
            }
            assert(diagnostics::parts_at(b, a, k, less));
            assert forall|i: int| !(#[trigger] diagnostics::parts_at(a, b, i, less)) by {
                if diagnostics::parts_at(a, b, i, less) {
                    if i < k {
                        assert(a[i] == b[i]);
                    } else if i > k {
                        assert(a[k] == b[k]);
                    }
                }
            }
        }
    }
}

/// Of two files in different places exactly one is told of first, and no file
/// before itself: the order does not depend on how the files are listed.
pub proof fn files_are_told_of_in_one_order(a: Seq<char>, b: Seq<char>)
    ensures
        !path::same_path(a, b) ==> diagnostics::path_less(a, b) != diagnostics::path_less(b, a),
        path::same_path(a, b) ==> !diagnostics::path_less(a, b),
{
    let less = diagnostics::part_less();
    let letters = diagnostics::char_less();
    assert forall|x: Seq<char>, y: Seq<char>| x != y implies #[trigger] less(x, y) != less(y, x) by {
        sequences_are_ordered(x, y, letters);
    }
    assert forall|x: Seq<char>| !(#[trigger] less(x, x)) by {
        sequences_are_ordered(x, x, letters);
    }
    sequences_are_ordered(path::components(a), path::components(b), less);
}

/// A file in a folder is told of after anything that is the folder itself.
pub proof fn a_folder_comes_before_what_is_in_it(folder: Seq<char>, place: Seq<char>)
    requires
        path::is_within(place, folder),
        !path::same_path(place, folder),
    ensures
        diagnostics::path_less(folder, place),
{
    let a = path::components(folder);
    let b = path::components(place);
    assert(a =~= b.subrange(0, a.len() as int));
    if a.len() == b.len() {
        assert(a =~= b);
    }
    assert forall|j: int| 0 <= j < a.len() implies #[trigger] a[j] == b[j] by {
        assert(b.subrange(0, a.len() as int)[j] == b[j]);
    }
    assert(diagnostics::parts_at(a, b, a.len() as int, diagnostics::part_less()));
}

/// A document in a folder moves with the folder: it keeps its name, and lies in
/// the folder's new place.
pub proof fn a_document_moves_with_its_folder(
    place: Seq<char>,
    from: Seq<char>,
    to: Seq<char>,
    name: Seq<char>,
)
    requires
        path::file_name_of(place) == Some(name),
        path::parent_of(place) is Some,
        path::same_path(path::parent_of(place)->0, from),
        to.len() > 0,
        to.last() != '/',
        name.len() > 0,
        forall|i: int| 0 <= i < name.len() ==> #[trigger] name[i] != '/',
    ensures
        path::file_name_of(documents::moved_place(place, from, to)) == Some(name),
        path::parent_of(documents::moved_place(place, from, to)) matches Some(folder)
            && path::same_path(folder, to),
{
    path::parent_drops_the_last(place);
    let parts = path::components(place);
    let above = path::components(from);
    assert(above == parts.drop_last());
    assert(parts.len() > 0 && parts.last() == name);
    assert(above.len() == parts.len() - 1);
    let rest = parts.skip(above.len() as int);
    assert(rest =~= seq![name]);
    assert(path::spelled(rest) == name);
    path::a_joined_name_is_in_its_folder(to, name);
}

/// A result shows the line its match is on, without the space around it, and
/// never more than fits.
pub proof fn a_result_shows_its_line(text: Seq<u8>, start: int, end: int)
    ensures
        project_search::snippet_of(text, start, end).len() <= project_search::SNIPPET_CHARS,
        ({
            let line = text::trimmed(
                text::readable(
                    text.subrange(
                        buffer::line_start_at(text, start),
                        buffer::line_end_at(text, end),
                    ),
                ),
            );
            &&& project_search::snippet_of(text, start, end).is_prefix_of(line)
            &&& line.len() <= project_search::SNIPPET_CHARS ==> project_search::snippet_of(
                text,
                start,
                end,
            ) == line
        }),
{
    let shown = project_search::snippet_of(text, start, end);
    assert(shown =~= shown.subrange(0, shown.len() as int));
}

/// The server's own order is kept: an earlier suggestion never weighs less than
/// a later one, and the first ones weigh more.
pub proof fn the_servers_order_is_kept(a: int, b: int)
    requires
        0 <= a < b,
    ensures
        completion::server_weight(a) >= completion::server_weight(b),
        b < 250 ==> completion::server_weight(a) > completion::server_weight(b),
        completion::server_weight(0) == 1000,
        completion::server_weight(b) >= 500,
{
}

/// What is typed of a word is the text from where the list began to the caret;
/// a space or a slash in it ends the list.
pub proof fn the_typed_part_is_up_to_the_caret(s: State)
    requires
        s.hints.completion is Some,
        s.hints.completion->0.buffer == s.pane.docs.front().id,
        s.hints.completion->0.anchor <= s.pane.docs.front().cursor,
    ensures
        ({
            let front = s.pane.docs.front();
            let typed = text::readable(
                front.text@.subrange(s.hints.completion->0.anchor as int, front.cursor as int),
            );
            &&& edit::prefix_of(s) == Some(typed)
            &&& edit::list_stays_for_key(s) ==> forall|i: int|
                0 <= i < typed.len() ==> #[trigger] typed[i] != '/' && !text::is_space(typed[i])
            &&& (forall|i: int|
                0 <= i < typed.len() ==> #[trigger] typed[i] != '/' && !text::is_space(typed[i]))
                ==> edit::list_stays_for_key(s)
        }),
{
}

/// A list whose word the caret has left does not stay.
pub proof fn a_list_does_not_outlive_its_word(s: State)
    ensures
        s.hints.completion matches Some(popup) ==> (popup.buffer != s.pane.docs.front().id
            || s.pane.docs.front().cursor < popup.anchor ==> !edit::list_stays_for_key(s)),
        s.hints.completion is None ==> !edit::list_stays_for_key(s),
{
}

/// A small letter is itself, a capital its small letter, and lowering twice is
/// lowering once.
pub proof fn lowering_touches_capitals_only(c: char)
    ensures
        'a' <= c <= 'z' ==> text::ascii_lower(c) == c,
        'A' <= c <= 'Z' ==> 'a' <= text::ascii_lower(c) <= 'z' && text::ascii_lower(c) as u32
            == c as u32 + 32,
        c < 'A' || c > 'Z' ==> text::ascii_lower(c) == c,
        text::ascii_lower(text::ascii_lower(c)) == text::ascii_lower(c),
{
}

/// A tab that is drawn is left where it is when it comes to the front; one that
/// is not, and does not fit after the last, becomes the first that is drawn.
pub proof fn the_front_tab_comes_into_sight(pane: PaneStore, ends_at: i32)
    ensures
        (exists|i: int|
            0 <= i < pane.tab_hits@.len() && (#[trigger] pane.tab_hits@[i]).index
                == pane.docs.active) ==> tabs::revealed_scroll(pane, ends_at) == pane.tab_scroll,
        pane.tab_hits@.len() == 0 ==> tabs::revealed_scroll(pane, ends_at) == pane.docs.active,
        tabs::revealed_scroll(pane, ends_at) == pane.tab_scroll || tabs::revealed_scroll(
            pane,
            ends_at,
        ) == pane.docs.active,
{
}

/// What a server says of a symbol is shown as its first two lines, each without
/// its ending.
pub proof fn the_first_two_lines_are_shown(first: Seq<char>, second: Seq<char>, rest: Seq<char>)
    requires
        !first.contains('\n'),
        !second.contains('\n'),
        first.len() == 0 || first.last() != '\r',
        second.len() > 0,
        second.last() != '\r',
    ensures
        events::two_lines(first) == first,
        events::two_lines(first + seq!['\n'] + (second + seq!['\n'] + rest)) == first + "  "@
            + second,
{
    let tail = second + seq!['\n'] + rest;
    let all = first + seq!['\n'] + tail;
    a_feed_is_found(first, tail);
    a_feed_is_found(second, rest);
    no_feed_is_found(first);
    assert(all.skip(first.len() as int + 1) =~= tail);
    assert(all.take(first.len() as int) =~= first);
    assert(tail.take(second.len() as int) =~= second);
    assert(first.take(first.len() as int) =~= first);
    if first.len() > 0 {
        assert(all[first.len() - 1] == first.last());
    }
    assert(tail[second.len() - 1] == second.last());
}

/// The first line feed is where the first line ends.
proof fn a_feed_is_found(line: Seq<char>, rest: Seq<char>)
    requires
        !line.contains('\n'),
    ensures
        events::feed(line + seq!['\n'] + rest) == line.len(),
    decreases line.len(),
{
    let all = line + seq!['\n'] + rest;
    if line.len() > 0 {
        assert(line.contains(line[0]));
        let shorter = line.drop_first();
        assert forall|c: char| shorter.contains(c) implies line.contains(c) by {
            let k = shorter.index_of(c);
            assert(line[k + 1] == c);
        }
        assert(all.drop_first() =~= shorter + seq!['\n'] + rest);
        a_feed_is_found(shorter, rest);
    } else {
        assert(all[0] == '\n');
    }
}

/// Without a line feed the text is one line.
proof fn no_feed_is_found(line: Seq<char>)
    requires
        !line.contains('\n'),
    ensures
        events::feed(line) == line.len(),
    decreases line.len(),
{
    if line.len() > 0 {
        assert(line.contains(line[0]));
        let shorter = line.drop_first();
        assert forall|c: char| shorter.contains(c) implies line.contains(c) by {
            let k = shorter.index_of(c);
            assert(line[k + 1] == c);
        }
        no_feed_is_found(shorter);
    }
}

/// A place in the project is shown from the project's folder: joined to it
/// again, a file in that folder is where it was.
pub proof fn a_place_in_the_project_is_shown_from_there(
    place: Seq<char>,
    root: String,
    name: Seq<char>,
)
    requires
        path::file_name_of(place) == Some(name),
        path::parent_of(place) is Some,
        path::same_path(path::parent_of(place)->0, root@),
    ensures
        labels::short_place(place, Some(root)) == name,
        labels::short_place(place, None) == place,
{
    path::parent_drops_the_last(place);
    let parts = path::components(place);
    let above = path::components(root@);
    assert(above == parts.drop_last());
    assert(parts.len() > 0 && parts.last() == name);
    assert(parts.skip(above.len() as int) =~= seq![name]);
    assert(path::spelled(seq![name]) == name);
}

/// The note on a search says how many matches it found, and when that is as
/// many as it looks for.
pub proof fn the_matches_found_are_counted(count: int)
    requires
        count >= 0,
    ensures
        says(project_search::found_note(count), text::decimal_digits(count as nat)),
        count == find::SEARCH_LIMIT ==> says(
            project_search::found_note(count),
            " (first 500)"@,
        ),
{
    let digits = text::decimal_digits(count as nat);
    let end = if count == find::SEARCH_LIMIT {
        " (first 500)"@
    } else {
        ""@
    };
    says_its_beginning(digits, " project matches"@ + end);
    assert(digits + (" project matches"@ + end) =~= project_search::found_note(count));
    says_itself(end);
    still_said(digits + " project matches"@, end, Seq::empty(), end);
    assert(digits + " project matches"@ + end + Seq::<char>::empty() =~= project_search::found_note(
        count,
    ));
}

/// The note on replacing says how many matches were replaced.
pub proof fn the_matches_replaced_are_counted(n: int, needle: Seq<char>)
    requires
        n > 1,
    ensures
        says(replace::replaced_note(n, needle), text::decimal_digits(n as nat)),
        says(replace::replaced_note(0, needle), text::debug_quoted(needle)),
{
    let digits = text::decimal_digits(n as nat);
    says_itself(digits);
    still_said("replaced "@, digits, " occurrences"@, digits);
    let quoted = text::debug_quoted(needle);
    says_itself(quoted);
    still_said("no matches for "@, quoted, Seq::empty(), quoted);
    assert("no matches for "@ + quoted + Seq::<char>::empty() =~= "no matches for "@ + quoted);
}

/// Of a rename that every file took it is said in how many files; of one that
/// some did not take, which those are.
pub proof fn a_rename_says_where_it_went(files: Seq<FileEdits>, came: Seq<Renamed>, i: int)
    requires
        files.len() > 0,
    ensures
        says(
            rename::rename_note(files, came),
            text::decimal_digits(rename::count_open(came) + rename::count_written(came)),
        ),
        0 <= i < rename::failures(files, came).len() ==> (path::file_name_of(
            rename::failures(files, came)[i]@,
        ) matches Some(name) ==> says(rename::rename_note(files, came), name)),
{
    let open = rename::count_open(came);
    let all = open + rename::count_written(came);
    let digits = text::decimal_digits(all);
    let note = rename::rename_note(files, came);
    let failed = rename::failures(files, came);
    says_itself(digits);
    if failed.len() == 0 {
        let rest = " file"@ + text::plural(all as int) + (if open > 0 {
            ", "@ + text::decimal_digits(open) + " open and unsaved"@
        } else {
            ""@
        });
        still_said("renamed in "@, digits, rest, digits);
    } else {
        let names = project_search::named(failed);
        still_said("renamed in "@, digits, " files; could not edit "@ + names, digits);
        if 0 <= i < failed.len() {
            every_file_is_named(failed, i);
            if let Some(name) = path::file_name_of(failed[i]@) {
                still_said(
                    "renamed in "@ + digits + " files; could not edit "@,
                    names,
                    Seq::empty(),
                    name,
                );
                assert("renamed in "@ + digits + " files; could not edit "@ + names
                    + Seq::<char>::empty() =~= note);
            }
        }
    }
}

/// What came of each file is counted: those edited in their tabs, those edited
/// on disk and those that could not be edited are all there are.
pub proof fn what_came_of_each_file_is_counted(files: Seq<FileEdits>, came: Seq<Renamed>)
    requires
        files.len() == came.len(),
        forall|i: int| 0 <= i < came.len() ==> (#[trigger] came[i]) is Open || came[i] is Written || came[i] is Failed,
    ensures
        rename::open_ids_of(came).len() + rename::count_written(came) + rename::failures(
            files,
            came,
        ).len() == files.len(),
    decreases files.len(),
{
    if files.len() > 0 {
        assert forall|i: int| 0 <= i < came.drop_last().len() implies (
        #[trigger] came.drop_last()[i]) is Open || came.drop_last()[i] is Written || came.drop_last()[i] is Failed by {
            assert(came.drop_last()[i] == came[i]);
        }
        assert(came[came.len() - 1] == came.last());
        what_came_of_each_file_is_counted(files.drop_last(), came.drop_last());
    }
}

/// A document with a file is called by the file's name wherever it is named.
pub proof fn a_document_is_called_by_its_file(b: Buffer, name: Seq<char>)
    requires
        b.path is Some,
        path::file_name_of(b.path->0@) == Some(name),
    ensures
        readout::called(b) == name,
        path::shown_name(b.path->0@) == name,
        host::label_of(b) == name,
{
}

/// A document opened with something about it that a save will run into says so,
/// and where it is in any case.
pub proof fn an_opened_document_is_said(b: Buffer, place: Seq<char>, limit: Seq<char>)
    ensures
        says(files::opened_note(b, place, limit), place),
        b.read_only ==> says(files::opened_note(b, place, limit), limit),
{
    says_itself(place);
    says_itself(limit);
    still_said("opened "@, place, Seq::empty(), place);
    assert("opened "@ + place + Seq::<char>::empty() =~= "opened "@ + place);
    still_said("opened "@, place, " read-only: it is over "@ + limit, place);
    assert("opened "@ + place + (" read-only: it is over "@ + limit) =~= "opened "@ + place
        + " read-only: it is over "@ + limit);
    still_said("opened "@ + place + " read-only: it is over "@, limit, Seq::empty(), limit);
    assert("opened "@ + place + " read-only: it is over "@ + limit + Seq::<char>::empty()
        =~= "opened "@ + place + " read-only: it is over "@ + limit);
    still_said(
        "opened "@,
        place,
        " as Windows-1252; unsupported characters cannot be saved"@,
        place,
    );
    still_said("opened "@, place, " with mixed line endings"@, place);
}

} // verus!
