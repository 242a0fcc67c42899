//! What the window guarantees of folding and wrapping, of the settings, of the
//! tree and of what is searched and completed.

use crate::buffer::{self, Buffer};
use crate::completion::{self, CompletionPopup, PopupKey};
use crate::documents::{self, Documents};
use crate::find::ProjectHit;
use crate::folding::{self, Block, Columns, FoldCommand};
use crate::keys::{self, KeyEvent};
use crate::panes;
use crate::path;
use crate::project;
use crate::project_search::{self, SearchedFile};
use crate::references::{self, Reference};
use crate::servers;
use crate::settings::{self, Settings};
use crate::sidebar::{self, SidebarAction, SidebarEdit, SidebarEditKind, Tree, TreeEntry};
use crate::state::{EditorView, Effect, RenameField, State, WordWrap};
use crate::trash;
use vstd::prelude::*;

verus! {

/// The block under a line is the first that is said to hang there.
pub proof fn a_block_is_found_by_its_head(blocks: Seq<Block>, line: int)
    ensures
        match folding::block_at(blocks, line) {
            Some(block) => exists|i: int|
                {
                    &&& 0 <= i < blocks.len()
                    &&& #[trigger] blocks[i] == block
                    &&& block.head == line
                    &&& forall|j: int| 0 <= j < i ==> (#[trigger] blocks[j]).head != line
                },
            None => forall|i: int| 0 <= i < blocks.len() ==> (#[trigger] blocks[i]).head != line,
        },
    decreases blocks.len(),
{
    if blocks.len() > 0 && blocks[0].head != line {
        let rest = blocks.drop_first();
        a_block_is_found_by_its_head(rest, line);
        assert(forall|i: int| 0 <= i < rest.len() ==> rest[i] == blocks[i + 1]);
        if let Some(block) = folding::block_at(blocks, line) {
            let k = choose|k: int|
                {
                    &&& 0 <= k < rest.len()
                    &&& #[trigger] rest[k] == block
                    &&& block.head == line
                    &&& forall|j: int| 0 <= j < k ==> (#[trigger] rest[j]).head != line
                };
            assert(blocks[k + 1] == block);
            assert forall|j: int| 0 <= j < k + 1 implies (#[trigger] blocks[j]).head != line by {
                if j > 0 {
                    assert(rest[j - 1] == blocks[j]);
                }
            }
        } else {
            assert forall|i: int| 0 <= i < blocks.len() implies (#[trigger] blocks[i]).head
                != line by {
                if i > 0 {
                    assert(rest[i - 1] == blocks[i]);
                }
            }
        }
    } else if blocks.len() > 0 {
        assert(blocks[0] == folding::block_at(blocks, line)->0);
    }
}

/// The head above a line is the nearest line, going up, that heads a block the
/// line is in.
pub proof fn the_nearest_block_is_folded(blocks: Seq<Block>, l: int, line: int, reach: nat)
    ensures
        match folding::head_above(blocks, l, line, reach) {
            Some(head) => 0 <= head <= l && l - head < reach && folding::heads_block(
                blocks,
                head,
                line,
            ) && forall|k: int|
                head < k <= l ==> !#[trigger] folding::heads_block(blocks, k, line),
            None => forall|k: int|
                0 <= k <= l && l - k < reach ==> !#[trigger] folding::heads_block(blocks, k, line),
        },
    decreases reach,
{
    if reach > 0 && l >= 0 && !folding::heads_block(blocks, l, line) {
        the_nearest_block_is_folded(blocks, l - 1, line, (reach - 1) as nat);
    }
}

/// Folding closes a block and opens none, unfolding opens the line and closes
/// none, and folding everything closes every block. The text and the caret
/// stay.
pub proof fn folding_does_what_it_says(
    after: Buffer,
    front: Buffer,
    command: FoldCommand,
    blocks: Seq<Block>,
)
    requires
        front.wf(),
        folding::obeys_fold(after, front, command, blocks),
    ensures
        after.text == front.text,
        after.cursor == front.cursor,
        command is FoldAll ==> forall|i: int|
            0 <= i < blocks.len() ==> after.folds@.contains((#[trigger] blocks[i]).head),
        command is Fold ==> forall|line: usize| #[trigger]
            front.folds@.contains(line) ==> after.folds@.contains(line),
        command is Unfold ==> !after.folds@.contains(
            buffer::line_at(front.text@, front.cursor as int) as usize,
        ),
{
    if command is FoldAll {
        assert forall|i: int| 0 <= i < blocks.len() implies after.folds@.contains(
            (#[trigger] blocks[i]).head,
        ) by {
            assert(after.folds@[i] == blocks[i].head);
        }
    } else if command is Fold {
        assert forall|line: usize| #[trigger]
            front.folds@.contains(line) implies after.folds@.contains(line) by {
            let k = front.folds@.index_of(line);
            assert(after.folds@[k] == line);
        }
    } else if folding::can_fold(front, command, blocks) {
        let line = buffer::line_at(front.text@, front.cursor as int) as usize;
        folding::an_unfolded_line_is_open(after, front, line);
    }
}

/// A choice made for a document decides whether it wraps, whatever the setting;
/// without one, On wraps and Off does not. What wraps leaves a column for the
/// caret, and what does not wrap has no width.
pub proof fn a_choice_decides_about_wrapping(b: Buffer, setting: WordWrap, cols: Columns)
    ensures
        b.wrap_choice == Some(true) ==> b.wrapped(setting, cols).wrap is Some,
        b.wrap_choice == Some(false) ==> b.wrapped(setting, cols).wrap is None,
        b.wrap_choice is None && setting is On ==> b.wrapped(setting, cols).wrap is Some,
        b.wrap_choice is None && setting is Off ==> b.wrapped(setting, cols).wrap is None,
        b.wrapped(setting, cols).wrap is Some && cols.wide > cols.least ==> b.wrapped(
            setting,
            cols,
        ).wrap->0 == cols.wide - 1,
        b.wrapped(setting, cols).text == b.text,
        b.wrapped(setting, cols).cursor == b.cursor,
        b.wrap is None ==> b.wrap_flipped(setting, cols).wrap is Some,
        b.wrap is Some ==> b.wrap_flipped(setting, cols).wrap is None,
{
}

/// What the settings say is what the window goes by from then on.
pub proof fn the_settings_are_gone_by(after: EditorView, before: EditorView, settings: Settings)
    requires
        after.settles(before, settings),
    ensures
        after.state.look.theme == settings.theme,
        after.state.look.ssh_auth_sock == settings.ssh_auth_sock,
        after.state.frame.caret_blink == settings.caret_blink,
        after.state.servers.format_on_save == settings.format_on_save,
        after.state.status.word_wrap == settings.word_wrap,
        after.state.pane == before.state.pane,
        after.state.look.font == before.state.look.font,
{
}

/// Another font or size is taken, and letters are made for it; the same ones
/// change nothing.
pub proof fn another_font_is_taken(after: EditorView, before: EditorView, settings: Settings)
    requires
        after.letters(before, settings),
    ensures
        after.state.look.font@ == settings.font@,
        after.state.look.size == settings.font_size,
        settings.font@ != before.state.look.font@ || settings.font_size != before.state.look.size
            ==> after.effects@.len() > before.effects@.len()
            && after.effects@[before.effects@.len() as int] == Effect::BuildAtlas(
            settings.font,
            settings.font_size,
        ),
        after.state.pane == before.state.pane,
{
}

/// The colours are dark when the theme is, or when it follows a dark system.
pub proof fn the_colours_follow_the_theme(after: EditorView, before: EditorView, system: bool)
    requires
        after.applies_theme(before, system),
    ensures
        before.state.look.theme is Dark ==> after.state.look.dark,
        before.state.look.theme is Light ==> !after.state.look.dark,
        before.state.look.theme is System ==> after.state.look.dark == system,
        after.state.look.dark != before.state.look.dark ==> after.ivars.needs_redraw,
{
}

/// A size inside the bounds stays, and any other is the nearest bound.
pub proof fn a_size_stays_within_its_bounds(size: int, least: int, most: int)
    requires
        least <= most,
    ensures
        least <= size <= most ==> settings::size_within(size, least, most) == size,
        size < least ==> settings::size_within(size, least, most) == least,
        size > most ==> settings::size_within(size, least, most) == most,
{
}

/// A row of the tree is found by its path, the first of them.
pub proof fn a_row_is_found_by_its_path(rows: Seq<TreeEntry>, place: Seq<char>)
    ensures
        match sidebar::row_at(rows, place) {
            Some(i) => 0 <= i < rows.len() && path::same_path(rows[i].path@, place) && forall|j: int|
                0 <= j < i ==> !path::same_path((#[trigger] rows[j]).path@, place),
            None => forall|j: int|
                0 <= j < rows.len() ==> !path::same_path((#[trigger] rows[j]).path@, place),
        },
        match sidebar::folder_row_at(rows, place) {
            Some(i) => 0 <= i < rows.len() && rows[i].is_dir && path::same_path(
                rows[i].path@,
                place,
            ),
            None => forall|j: int|
                0 <= j < rows.len() && (#[trigger] rows[j]).is_dir ==> !path::same_path(
                    rows[j].path@,
                    place,
                ),
        },
    decreases rows.len(),
{
    if rows.len() > 0 {
        let head = rows.drop_last();
        a_row_is_found_by_its_path(head, place);
        assert(forall|j: int| 0 <= j < head.len() ==> head[j] == rows[j]);
    }
}

/// What is dropped on a folder goes into it, on a file beside it, and past the
/// rows into the project.
pub proof fn a_drop_goes_where_it_is_made(tree: Tree, over: Option<usize>)
    ensures
        over is None ==> tree.destination(over) == tree.root_text(),
        over matches Some(i) ==> i >= tree.rows@.len() ==> tree.destination(over)
            == tree.root_text(),
        over matches Some(i) ==> i < tree.rows@.len() && tree.rows@[i as int].is_dir
            ==> tree.destination(over) == Some(tree.rows@[i as int].path@),
        over matches Some(i) ==> i < tree.rows@.len() && !tree.rows@[i as int].is_dir
            ==> tree.destination(over) == path::parent_of(tree.rows@[i as int].path@),
{
}

/// A row that is brought into a list is in it, and one that was in it moves
/// nothing.
pub proof fn a_row_is_brought_into_sight(tree: Tree, row: int, visible: int)
    requires
        0 <= row,
        0 < visible,
    ensures
        tree.scrolled_to(row, visible) <= row < tree.scrolled_to(row, visible) + visible,
        tree.scroll <= row < tree.scroll + visible ==> tree.scrolled_to(row, visible)
            == tree.scroll,
{
}

/// An item that moves takes its own document along, and a document elsewhere
/// stays where it is. Neither loses its text or its changes.
pub proof fn a_move_takes_the_document_along(
    after: State,
    before: State,
    from: Seq<char>,
    to: Seq<char>,
    i: int,
)
    requires
        panes::panes_follow(after, before, from, to),
        0 <= i < before.pane.docs.list@.len(),
    ensures
        ({
            let was = before.pane.docs.list@[i];
            let is = after.pane.docs.list@[i];
            &&& was.path is Some && path::same_path(was.path->0@, from) ==> is.path is Some
                && is.path->0@ == to
            &&& was.path is Some && !path::is_within(was.path->0@, from) ==> is.path is Some
                && is.path->0@ == was.path->0@
            &&& was.path is None ==> is.path is None
            &&& is.text == was.text
            &&& is.dirty == was.dirty
            &&& is.id == was.id
            &&& is.cursor == was.cursor
        }),
        after.pane.docs.active == before.pane.docs.active,
        after.pane.docs.list@.len() == before.pane.docs.list@.len(),
{
    let was = before.pane.docs.list@[i];
    let is = after.pane.docs.list@[i];
    assert(documents::follows_move(is, was, from, to));
    if was.path is Some && path::same_path(was.path->0@, from) {
        assert(path::components(from).is_prefix_of(path::components(was.path->0@)));
    }
}

/// The documents that are kept are those whose files are elsewhere, in order.
pub proof fn the_documents_elsewhere_are_kept(list: Seq<Buffer>, place: Seq<char>)
    ensures
        trash::kept(list, place) == list.filter(
            |b: Buffer| !(b.path matches Some(own) && path::is_within(own@, place)),
        ),
    decreases list.len(),
{
    reveal(Seq::filter);
    if list.len() > 0 {
        the_documents_elsewhere_are_kept(list.drop_last(), place);
    }
}

/// Keeping is done document by document.
proof fn keeping_adds_up(a: Seq<Buffer>, b: Seq<Buffer>, place: Seq<char>)
    ensures
        trash::kept(a + b, place) == trash::kept(a, place) + trash::kept(b, place),
    decreases b.len(),
{
    if b.len() == 0 {
        assert(a + b =~= a);
        assert(trash::kept(a, place) + trash::kept(b, place) =~= trash::kept(a, place));
    } else {
        keeping_adds_up(a, b.drop_last(), place);
        assert((a + b).drop_last() =~= a + b.drop_last());
        assert(trash::kept(a + b, place) =~= trash::kept(a, place) + trash::kept(b, place));
    }
}

/// When an item goes to the Trash, a document in front whose file is elsewhere
/// stays in front.
pub proof fn the_front_stays_when_others_go(
    after: Documents,
    before: Documents,
    place: Seq<char>,
    fresh: u64,
)
    requires
        before.wf(),
        trash::clears(after, before, place, fresh),
        !(before.front().path matches Some(own) && path::is_within(own@, place)),
    ensures
        after.active < after.list@.len(),
        after.list@[after.active as int] == before.list@[before.active as int],
{
    let at = before.active as int;
    let ahead = before.list@.take(at);
    let behind = before.list@.skip(at);
    assert(before.list@ =~= ahead + behind);
    keeping_adds_up(ahead, behind, place);
    let first = seq![before.front()];
    let rest = behind.drop_first();
    assert(behind =~= first + rest);
    keeping_adds_up(first, rest, place);
    assert(first.drop_last() =~= Seq::<Buffer>::empty());
    assert(trash::kept(first, place) =~= first) by {
        reveal_with_fuel(trash::kept, 2);
    }
    assert(trash::kept(before.list@, place)[trash::kept(ahead, place).len() as int]
        == before.front());
}

/// Every match in a file that is searched is among the places, and every place
/// is such a match.
pub proof fn every_match_is_a_place(files: Seq<SearchedFile>, n: int, i: int, k: int)
    requires
        0 <= n <= files.len(),
        0 <= i < n,
    ensures
        project_search::places_in(files, n).contains((i, k)) == (files[i].searched()
            && files[i].found is Ok && 0 <= k < files[i].found->Ok_0@.len()),
    decreases n,
{
    let head = project_search::places_in(files, n - 1);
    let all = project_search::places_in(files, n);
    let file = files[n - 1];
    let mine = if file.searched() && file.found is Ok {
        Seq::new(file.found->Ok_0@.len(), |m: int| (n - 1, m))
    } else {
        Seq::empty()
    };
    assert(all =~= head + mine);
    assert(all.contains((i, k)) == (head.contains((i, k)) || mine.contains((i, k)))) by {
        if head.contains((i, k)) {
            let p = head.index_of((i, k));
            assert(all[p] == (i, k));
        }
        if mine.contains((i, k)) {
            let p = mine.index_of((i, k));
            assert(all[head.len() + p] == (i, k));
        }
        if all.contains((i, k)) {
            let p = all.index_of((i, k));
            if p < head.len() {
                assert(head[p] == (i, k));
            } else {
                assert(mine[p - head.len()] == (i, k));
            }
        }
    }
    if i < n - 1 {
        every_match_is_a_place(files, n - 1, i, k);
        assert(!mine.contains((i, k)));
    } else {
        places_are_below(files, n - 1);
        assert(!head.contains((i, k)));
        if file.searched() && file.found is Ok && 0 <= k < file.found->Ok_0@.len() {
            assert(mine[k] == (i, k));
        }
    }
}

/// The places in the first files are in those files.
proof fn places_are_below(files: Seq<SearchedFile>, n: int)
    requires
        0 <= n <= files.len(),
    ensures
        forall|p: int|
            0 <= p < project_search::places_in(files, n).len() ==> (
            #[trigger] project_search::places_in(files, n)[p]).0 < n,
    decreases n,
{
    if n > 0 {
        places_are_below(files, n - 1);
        let head = project_search::places_in(files, n - 1);
        let all = project_search::places_in(files, n);
        assert forall|p: int| 0 <= p < all.len() implies (#[trigger] all[p]).0 < n by {
            if p < head.len() {
                assert(all[p] == head[p]);
            }
        }
    }
}

/// Stamping stamps every document that was touched and no other.
pub proof fn every_touched_document_is_stamped(
    map: Map<u64, u64>,
    touched: Seq<u64>,
    now: u64,
    id: u64,
)
    ensures
        touched.contains(id) ==> project_search::stamped(map, touched, now).contains_key(id)
            && project_search::stamped(map, touched, now)[id] == now,
        !touched.contains(id) ==> project_search::stamped(map, touched, now).contains_key(id)
            == map.contains_key(id) && (map.contains_key(id) ==> project_search::stamped(
            map,
            touched,
            now,
        )[id] == map[id]),
    decreases touched.len(),
{
    if touched.len() > 0 {
        let head = touched.drop_last();
        every_touched_document_is_stamped(map, head, now, id);
        if touched.contains(id) && id != touched.last() {
            let k = touched.index_of(id);
            assert(head[k] == id);
        }
        if head.contains(id) {
            let k = head.index_of(id);
            assert(touched[k] == id);
        }
        if id == touched.last() {
            assert(touched[touched.len() - 1] == id);
        }
    }
}

/// A click on a file opens it; on a folder it opens or closes the folder, and
/// reads what is in it the first time.
pub proof fn a_click_opens_the_row(s: State, at: usize, row: TreeEntry)
    ensures
        !row.is_dir ==> project::row_work(s, at, row)[0] == Effect::LoadPath(row.path),
        row.is_dir && row.expanded ==> project::row_work(s, at, row)[0] == Effect::ToggleRow(at),
        row.is_dir && !row.expanded && (forall|i: int|
            0 <= i < s.project.reading@.len() ==> !path::same_path(
                (#[trigger] s.project.reading@[i])@,
                row.path@,
            )) ==> project::row_work(s, at, row)[0] == Effect::ReadChildren(
            row.path,
            (row.depth + 1) as usize,
        ),
        s.on_row(at, true).side.tree.selected == Some(at),
{
    a_path_is_found_where_it_is_first(s.project.reading@, row.path@);
}

/// A path is found where it stands first.
pub proof fn a_path_is_found_where_it_is_first(paths: Seq<String>, place: Seq<char>)
    ensures
        match project::path_index(paths, place) {
            Some(i) => 0 <= i < paths.len() && path::same_path(paths[i]@, place) && forall|j: int|
                0 <= j < i ==> !path::same_path((#[trigger] paths[j])@, place),
            None => forall|j: int|
                0 <= j < paths.len() ==> !path::same_path((#[trigger] paths[j])@, place),
        },
    decreases paths.len(),
{
    if paths.len() > 0 {
        let head = paths.drop_last();
        a_path_is_found_where_it_is_first(head, place);
        assert(forall|j: int| 0 <= j < head.len() ==> head[j] == paths[j]);
    }
}

/// Tab takes the picked suggestion; Return takes it only once one was chosen,
/// and is a new line otherwise; Escape closes the list; a key with Command is
/// not the list's.
pub proof fn the_list_takes_its_keys(popup: CompletionPopup, event: KeyEvent)
    requires
        popup.shown@.len() > 0,
        !event.flags.option,
    ensures
        event.flags.command ==> completion::popup_key(popup, event) is Pass,
        !event.flags.command ==> {
            let code = keys::plain_code(event.code);
            &&& code == keys::TAB ==> completion::popup_key(popup, event) == PopupKey::Accept(None)
            &&& code == keys::RETURN && popup.chosen ==> completion::popup_key(popup, event)
                == PopupKey::Accept(None)
            &&& code == keys::RETURN && !popup.chosen ==> completion::popup_key(
                popup,
                event,
            ) is CloseAndPass
            &&& code == keys::ESCAPE ==> completion::popup_key(popup, event) is Close
            &&& code == keys::DOWN ==> completion::popup_key(popup, event) is Next
            &&& code == keys::UP ==> completion::popup_key(popup, event) is Previous
        },
{
}

/// What is to be shown is drawn: at once when the display is ready for another
/// frame, with its next refresh otherwise; and a key that is being handled
/// draws when it is done.
pub proof fn what_is_shown_is_drawn(
    after: EditorView,
    before: EditorView,
    state: State,
    done: Seq<Effect>,
    now: u64,
)
    requires
        after.shows(before, state, done, now),
        !before.ivars.handling_key,
    ensures
        after.ivars.needs_redraw,
        after.effects@.len() >= before.effects@.len() + done.len() + 1,
        before.state.frame.last_draw is None ==> after.effects@.last() == Effect::Draw,
        before.state.frame.last_draw matches Some(at) ==> {
            &&& (now - at) * 1_000 >= before.state.frame.interval ==> after.effects@.last()
                == Effect::Draw
            &&& (now - at) * 1_000 < before.state.frame.interval ==> after.effects@.last()
                == Effect::ResumeDisplayLink
        },
        forall|i: int|
            0 <= i < done.len() ==> after.effects@[before.effects@.len() + i] == #[trigger] done[i],
{
}

/// The document in front is replaced alone: the others stay as they are, and
/// the same place is in front.
pub proof fn only_the_front_is_replaced(after: Documents, before: Documents, front: Buffer)
    requires
        before.wf(),
        after.fronts(before, front),
    ensures
        after.active == before.active,
        after.list@.len() == before.list@.len(),
        after.list@[before.active as int] == front,
        forall|i: int|
            0 <= i < before.list@.len() && i != before.active ==> after.list@[i]
                == #[trigger] before.list@[i],
{
}

/// A new name is sent to the server that is ready for it, without the space
/// around it, for the place the field was opened at; the field closes.
pub proof fn a_new_name_is_sent(
    after: EditorView,
    before: EditorView,
    rename: RenameField,
    now: u64,
    s: int,
)
    requires
        after.leaves_rename(before, rename, now),
        crate::text::trimmed(rename.field.text@).len() > 0,
        0 <= s < before.state.servers.list@.len(),
        before.state.servers.list@[s].key == rename.language.server,
        before.state.servers.list@[s].ready,
        forall|j: int|
            0 <= j < s ==> (#[trigger] before.state.servers.list@[j]).key != rename.language.server,
    ensures
        after.state.fields.rename is None,
        after.effects@.len() > before.effects@.len(),
        after.effects@[before.effects@.len() as int] matches Effect::RenameSymbol(place, at, name)
            && place == rename.path && at == rename.at && name@ == crate::text::trimmed(
            rename.field.text@,
        ),
        after.state.pane.docs == before.state.pane.docs,
{
    servers::server_at_is_first(before.state.servers.list@, rename.language.server);
    let name = choose|name: String|
        {
            &&& name@ == crate::text::trimmed(rename.field.text@)
            &&& #[trigger] after.sends_rename(before, rename, name, now)
        };
    assert(after.effects@[before.effects@.len() as int] == Effect::RenameSymbol(
        rename.path,
        rename.at,
        name,
    ));
}

/// A name typed into the tree makes that file or folder in the folder the field
/// is in, or renames what the field was opened for.
pub proof fn a_typed_name_is_made(edit: SidebarEdit, name: Seq<char>, action: SidebarAction)
    requires
        sidebar::is_commit(edit, name, action),
    ensures
        edit.kind is NewFile ==> (action matches SidebarAction::CreateFile { target, name: n }
            && target@ == path::join_of(edit.parent@, name) && n@ == name),
        edit.kind is NewFolder ==> (action matches SidebarAction::CreateFolder { target, name: n }
            && target@ == path::join_of(edit.parent@, name) && n@ == name),
        edit.kind matches SidebarEditKind::Rename(place) ==> (path::file_name_of(place@) is Some
            && path::file_name_of(place@) != Some(name) ==> (
        action matches SidebarAction::Rename { from, to } && from == place && to@ == path::join_of(
            edit.parent@,
            name,
        ))),
{
}

/// Every place that refers to a symbol and can be read is listed, in order,
/// each with the file, the range and the line it is on.
pub proof fn every_reference_is_listed(
    hits: Seq<ProjectHit>,
    list: Seq<Reference>,
    state: State,
    r: int,
)
    requires
        references::are_shown_by(hits, list, state),
        0 <= r < list.len(),
        list[r].text_in(state) is Some,
    ensures
        exists|i: int|
            {
                &&& 0 <= i < hits.len()
                &&& (#[trigger] hits[i]).path@ == list[r].place.path@
                &&& list[r].start <= list[r].end <= list[r].text_in(state)->0.len() ==> hits[i].start
                    == list[r].start && hits[i].end == list[r].end && hits[i].line
                    == buffer::newlines(list[r].text_in(state)->0.take(list[r].start as int))
            },
        hits.len() <= list.len(),
{
    readable_places_hold(list, state);
    let shown = references::readable_places(list, state);
    let i = choose|i: int| 0 <= i < shown.len() && #[trigger] shown[i] == r;
    assert(list[shown[i]].is_shown_by(hits[i], state));
    assert(hits[i].path@ == list[r].place.path@);
}

/// The places that can be read are those whose text is known.
proof fn readable_places_hold(list: Seq<Reference>, state: State)
    ensures
        references::readable_places(list, state).len() <= list.len(),
        forall|r: int|
            0 <= r < list.len() && (#[trigger] list[r]).text_in(state) is Some ==> exists|i: int|
                0 <= i < references::readable_places(list, state).len()
                    && #[trigger] references::readable_places(list, state)[i] == r,
    decreases list.len(),
{
    if list.len() > 0 {
        let front = list.drop_last();
        readable_places_hold(front, state);
        let head = references::readable_places(front, state);
        let all = references::readable_places(list, state);
        assert forall|r: int|
            0 <= r < list.len() && (#[trigger] list[r]).text_in(state) is Some implies exists|i: int|
            0 <= i < all.len() && #[trigger] all[i] == r by {
            if r < front.len() {
                assert(front[r] == list[r]);
                let i = choose|i: int| 0 <= i < head.len() && #[trigger] head[i] == r;
                assert(all[i] == r);
            } else {
                assert(all[all.len() - 1] == r);
            }
        }
    }
}

/// A result of a search says where its match is: in which file, from where to
/// where, and on which line.
pub proof fn a_result_says_where_its_match_is(
    hit: ProjectHit,
    place: Seq<char>,
    text: Seq<u8>,
    found: buffer::Edit,
)
    requires
        project_search::is_hit(hit, place, text, found),
    ensures
        hit.path@ == place,
        hit.start == found.start,
        hit.end == found.end,
        hit.line == buffer::newlines(text.take(found.start as int)),
{
}

/// Paths that differ in a name are not the same, and a path is the same as
/// itself however often it is asked.
pub proof fn other_names_are_other_paths(base: Seq<char>, a: Seq<char>, b: Seq<char>)
    requires
        base.len() > 0,
        base.last() != '/',
        a.len() > 0,
        b.len() > 0,
        a != seq!['.'],
        a != seq!['.', '.'],
        b != seq!['.'],
        b != seq!['.', '.'],
        forall|i: int| 0 <= i < a.len() ==> #[trigger] a[i] != '/',
        forall|i: int| 0 <= i < b.len() ==> #[trigger] b[i] != '/',
    ensures
        path::same_path(path::join_of(base, a), path::join_of(base, b)) == (a == b),
        path::same_path(base, base),
        !path::same_path(path::join_of(base, a), base),
        path::is_within(path::join_of(base, a), base),
        !path::is_within(base, path::join_of(base, a)),
{
    path::a_joined_name_is_in_its_folder(base, a);
    path::a_joined_name_is_in_its_folder(base, b);
    let parts = path::components(base);
    assert(parts.push(a).last() == a);
    assert(parts.push(b).last() == b);
    assert(parts.is_prefix_of(parts.push(a)));
}

} // verus!
