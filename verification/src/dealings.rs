//! How the window deals with the find bar, the wheel, pasted and typed text,
//! the assistant and the files it hears of.
use crate::ask;
use crate::buffer::Buffer;
use crate::clicks::{self, Amount, PaletteParts, Scrolled, Turn, Wheel};
use crate::clipboard;
use crate::events::ServerEvent;
use crate::find::{self, FieldKey, FindBar};
use crate::frame::Chrome;
use crate::host;
use crate::ignore;
use crate::input::KeyContext;
use crate::keyboard::Route;
use crate::keys::{self, EditOp, KeyEvent, Modifiers};
use crate::link::{self, Release};
use crate::menu::{self, Entry, MenuItem};
use crate::mouse::{BlockHit, Press, Under};
use crate::palette::Pick;
use crate::panes;
use crate::path;
use crate::places::FilePlace;
use crate::project::{self, FolderAnswer};
use crate::promises;
use crate::servers;
use crate::sessions::{self, TerminalPress};
use crate::settings;
use crate::sidebar::{self, SidebarEditKind, TreeEntry};
use crate::state::{EditorView, Effect, Focus, Position, Spot, State, Target, Task};
use crate::text;
use vstd::prelude::*;

verus! {

/// What a step asks for is what it adds.
proof fn gains(after: EditorView, before: EditorView, done: Seq<Effect>)
    requires
        after.effects@ == before.effects@ + done,
    ensures
        promises::gained(after, before) == done,
{
    assert((before.effects@ + done).skip(before.effects@.len() as int) =~= done);
}

/// The find bar opens in the document, without options, and looks for a short
/// selection on one line at once.
pub proof fn the_find_bar_opens_on_the_selection(after: EditorView, before: EditorView, now: u64)
    requires
        after.opens_find(before, now),
    ensures
        after.state.fields.find matches Some(bar) && !bar.project && !bar.replacing
            && !bar.options.regex && !bar.options.whole_word && !bar.options.case_sensitive,
        ({
            let front = before.state.pane.docs.front();
            let low = if front.anchor < front.cursor {
                front.anchor as int
            } else {
                front.cursor as int
            };
            let high = if front.anchor < front.cursor {
                front.cursor as int
            } else {
                front.anchor as int
            };
            let chosen = text::readable(front.text@.subrange(low, high));
            low < high && high - low < 200 && 0 <= low && high <= front.text@.len()
                && !chosen.contains('\n') ==> after.state.fields.find->0.query.text@ == chosen
        }),
        after.state.pane == before.state.pane,
{
}

/// While the palette is open the wheel is its own. Otherwise the wheel over the
/// terminal is the terminal's.
pub proof fn the_palette_keeps_the_wheel(s: State, chrome: Chrome, at: Spot)
    ensures
        s.fields.palette is Some ==> clicks::wheel_of(s, chrome, at) is Palette,
        s.fields.palette is None && (chrome.terminal matches Some(rect) && rect.has(at.x, at.y))
            ==> clicks::wheel_of(s, chrome, at) is Terminal,
        s.fields.palette is None && chrome.terminal is None && !s.reviewing() && !s.git.open
            ==> clicks::wheel_of(s, chrome, at) is Window,
{
}

/// Turning the wheel up over the terminal goes back in what was written, down
/// comes forward again, and never past either end.
pub proof fn the_wheel_goes_back_in_the_terminal(
    after: EditorView,
    before: EditorView,
    turn: Turn,
    history: usize,
    in_list: bool,
    now: u64,
)
    requires
        after.turns_wheel(before, Wheel::Terminal, turn, history, in_list, now),
        before.state.terminal.back <= history,
    ensures
        after.state.terminal.back <= history,
        turn is Up && before.state.terminal.back < history ==> after.state.terminal.back
            > before.state.terminal.back,
        turn is Down && before.state.terminal.back > 0 ==> after.state.terminal.back
            < before.state.terminal.back,
        turn is Still ==> after.state.terminal.back == before.state.terminal.back,
        turn is Up && before.state.terminal.back + 3 <= history ==> after.state.terminal.back
            == before.state.terminal.back + 3,
        turn is Down && before.state.terminal.back >= 3 ==> after.state.terminal.back
            == before.state.terminal.back - 3,
        after.state.terminal.tabs == before.state.terminal.tabs,
{
}

/// What lies under the pointer scrolls, by as much as the wheel says: the tabs
/// and the rendered blocks within their bounds, the tree and the text by lines.
pub proof fn what_is_under_the_pointer_scrolls(
    after: EditorView,
    before: EditorView,
    scrolled: Scrolled,
    by: Amount,
    now: u64,
)
    requires
        after.scrolls(before, scrolled, by, now),
    ensures
        scrolled is Tabs && 0 <= before.state.pane.tab_scroll + by.tabs
            < before.state.pane.docs.list@.len() && before.state.pane.docs.list@.len() <= usize::MAX
            ==> after.state.pane.tab_scroll == before.state.pane.tab_scroll + by.tabs,
        scrolled is Rendering && (before.state.pane.preview matches Some(at) && 0 <= at + by.lines
            <= by.last_block) && (by.lines != 0 || by.columns != 0) ==> after.state.pane.preview == Some(
            (before.state.pane.preview->0 + by.lines) as usize,
        ),
        scrolled is Tree && by.lines != 0 ==> promises::gained(after, before).contains(
            Effect::ScrollTree(by.lines),
        ),
        scrolled is Text && by.lines != 0 ==> promises::gained(after, before).contains(
            Effect::ScrollLines(by.lines),
        ),
        scrolled is Text && by.columns != 0 ==> promises::gained(after, before).contains(
            Effect::ScrollColumns(by.columns),
        ),
        scrolled is Smooth ==> promises::gained(after, before).contains(Effect::ScrollSmooth),
        after.state.pane.docs == before.state.pane.docs,
{
    let pump = before.pumping(now);
    match scrolled {
        Scrolled::Tabs => {},
        Scrolled::Rendering => {},
        Scrolled::Smooth => {
            let done = seq![Effect::ScrollSmooth, Effect::ScrollColumns(by.columns)] + pump;
            gains(after, before, done);
            assert(done[0] == Effect::ScrollSmooth);
        },
        Scrolled::Tree => {
            if by.lines != 0 {
                let done = seq![Effect::ScrollTree(by.lines)] + pump;
                gains(after, before, done);
                assert(done[0] == Effect::ScrollTree(by.lines));
            }
        },
        Scrolled::Text => {
            if by.lines != 0 || by.columns != 0 {
                let done = seq![
                    Effect::ScrollLines(by.lines),
                    Effect::ScrollColumns(by.columns),
                ] + pump;
                gains(after, before, done);
                assert(done[0] == Effect::ScrollLines(by.lines));
                assert(done[1] == Effect::ScrollColumns(by.columns));
            }
        },
    }
}

/// A paste into the document puts in all of the text; one into a field puts in
/// what the field can hold. Nothing is put in of nothing.
pub proof fn a_paste_is_put_in(target: Target, put: String, whole: Seq<char>)
    ensures
        clipboard::pasted(Focus::Document, whole) == whole,
        forall|i: int|
            0 <= i < clipboard::pasted(Focus::Field, whole).len() ==> #[trigger] clipboard::pasted(
                Focus::Field,
                whole,
            )[i] != '\n',
        put@.len() > 0 ==> clipboard::paste_work(target, put).contains(Effect::Insert(target, put)),
        put@.len() == 0 ==> clipboard::paste_work(target, put).len() == 0,
{
    if put@.len() > 0 {
        assert(clipboard::paste_work(target, put)[0] == Effect::Insert(target, put));
    }
    let put_in = clipboard::pasted(Focus::Field, whole);
    assert forall|i: int| 0 <= i < put_in.len() implies #[trigger] put_in[i] != '\n' by {
        text::a_field_holds_one_line(whole, i);
    }
}

/// Text that is committed ends what was being composed.
pub proof fn committed_text_ends_composing(
    after: EditorView,
    before: EditorView,
    put: String,
    replaced: Option<(usize, usize)>,
    now: u64,
)
    requires
        after.takes_text_input(before, put, replaced, now),
    ensures
        after.state.hints.marked is None,
        after.state.pane == before.state.pane,
{
}

/// A press on a block of code copies it; a press elsewhere in a rendered
/// document puts the caret there, in the document.
pub proof fn a_rendered_block_is_copied_or_gone_to(
    after: EditorView,
    before: EditorView,
    block: BlockHit,
    now: u64,
)
    requires
        before.state.wf(),
        after.takes_block(before, Some(block), now),
    ensures
        block.copy matches Some(code) ==> promises::gained(after, before).contains(
            Effect::CopyText(code),
        ) && after.state.pane == before.state.pane,
        block.copy is None && block.offset <= before.state.pane.docs.front().text@.len() ==> {
            let front = after.state.pane.docs.list@[before.state.pane.docs.active as int];
            front.cursor == block.offset && front.anchor == block.offset && front.text
                == before.state.pane.docs.front().text
        },
{
    if let Some(code) = block.copy {
        let done = seq![Effect::CopyText(code)] + before.pumping(now);
        gains(after, before, done);
        assert(done[0] == Effect::CopyText(code));
    }
}

/// A press on a hunk of the change that shows stages that hunk first; a press
/// beside the hunks stages nothing.
pub proof fn a_pressed_hunk_is_staged(
    after: EditorView,
    before: EditorView,
    hunk: Option<usize>,
    now: u64,
)
    requires
        after.takes_hunk(before, hunk, now),
    ensures
        hunk matches Some(h) ==> promises::gained(after, before)[0] == Effect::StageHunk(h)
            && promises::gained(after, before)[1] == Effect::ResumeDisplayLink,
        hunk is None ==> promises::gained(after, before)[0] == Effect::ResumeDisplayLink,
        promises::gained(after, before).last() == Effect::InvalidateCursorRects,
        promises::gained(after, before).len() == before.pumping(now).len() + (if hunk is Some {
            3nat
        } else {
            2nat
        }),
        after.state.pane == before.state.pane,
{
    let head = (match hunk {
        Some(h) => seq![Effect::StageHunk(h)],
        None => Seq::empty(),
    }) + seq![Effect::ResumeDisplayLink];
    gains(
        after,
        before,
        head + before.pumping(now) + seq![Effect::InvalidateCursorRects],
    );
}

/// A press in the sidebar is source control's while that shows, the tree's
/// otherwise.
pub proof fn a_press_in_the_sidebar_is_for_what_shows(
    after: EditorView,
    before: EditorView,
    press: Press,
    under: Under,
)
    requires
        after.takes_side(before, press, under),
    ensures
        promises::gained(after, before) == seq![
            if before.state.git.open {
                Effect::Run(Task::GitClick)
            } else {
                Effect::Run(Task::SidebarClick)
            },
        ],
        after.state.pane == before.state.pane,
{
    gains(
        after,
        before,
        seq![
            if before.state.git.open {
                Effect::Run(Task::GitClick)
            } else {
                Effect::Run(Task::SidebarClick)
            },
        ],
    );
}

/// Once a selection in a file has been still, a connected assistant that has
/// heard of none yet is told, and it is remembered what it was told.
pub proof fn the_assistant_hears_of_the_selection(
    after: EditorView,
    before: EditorView,
    start: Position,
    end: Position,
)
    requires
        after.flushes_selection(before, start, end),
        before.state.claude.bridge is Some,
        before.state.claude.bridge->0.connected,
        before.state.claude.bridge->0.sent is None,
        before.state.pane.docs.front().path is Some,
        !before.state.reviewing(),
    ensures
        promises::gained(after, before) == seq![Effect::TellSelection],
        after.state.claude.bridge matches Some(bridge) && bridge.changed_at is None && (
        bridge.sent matches Some(told) && told.start == start && told.end == end && Some(told.path)
            == before.state.pane.docs.front().path),
{
    gains(after, before, seq![Effect::TellSelection]);
}

/// A project that the assistant does not serve yet is given one, or the one
/// there is goes along; the same project is not tried again.
pub proof fn the_assistant_follows_the_project(after: EditorView, before: EditorView)
    requires
        after.follows_root(before, false),
    ensures
        before.state.side.tree.root matches Some(root) && before.state.claude.tried is None
            && before.state.claude.bridge is None ==> promises::gained(after, before) == seq![
            Effect::StartBridge(before.state.side.tree.root->0),
        ],
        before.state.side.tree.root is Some && before.state.claude.tried is None ==> after.state.claude.tried
            == before.state.side.tree.root,
        before.state.side.tree.root is None ==> after == before,
        before.state.claude.tried == before.state.side.tree.root ==> after == before,
{
    if before.state.side.tree.root is Some && before.state.claude.tried is None
        && before.state.claude.bridge is None {
        gains(after, before, seq![Effect::StartBridge(before.state.side.tree.root->0)]);
    }
}

/// A click beside the palette closes it; a click on a row opens or runs what
/// the row stands for.
pub proof fn a_click_in_the_palette_takes_the_row(
    after: EditorView,
    before: EditorView,
    at: Spot,
    parts: PaletteParts,
    now: u64,
    pick: Pick,
)
    requires
        after.clicks_palette(before, at, parts, now),
    ensures
        !parts.rect.has(at.x, at.y) ==> after.state.fields.palette is None && after.state.pane
            == before.state.pane,
        pick matches Pick::File(place) ==> clicks::clicked_work(pick).contains(
            Effect::LoadPath(place),
        ),
        pick matches Pick::Command(action) ==> clicks::clicked_work(pick).contains(
            Effect::RunCommand(action),
        ),
        pick matches Pick::Symbol(place, line) ==> clicks::clicked_work(pick).contains(
            Effect::GoToSymbol(place, line),
        ),
        pick matches Pick::Branch(name) ==> clicks::clicked_work(pick).contains(
            Effect::ChooseBranch(name, false),
        ),
        pick matches Pick::NewBranch(name) ==> clicks::clicked_work(pick).contains(
            Effect::ChooseBranch(name, true),
        ),
{
    let work = clicks::clicked_work(pick);
    match pick {
        Pick::File(place) => {
            assert(work[0] == Effect::LoadPath(place));
        },
        Pick::Command(action) => {
            assert(work[0] == Effect::RunCommand(action));
        },
        Pick::Symbol(place, line) => {
            assert(work[0] == Effect::GoToSymbol(place, line));
        },
        Pick::Branch(name) => {
            assert(work[0] == Effect::ChooseBranch(name, false));
        },
        Pick::NewBranch(name) => {
            assert(work[0] == Effect::ChooseBranch(name, true));
        },
    }
}

/// A check for updates that somebody asked for always says something, and
/// opens the page of a newer release. One at launch says something only when
/// there is a newer release, and opens nothing.
pub proof fn an_update_is_said(
    outcome: Result<Option<Release>, String>,
    current: Seq<char>,
    testing: bool,
)
    ensures
        link::update_note(outcome, true, testing, current) is Some,
        link::update_note(outcome, false, testing, current) is Some <==> (outcome matches Ok(found)
            && found is Some),
        link::opens_page(outcome, false, testing).len() == 0,
        outcome matches Ok(Some(release)) ==> link::opens_page(outcome, true, false) == seq![
            Effect::OpenUrl(release.url),
        ],
        !(outcome matches Ok(Some(_))) ==> link::opens_page(outcome, true, false).len() == 0,
{
}

/// A document that the assistant has saved is written over the one that was
/// open, wherever that is, and its language server is told.
pub proof fn a_file_saved_elsewhere_is_told(
    after: EditorView,
    before: EditorView,
    place: FilePlace,
    saved: Buffer,
    now: u64,
)
    requires
        after.saved_elsewhere(before, place, saved, now),
    ensures
        place.place_in(before.state.pane.docs) matches Some(i) ==> after.state.pane.docs.list@
            == before.state.pane.docs.list@.update(i, saved) && after.state.panes
            == before.state.panes,
        saved.path matches Some(own) ==> promises::gained(after, before).contains(
            Effect::DidSave(own),
        ),
        promises::gained(after, before).contains(Effect::RefreshGit),
{
    let told = match saved.path {
        Some(own) => seq![Effect::Run(Task::LspFlushChanges), Effect::DidSave(own)],
        None => Seq::empty(),
    };
    let done = seq![Effect::RefreshGit] + told + seq![Effect::SyncTitle] + before.pumping(now);
    gains(after, before, done);
    assert(done[0] == Effect::RefreshGit);
    if let Some(own) = saved.path {
        assert(done[2] == Effect::DidSave(own));
    }
}

/// What the assistant wants shown is selected: the selection starts where
/// `start` stands and ends where `end` does, and the rest of the document is
/// left alone.
pub proof fn what_the_assistant_shows_is_selected(
    after: EditorView,
    before: EditorView,
    start: Seq<u8>,
    end: Seq<u8>,
    now: u64,
)
    requires
        before.state.wf(),
        after.selects_between(before, start, end, now),
        start.len() > 0,
        crate::buffer::found_at(before.state.pane.docs.front().text@, start, 0) is Some,
    ensures
        ({
            let text = before.state.pane.docs.front().text@;
            let front = after.state.pane.docs.list@[before.state.pane.docs.active as int];
            let from = crate::buffer::found_at(text, start, 0)->0;
            &&& front.text@ == text
            &&& front.anchor == from
            &&& text.subrange(from, from + start.len()) == start
            &&& front.cursor <= text.len()
            &&& end.len() == 0 ==> front.cursor == from + start.len()
            &&& end.len() > 0 && crate::buffer::found_at(text, end, from) is Some ==> front.cursor
                >= from + end.len() && text.subrange(front.cursor - end.len(), front.cursor as int)
                == end
        }),
        promises::gained(after, before).contains(Effect::ScrollToCursor),
{
    let front = before.state.pane.docs.front();
    let text = front.text@;
    assert(text.len() == front.text.len());
    where_it_is_found(text, start, 0);
    let from = crate::buffer::found_at(text, start, 0)->0;
    where_it_is_found(text, end, from);
    let done = seq![Effect::ScrollToCursor] + seq![Effect::SyncTitle, Effect::Run(Task::Reparse)]
        + before.pumping(now);
    gains(after, before, done);
    assert(done[0] == Effect::ScrollToCursor);
}

/// What is found stands where it is found.
proof fn where_it_is_found(text: Seq<u8>, needle: Seq<u8>, from: int)
    ensures
        crate::buffer::found_at(text, needle, from) matches Some(at) ==> from <= at && 0 <= at && at
            + needle.len() <= text.len() && text.subrange(at, at + needle.len()) == needle,
    decreases text.len() + 1 - from,
{
    if 0 <= from && from + needle.len() <= text.len() && text.subrange(from, from + needle.len())
        != needle {
        where_it_is_found(text, needle, from + 1);
    }
}

/// A document that is closed in another pane is gone from it, and every other
/// document of that pane stays where it was in order.
pub proof fn a_tab_elsewhere_is_closed(after: State, before: State, id: u64, blank: Buffer, p: int)
    requires
        host::closes_in_panes(after, before, id, blank),
        panes::pane_with_id(before.panes@, id) == Some(p),
        0 <= p < before.panes@.len(),
        before.panes@[p].docs.position_with(id) is Some,
    ensures
        before.panes@[p].docs.list@.len() > 1 ==> after.panes@.len() == before.panes@.len()
            && after.panes@[p].docs.list@ == before.panes@[p].docs.list@.remove(
            before.panes@[p].docs.position_with(id)->0,
        ),
        before.panes@[p].docs.list@.len() <= 1 ==> after.panes@ == before.panes@.remove(p),
        after.pane == before.pane,
{
    crate::documents::first_where_is_first(before.panes@[p].docs.list@, |b: Buffer| b.id == id);
}

/// A folder that has been read is waited for no longer, and is put into the
/// tree when it still fits there.
pub proof fn a_folder_that_was_read_is_put_in(
    s: State,
    answers: Seq<FolderAnswer>,
    answer: FolderAnswer,
)
    requires
        project::is_root(s, answer.root@),
        project::path_index(project::taking(s, answers).reading, answer.path@) is Some,
    ensures
        ({
            let before = project::taking(s, answers);
            let after = project::taking(s, answers.push(answer));
            &&& after.reading.len() == before.reading.len() - 1
            &&& answer.fits ==> after.installed == before.installed.push(
                Effect::InstallChildren(answer.path),
            )
            &&& !answer.fits ==> after.installed == before.installed
        }),
{
    let before = project::taking(s, answers);
    assert(answers.push(answer).drop_last() =~= answers);
    assert(answers.push(answer).last() == answer);
    crate::guarantees::a_path_is_found_where_it_is_first(before.reading, answer.path@);
}

/// A file that was just made is in front: in the tab it already had, or in one
/// of its own.
pub proof fn a_made_file_is_in_front(
    after: crate::documents::Documents,
    before: crate::documents::Documents,
    buffer: Buffer,
    key: Seq<char>,
)
    requires
        settings::takes_front(after, before, buffer, key),
        before.position_at(key) is None,
    ensures
        0 <= after.active < after.list@.len(),
        after.list@[after.active as int] == buffer,
        !before.at_home() ==> forall|i: int|
            0 <= i < before.list@.len() ==> after.list@.contains(#[trigger] before.list@[i]),
{
    if !before.at_home() {
        assert forall|i: int| 0 <= i < before.list@.len() implies after.list@.contains(
            #[trigger] before.list@[i],
        ) by {
            assert(after.list@[i] == before.list@[i]);
        }
    }
}

/// What a server answers is acted on: a definition is opened, references are
/// listed, edits are made, and what it says or refuses is said.
pub proof fn an_answer_is_acted_on(
    after: EditorView,
    before: EditorView,
    event: ServerEvent,
    now: u64,
)
    requires
        after.takes_event(before, event, now),
    ensures
        event matches ServerEvent::Definition(Some(location)) ==> promises::gained(after, before)
            == seq![Effect::OpenDefinition(location)],
        event matches ServerEvent::Definition(None) ==> after.state.status.message is Some
            && after.state.status.message->0.at == now,
        event matches ServerEvent::References(locations) ==> promises::gained(after, before)
            == seq![Effect::ShowReferences(locations)],
        event matches ServerEvent::Rename(files) ==> promises::gained(after, before) == seq![
            Effect::ApplyRename(files),
        ],
        event matches ServerEvent::Formatting(place, edits, save) ==> promises::gained(after, before)
            == seq![Effect::ApplyFormat(place, edits, save)],
        event matches ServerEvent::Refused(reason) ==> after.state.says(reason@, now),
        event matches ServerEvent::Failed(reason) ==> after.state.says(reason@, now),
        event matches ServerEvent::Signature(place, label) ==> (after.state.hints.signature is Some
            <==> before.state.pane.docs.front().is_at(place@) && label is Some),
        event matches ServerEvent::Signature(place, label) ==> (
        after.state.hints.signature matches Some(tip) ==> Some(tip.label) == label && tip.anchor
            == before.state.pane.docs.front().cursor && tip.buffer
            == before.state.pane.docs.front().id),
        after.state.pane == before.state.pane,
{
    match event {
        ServerEvent::Definition(Some(location)) => {
            gains(after, before, seq![Effect::OpenDefinition(location)]);
        },
        ServerEvent::References(locations) => {
            gains(after, before, seq![Effect::ShowReferences(locations)]);
        },
        ServerEvent::Rename(files) => {
            gains(after, before, seq![Effect::ApplyRename(files)]);
        },
        ServerEvent::Formatting(place, edits, save) => {
            gains(after, before, seq![Effect::ApplyFormat(place, edits, save)]);
        },
        _ => {},
    }
}

/// A key that the document has edits it and keeps the caret in sight; one that
/// is text goes to the input system; one that is a digit with Command brings
/// that tab to the front, if there is one.
pub proof fn a_key_does_what_it_is_for(
    after: EditorView,
    ready: EditorView,
    context: KeyContext,
    route: Route,
    handled: bool,
    now: u64,
)
    requires
        after.obeys_key(ready, context, route, handled, now),
    ensures
        route matches Route::Document(op) ==> handled && promises::gained(after, ready) == seq![
            Effect::Edit(Target::Document, op),
            Effect::ScrollToCursor,
        ],
        route is Text ==> handled && promises::gained(after, ready) == seq![Effect::Interpret],
        route matches Route::Tab(n) ==> (n < ready.state.pane.docs.list@.len() ==> handled
            && after.state.pane.docs.active == n),
        route matches Route::Tab(n) ==> (n >= ready.state.pane.docs.list@.len() ==> !handled && after
            == ready),
        route is CloseSignature ==> handled && after.state.hints.signature is None,
        route is Unhandled ==> !handled && after == ready,
{
    match route {
        Route::Document(op) => {
            gains(
                after,
                ready,
                seq![Effect::Edit(Target::Document, op), Effect::ScrollToCursor],
            );
        },
        Route::Text => {
            gains(after, ready, seq![Effect::Interpret]);
        },
        _ => {},
    }
}

/// A shortcut in a find field is for the field that is being edited. An edit of
/// the query that can change it searches again; nothing is copied or cut when
/// nothing is selected.
pub proof fn a_find_field_takes_its_shortcuts(bar: FindBar, op: EditOp)
    ensures
        ({
            let field = if bar.replacing {
                Target::FindReplacement
            } else {
                Target::FindQuery
            };
            let chosen = if bar.replacing {
                bar.replacement.anchor != bar.replacement.cursor
            } else {
                bar.query.anchor != bar.query.cursor
            };
            &&& find::find_command_work(bar, FieldKey::Edit(op))[0] == Effect::Edit(field, op)
            &&& (op is Undo || op is Redo || op is Backspace || op is DeleteToLineStart)
                && !bar.replacing ==> find::find_command_work(bar, FieldKey::Edit(op)).contains(
                Effect::Run(Task::RefreshFind),
            )
            &&& chosen ==> find::find_command_work(bar, FieldKey::Copy) == seq![
                Effect::CopyFrom(field),
            ]
            &&& chosen ==> find::find_command_work(bar, FieldKey::Cut)[0] == Effect::CutFrom(field)
            &&& !chosen ==> find::find_command_work(bar, FieldKey::Copy).len() == 0
                && find::find_command_work(bar, FieldKey::Cut).len() == 0
        }),
{
    let work = find::find_command_work(bar, FieldKey::Edit(op));
    if (op is Undo || op is Redo || op is Backspace || op is DeleteToLineStart) && !bar.replacing {
        assert(work[1] == Effect::Run(Task::RefreshFind));
    }
}

/// The letters of the familiar shortcuts mean in a find field what they mean
/// everywhere, in either case.
pub proof fn the_familiar_shortcuts_are_taken(event: KeyEvent)
    requires
        keys::plain_code(event.code) != keys::DELETE,
        keys::plain_code(event.code) != keys::FORWARD_DELETE,
        keys::plain_code(event.code) != keys::LEFT,
        keys::plain_code(event.code) != keys::RIGHT,
    ensures
        event.bare == Some('a') || event.bare == Some('A') ==> find::field_command(event)
            == FieldKey::Edit(EditOp::SelectAll),
        event.bare == Some('c') || event.bare == Some('C') ==> find::field_command(event) is Copy,
        event.bare == Some('x') || event.bare == Some('X') ==> find::field_command(event) is Cut,
        event.bare == Some('v') || event.bare == Some('V') ==> find::field_command(event) is Paste,
        event.bare == Some('z') && !event.flags.shift ==> find::field_command(event)
            == FieldKey::Edit(EditOp::Undo),
        event.bare == Some('z') && event.flags.shift ==> find::field_command(event)
            == FieldKey::Edit(EditOp::Redo),
{
}

/// Closing the find bar leaves none, and the text as it is.
pub proof fn a_closed_find_bar_is_gone(after: EditorView, before: EditorView, now: u64)
    requires
        after.closes_find(before, now),
    ensures
        after.state.fields.find is None,
        after.state.pane == before.state.pane,
        !after.state.project.searching,
{
}

/// A document without a file, or one to be saved under another name, is asked
/// about; any other is written where it is.
pub proof fn a_save_asks_for_a_place_when_there_is_none(
    after: EditorView,
    before: EditorView,
    force_panel: bool,
)
    requires
        after.starts_save(before, force_panel),
    ensures
        promises::gained(after, before).len() == 1,
        force_panel || before.state.pane.docs.front().path is None ==> promises::gained(
            after,
            before,
        )[0] is ShowSavePanel,
        !force_panel && before.state.pane.docs.front().path is Some ==> promises::gained(
            after,
            before,
        )[0] == Effect::WriteActive(None, false),
        after.state == before.state,
{
    let n = before.effects@.len() as int;
    assert(after.effects@.skip(n)[0] == after.effects@[n]);
}

/// A field for a new name holds the word it is about, all of it selected, and
/// knows which file and place that is.
pub proof fn a_rename_starts_with_the_old_name(
    after: EditorView,
    before: EditorView,
    start: int,
    end: int,
    at: Position,
    now: u64,
)
    requires
        after.opens_rename(before, start, end, at, now),
        servers::language_of(before.state.pane.docs.front()) is Some,
        text::trimmed(
            text::readable(before.state.pane.docs.front().text@.subrange(start, end)),
        ).len() > 0,
    ensures
        after.state.fields.rename matches Some(rename) && rename.field.text@ == text::readable(
            before.state.pane.docs.front().text@.subrange(start, end),
        ) && rename.field.anchor == 0 && rename.field.cursor == vstd::utf8::encode_utf8(
            rename.field.text@,
        ).len() && Some(rename.path) == before.state.pane.docs.front().path && rename.at == at,
        after.state.pane == before.state.pane,
{
}

/// A name field in the tree shows the tree, for what it was asked for: a rename
/// starts with the old name in the row it has, and leaves the extension out of
/// the selection; a new item starts empty.
pub proof fn a_name_field_opens_in_the_tree(
    after: EditorView,
    before: EditorView,
    kind: SidebarEditKind,
    visible: Option<usize>,
    now: u64,
)
    requires
        after.starts_edit(before, kind, visible, now),
        before.state.side.tree.root is Some,
    ensures
        after.state.side.open,
        !after.state.git.open,
        !(kind is Rename) ==> (after.state.fields.sidebar_edit matches Some(edit) && edit.kind == kind
            && edit.field.text@.len() == 0),
        kind matches SidebarEditKind::Rename(place) ==> (sidebar::row_at(
            before.state.side.tree.rows@,
            place@,
        ) matches Some(i) ==> after.state.fields.sidebar_edit is Some
            && after.state.fields.sidebar_edit->0.kind == kind
            && after.state.fields.sidebar_edit->0.row == i
            && after.state.fields.sidebar_edit->0.field.text@
            == before.state.side.tree.rows@[i].name@),
        after.state.pane == before.state.pane,
{
}

/// A single press in the terminal selects nothing yet, a double one the word
/// under it, a triple one its line.
pub proof fn a_press_in_the_terminal_selects(press: TerminalPress)
    ensures
        press.clicks <= 1 ==> (sessions::pressed_range(press) matches Some(range) && range.from
            == range.to && range.from.line == press.line && range.from.column == press.boundary),
        press.clicks == 2 ==> (press.word matches Some((a, b)) ==> sessions::pressed_range(
            press,
        ) is Some && sessions::pressed_range(press)->0.from.column == a && sessions::pressed_range(
            press,
        )->0.to.column == b && sessions::pressed_range(press)->0.from.line == press.line),
        press.clicks >= 3 ==> (sessions::pressed_range(press) matches Some(range)
            && range.from.column == 0 && range.to.column == press.columns && range.from.line
            == press.line && range.to.line == press.line),
{
}

/// A server that formats is waited for with the text that was sent to it; one
/// that does not is said not to, unless that would only be in the way of a save.
pub proof fn a_format_is_waited_for(
    after: EditorView,
    asked: EditorView,
    front: Buffer,
    save: bool,
    now: u64,
)
    requires
        after.awaits_format(asked, front, true, save, now),
    ensures
        ask::formats(asked.state) ==> (after.state.servers.formatting matches Some(formatting)
            && formatting.text@ == front.text@),
        !ask::formats(asked.state) && !save ==> after.state.status.message is Some
            && after.state.status.message->0.at == now && after.state.servers == asked.state.servers,
        !ask::formats(asked.state) && save ==> after == asked,
        after.state.pane == asked.state.pane,
{
}

/// A rule shows what it hides only below the folder it is written for, and only
/// what it matches.
pub proof fn a_rule_hides_what_it_matches(
    rows: Seq<TreeEntry>,
    base: Seq<char>,
    matched: Option<Vec<bool>>,
    k: int,
)
    requires
        rows.len() <= usize::MAX,
        0 <= k < ignore::picked(rows, ignore::below(rows, base), matched).len(),
    ensures
        exists|i: int|
            0 <= i < rows.len() && path::is_within((#[trigger] rows[i]).path@, base)
                && ignore::picked(rows, ignore::below(rows, base), matched)[k] == rows[i].path,
{
    every_number_is_below(rows, base);
    every_pick_is_a_row(rows, ignore::below(rows, base), matched, k);
}

/// The rows below a folder are rows that lie within it.
proof fn every_number_is_below(rows: Seq<TreeEntry>, base: Seq<char>)
    requires
        rows.len() <= usize::MAX,
    ensures
        forall|j: int|
            0 <= j < ignore::below(rows, base).len() ==> (#[trigger] ignore::below(rows, base)[j])
                < rows.len() && path::is_within(
                rows[ignore::below(rows, base)[j] as int].path@,
                base,
            ),
    decreases rows.len(),
{
    if rows.len() > 0 {
        every_number_is_below(rows.drop_last(), base);
        let head = ignore::below(rows.drop_last(), base);
        let all = ignore::below(rows, base);
        assert forall|j: int| 0 <= j < all.len() implies (#[trigger] all[j]) < rows.len()
            && path::is_within(rows[all[j] as int].path@, base) by {
            if j < head.len() {
                assert(all[j] == head[j]);
                assert(rows.drop_last()[head[j] as int] == rows[head[j] as int]);
            }
        }
    }
}

/// What is picked is the path of one of the numbered rows.
proof fn every_pick_is_a_row(
    rows: Seq<TreeEntry>,
    numbers: Seq<usize>,
    matched: Option<Vec<bool>>,
    k: int,
)
    requires
        0 <= k < ignore::picked(rows, numbers, matched).len(),
    ensures
        exists|j: int|
            0 <= j < numbers.len() && #[trigger] numbers[j] < rows.len() && ignore::is_matched(
                matched,
                j,
            ) && ignore::picked(rows, numbers, matched)[k] == rows[numbers[j] as int].path,
    decreases numbers.len(),
{
    let head = ignore::picked(rows, numbers.drop_last(), matched);
    let all = ignore::picked(rows, numbers, matched);
    if k < head.len() {
        every_pick_is_a_row(rows, numbers.drop_last(), matched, k);
        let j = choose|j: int|
            0 <= j < numbers.drop_last().len() && #[trigger] numbers.drop_last()[j] < rows.len()
                && ignore::is_matched(matched, j) && head[k]
                == rows[numbers.drop_last()[j] as int].path;
        assert(numbers[j] == numbers.drop_last()[j]);
    } else {
        let j = numbers.len() - 1;
        assert(numbers[j] == numbers.last());
        assert(ignore::is_matched(matched, j));
    }
}

/// A menu answers to the key that is written on an entry, with the modifiers
/// written there, in either case; the first entry that does is taken.
pub proof fn a_menu_answers_to_its_keys(entries: Seq<Entry>, item: MenuItem, flags: Modifiers)
    requires
        entries.len() > 0,
        entries[0] == Entry::Item(item),
        item.key@.len() > 0,
        flags == menu::wanted(item),
    ensures
        menu::action_in(entries, item.key@, flags) == Some(item.action),
    decreases entries.len(),
{
    if entries.len() > 1 {
        assert(entries.drop_last()[0] == entries[0]);
        a_menu_answers_to_its_keys(entries.drop_last(), item, flags);
    } else {
        assert(menu::action_in(entries.drop_last(), item.key@, flags) is None);
        assert(entries.last() == entries[0]);
    }
}

} // verus!
