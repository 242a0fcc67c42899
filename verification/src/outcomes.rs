//! What the window promises of its panels: the terminal, the palette, requests
//! and the assistant.

use crate::bridge;
use crate::buffer::{self, Buffer};
use crate::claude::{self, Selection};
use crate::documents::Documents;
use crate::host::Proposal;
use crate::http::{self, Shown};
use crate::keys::{self, KeyEvent};
use crate::palette::{self, FileHit, Pick};
use crate::promises;
use crate::sessions;
use crate::state::{EditorView, Effect, PaletteState, Position, State};
use crate::terminal::{TerminalPanel, TerminalTab};
use vstd::prelude::*;

verus! {

/// A key that stands for something in a terminal is written to the session in
/// front, once and as it is, and the session shows its end.
pub proof fn a_terminal_key_is_written(
    after: EditorView,
    before: EditorView,
    event: KeyEvent,
    bytes: Vec<u8>,
)
    requires
        after.handles_terminal_key(before, event, Some(bytes)),
        !event.flags.command,
        before.state.terminal.tabs@.len() > 0,
    ensures
        after.effects@ == before.effects@.push(Effect::TerminalWrite(bytes)),
        after.state.terminal.back == 0,
        after.state.terminal.selection is None,
        after.state.terminal.tabs == before.state.terminal.tabs,
        after.state.pane == before.state.pane,
{
}

/// The sessions that go on are those whose programs have not ended, in order.
pub proof fn the_running_sessions_go_on(tabs: Seq<TerminalTab>)
    ensures
        sessions::running(tabs) == tabs.filter(|tab: TerminalTab| !tab.exited),
    decreases tabs.len(),
{
    reveal(Seq::filter);
    if tabs.len() > 0 {
        the_running_sessions_go_on(tabs.drop_last());
    }
}

/// When a session is closed, another one in front stays in front.
pub proof fn closing_another_session_keeps_the_front(panel: TerminalPanel, index: int)
    requires
        panel.wf(),
        0 <= index < panel.tabs@.len(),
        index != panel.active,
    ensures
        panel.tabs@.remove(index)[panel.active_without(index)] == panel.tabs@[panel.active as int],
        0 <= panel.active_without(index) < panel.tabs@.len() - 1,
{
}

/// The terminal comes with the keyboard, on a session; a second time it goes
/// with it, and the sessions stay.
pub proof fn the_terminal_comes_and_goes(
    shown: EditorView,
    hidden: EditorView,
    before: EditorView,
    now: u64,
    later: u64,
)
    requires
        before.state.wf(),
        !(before.state.terminal.open && before.state.terminal.focus),
        shown.toggles_terminal(before, now),
        hidden.toggles_terminal(shown, later),
    ensures
        shown.state.terminal.open,
        shown.state.terminal.focus,
        shown.state.terminal.tabs == before.state.terminal.tabs,
        before.state.terminal.tabs@.len() == 0 ==> promises::gained(shown, before).contains(
            Effect::SpawnTerminal(false),
        ),
        before.state.terminal.tabs@.len() > 0 ==> shown.state.terminal.active
            == before.state.terminal.active,
        !hidden.state.terminal.open,
        !hidden.state.terminal.focus,
        hidden.state.terminal.tabs == before.state.terminal.tabs,
{
    if before.state.terminal.tabs@.len() == 0 {
        assert(promises::gained(shown, before)[0] == Effect::SpawnTerminal(false));
    }
}

/// Return in the palette takes the selected row and closes the palette: a file
/// is opened, a symbol is gone to, a command is run, a branch is switched to or
/// made.
pub proof fn the_selected_row_is_taken(
    after: EditorView,
    before: EditorView,
    event: KeyEvent,
    picks: Seq<Pick>,
    visible: int,
    handled: bool,
    now: u64,
)
    requires
        after.handles_palette_key(before, event, picks, visible, handled, now),
        before.state.fields.palette is Some,
        before.state.fields.palette->0.selected < picks.len(),
        keys::plain_code(event.code) == keys::RETURN,
        !event.flags.command,
    ensures
        handled,
        after.state.fields.palette is None,
        ({
            let sent = promises::gained(after, before);
            match picks[before.state.fields.palette->0.selected as int] {
                Pick::File(path) => sent.contains(Effect::LoadPath(path)),
                Pick::Symbol(path, line) => sent.contains(Effect::GoToSymbol(path, line)),
                Pick::Command(action) => sent.contains(Effect::RunCommand(action)),
                Pick::Branch(name) => sent.contains(Effect::ChooseBranch(name, false)),
                Pick::NewBranch(name) => sent.contains(Effect::ChooseBranch(name, true)),
            }
        }),
{
    assert(palette::palette_key(event) is Choose);
    let pick = picks[before.state.fields.palette->0.selected as int];
    let sent = promises::gained(after, before);
    let work = EditorView::pick_work(pick);
    assert(sent =~= before.pumping(now) + work);
    assert(sent[before.pumping(now).len() as int] == work[0]);
}

/// The arrows go from row to row and stay on the list; within it one undoes
/// the other.
pub proof fn the_arrows_stay_on_the_list(list: PaletteState, count: int)
    requires
        0 <= list.selected < count <= usize::MAX,
    ensures
        list.selected + 1 < count ==> list.moved(true, count) == list.selected + 1,
        list.selected + 1 == count ==> list.moved(true, count) == list.selected,
        list.selected > 0 ==> list.moved(false, count) == list.selected - 1,
        list.selected == 0 ==> list.moved(false, count) == 0,
{
}

/// The palette lists the files that are still there, in order.
pub proof fn files_that_are_gone_are_not_listed(files: Seq<FileHit>)
    ensures
        palette::present_files(files) == files.filter(
            |hit: FileHit| hit.row is Some && hit.path is Some,
        ),
    decreases files.len(),
{
    reveal(Seq::filter);
    if files.len() > 0 {
        files_that_are_gone_are_not_listed(files.drop_last());
    }
}

/// A response tab comes to the front with what it shows, and no other document
/// changes.
pub proof fn a_response_tab_comes_to_the_front(
    docs: Documents,
    before: Documents,
    title: Seq<char>,
    shown: Shown,
    fresh: u64,
)
    requires
        before.wf(),
        http::response_placed(docs, before, title, shown, fresh),
    ensures
        docs.active < docs.list@.len(),
        docs.list@[docs.active as int].text@ == shown.text@,
        !docs.list@[docs.active as int].dirty,
        forall|i: int|
            0 <= i < before.list@.len() && i != docs.active && before.list@.len() > 1
                ==> docs.list@[i] == #[trigger] before.list@[i],
{
    crate::documents::first_where_is_first(before.list@, |b: Buffer| b.is_titled(title));
    if before.position_labelled(title) is None {
        let made = choose|made: Buffer|
            {
                &&& #[trigger] made.is_generated(fresh, title, shown.ending(), shown.text@)
                &&& docs.front() == (Buffer { display: shown.display, ..made })
            };
        let blank = choose|blank: Buffer|
            {
                &&& #[trigger] blank.is_blank()
                &&& made == (Buffer {
                    id: made.id,
                    label: made.label,
                    extension: made.extension,
                    text: made.text,
                    ..blank
                })
            };
    } else {
        assert(before.list@.len() == before.list.len());
    }
}

/// A request that is sent is the one of the tab in front, and that tab waits
/// for the reply.
pub proof fn a_request_is_sent_for_its_tab(
    after: EditorView,
    opened: EditorView,
    title: Seq<char>,
    now: u64,
)
    requires
        after.sends(opened, title, now),
    ensures
        ({
            let id = opened.state.pane.docs.list@[opened.state.pane.docs.active as int].id;
            &&& after.state.http.in_flight == Some(id)
            &&& after.effects@[opened.effects@.len() as int] == Effect::SendHttp(id)
        }),
        after.state.pane.docs == opened.state.pane.docs,
{
}

/// A proposed edit comes to the front as a tab that holds what is proposed, and
/// waits there for an answer about its file.
pub proof fn a_proposal_waits_in_front(
    after: EditorView,
    forgot: EditorView,
    earlier: Option<u64>,
    p: Proposal,
    fresh: u64,
    now: u64,
)
    requires
        forgot.state.wf(),
        after.proposes(forgot, earlier, p, fresh, now),
    ensures
        ({
            let docs = after.state.pane.docs;
            let front = docs.list@[docs.active as int];
            &&& docs.active < docs.list@.len()
            &&& front.text@ == p.contents@
            &&& after.state.claude.bridge matches Some(bridge)
            &&& bridge.reviews@.contains_key(front.id)
            &&& !bridge.reviews@[front.id].decided
            &&& bridge.reviews@[front.id].path == p.path
            &&& bridge.reviews@[front.id].tab_name == p.tab_name
        }),
        after.state.pane.preview is None,
{
    let before = forgot.state.pane.docs;
    if let Some(id) = earlier {
        crate::documents::first_where_is_first(before.list@, |b: Buffer| b.id == id);
        assert(before.list@.len() == before.list.len());
    }
}

/// Command-Return accepts the review in front and Escape rejects it: the
/// answer is sent once, and the review is not asked about again. The text
/// stays.
pub proof fn a_review_is_answered_as_the_key_says(
    after: EditorView,
    before: EditorView,
    event: KeyEvent,
    page: i64,
    handled: bool,
    now: u64,
)
    requires
        after.handles_review_key(before, event, page, handled, now),
        before.state.claude.bridge matches Some(bridge) && bridge.reviews@.contains_key(
            before.state.pane.docs.front().id,
        ) && !bridge.reviews@[before.state.pane.docs.front().id].decided,
        (event.code == keys::RETURN && event.flags.command) || (event.code == keys::ESCAPE),
    ensures
        ({
            let id = before.state.pane.docs.front().id;
            &&& after.effects@.len() > before.effects@.len()
            &&& after.effects@[before.effects@.len() as int] == Effect::DecideReview(
                id,
                event.code == keys::RETURN,
            )
            &&& after.state.claude.bridge matches Some(bridge)
            &&& bridge.reviews@.contains_key(id)
            &&& bridge.reviews@[id].decided
        }),
        after.state.pane.docs == before.state.pane.docs,
{
}

/// A review that was answered stays as it was answered.
pub proof fn a_review_is_answered_once(
    after: EditorView,
    before: EditorView,
    accept: bool,
    now: u64,
)
    requires
        after.decides(before, accept, now),
        before.state.claude.bridge matches Some(bridge) ==> bridge.reviews@.contains_key(
            before.state.pane.docs.front().id,
        ) ==> bridge.reviews@[before.state.pane.docs.front().id].decided,
    ensures
        after == before,
{
}

/// Closing the tab of a review that waits rejects it; closing any other tab
/// answers nothing.
pub proof fn closing_a_waiting_review_rejects_it(state: State, id: u64)
    ensures
        (state.claude.bridge matches Some(bridge) && bridge.reviews@.contains_key(id)
            && !bridge.reviews@[id].decided) ==> claude::closing_answer(state, id) == seq![
            Effect::DecideReview(id, false),
        ],
        !(state.claude.bridge matches Some(bridge) && bridge.reviews@.contains_key(id)
            && !bridge.reviews@[id].decided) ==> claude::closing_answer(state, id).len() == 0,
{
}

/// The assistant is told what is selected, as it stands in the document, and
/// in which file.
pub proof fn the_selection_is_told_as_it_stands(
    selection: Selection,
    b: Buffer,
    start: Position,
    end: Position,
)
    requires
        b.wf(),
        bridge::tells_selection(selection, b, start, end),
    ensures
        b.path == Some(selection.path),
        ({
            let low = if b.anchor < b.cursor {
                b.anchor as int
            } else {
                b.cursor as int
            };
            let high = if b.anchor < b.cursor {
                b.cursor as int
            } else {
                b.anchor as int
            };
            high - low <= bridge::MAX_TEXT ==> selection.text@ == crate::text::readable(
                b.text@.subrange(low, high),
            )
        }),
        selection.start == start,
        selection.end == end,
{
}

/// A needle is found where it stands first, not before `from`, and is not
/// found only when it stands nowhere.
pub proof fn a_needle_is_found_where_it_stands_first(
    text: Seq<u8>,
    needle: Seq<u8>,
    from: int,
)
    requires
        0 <= from,
    ensures
        match buffer::found_at(text, needle, from) {
            Some(at) => from <= at && at + needle.len() <= text.len() && text.subrange(
                at,
                at + needle.len(),
            ) == needle && forall|k: int|
                from <= k < at ==> #[trigger] text.subrange(k, k + needle.len()) != needle,
            None => forall|k: int|
                from <= k <= text.len() - needle.len() ==> #[trigger] text.subrange(
                    k,
                    k + needle.len(),
                ) != needle,
        },
    decreases text.len() + 1 - from,
{
    if from + needle.len() <= text.len() && text.subrange(from, from + needle.len()) != needle {
        a_needle_is_found_where_it_stands_first(text, needle, from + 1);
    }
}

} // verus!
