//! What the window keeps to: unsaved work on the way out, what it opens and
//! brings to the front, and where on the screen each part of it is.
use crate::buffer::Buffer;
use crate::clicks::{self, FindParts, FindSpot};
use crate::cursors::{self, CursorParts, CursorRect, GitPlace, Pointer};
use crate::files::Opened;
use crate::frame::{self, Chrome, ChromePlan, Hit, Parts, Rect, Region};
use crate::host::{self, BridgeEvent, Editor};
use crate::http::Shown;
use crate::keys::{self, KeyEvent};
use crate::link::Made;
use crate::menu;
use crate::mouse;
use crate::panes::PaneStore;
use crate::project;
use crate::promises;
use crate::session::{self, Leaving};
use crate::sessions;
use crate::settings::SettingsFile;
use crate::sidebar::{self, EditPlan, SidebarEditKind, Tree};
use crate::state::{EditorView, Effect, State, Task};
use vstd::prelude::*;

verus! {

/// What a step asks for is what it adds.
proof fn gains(after: EditorView, before: EditorView, done: Seq<Effect>)
    requires
        after.effects@ == before.effects@ + done,
    ensures
        promises::gained(after, before) == done,
{
    assert((before.effects@ + done).skip(before.effects@.len() as int) =~= done);
}

/// While there are unsaved changes anywhere, the window does not go: it asks
/// about a document that has some, with that document in front.
pub proof fn unsaved_changes_are_asked_about(
    after: EditorView,
    before: EditorView,
    leaving: Leaving,
    now: u64,
    i: int,
)
    requires
        after.leaves(before, leaving, now),
        0 <= i < before.state.pane.docs.list@.len(),
        before.state.pane.docs.list@[i].dirty,
        before.state.pane.docs.list@.len() <= usize::MAX,
    ensures
        leaving matches Leaving::Asking(at) && at <= i && before.state.pane.docs.list@[at as int].dirty
            && after.state.pane.docs.active == at,
        promises::gained(after, before).last() == Effect::AskAboutChanges,
{
    let list = before.state.pane.docs.list@;
    let hit = |b: Buffer| b.dirty;
    crate::documents::first_where_is_first(list, hit);
    if before.state.pane.docs.first_dirty() is None {
        assert(hit(list[i]));
    } else {
        let at = before.state.pane.docs.first_dirty()->0;
        if at > i {
            assert(hit(list[i]));
        }
        let done = seq![Effect::SyncTitle, Effect::Run(Task::Reparse)] + before.pumping(now) + seq![
            Effect::AskAboutChanges,
        ];
        gains(after, before, done);
        assert(done.last() == Effect::AskAboutChanges);
    }
}

/// The pane that is asked about has unsaved changes, and none before it has;
/// none is found only when none has.
pub proof fn a_pane_with_unsaved_changes_is_found(panes: Seq<PaneStore>, p: int, i: int)
    requires
        0 <= p < panes.len(),
        0 <= i < panes[p].docs.list@.len(),
        panes[p].docs.list@[i].dirty,
    ensures
        session::dirty_pane(panes) matches Some(at) && 0 <= at <= p && exists|j: int|
            0 <= j < panes[at].docs.list@.len() && (#[trigger] panes[at].docs.list@[j]).dirty,
    decreases panes.len(),
{
    if p < panes.len() - 1 {
        assert(panes.drop_last()[p] == panes[p]);
        a_pane_with_unsaved_changes_is_found(panes.drop_last(), p, i);
        let at = session::dirty_pane(panes.drop_last())->0;
        assert(panes.drop_last()[at] == panes[at]);
        let j = choose|j: int|
            0 <= j < panes.drop_last()[at].docs.list@.len() && (
            #[trigger] panes.drop_last()[at].docs.list@[j]).dirty;
        assert(panes[at].docs.list@[j].dirty);
    } else {
        a_found_pane_has_changes(panes.drop_last());
        let hit = |b: Buffer| b.dirty;
        crate::documents::first_where_is_first(panes[p].docs.list@, hit);
        assert(hit(panes[p].docs.list@[i]));
        if let Some(at) = session::dirty_pane(panes.drop_last()) {
            assert(panes.drop_last()[at] == panes[at]);
            let j = choose|j: int|
                0 <= j < panes.drop_last()[at].docs.list@.len() && (
                #[trigger] panes.drop_last()[at].docs.list@[j]).dirty;
            assert(panes[at].docs.list@[j].dirty);
        } else {
            assert(panes.last() == panes[p]);
        }
    }
}

/// A pane that is found is one of them and has unsaved changes.
proof fn a_found_pane_has_changes(panes: Seq<PaneStore>)
    ensures
        session::dirty_pane(panes) matches Some(at) ==> 0 <= at < panes.len() && exists|j: int|
            0 <= j < panes[at].docs.list@.len() && (#[trigger] panes[at].docs.list@[j]).dirty,
    decreases panes.len(),
{
    if panes.len() > 0 {
        a_found_pane_has_changes(panes.drop_last());
        match session::dirty_pane(panes.drop_last()) {
            Some(at) => {
                assert(panes.drop_last()[at] == panes[at]);
                let j = choose|j: int|
                    0 <= j < panes.drop_last()[at].docs.list@.len() && (
                    #[trigger] panes.drop_last()[at].docs.list@[j]).dirty;
                assert(panes[at].docs.list@[j].dirty);
            },
            None => {
                let hit = |b: Buffer| b.dirty;
                crate::documents::first_where_is_first(panes.last().docs.list@, hit);
                if panes.last().docs.first_dirty() is Some {
                    let j = panes.last().docs.first_dirty()->0;
                    assert(panes[panes.len() - 1].docs.list@[j].dirty);
                }
            },
        }
    }
}

/// The terminal opens with the keyboard in it, on a session that is there, and
/// starts one when there is none.
pub proof fn the_terminal_opens_on_a_session(after: EditorView, before: EditorView, now: u64)
    requires
        after.opens_terminal(before, false, now),
    ensures
        after.state.terminal.open && after.state.terminal.focus,
        before.state.terminal.tabs@.len() == 0 ==> promises::gained(after, before)[0]
            == Effect::SpawnTerminal(false),
        before.state.terminal.tabs@.len() > 0 ==> after.state.terminal.active
            == before.state.terminal.active && promises::gained(after, before)[0]
            == Effect::InvalidateCursorRects,
        after.state.terminal.tabs == before.state.terminal.tabs,
        after.state.pane == before.state.pane,
{
    let first = if before.state.terminal.tabs@.len() == 0 {
        seq![Effect::SpawnTerminal(false)]
    } else {
        Seq::empty()
    };
    gains(after, before, first + seq![Effect::InvalidateCursorRects] + before.pumping(now));
}

/// The palette opens on what it is to look for, with the first row selected and
/// its lists read.
pub proof fn the_palette_opens_on_its_prefix(
    after: EditorView,
    before: EditorView,
    prefix: Seq<char>,
    now: u64,
)
    requires
        after.opens_palette(before, prefix, now),
    ensures
        after.state.fields.palette matches Some(palette) && palette.query.text@ == prefix
            && palette.selected == 0,
        after.state.fields.palette_scroll == 0,
        after.state.fields.branch_list is None,
        !after.state.git.open,
        promises::gained(after, before)[0] == Effect::ReadCommands,
        promises::gained(after, before)[1] == Effect::ReadSymbols,
        after.state.pane == before.state.pane,
{
    gains(
        after,
        before,
        seq![Effect::ReadCommands, Effect::ReadSymbols] + before.pumping(now),
    );
}

/// A selection that moves while the assistant is connected is noted with its
/// time; one that has not moved is not noted again.
pub proof fn a_moved_selection_is_noted(after: EditorView, before: EditorView, now: u64)
    requires
        after.sees_selection(before, now),
        before.state.claude.bridge is Some,
    ensures
        ({
            let bridge = before.state.claude.bridge->0;
            let front = before.state.pane.docs.front();
            let low = if front.anchor < front.cursor {
                front.anchor
            } else {
                front.cursor
            };
            let high = if front.anchor < front.cursor {
                front.cursor
            } else {
                front.anchor
            };
            let same = bridge.seen matches Some(seen) && seen.buffer == front.id && seen.start == low
                && seen.end == high;
            &&& same ==> after == before
            &&& !same ==> after.state.claude.bridge is Some && (
            after.state.claude.bridge->0.seen matches Some(seen) && seen.buffer == front.id
                && seen.start == low && seen.end == high)
            &&& !same && bridge.connected ==> after.state.claude.bridge->0.changed_at == Some(now)
        }),
{
}

/// What is clicked in the find bar is done: a result is opened, a field gets the
/// keyboard, and a chip searches again.
pub proof fn a_click_in_the_find_bar_does_it(
    after: EditorView,
    before: EditorView,
    spot: FindSpot,
    caret: Option<usize>,
    now: u64,
)
    requires
        after.clicks_find(before, spot, caret, now),
        before.state.fields.find is Some,
    ensures
        spot matches FindSpot::Result(row) ==> (before.state.fields.find->0.result_scroll + row
            < before.state.fields.find->0.results@.len() ==> promises::gained(after, before) == seq![
            Effect::Run(
                Task::OpenResult((before.state.fields.find->0.result_scroll + row) as usize),
            ),
        ]),
        spot matches FindSpot::Field(replace) ==> (after.state.fields.find matches Some(bar)
            && bar.replacing == replace),
        spot is Option ==> promises::gained(after, before)[0] == Effect::Run(Task::RefreshFind),
        spot is Close ==> promises::gained(after, before)[0] == Effect::Run(Task::CloseFind),
        spot matches FindSpot::Step(forward) ==> (!before.state.fields.find->0.project
            ==> promises::gained(after, before)[0] == Effect::Run(Task::FindStep(forward))),
        after.state.pane == before.state.pane,
{
    let bar = before.state.fields.find->0;
    let pump = before.pumping(now);
    match spot {
        FindSpot::Result(row) => {
            if bar.result_scroll + row < bar.results@.len() {
                gains(
                    after,
                    before,
                    seq![Effect::Run(Task::OpenResult((bar.result_scroll + row) as usize))],
                );
            }
        },
        FindSpot::Option(_) => {
            gains(after, before, seq![Effect::Run(Task::RefreshFind)] + pump);
        },
        FindSpot::Close => {
            gains(after, before, seq![Effect::Run(Task::CloseFind)] + pump);
        },
        FindSpot::Step(forward) => {
            if !bar.project {
                gains(after, before, seq![Effect::Run(Task::FindStep(forward))] + pump);
            }
        },
        _ => {},
    }
}

/// What the assistant asks over its current connection is answered, once; what
/// comes over another is not. Coming and going is said.
pub proof fn the_assistant_is_answered(
    after: EditorView,
    before: EditorView,
    event: BridgeEvent,
    now: u64,
)
    requires
        after.takes_bridge_event(before, event, now),
        before.state.claude.bridge is Some,
    ensures
        event matches BridgeEvent::Asked(asked, current) ==> promises::gained(after, before) == (
        if current {
            seq![Effect::AnswerClaude(asked)]
        } else {
            Seq::empty()
        }),
        event is Connected ==> (after.state.claude.bridge matches Some(bridge) && bridge.connected)
            && after.state.status.message is Some && after.state.status.message->0.at == now,
        event matches BridgeEvent::Closed(still) ==> (after.state.claude.bridge matches Some(bridge)
            && bridge.connected == still),
        event == BridgeEvent::Closed(false) ==> after.state.status.message is Some
            && after.state.status.message->0.at == now,
        after.state.pane == before.state.pane,
{
    if let BridgeEvent::Asked(asked, current) = event {
        gains(
            after,
            before,
            if current {
                seq![Effect::AnswerClaude(asked)]
            } else {
                Seq::empty()
            },
        );
    }
}

/// The part of a reply that is asked for is shown, in the tab the reply is in,
/// and remembered as the one that shows.
pub proof fn the_part_asked_for_is_shown(
    after: EditorView,
    before: EditorView,
    index: usize,
    shown: Shown,
    now: u64,
)
    requires
        before.state.wf(),
        after.selects_part(before, index, shown, now),
    ensures
        ({
            let at = before.state.pane.docs.active as int;
            let id = before.state.pane.docs.front().id;
            &&& after.state.pane.docs.active == at
            &&& after.state.pane.docs.list@[at].text@ == shown.text@
            &&& after.state.pane.docs.list@[at].id == id
            &&& after.state.http.responses@[id].segment == index
            &&& forall|i: int|
                0 <= i < before.state.pane.docs.list@.len() && i != at ==> #[trigger]
                after.state.pane.docs.list@[i] == before.state.pane.docs.list@[i]
        }),
{
}

/// The assistant is told of every document that is no review, by its path, and
/// whether it has unsaved changes.
pub proof fn every_document_is_told_of(told: Seq<Editor>, list: Seq<Buffer>, s: State, active: u64, i: int)
    requires
        host::describes_all(told, host::not_reviews(list, s), active),
        0 <= i < list.len(),
        s.claude.bridge is None,
    ensures
        told.len() == list.len(),
        told[i].path == list[i].path,
        told[i].dirty == list[i].dirty,
        told[i].active == (list[i].id == active),
{
    all_are_kept(list, s);
}

/// Without the assistant there are no reviews to leave out.
proof fn all_are_kept(list: Seq<Buffer>, s: State)
    requires
        s.claude.bridge is None,
    ensures
        host::not_reviews(list, s) == list,
    decreases list.len(),
{
    if list.len() > 0 {
        all_are_kept(list.drop_last(), s);
        assert(list.drop_last().push(list.last()) =~= list);
    } else {
        assert(host::not_reviews(list, s) =~= list);
    }
}

/// A review is not told of as a document.
pub proof fn a_review_is_not_a_document(list: Seq<Buffer>, s: State, k: int)
    requires
        0 <= k < host::not_reviews(list, s).len(),
    ensures
        list.contains(host::not_reviews(list, s)[k]),
        s.claude.bridge matches Some(bridge) ==> !bridge.has_review(
            host::not_reviews(list, s)[k].id,
        ),
    decreases list.len(),
{
    let head = host::not_reviews(list.drop_last(), s);
    if k < head.len() {
        a_review_is_not_a_document(list.drop_last(), s, k);
        let j = list.drop_last().index_of(head[k]);
        assert(list[j] == head[k]);
    } else {
        assert(list[list.len() - 1] == list.last());
    }
}

/// A document that is read again is what was read, and has nothing unsaved.
pub proof fn a_reloaded_document_is_what_was_read(after: Buffer, before: Buffer, bytes: Seq<u8>)
    requires
        after.reloads(before, bytes),
    ensures
        after.text@ == bytes,
        !after.dirty,
        after.cursor <= bytes.len(),
        after.id == before.id,
        after.path == before.path,
        before.cursor <= bytes.len() ==> after.cursor == before.cursor,
{
    assert(after.text@.len() == after.text.len());
}

/// Every part of the window that is there can be pressed where it is.
pub proof fn every_part_can_be_pressed(s: State, chrome: Chrome, parts: Parts)
    ensures
        ({
            let all = frame::regions_of(s, chrome, parts);
            &&& all.contains(Region { hit: Hit::ToolbarSidebar, rect: parts.toolbar_sidebar })
            &&& all.contains(Region { hit: Hit::ToolbarProject, rect: parts.toolbar_project })
            &&& all.contains(Region { hit: Hit::ToolbarSearch, rect: parts.toolbar_search })
            &&& all.contains(Region { hit: Hit::TabStrip, rect: chrome.tabs })
            &&& all.contains(Region { hit: Hit::Text, rect: chrome.text })
            &&& all.contains(Region { hit: Hit::Status, rect: chrome.status })
            &&& chrome.find matches Some(rect) ==> all.contains(Region { hit: Hit::Find, rect })
            &&& chrome.terminal matches Some(rect) ==> all.contains(
                Region { hit: Hit::Terminal, rect },
            ) && all.contains(Region { hit: Hit::TerminalNew, rect: parts.new_session })
            &&& chrome.sidebar is Some ==> all.contains(
                Region { hit: Hit::SidebarExplorer, rect: parts.explorer },
            ) && all.contains(
                Region { hit: Hit::SidebarSourceControl, rect: parts.source_control },
            )
            &&& chrome.response is Some && s.awaits_review(s.pane.docs.front().id) ==> all.contains(
                Region { hit: Hit::ReviewAccept, rect: parts.accept },
            ) && all.contains(Region { hit: Hit::ReviewReject, rect: parts.reject })
            &&& forall|i: int|
                0 <= i < chrome.others@.len() ==> all.contains(
                    (Region {
                        hit: Hit::Pane((#[trigger] chrome.others@[i]).index),
                        rect: chrome.others@[i].whole,
                    }),
                )
        }),
{
    let a = frame::toolbar_regions(parts);
    let b = frame::terminal_band(chrome.terminal);
    let c = frame::sidebar_regions(s, chrome.sidebar, parts);
    let d = frame::pane_regions(chrome.others@);
    let e = frame::tab_regions(s.pane.tab_hits@, s.pane.docs.active, chrome.tabs);
    let f = seq![Region { hit: Hit::TabStrip, rect: chrome.tabs }];
    let g = frame::strip_regions(s, chrome.response, parts);
    let h = frame::find_regions(chrome.find);
    let p = frame::panel_regions(chrome.terminal, parts);
    let q = seq![
        Region { hit: Hit::Text, rect: chrome.text },
        Region { hit: Hit::Status, rect: chrome.status },
    ];
    let all = frame::regions_of(s, chrome, parts);
    assert(all == a + b + c + d + e + f + g + h + p + q);
    assert(all[0] == a[0] && all[1] == a[1] && all[2] == a[2]);
    let before_c = (a + b).len() as int;
    let before_d = before_c + c.len();
    let before_f = before_d + d.len() + e.len();
    let before_g = before_f + 1;
    let before_h = before_g + g.len();
    let before_p = before_h + h.len();
    let before_q = before_p + p.len();
    assert(all[before_f] == f[0]);
    assert(all[before_q] == q[0]);
    assert(all[before_q + 1] == q[1]);
    if chrome.sidebar is Some {
        assert(all[before_c + 1] == c[1]);
        assert(all[before_c + 2] == c[2]);
    }
    if chrome.find is Some {
        assert(all[before_h] == h[0]);
    }
    if chrome.terminal is Some {
        assert(all[before_p + p.len() - 1] == p[p.len() - 1]);
        assert(all[before_p + p.len() - 3] == p[p.len() - 3]);
    }
    if chrome.response is Some && s.awaits_review(s.pane.docs.front().id) {
        assert(all[before_g + g.len() - 1] == g[g.len() - 1]);
        assert(all[before_g + g.len() - 2] == g[g.len() - 2]);
    }
    assert forall|i: int| 0 <= i < chrome.others@.len() implies all.contains(
        (Region {
            hit: Hit::Pane((#[trigger] chrome.others@[i]).index),
            rect: chrome.others@[i].whole,
        }),
    ) by {
        assert(all[before_d + i] == d[i]);
    }
}

/// The window makes room for what is open: the sidebar within its bounds, the
/// rows of the find bar, the strip of a reply or a review, the terminal and
/// every pane.
pub proof fn the_window_makes_room_for_what_is_open(plan: ChromePlan, s: State)
    requires
        frame::is_plan_of(plan, s),
    ensures
        plan.sidebar is Some <==> s.side.open,
        plan.sidebar matches Some(width) ==> frame::SIDEBAR_MIN <= width <= frame::SIDEBAR_MAX,
        s.side.open && frame::SIDEBAR_MIN <= s.side.width <= frame::SIDEBAR_MAX ==> plan.sidebar == Some(
            s.side.width,
        ),
        plan.find_rows == 0 <==> s.fields.find is None,
        s.fields.find matches Some(bar) ==> (!bar.project ==> plan.find_rows == 2),
        plan.terminal is Some <==> s.terminal.open,
        plan.terminal matches Some(height) ==> height == s.terminal.height,
        plan.panes == s.panes@.len() + 1,
        plan.focused == s.focused_pane,
        s.reviewing() ==> plan.response,
{
}

/// The text has a beam over it while it can be edited, and none while a change
/// or a review has its place.
pub proof fn the_text_has_a_beam(s: State, chrome: Chrome, parts: CursorParts)
    requires
        0 <= parts.gutter < chrome.text.width,
        chrome.text.height > 0,
        0 <= chrome.text.x,
        chrome.text.x + chrome.text.width <= i32::MAX,
    ensures
        !parts.native_preview && !s.reviewing() && !(s.git.open && s.git.showing_diff)
            ==> cursors::text_cursors(s, chrome, parts) == seq![
            CursorRect {
                rect: Rect {
                    x: (chrome.text.x + parts.gutter) as i32,
                    width: (chrome.text.width - parts.gutter) as i32,
                    ..chrome.text
                },
                pointer: Pointer::Beam,
            },
        ],
        s.reviewing() && !(s.git.open && s.git.showing_diff) ==> cursors::text_cursors(
            s,
            chrome,
            parts,
        ).len() == 0,
{
}

/// The keys of a name field in the tree: Return makes the change, Escape gives
/// it up, and what is none of the field's goes on as text.
pub proof fn a_name_field_takes_its_keys(
    after: EditorView,
    before: EditorView,
    event: KeyEvent,
    handled: bool,
    now: u64,
)
    requires
        after.handles_sidebar_edit_key(before, event, handled, now),
        !event.flags.command,
    ensures
        handled,
        keys::plain_code(event.code) == keys::RETURN ==> promises::gained(after, before)[0]
            == Effect::Run(Task::FinishSidebarEdit(true)),
        keys::plain_code(event.code) == keys::ESCAPE ==> promises::gained(after, before)[0]
            == Effect::Run(Task::FinishSidebarEdit(false)),
        after.state.pane == before.state.pane,
{
    if keys::plain_code(event.code) == keys::ESCAPE {
        gains(
            after,
            before,
            seq![Effect::Run(Task::FinishSidebarEdit(false))] + before.pumping(now),
        );
    } else if keys::plain_code(event.code) == keys::RETURN {
        gains(
            after,
            before,
            seq![Effect::Run(Task::FinishSidebarEdit(true))] + before.pumping(now),
        );
    }
}

/// A tree that is read again waits for nothing of the one before, and is asked
/// for under a count of its own.
pub proof fn a_tree_is_read_anew(after: EditorView, before: EditorView)
    requires
        after.rereads(before),
    ensures
        after.state.project.indexing,
        after.state.project.reading@.len() == 0,
        after.state.project.tree_version != before.state.project.tree_version,
        promises::gained(after, before)[0] == Effect::RefreshIndex(
            after.state.project.tree_version,
        ),
        promises::gained(after, before).contains(Effect::RefreshGit),
        after.state.pane == before.state.pane,
{
    let done = seq![
        Effect::RefreshIndex(after.state.project.tree_version),
        Effect::RefreshGit,
        Effect::ResumeDisplayLink,
    ];
    gains(after, before, done);
    assert(done[1] == Effect::RefreshGit);
}

/// A folder that is opened becomes the project; a file that cannot be opened
/// leaves the documents as they are, and the reason is said.
pub proof fn what_cannot_be_opened_is_said(
    after: EditorView,
    before: EditorView,
    place: Seq<char>,
    key: Seq<char>,
    found: Opened,
    limit: Seq<char>,
    now: u64,
)
    requires
        after.opens_path(before, None, place, key, found, limit, now),
        crate::files::pane_with(before.state.panes@, key) is None,
        before.state.pane.docs.position_at(key) is None,
    ensures
        found is Folder ==> promises::gained(after, before).len() == 1 && (promises::gained(
            after,
            before,
        )[0] matches Effect::LoadFolder(folder) && folder@ == place),
        found is TooLarge || found is Failed ==> after.state.pane.docs == before.state.pane.docs
            && after.state.status.message is Some && after.state.status.message->0.at == now,
        found matches Opened::Failed(error) ==> after.state.says("open failed: "@ + error@, now),
        found matches Opened::File(buffer) ==> after.state.pane.docs.list@[after.state.pane.docs.active as int]
            == buffer,
{
    let n = before.effects@.len() as int;
    if found is Folder {
        assert(after.effects@.skip(n)[0] == after.effects@[n]);
    }
}

/// A file made with the save panel is in front when it could be read; when it
/// could not be made, or not be read, that is said and nothing is opened.
pub proof fn a_new_file_is_opened_or_the_reason_is_said(
    after: EditorView,
    before: EditorView,
    made: Made,
    key: Seq<char>,
    now: u64,
)
    requires
        after.makes_file(before, made, key, now),
        before.state.pane.docs.position_at(key) is None,
    ensures
        made matches Made::Read(buffer) ==> after.state.pane.docs.list@[after.state.pane.docs.active as int]
            == buffer,
        made matches Made::Failed(error) ==> after.state.says("could not create: "@ + error@, now)
            && after.state.pane == before.state.pane,
        made is Unread ==> after.state.pane.docs == before.state.pane.docs
            && after.state.status.message is Some && after.state.status.message->0.at == now,
        !(made is Failed) ==> promises::gained(after, before)[0] == Effect::RefreshIndex(
            before.state.project.tree_version,
        ),
{
    if !(made is Failed) {
        gains(
            after,
            before,
            seq![
                Effect::RefreshIndex(before.state.project.tree_version),
                Effect::ResumeDisplayLink,
                Effect::SyncTitle,
            ],
        );
    }
}

/// The settings file is in front once it is opened; when it cannot be, the
/// reason is said and the documents stay as they are.
pub proof fn the_settings_file_is_opened(
    after: EditorView,
    before: EditorView,
    file: SettingsFile,
    key: Seq<char>,
    now: u64,
)
    requires
        after.opens_settings(before, file, key, now),
        before.state.pane.docs.position_at(key) is None,
    ensures
        file matches SettingsFile::Read(buffer) ==> after.state.pane.docs.list@[after.state.pane.docs.active as int]
            == buffer,
        file matches SettingsFile::Missing(error) ==> after.state.says("settings: "@ + error@, now)
            && after.state.pane == before.state.pane,
        file matches SettingsFile::Unreadable(error) ==> after.state.says(
            "settings: "@ + error@,
            now,
        ) && after.state.pane == before.state.pane,
{
}

/// An item that was moved has its tree read again, Git asked, and the move said.
pub proof fn a_move_is_followed_up(
    after: EditorView,
    before: EditorView,
    key: Seq<char>,
    to: Seq<char>,
    note: Seq<char>,
    now: u64,
)
    requires
        after.follows_item(before, key, to, note, now),
    ensures
        after.state.says(note, now),
        after.state.project.indexing,
        promises::gained(after, before)[0] == Effect::RefreshIndex(
            after.state.project.tree_version,
        ),
        promises::gained(after, before)[1] == Effect::RefreshGit,
        after.state.pane.docs.list@.len() == before.state.pane.docs.list@.len(),
        after.state.panes@.len() == before.state.panes@.len(),
{
    gains(
        after,
        before,
        seq![
            Effect::RefreshIndex(after.state.project.tree_version),
            Effect::RefreshGit,
            Effect::ResumeDisplayLink,
            Effect::SyncTitle,
            Effect::Run(Task::Reparse),
        ],
    );
}

/// A rename that failed changes nothing and says why.
pub proof fn a_failed_rename_changes_nothing(
    after: EditorView,
    before: EditorView,
    key: Seq<char>,
    to: Seq<char>,
    error: String,
    now: u64,
)
    requires
        after.renames_item(before, key, to, Err(error), now),
    ensures
        after.state.says("rename failed: "@ + error@, now),
        after.state.pane == before.state.pane,
        after.state.panes == before.state.panes,
        after.state.project == before.state.project,
        after.effects@ == before.effects@,
{
    assert(before.effects@ + Seq::<Effect>::empty() =~= before.effects@);
}

/// A frame is due when the display is ready for one: the first at once, another
/// after one refresh.
pub proof fn a_frame_is_due_after_a_refresh(view: EditorView, now: u64)
    ensures
        view.state.frame.last_draw is None ==> view.frame_due(now),
        view.state.frame.last_draw matches Some(at) ==> (now >= at && (now - at) * 1000
            < view.state.frame.interval ==> !view.frame_due(now)),
        view.state.frame.last_draw matches Some(at) ==> ((now - at) * 1000
            >= view.state.frame.interval ==> view.frame_due(now)),
        view.frame_due(now) && !view.ivars.handling_key ==> view.pumping(now).last() == Effect::Draw,
        view.ivars.handling_key ==> view.pumping(now).len() == 0,
{
}

/// The buttons over the tree and in the toolbar do what they are for.
pub proof fn the_buttons_do_what_they_are_for(i: usize)
    ensures
        mouse::hit_command(Hit::ToolbarSidebar) == Some(Task::ToggleSidebar),
        mouse::hit_command(Hit::ToolbarTerminal) == Some(Task::ToggleTerminal),
        mouse::hit_command(Hit::SidebarSourceControl) == Some(Task::SetSidebarView(true)),
        mouse::hit_command(Hit::SidebarExplorer) == Some(Task::SetSidebarView(false)),
        mouse::hit_command(Hit::ReviewAccept) == Some(Task::ReviewDecision(true)),
        mouse::hit_command(Hit::ReviewReject) == Some(Task::ReviewDecision(false)),
        mouse::hit_command(Hit::TerminalClose(i)) == Some(Task::CloseSession(i)),
        mouse::hit_command(Hit::ResponseSegment(i)) == Some(Task::ResponseSelect(i)),
        mouse::hit_command(Hit::TerminalNew) == Some(Task::NewSession),
{
}

/// Over source control each change has a hand, and so has the commit button
/// when there is something to commit; the field has a beam.
pub proof fn what_can_be_pressed_in_source_control_shows_it(s: State, git: GitPlace)
    requires
        git.message.width > 0,
        git.message.height > 0,
        git.commit.width > 0,
        git.commit.height > 0,
    ensures
        cursors::git_cursors(s, git).contains(
            CursorRect { rect: git.message, pointer: Pointer::Beam },
        ),
        git.can_commit ==> cursors::git_cursors(s, git).contains(
            CursorRect { rect: git.commit, pointer: Pointer::Hand },
        ),
{
    let first = if !s.git.busy {
        cursors::shown(git.refresh, Pointer::Hand)
    } else {
        Seq::empty()
    };
    let all = cursors::git_cursors(s, git);
    let n = first.len() as int;
    assert(all[n] == CursorRect { rect: git.message, pointer: Pointer::Beam });
    if git.can_commit {
        assert(all[n + 1] == CursorRect { rect: git.commit, pointer: Pointer::Hand });
    }
}

/// Copy and cut have something to take exactly when something is selected in
/// the text that has the keyboard.
pub proof fn what_has_the_keyboard_is_copied(s: State)
    ensures
        s.target() is Document ==> menu::selected_in_focus(s) == (s.pane.docs.front().anchor
            != s.pane.docs.front().cursor),
        s.target() is FindQuery ==> menu::selected_in_focus(s) == (s.fields.find->0.query.anchor
            != s.fields.find->0.query.cursor),
        s.target() is FindReplacement ==> menu::selected_in_focus(s) == (
        s.fields.find->0.replacement.anchor != s.fields.find->0.replacement.cursor),
        s.target() is Palette ==> menu::selected_in_focus(s) == (s.fields.palette->0.query.anchor
            != s.fields.palette->0.query.cursor),
        s.target() is RenameName ==> menu::selected_in_focus(s) == (
        s.fields.rename->0.field.anchor != s.fields.rename->0.field.cursor),
        s.target() is Nowhere ==> !menu::selected_in_focus(s),
{
}

/// A change on disk is acted on once nothing more has come for a while.
pub proof fn a_change_settles_first(at: u64, now: u64)
    ensures
        !project::quiet_since(None, now),
        now >= at + project::SETTLE ==> project::quiet_since(Some(at), now),
        now < at + project::SETTLE ==> !project::quiet_since(Some(at), now),
{
}

/// A tip goes with its call: it stays while the caret is on the call's line and
/// not before it, and in the same document.
pub proof fn a_tip_stays_with_its_call(s: State)
    requires
        s.hints.signature is Some,
        s.hints.signature->0.anchor <= s.pane.docs.front().text@.len(),
    ensures
        s.hints.signature->0.buffer != s.pane.docs.front().id ==> s.tip_checked().hints.signature
            is None,
        s.pane.docs.front().cursor < s.hints.signature->0.anchor ==> s.tip_checked().hints.signature
            is None,
        s.hints.signature->0.buffer == s.pane.docs.front().id && s.pane.docs.front().cursor
            == s.hints.signature->0.anchor ==> s.tip_checked() == s,
        s.tip_checked().pane == s.pane,
{
    assert(s.pane.docs.front().text@.len() == s.pane.docs.front().text.len());
}

/// What is pressed in the find bar is what lies under the pointer: a chip before
/// anything else, then the buttons and the fields.
pub proof fn what_lies_under_the_pointer_is_pressed(
    parts: FindParts,
    project: bool,
    x: i32,
    y: i32,
    i: int,
)
    ensures
        0 <= i < parts.options@.len() && parts.options@[i].has(x, y) ==> clicks::find_spot(
            parts,
            project,
            x,
            y,
        ) is Option,
        (forall|k: int|
            0 <= k < parts.options@.len() ==> !(#[trigger] parts.options@[k]).has(x, y)) ==> {
            let spot = clicks::find_spot(parts, project, x, y);
            &&& parts.close.has(x, y) ==> spot is Close
            &&& !parts.close.has(x, y) && parts.next.has(x, y) ==> spot == FindSpot::Step(true)
            &&& !parts.close.has(x, y) && !parts.next.has(x, y) && parts.previous.has(x, y) ==> spot
                == FindSpot::Step(false)
            &&& spot is ReplaceAll ==> parts.replace_all.has(x, y)
            &&& spot is ReplaceOne ==> parts.replace_one.has(x, y)
            &&& spot == FindSpot::Field(true) ==> parts.replace_field.has(x, y)
            &&& spot == FindSpot::Field(false) ==> parts.find_field.has(x, y)
        },
{
    if 0 <= i < parts.options@.len() && parts.options@[i].has(x, y) {
        crate::accounts::the_first_chip_is_pressed(parts.options@, x, y, i);
    }
    if forall|k: int| 0 <= k < parts.options@.len() ==> !(#[trigger] parts.options@[k]).has(x, y) {
        no_chip_is_pressed(parts.options@, x, y);
    }
}

/// Where no chip lies none is pressed.
proof fn no_chip_is_pressed(options: Seq<Rect>, x: i32, y: i32)
    requires
        forall|k: int| 0 <= k < options.len() ==> !(#[trigger] options[k]).has(x, y),
    ensures
        clicks::chip_at(options, x, y) is None,
    decreases options.len(),
{
    if options.len() > 0 {
        assert forall|k: int| 0 <= k < options.drop_last().len() implies !(
        #[trigger] options.drop_last()[k]).has(x, y) by {
            assert(options.drop_last()[k] == options[k]);
        }
        assert(options[options.len() - 1] == options.last());
        no_chip_is_pressed(options.drop_last(), x, y);
    }
}

/// Something new in a folder is named in the row under the folder's, one level
/// deeper; it starts without a name.
pub proof fn something_new_is_named_under_its_folder(
    tree: Tree,
    kind: SidebarEditKind,
    plan: EditPlan,
    folder: Seq<char>,
    i: int,
)
    requires
        !(kind is Rename),
        sidebar::plans_edit(tree, kind, Some(plan)),
        tree.new_item_folder() == Some(folder),
        sidebar::folder_row_at(tree.rows@, folder) == Some(i),
    ensures
        plan.parent@ == folder,
        plan.row == i + 1,
        plan.depth == tree.rows@[i].depth + 1,
        plan.name@.len() == 0,
{
}

/// A new name starts with all of the old one but its extension selected; a
/// folder's with all of it.
pub proof fn a_rename_selects_the_stem(
    tree: Tree,
    place: String,
    plan: EditPlan,
    i: int,
    stem: Seq<char>,
    extension: Seq<char>,
)
    requires
        sidebar::plans_edit(tree, SidebarEditKind::Rename(place), Some(plan)),
        sidebar::row_at(tree.rows@, place@) == Some(i),
        0 <= i < tree.rows@.len(),
        stem.len() > 0,
        !extension.contains('.'),
        tree.rows@[i].name@ == stem + seq!['.'] + extension,
    ensures
        plan.name@ == tree.rows@[i].name@,
        !tree.rows@[i].is_dir ==> plan.stem == vstd::utf8::encode_utf8(stem).len() as usize,
        tree.rows@[i].is_dir ==> plan.stem == vstd::utf8::encode_utf8(
            tree.rows@[i].name@,
        ).len() as usize,
{
    crate::accounts::a_name_is_its_stem_and_extension(stem, extension);
}

/// Every session says what kind of terminal it is in, and with an assistant at
/// hand on which port.
pub proof fn a_session_is_told_of_the_window(version: Seq<char>, port: u16)
    ensures
        sessions::session_env(version, None).contains(("TERM"@, "xterm-256color"@)),
        sessions::session_env(version, None).contains(("TERM_PROGRAM_VERSION"@, version)),
        sessions::session_env(version, Some(port)).contains(
            ("CLAUDE_CODE_SSE_PORT"@, crate::text::decimal_digits(port as nat)),
        ),
        sessions::session_env(version, Some(port)).contains(("TERM"@, "xterm-256color"@)),
        sessions::session_env(version, None).len() < sessions::session_env(
            version,
            Some(port),
        ).len(),
{
    let plain = sessions::session_env(version, None);
    let told = sessions::session_env(version, Some(port));
    assert(plain[0] == ("TERM"@, "xterm-256color"@));
    assert(plain[3] == ("TERM_PROGRAM_VERSION"@, version));
    assert(told[0] == ("TERM"@, "xterm-256color"@));
    assert(told[4] == ("CLAUDE_CODE_SSE_PORT"@, crate::text::decimal_digits(port as nat)));
}

} // verus!
