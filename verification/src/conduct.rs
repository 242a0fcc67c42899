//! How the window conducts itself at the keyboard, under the pointer and beside
//! the text.

use crate::actions;
use crate::buffer;
use crate::clicks::{self, FindSpot, PaletteParts};
use crate::find::{FindBar, SearchOptions};
use crate::frame::{self, Hit, Parts, Rect, Region};
use crate::gutter::{self, HeadText};
use crate::input::KeyContext;
use crate::jump;
use crate::keyboard;
use crate::keys::{self, EditOp, KeyEvent, Motion};
use crate::link;
use crate::panes;
use crate::promises;
use crate::servers;
use crate::state::{EditorView, Effect, GutterState, LinePlace, State, TabHit, Target, Task};
use vstd::prelude::*;

verus! {

/// Whether nothing stands between the keyboard and the document.
pub open spec fn document_has_keys(s: State) -> bool {
    &&& !(s.terminal.open && s.terminal.focus)
    &&& s.fields.sidebar_edit is None
    &&& s.fields.rename is None
    &&& s.fields.palette is None
    &&& s.fields.find is None
    &&& s.fields.goto_line is None
    &&& !s.git.open
    &&& s.hints.completion is None
    &&& s.hints.signature is None
    &&& s.claude.bridge is None
    &&& !s.pane.docs.front().preview_file
}

/// Whether no modifier but Shift is held.
pub open spec fn at_most_shift(event: KeyEvent) -> bool {
    !event.flags.command && !event.flags.option && !event.flags.control
}

/// What `event` does to the document when nothing stands in between: the arrows
/// move, the delete keys delete, and with Shift a movement selects.
pub open spec fn plain_edit(event: KeyEvent, selected: bool) -> Option<EditOp> {
    let motion = if event.flags.shift {
        Motion::Extend
    } else {
        Motion::Move
    };
    if event.code == keys::LEFT {
        Some(EditOp::Left(motion))
    } else if event.code == keys::RIGHT {
        Some(EditOp::Right(motion))
    } else if event.code == keys::UP {
        Some(EditOp::Up(motion))
    } else if event.code == keys::DOWN {
        Some(EditOp::Down(motion))
    } else if event.code == keys::HOME {
        Some(EditOp::LineStart(motion))
    } else if event.code == keys::END {
        Some(EditOp::LineEnd(motion))
    } else if event.code == keys::PAGE_UP {
        Some(EditOp::PageUp(motion))
    } else if event.code == keys::PAGE_DOWN {
        Some(EditOp::PageDown(motion))
    } else if event.code == keys::DELETE {
        Some(EditOp::BackspacePaired)
    } else if event.code == keys::FORWARD_DELETE {
        Some(EditOp::DeleteForward)
    } else if event.code == keys::RETURN {
        Some(EditOp::NewlineIndented)
    } else if event.code == keys::TAB {
        Some(
            if event.flags.shift {
                EditOp::Outdent
            } else if selected {
                EditOp::Indent
            } else {
                EditOp::InsertTab
            },
        )
    } else {
        None
    }
}

/// A key that moves or deletes does so in the document, once, and the caret
/// stays in sight.
pub proof fn a_plain_key_edits_the_document(
    after: EditorView,
    before: EditorView,
    event: KeyEvent,
    context: KeyContext,
    handled: bool,
    now: u64,
)
    requires
        after.takes_key(before, event, context, handled, now),
        document_has_keys(before.state),
        at_most_shift(event),
        plain_edit(event, before.state.pane.docs.front().has_selection()) is Some,
    ensures
        handled,
        after.effects@ == before.effects@ + seq![
            Effect::Edit(
                Target::Document,
                plain_edit(event, before.state.pane.docs.front().has_selection())->0,
            ),
            Effect::ScrollToCursor,
        ],
        after.state.pane == before.state.pane,
{
    let selected = before.state.pane.docs.front().has_selection();
    let op = plain_edit(event, selected)->0;
    assert(keyboard::navigation(event, selected) == Some(op));
    assert(keyboard::route_of(before.state, event) == keyboard::Route::Document(op));
}

/// The keys of the language commands run them, while no field is open.
pub proof fn a_command_key_runs_its_command(
    after: EditorView,
    before: EditorView,
    event: KeyEvent,
    context: KeyContext,
    handled: bool,
    now: u64,
    task: Task,
)
    requires
        after.takes_key(before, event, context, handled, now),
        document_has_keys(before.state),
        at_most_shift(event),
        ({
            ||| event.code == keys::F12 && !event.flags.shift && task == Task::GotoDefinition
            ||| event.code == keys::F12 && event.flags.shift && task == Task::FindReferences
            ||| event.code == keys::F2 && !event.flags.shift && task == Task::StartRename
            ||| event.code == keys::F1 && task == Task::ShowHover
        }),
    ensures
        handled,
        after.effects@ == before.effects@ + seq![Effect::Run(task)],
{
}

/// Text typed over the document is left to the input system to work out.
pub proof fn other_keys_are_text(
    after: EditorView,
    before: EditorView,
    event: KeyEvent,
    context: KeyContext,
    handled: bool,
    now: u64,
)
    requires
        after.takes_key(before, event, context, handled, now),
        document_has_keys(before.state),
        at_most_shift(event),
        plain_edit(event, before.state.pane.docs.front().has_selection()) is None,
        event.code != keys::KEYPAD_ENTER,
        event.code != keys::F12,
        event.code != keys::F2,
        event.code != keys::F1,
        event.code != keys::ESCAPE,
    ensures
        handled,
        after.effects@ == before.effects@ + seq![Effect::Interpret],
{
    let selected = before.state.pane.docs.front().has_selection();
    assert(keyboard::navigation(event, selected) is None);
    assert(keyboard::route_of(before.state, event) == keyboard::Route::Text);
}

/// The next of a row of tabs is the one after, and after the last the first;
/// the previous is the one before, and before the first the last.
pub proof fn tabs_follow_one_another(at: int, count: int)
    requires
        0 <= at < count,
    ensures
        at + 1 < count ==> actions::cycled(at, count, true) == at + 1,
        at + 1 == count ==> actions::cycled(at, count, true) == 0,
        at > 0 ==> actions::cycled(at, count, false) == at - 1,
        at == 0 ==> actions::cycled(at, count, false) == count - 1,
{
    if at > 0 {
        assert((at + count - 1) % count == at - 1) by (nonlinear_arith)
            requires
                0 < at < count,
        ;
    } else {
        assert((count - 1) % count == count - 1) by (nonlinear_arith)
            requires
                0 < count,
        ;
    }
    if at + 1 < count {
        assert((at + 1) % count == at + 1) by (nonlinear_arith)
            requires
                0 <= at,
                at + 1 < count,
        ;
    } else {
        assert((at + 1) % count == 0) by (nonlinear_arith)
            requires
                0 < count,
                at + 1 == count,
        ;
    }
}

/// Closing all tabs, or all others, closes each of them.
pub proof fn every_tab_gets_its_turn(count: int, keep: Option<usize>, i: int)
    requires
        0 <= i < count <= usize::MAX,
    ensures
        actions::closing_order(count, keep).contains(i) == (keep != Some(i as usize)),
    decreases count,
{
    let order = actions::closing_order(count, keep);
    let rest = actions::closing_order(count - 1, keep);
    if i < count - 1 {
        every_tab_gets_its_turn(count - 1, keep, i);
        if rest.contains(i) {
            let k = rest.index_of(i);
            assert(order.contains(i)) by {
                if order == rest {
                } else {
                    assert(order[k + 1] == i);
                }
            }
        }
        if order.contains(i) && order != rest {
            let k = order.index_of(i);
            assert(rest[k - 1] == i);
        }
    } else if keep == Some((count - 1) as usize) {
        order_is_below(count - 1, keep);
    } else {
        assert(order[0] == i);
    }
}

/// What is closed is there.
proof fn order_is_below(count: int, keep: Option<usize>)
    ensures
        forall|k: int|
            0 <= k < actions::closing_order(count, keep).len() ==> #[trigger] actions::closing_order(
                count,
                keep,
            )[k] < count,
    decreases count,
{
    if count > 0 {
        order_is_below(count - 1, keep);
        let rest = actions::closing_order(count - 1, keep);
        let order = actions::closing_order(count, keep);
        assert forall|k: int| 0 <= k < order.len() implies #[trigger] order[k] < count by {
            if order != rest && k > 0 {
                assert(order[k] == rest[k - 1]);
            }
        }
    }
}

/// What Git has of a file is kept for it, and its marks are worked out afresh;
/// it is no longer waited for.
pub proof fn what_git_has_is_kept(
    rows: Map<u64, GutterState>,
    stamps: Map<u64, u64>,
    pending: Seq<u64>,
    heads: Seq<HeadText>,
    at: u64,
    h: int,
)
    requires
        0 <= h < heads.len(),
        forall|j: int| h < j < heads.len() ==> (#[trigger] heads[j]).id != heads[h].id,
    ensures
        gutter::with_heads(rows, heads).contains_key(heads[h].id),
        gutter::with_heads(rows, heads)[heads[h].id].head == heads[h].head,
        heads[h].head is Some ==> gutter::stale_with(stamps, heads, at).contains_key(heads[h].id)
            && gutter::stale_with(stamps, heads, at)[heads[h].id] == at,
        !gutter::pending_without(pending, heads).contains(heads[h].id),
    decreases heads.len(),
{
    let rest = heads.drop_first();
    let id = heads[0].id;
    let more = rows.insert(id, GutterState { head: heads[0].head });
    let fewer = pending.filter(|p: u64| p != id);
    let staler = if heads[0].head is Some {
        stamps.insert(id, at)
    } else {
        stamps
    };
    if h > 0 {
        assert(rest[h - 1] == heads[h]);
        assert forall|j: int| h - 1 < j < rest.len() implies (#[trigger] rest[j]).id
            != rest[h - 1].id by {
            assert(rest[j] == heads[j + 1]);
        }
        what_git_has_is_kept(more, staler, fewer, rest, at, h - 1);
    } else {
        assert forall|j: int| 0 <= j < rest.len() implies (#[trigger] rest[j]).id != id by {
            assert(rest[j] == heads[j + 1]);
        }
        what_is_not_named_stays(more, staler, fewer, rest, at, id);
        fewer_has_none(pending, id);
    }
}

/// What is filtered out is not there.
proof fn fewer_has_none(pending: Seq<u64>, id: u64)
    ensures
        !pending.filter(|p: u64| p != id).contains(id),
{
    let keep = |p: u64| p != id;
    let left = pending.filter(keep);
    if left.contains(id) {
        let k = left.index_of(id);
        pending.lemma_filter_pred(keep, k);
        assert(keep(left[k]));
    }
}

/// What no arrival names stays as it was.
proof fn what_is_not_named_stays(
    rows: Map<u64, GutterState>,
    stamps: Map<u64, u64>,
    pending: Seq<u64>,
    heads: Seq<HeadText>,
    at: u64,
    id: u64,
)
    requires
        forall|j: int| 0 <= j < heads.len() ==> (#[trigger] heads[j]).id != id,
    ensures
        gutter::with_heads(rows, heads).contains_key(id) == rows.contains_key(id),
        rows.contains_key(id) ==> gutter::with_heads(rows, heads)[id] == rows[id],
        gutter::stale_with(stamps, heads, at).contains_key(id) == stamps.contains_key(id),
        stamps.contains_key(id) ==> gutter::stale_with(stamps, heads, at)[id] == stamps[id],
        !pending.contains(id) ==> !gutter::pending_without(pending, heads).contains(id),
    decreases heads.len(),
{
    if heads.len() > 0 {
        let rest = heads.drop_first();
        let first = heads[0].id;
        assert(forall|j: int| 0 <= j < rest.len() ==> rest[j] == heads[j + 1]);
        let keep = |p: u64| p != first;
        if !pending.contains(id) && pending.filter(keep).contains(id) {
            let k = pending.filter(keep).index_of(id);
            pending.lemma_filter_contains_rev(keep, id);
        }
        what_is_not_named_stays(
            rows.insert(first, GutterState { head: heads[0].head }),
            if heads[0].head is Some {
                stamps.insert(first, at)
            } else {
                stamps
            },
            pending.filter(keep),
            rest,
            at,
            id,
        );
    }
}

/// What is asked for about documents is asked for each of them.
proof fn every_document_is_worked_on(s: State, ids: Seq<u64>, id: u64)
    requires
        ids.contains(id),
        gutter::is_marked(s, id),
    ensures
        gutter::mark_work(s, ids).contains(Effect::Diff(id)),
    decreases ids.len(),
{
    let head = ids.drop_last();
    let work = gutter::mark_work(s, ids);
    if ids.last() == id {
        assert(work.last() == Effect::Diff(id));
    } else {
        let k = ids.index_of(id);
        assert(head[k] == id);
        every_document_is_worked_on(s, head, id);
        let before = gutter::mark_work(s, head);
        let m = before.index_of(Effect::Diff(id));
        assert(work[m] == Effect::Diff(id));
    }
}

/// A document that was edited is compared with what Git has of it again once
/// typing pauses, and a frame is drawn; one still being typed in waits.
pub proof fn an_edited_document_is_compared_again(
    after: EditorView,
    before: EditorView,
    now: u64,
    r: int,
)
    requires
        before.state.wf(),
        after.rediffs(before, now),
        0 <= r < before.state.gutter.dirty.rows@.len(),
    ensures
        ({
            let (id, at) = before.state.gutter.dirty.rows@[r];
            let left = after.state.gutter.dirty@;
            if now - at >= gutter::GUTTER_PAUSE {
                &&& !left.contains_key(id)
                &&& (before.state.gutter.rows@.contains_key(id)
                    && before.state.gutter.rows@[id].head is Some && (panes::document(
                    before.state,
                    id,
                ) matches Some(b) && b.text@.len() <= gutter::GUTTER_MAX_BYTES)) ==> {
                    &&& promises::gained(after, before).contains(Effect::Diff(id))
                    &&& after.ivars.needs_redraw
                }
            } else {
                left.contains_key(id) && left[id] == at
            }
        }),
{
    let table = before.state.gutter.dirty;
    let rows = table.rows@;
    let ids = servers::due_ids(rows, gutter::GUTTER_PAUSE, now);
    promises::due_ids_hold(rows, gutter::GUTTER_PAUSE, now);
    promises::the_rest_stays(table@, ids);
    table.row_is_its_own(r);
    let (id, at) = rows[r];
    if now - at >= gutter::GUTTER_PAUSE {
        assert(ids.contains(id));
        if gutter::is_marked(before.state, id) {
            every_document_is_worked_on(before.state, ids, id);
            assert(promises::gained(after, before) =~= gutter::mark_work(before.state, ids));
            let k = ids.index_of(id);
            assert(gutter::is_marked(before.state, ids[k]));
        }
    } else if ids.contains(id) {
        let k = ids.index_of(id);
        assert(promises::in_due_row(rows, ids[k], gutter::GUTTER_PAUSE, now));
        let q = choose|q: int|
            {
                &&& 0 <= q < rows.len()
                &&& (#[trigger] rows[q]).0 == id
                &&& (gutter::GUTTER_PAUSE == 0 || now - rows[q].1 >= gutter::GUTTER_PAUSE)
            };
        if q < r {
            assert(rows[q].0 != rows[r].0);
        } else if r < q {
            assert(rows[r].0 != rows[q].0);
        }
    }
}

/// A document with a file that Git was not asked about is asked about, once.
pub proof fn git_is_asked_about_a_new_file(after: EditorView, before: EditorView)
    requires
        after.fetches_head(before),
    ensures
        ({
            let front = before.state.pane.docs.list@[before.state.pane.docs.active as int];
            let asked = before.state.gutter.rows@.contains_key(front.id)
                || before.state.gutter.pending@.contains(front.id);
            &&& asked ==> after == before
            &&& !asked && front.path is Some && !front.preview_file && front.text@.len()
                <= gutter::GUTTER_MAX_BYTES ==> {
                &&& after.effects@ == before.effects@.push(Effect::FetchHead(front.id))
                &&& after.state.gutter.pending@.contains(front.id)
            }
        }),
{
    let front = before.state.pane.docs.front();
    if gutter::wants_head(before.state) {
        assert(after.state.gutter.pending@.last() == front.id);
    }
}

/// The line the caret has rested on is the line Git is asked about.
pub proof fn the_resting_line_is_asked_about(
    after: EditorView,
    before: EditorView,
    now: u64,
    here: LinePlace,
)
    requires
        after.rests(before, now),
        here.buffer == before.state.pane.docs.front().id,
        here.line == crate::buffer::newlines(
            before.state.pane.docs.front().text@.take(
                before.state.pane.docs.front().cursor as int,
            ),
        ) as usize,
        before.state.gutter.wish matches Some(wish) && wish.place == here && now - wish.since
            >= gutter::REST,
        before.state.gutter.blame is None,
        gutter::can_blame(before.state),
    ensures
        after.effects@ == before.effects@.push(Effect::AskBlame(here)),
        after.state.gutter.asking,
        after.state.gutter.wish is None,
{
}

/// What is under a point is the first region that has it, and nothing only
/// when none has.
pub proof fn the_first_region_is_hit(frame: Seq<Region>, x: i32, y: i32)
    ensures
        match frame::hit_at(frame, x, y) {
            Some(hit) => exists|i: int|
                {
                    &&& 0 <= i < frame.len()
                    &&& (#[trigger] frame[i]).hit == hit
                    &&& frame[i].rect.x <= x < frame[i].rect.x + frame[i].rect.width
                    &&& frame[i].rect.y <= y < frame[i].rect.y + frame[i].rect.height
                    &&& forall|j: int| 0 <= j < i ==> !(#[trigger] frame[j]).rect.has(x, y)
                },
            None => forall|i: int| 0 <= i < frame.len() ==> !(#[trigger] frame[i]).rect.has(x, y),
        },
    decreases frame.len(),
{
    if frame.len() > 0 && !frame[0].rect.has(x, y) {
        let rest = frame.skip(1);
        assert(forall|i: int| 0 <= i < rest.len() ==> rest[i] == frame[i + 1]);
        the_first_region_is_hit(rest, x, y);
        if let Some(hit) = frame::hit_at(frame, x, y) {
            let k = choose|k: int|
                {
                    &&& 0 <= k < rest.len()
                    &&& (#[trigger] rest[k]).hit == hit
                    &&& rest[k].rect.x <= x < rest[k].rect.x + rest[k].rect.width
                    &&& rest[k].rect.y <= y < rest[k].rect.y + rest[k].rect.height
                    &&& forall|j: int| 0 <= j < k ==> !(#[trigger] rest[j]).rect.has(x, y)
                };
            assert(frame[k + 1].hit == hit);
            assert forall|j: int| 0 <= j < k + 1 implies !(#[trigger] frame[j]).rect.has(
                x,
                y,
            ) by {
                if j > 0 {
                    assert(rest[j - 1] == frame[j]);
                }
            }
        } else {
            assert forall|i: int| 0 <= i < frame.len() implies !(#[trigger] frame[i]).rect.has(
                x,
                y,
            ) by {
                if i > 0 {
                    assert(rest[i - 1] == frame[i]);
                }
            }
        }
    } else if frame.len() > 0 {
        assert(frame[0].hit == frame::hit_at(frame, x, y)->0);
    }
}

/// The rows of the tree stand under one another, from the first that is shown,
/// each as tall as a row, under the header.
pub proof fn the_rows_stand_under_one_another(
    rect: Rect,
    parts: Parts,
    first: int,
    end: int,
    k: int,
)
    requires
        0 <= first <= k < end <= usize::MAX,
    ensures
        frame::row_regions(None, rect, parts, first, end).len() == end - first,
        ({
            let region = frame::row_regions(None, rect, parts, first, end)[k - first];
            &&& region.hit == Hit::SidebarRow(k as usize)
            &&& region.rect.x == rect.x
            &&& region.rect.width == rect.width
            &&& region.rect.height == parts.row_height
            &&& region.rect.y == (rect.y + parts.header_height + (k - first) * parts.row_height) as i32
        }),
    decreases end - first,
{
    if k < end - 1 {
        the_rows_stand_under_one_another(rect, parts, first, end - 1, k);
    } else if first < end - 1 {
        the_rows_stand_under_one_another(rect, parts, first, end - 1, first);
    } else {
        assert(frame::row_regions(None, rect, parts, first, first).len() == 0);
    }
}

/// Every tab that was drawn can be pressed where it was drawn.
pub proof fn every_tab_can_be_pressed(hits: Seq<TabHit>, active: usize, tabs: Rect, i: int)
    requires
        0 <= i < hits.len(),
    ensures
        frame::tab_regions(hits, active, tabs).contains(
            Region {
                hit: Hit::Tab(hits[i].index),
                rect: Rect { x: hits[i].x0, width: (hits[i].x1 - hits[i].x0) as i32, ..tabs },
            },
        ),
    decreases hits.len(),
{
    let head = frame::tab_regions(hits.drop_last(), active, tabs);
    let mine = frame::tab_region(hits.last(), active, tabs);
    let all = frame::tab_regions(hits, active, tabs);
    let region = Region {
        hit: Hit::Tab(hits[i].index),
        rect: Rect { x: hits[i].x0, width: (hits[i].x1 - hits[i].x0) as i32, ..tabs },
    };
    if i < hits.len() - 1 {
        every_tab_can_be_pressed(hits.drop_last(), active, tabs, i);
        let k = head.index_of(region);
        assert(all[k] == region);
    } else {
        assert(mine.last() == region);
        assert(all[all.len() - 1] == region);
    }
}

/// As many whole steps fit as there is room for, and no more.
pub proof fn whole_steps_fit(room: int, step: int)
    requires
        0 < step,
    ensures
        room >= 0 ==> frame::whole_steps(room, step) * step <= room < (frame::whole_steps(
            room,
            step,
        ) + 1) * step,
        room < 0 ==> frame::whole_steps(room, step) == 0,
{
    if room > 0 {
        assert((room / step) * step <= room < (room / step + 1) * step) by (nonlinear_arith)
            requires
                room > 0,
                step > 0,
        ;
    } else {
        assert(0 * step == 0 && 1 * step == step) by (nonlinear_arith);
    }
}

/// A chip that is turned over twice is as it was, and each chip turns one
/// option only.
pub proof fn a_chip_turns_one_option(options: SearchOptions, slot: usize)
    ensures
        clicks::turned(clicks::turned(options, slot), slot) == options,
        slot == 0 ==> clicks::turned(options, slot).case_sensitive != options.case_sensitive
            && clicks::turned(options, slot).whole_word == options.whole_word && clicks::turned(
            options,
            slot,
        ).regex == options.regex,
        slot == 1 ==> clicks::turned(options, slot).whole_word != options.whole_word
            && clicks::turned(options, slot).case_sensitive == options.case_sensitive
            && clicks::turned(options, slot).regex == options.regex,
        slot == 2 ==> clicks::turned(options, slot).regex != options.regex && clicks::turned(
            options,
            slot,
        ).case_sensitive == options.case_sensitive && clicks::turned(options, slot).whole_word
            == options.whole_word,
{
}

/// The arrows of the find bar go on and back, one match at a time, and its
/// buttons replace one match or all of them.
pub proof fn the_buttons_of_the_find_bar_do_what_they_say()
    ensures
        clicks::button_work(FindSpot::Step(true), false) == seq![Effect::Run(Task::FindStep(true))],
        clicks::button_work(FindSpot::Step(false), false) == seq![
            Effect::Run(Task::FindStep(false)),
        ],
        clicks::button_work(FindSpot::ReplaceOne, false) == seq![Effect::Run(Task::ReplaceOne)],
        clicks::button_work(FindSpot::ReplaceAll, false) == seq![Effect::Run(Task::ReplaceAll)],
        clicks::button_work(FindSpot::ReplaceAll, true) == seq![
            Effect::Run(Task::ReplaceInProject),
        ],
        clicks::button_work(FindSpot::Close, false) == seq![Effect::Run(Task::CloseFind)],
{
}

/// A click on a row of the palette takes the row that is drawn there.
pub proof fn the_clicked_row_is_taken(scroll: usize, parts: PaletteParts, row: usize)
    requires
        parts.row == Some(row),
        scroll + parts.visible <= parts.picks@.len(),
        row < parts.visible,
    ensures
        clicks::clicked_pick(scroll, parts) == Some(parts.picks@[scroll + row]),
{
}

/// The results are gone through one by one, and the ends are the ends.
pub proof fn results_are_stepped_through(bar: FindBar)
    requires
        bar.wf(),
        bar.results@.len() > 0,
    ensures
        bar.selected + 1 < bar.results@.len() ==> bar.stepped(true).selected == bar.selected + 1,
        bar.selected + 1 == bar.results@.len() ==> bar.stepped(true).selected == bar.selected,
        bar.selected > 0 ==> bar.stepped(false).selected == bar.selected - 1,
        bar.selected == 0 ==> bar.stepped(false).selected == 0,
        bar.stepped(true).results == bar.results,
{
    assert(bar.results@.len() == bar.results.len());
}

/// A note stands for its time and then goes, with a redraw.
pub proof fn a_note_stands_for_its_time(
    after: EditorView,
    before: EditorView,
    interval: u64,
    now: u64,
)
    requires
        after.ticks(before, interval, now),
        before.state.status.message is Some,
    ensures
        now - before.state.status.message->0.at < link::NOTE_TIME ==> after.state.status.message
            == before.state.status.message,
        now - before.state.status.message->0.at >= link::NOTE_TIME
            ==> after.state.status.message is None && after.ivars.needs_redraw,
{
}

/// The display is waited for while anything is left to send, to compare, to
/// read, to search or to draw.
pub proof fn the_link_sleeps_only_at_rest(view: EditorView)
    ensures
        view.ivars.needs_redraw ==> !link::at_rest(view),
        view.state.servers.dirty.rows@.len() > 0 ==> !link::at_rest(view),
        view.state.gutter.dirty.rows@.len() > 0 ==> !link::at_rest(view),
        view.state.gutter.pending@.len() > 0 ==> !link::at_rest(view),
        view.state.project.searching ==> !link::at_rest(view),
        view.state.project.indexing ==> !link::at_rest(view),
        view.state.project.reading@.len() > 0 ==> !link::at_rest(view),
        view.state.http.in_flight is Some ==> !link::at_rest(view),
        view.state.git.busy ==> !link::at_rest(view),
        view.state.drag.point is Some ==> !link::at_rest(view),
{
}

/// A place by line and column, both counted from one, is on that line, and in
/// plain characters as far along it as the column says.
pub proof fn a_place_is_on_its_line(text: Seq<u8>, line: int, column: Option<usize>)
    requires
        1 <= line <= buffer::newlines(text) + 1,
        column matches Some(n) ==> n >= 1,
    ensures
        ({
            let start = buffer::line_offset(text, (line - 1) as nat);
            let at = jump::place_at(text, line, column);
            &&& buffer::newlines(text.take(start)) == line - 1
            &&& column is None ==> at == start
            &&& column matches Some(n) ==> n - 1 < jump::LINE_REACH && start + n - 1 <= text.len()
                && (forall|k: int|
                start <= k < start + n - 1 ==> #[trigger] text[k] != 10 && text[k] < 0x80) && (start
                + n - 1 < text.len() ==> text[start + n - 1] < 0x80) ==> at == start + n - 1
        }),
{
    buffer::a_line_is_found_by_its_number(text, (line - 1) as nat);
    let start = buffer::line_offset(text, (line - 1) as nat);
    if let Some(n) = column {
        if n - 1 < jump::LINE_REACH && start + n - 1 <= text.len() && (forall|k: int|
            start <= k < start + n - 1 ==> #[trigger] text[k] != 10 && text[k] < 0x80) && (start + n
            - 1 < text.len() ==> text[start + n - 1] < 0x80) {
            let limit = if start + jump::LINE_REACH < text.len() {
                start + jump::LINE_REACH
            } else {
                text.len() as int
            };
            plain_characters_are_counted(text, start, limit, (n - 1) as nat);
        }
    }
}

/// Plain characters are one byte each.
proof fn plain_characters_are_counted(text: Seq<u8>, at: int, limit: int, n: nat)
    requires
        0 <= at,
        at + n <= limit <= text.len(),
        forall|k: int| at <= k < at + n ==> #[trigger] text[k] != 10 && text[k] < 0x80,
        at + n < text.len() ==> text[at + n as int] < 0x80,
    ensures
        jump::after_chars(text, at, limit, n) == at + n,
    decreases n,
{
    if n > 0 {
        assert(text[at] != 10);
        assert(jump::after_char(text, at, limit) == at + 1) by {
            if at + 1 < limit {
                assert(text[at + 1] < 0x80);
            }
        }
        plain_characters_are_counted(text, at + 1, limit, (n - 1) as nat);
    }
}

} // verus!
