//! What the window makes of presses, drags and suggestions.

use crate::completion::{self, CompletionPopup};
use crate::events::ServerEvent;
use crate::frame::{self, Chrome, Hit, Rect};
use crate::keys::{self, KeyEvent};
use crate::mouse::{self, Press, Under};
use crate::pointer;
use crate::promises;
use crate::state::{EditorView, Effect, Position, Spot, TabHit, Task};
use crate::suggest::{self, BeforeCaret};
use crate::tabs;
use vstd::prelude::*;

verus! {

/// A press in the open text, with nothing over it, puts the caret under the
/// pointer, or takes the word or the line there, or stretches the selection to
/// there.
pub proof fn a_press_in_the_text_reaches_it(
    after: EditorView,
    before: EditorView,
    press: Press,
    chrome: Chrome,
    under: Under,
    fresh: u64,
    now: u64,
)
    requires
        before.state.wf(),
        after.takes_press(before, press, Some(Hit::Text), chrome, under, fresh, now),
        !press.flags.control,
        !press.flags.command,
        !press.flags.option,
        before.state.fields.palette is None,
        before.state.fields.sidebar_edit is None,
        !before.state.reviewing(),
        under.fold is None,
        under.chip is None,
        !chrome.toolbar.has(press.x, press.y),
        !(chrome.sidebar matches Some(rect) && rect.has(press.x, press.y)),
        chrome.text.has(press.x, press.y),
        !before.state.git.open,
        under.home is None,
        before.state.pane.preview is None,
        under.offset <= before.state.pane.docs.front().text@.len(),
        under.word.0 <= under.word.1 <= before.state.pane.docs.front().text@.len(),
        under.line.0 <= under.line.1 <= before.state.pane.docs.front().text@.len(),
    ensures
        ({
            let at = before.state.pane.docs.active as int;
            let was = before.state.pane.docs.list@[at];
            let is = after.state.pane.docs.list@[at];
            &&& is.text == was.text
            &&& press.clicks <= 1 && !press.flags.shift ==> is.cursor == under.offset && is.anchor
                == under.offset
            &&& press.flags.shift ==> is.cursor == under.offset && is.anchor == was.anchor
            &&& press.clicks == 2 && !press.flags.shift ==> is.anchor == under.word.0 && is.cursor
                == under.word.1
            &&& press.clicks >= 3 && !press.flags.shift ==> is.anchor == under.line.0 && is.cursor
                == under.line.1
        }),
{
    promises::a_press_places_the_caret(after, before, press, under, now);
}

/// A press on a part of the window leads to what the part is for, and to that
/// one: a tab is held and gone to, a session comes to the front, a review is
/// accepted or rejected, another pane gets the keyboard before the press.
pub proof fn a_press_on_a_part_does_what_it_is_for(
    after: EditorView,
    before: EditorView,
    hit: Hit,
    press: Press,
    under: Under,
    fresh: u64,
    now: u64,
)
    requires
        after.takes_hit(before, hit, press, under, fresh, now),
    ensures
        hit matches Hit::Tab(index) ==> after.state.tab_bar.drag == Some(index) && after.effects@
            == before.effects@.push(Effect::Run(Task::TabClick)),
        hit matches Hit::TabClose(index) ==> after.state.tab_bar.drag is None && after.effects@
            == before.effects@.push(Effect::Run(Task::TabClick)),
        hit matches Hit::TerminalTab(index) ==> after.state.terminal.active == index
            && after.state.terminal.tabs == before.state.terminal.tabs,
        hit matches Hit::TerminalClose(index) ==> after.effects@ == before.effects@.push(
            Effect::Run(Task::CloseSession(index)),
        ),
        hit matches Hit::Pane(index) ==> after.effects@ == before.effects@ + seq![
            Effect::Run(Task::FocusPane(index)),
            Effect::Run(Task::MouseDown),
        ],
        hit is ReviewAccept ==> after.effects@ == before.effects@.push(
            Effect::Run(Task::ReviewDecision(true)),
        ),
        hit is ReviewReject ==> after.effects@ == before.effects@.push(
            Effect::Run(Task::ReviewDecision(false)),
        ),
        hit matches Hit::ResponseSegment(index) ==> after.effects@ == before.effects@.push(
            Effect::Run(Task::ResponseSelect(index)),
        ),
        hit is SidebarDivider ==> after.state.drag.divider,
        hit is TerminalDivider ==> after.state.drag.terminal,
        hit is ToolbarSidebar ==> after.effects@ == before.effects@.push(
            Effect::Run(Task::ToggleSidebar),
        ),
        hit is ToolbarSearch ==> after.effects@ == before.effects@.push(
            Effect::Run(Task::OpenPalette),
        ),
        hit is ToolbarTerminal ==> after.effects@ == before.effects@.push(
            Effect::Run(Task::ToggleTerminal),
        ),
        hit is SidebarExplorer ==> after.effects@ == before.effects@.push(
            Effect::Run(Task::SetSidebarView(false)),
        ),
        hit is SidebarSourceControl ==> after.effects@ == before.effects@.push(
            Effect::Run(Task::SetSidebarView(true)),
        ),
{
}

/// A thumb that is pressed stays under the pointer; a press beside it brings
/// its middle there.
pub proof fn the_thumb_stays_under_the_pointer(press: Press, thumb: Rect)
    requires
        thumb.near(),
        mouse::in_reach(press.x, press.y),
    ensures
        thumb.has(press.x, press.y) ==> press.y - mouse::grabbed_at(press, thumb) == thumb.y
            && mouse::thumb_work(press, thumb).len() == 0,
        !thumb.has(press.x, press.y) ==> mouse::thumb_work(press, thumb) == seq![
            Effect::ScrollToThumb((press.y - mouse::grabbed_at(press, thumb)) as i32),
        ],
{
}

/// What is held follows the pointer: the thumb by where it was taken, the
/// sidebar's edge within its bounds, the selection to the pointer.
pub proof fn what_is_held_follows_the_pointer(
    after: EditorView,
    before: EditorView,
    at: Spot,
    chrome: Chrome,
    least: i32,
    interval: u64,
    now: u64,
)
    requires
        before.state.wf(),
        after.moves_drag(before, at, false, chrome, least, interval, now),
        before.state.tab_bar.drag is None,
    ensures
        before.state.drag.scrollbar matches Some(grab) ==> after.effects@.len()
            > before.effects@.len() && after.effects@[before.effects@.len() as int]
            == Effect::ScrollToThumb((at.y - grab) as i32),
        before.state.drag.scrollbar is None && before.state.side.drag is None
            && !before.state.terminal.selecting && !before.state.drag.terminal
            && before.state.drag.divider ==> {
            &&& frame::SIDEBAR_MIN <= at.x <= frame::SIDEBAR_MAX ==> after.state.side.width == at.x
            &&& at.x < frame::SIDEBAR_MIN ==> after.state.side.width == frame::SIDEBAR_MIN
            &&& at.x > frame::SIDEBAR_MAX ==> after.state.side.width == frame::SIDEBAR_MAX
        },
        before.state.drag.scrollbar is None && before.state.side.drag is None
            && !before.state.terminal.selecting && !before.state.drag.terminal
            && !before.state.drag.divider && before.state.drag.selecting is Some
            ==> after.state.drag.point == Some(at),
        after.state.pane.docs == before.state.pane.docs,
{
}

/// A tab that is dragged comes to stand under the pointer, the others close up,
/// and the document in front stays in front.
pub proof fn a_dragged_tab_stands_under_the_pointer(
    after: EditorView,
    before: EditorView,
    x: i32,
    now: u64,
    i: int,
    from: usize,
)
    requires
        before.state.wf(),
        after.drags_tab(before, x, now),
        before.state.tab_bar.drag == Some(from),
        0 <= i < before.state.pane.tab_hits@.len(),
        before.state.pane.tab_hits@[i].x0 <= x < before.state.pane.tab_hits@[i].x1,
        forall|j: int|
            0 <= j < i ==> !((#[trigger] before.state.pane.tab_hits@[j]).x0 <= x
                < before.state.pane.tab_hits@[j].x1),
        from < before.state.pane.docs.list@.len(),
        before.state.pane.tab_hits@[i].index < before.state.pane.docs.list@.len(),
        before.state.pane.tab_hits@[i].index != from,
    ensures
        ({
            let to = before.state.pane.tab_hits@[i].index;
            let was = before.state.pane.docs.list@;
            let is = after.state.pane.docs.list@;
            &&& is.len() == was.len()
            &&& is[to as int] == was[from as int]
            &&& is.remove(to as int) == was.remove(from as int)
            &&& after.state.tab_bar.drag == Some(to)
        }),
        after.state.pane.docs.front() == before.state.pane.docs.front(),
{
    promises::the_tab_at_a_point_reaches_over_it(before.state.pane.tab_hits@, x);
    let hits = before.state.pane.tab_hits@;
    if let Some(k) = tabs::tab_under(hits, x) {
        if k < i {
            assert(hits[k].x0 <= x < hits[k].x1);
        } else if i < k {
            assert(!(hits[i].x0 <= x < hits[i].x1));
        }
    }
    let to = hits[i].index as int;
    let was = before.state.pane.docs.list@;
    let is = after.state.pane.docs.list@;
    assert(is.remove(to) =~= was.remove(from as int));
}

/// A drag inside the text scrolls nothing and reaches where the pointer is;
/// above it the text goes up, below it down, and the reach stays inside.
pub proof fn a_drag_past_the_edge_scrolls_that_way(
    after: EditorView,
    before: EditorView,
    text: Rect,
    interval: u64,
    more: bool,
)
    requires
        before.state.wf(),
        pointer::drag_area(text),
        text.height >= 100,
        interval <= 1_000_000,
        after.drags(before, text, interval, more),
        before.state.drag.selecting is Some,
        before.state.drag.point is Some,
    ensures
        ({
            let at = before.state.drag.point->0;
            let sent = promises::gained(after, before);
            &&& more == (at.y < text.y || at.y > text.y + text.height)
            &&& text.y <= at.y <= text.y + text.height ==> sent.len() == 1
            &&& sent.last() matches Effect::ReachTo(reach)
            &&& text.x <= reach.x <= text.x + text.width - 100
            &&& text.y <= reach.y <= text.y + text.height - 100
            &&& text.x <= at.x <= text.x + text.width - 100 ==> reach.x == at.x
            &&& text.y <= at.y <= text.y + text.height - 100 ==> reach.y == at.y
        }),
        after.state.pane == before.state.pane,
{
    let at = before.state.drag.point->0;
    let past = pointer::past_edge(text, at.y as int);
    let lines = pointer::whole_lines(before.carried(text, at, interval));
    let done = (if past != 0 {
        seq![Effect::ScrollLines(lines as i64)]
    } else {
        Seq::empty()
    }) + seq![Effect::ReachTo(pointer::pulled_inside(text, at))];
    assert(promises::gained(after, before) =~= done);
}

/// The further past the edge, the faster, and never the wrong way.
pub proof fn further_out_is_faster(near: int, far: int)
    requires
        0 < near <= far,
    ensures
        0 < pointer::drag_speed(near) <= pointer::drag_speed(far),
        pointer::drag_speed(-far) <= pointer::drag_speed(-near) < 0,
        pointer::drag_speed(-near) == -pointer::drag_speed(near),
{
    assert(near * pointer::HASTE <= far * pointer::HASTE) by (nonlinear_arith)
        requires
            near <= far,
            pointer::HASTE >= 0,
    ;
    assert(near * pointer::HASTE >= 0) by (nonlinear_arith)
        requires
            near > 0,
            pointer::HASTE >= 0,
    ;
}

/// The tab that is lit is the one the pointer is over, and none when it is off
/// the strip.
pub proof fn the_hovered_tab_is_under_the_pointer(hits: Seq<TabHit>, strip: Rect, at: Spot)
    ensures
        !strip.has(at.x, at.y) ==> pointer::hovered(hits, strip, Some(at)) is None,
        pointer::hovered(hits, strip, None) is None,
        strip.has(at.x, at.y) ==> match pointer::hovered(hits, strip, Some(at)) {
            Some(index) => exists|i: int|
                0 <= i < hits.len() && (#[trigger] hits[i]).index == index && hits[i].x0 <= at.x
                    < hits[i].x1,
            None => forall|i: int|
                0 <= i < hits.len() ==> !((#[trigger] hits[i]).x0 <= at.x < hits[i].x1),
        },
{
    promises::the_tab_at_a_point_reaches_over_it(hits, at.x);
}

/// A list that opens begins where the typed word begins, in the document in
/// front, and its server is asked about this file and this place when it is
/// ready and knows it; a path is not the server's business.
pub proof fn a_list_opens_at_its_word(
    after: EditorView,
    flushed: EditorView,
    before: BeforeCaret,
    at: Position,
    request: u64,
    s: int,
)
    requires
        flushed.state.wf(),
        before.typed() <= flushed.state.pane.docs.front().cursor,
        after.opens_list(flushed, before, true, at, request),
        flushed.state.pane.docs.front().path is Some,
        promises::serves(flushed.state.servers.list@, s, flushed.state.pane.docs.front()),
        promises::has_heard_of(
            flushed.state.servers.list@[s],
            flushed.state.pane.docs.front().path->0@,
        ),
    ensures
        after.state.hints.completion matches Some(popup) && popup.buffer
            == flushed.state.pane.docs.front().id && popup.anchor
            == flushed.state.pane.docs.front().cursor - before.typed(),
        before.partial is None ==> after.effects@.len() > flushed.effects@.len()
            && after.effects@[flushed.effects@.len() as int] == Effect::Completion(
            flushed.state.pane.docs.front().path->0,
            at,
        ),
        before.partial is None ==> after.state.hints.completion->0.request == request,
        after.effects@.last() == Effect::Rank,
        after.state.pane == flushed.state.pane,
{
    let front = flushed.state.pane.docs.front();
    let list = flushed.state.servers.list@;
    crate::servers::server_at_is_first(list, front.language->0.server);
    assert(list[s].key == front.language->0.server);
    assert(crate::servers::server_at(list, front.language->0.server) == Some(s));
    assert(list[s].is_told(front.path->0@));
}

/// Suggestions go into the list that asked for them; an answer to an older
/// question changes nothing.
pub proof fn suggestions_go_into_their_list(
    after: EditorView,
    before: EditorView,
    event: ServerEvent,
    now: u64,
    popup: CompletionPopup,
)
    requires
        after.takes_event(before, event, now),
        event is Completions,
        before.state.hints.completion == Some(popup),
        popup.buffer == before.state.pane.docs.front().id,
        before.state.pane.docs.front().cursor >= popup.anchor,
    ensures
        popup.request == event->Completions_1 ==> {
            &&& after.state.hints.completion matches Some(filled)
            &&& filled.items == event->Completions_0
            &&& filled.anchor == popup.anchor
            &&& after.effects@ == before.effects@.push(Effect::Rank)
        },
        popup.request != event->Completions_1 ==> after.state.hints.completion == Some(popup)
            && after.effects@ == before.effects@,
        after.state.pane == before.state.pane,
{
}

/// The worker is asked with a number that no earlier question had, and the open
/// list waits for the answer with that number.
pub proof fn the_worker_is_asked_anew(after: EditorView, before: EditorView)
    requires
        after.asks_worker(before),
        suggest::list_at_caret(before.state),
    ensures
        after.state.hints.worker.generation != before.state.hints.worker.generation,
        after.state.hints.completion matches Some(popup) && popup.generation
            == after.state.hints.worker.generation,
        after.effects@.last() == Effect::AskWorker(after.state.hints.worker.generation),
{
}

/// The suggestion that is taken is the one asked for, and the picked one when
/// none is.
pub proof fn the_suggestion_asked_for_is_taken(popup: CompletionPopup, index: usize)
    ensures
        suggest::taken(popup, Some(index)) == index,
        suggest::taken(popup, None) == popup.selected,
{
}

/// The keys of the digits stand for the suggestions in their order.
pub proof fn the_digits_are_in_their_order(a: u16, b: u16)
    ensures
        completion::digit_key(a) is Some && completion::digit_key(a) == completion::digit_key(b)
            ==> a == b,
        completion::digit_key(18) == Some(0usize),
        completion::digit_key(19) == Some(1usize),
        completion::digit_key(20) == Some(2usize),
        completion::digit_key(21) == Some(3usize),
        completion::digit_key(23) == Some(4usize),
        completion::digit_key(22) == Some(5usize),
        completion::digit_key(26) == Some(6usize),
        completion::digit_key(28) == Some(7usize),
        completion::digit_key(25) == Some(8usize),
{
}

/// Tab has the picked suggestion taken, Option with a digit the one with that
/// number, and the arrows pick the next and the previous, round the ends.
pub proof fn the_keys_of_the_list_work(
    after: EditorView,
    before: EditorView,
    popup: CompletionPopup,
    event: KeyEvent,
    now: u64,
)
    requires
        before.state.wf(),
        before.state.hints.completion == Some(popup),
        popup.shown@.len() > 0,
        after.handles_popup_key(before, popup, event, now),
        !event.flags.command,
    ensures
        event.code == keys::TAB && !event.flags.option ==> after.effects@.len()
            > before.effects@.len() && after.effects@[before.effects@.len() as int] == Effect::Run(
            Task::AcceptCompletion(None),
        ),
        event.flags.option ==> (completion::digit_key(event.code) matches Some(n) ==> n
            < popup.shown@.len() ==> after.effects@.len() > before.effects@.len()
            && after.effects@[before.effects@.len() as int] == Effect::Run(
            Task::AcceptCompletion(Some(n)),
        )),
        event.code == keys::DOWN ==> {
            &&& after.state.hints.completion matches Some(then)
            &&& then.chosen
            &&& popup.selected + 1 < popup.shown@.len() ==> then.selected == popup.selected + 1
            &&& popup.selected + 1 == popup.shown@.len() ==> then.selected == 0
        },
        event.code == keys::UP ==> {
            &&& after.state.hints.completion matches Some(then)
            &&& then.chosen
            &&& popup.selected > 0 ==> then.selected == popup.selected - 1
            &&& popup.selected == 0 ==> then.selected == popup.shown@.len() - 1
        },
        event.code == keys::ESCAPE ==> after.state.hints.completion is None,
        after.state.pane == before.state.pane,
{
    assert(popup.shown@.len() == popup.shown.len());
}

} // verus!
