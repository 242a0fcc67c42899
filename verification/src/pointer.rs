//! The pointer while it is held down, hovers, or asks for a menu.

use crate::frame::{self, clamp_sidebar, lands, Chrome, Rect};
use crate::menu::{self, editor_context_menu, project_menu, sidebar_item_menu, tab_menu, Menu};
use crate::mouse;
use crate::sidebar::{Tree, TreeDrag};
use crate::state::{
    Drag, EditorView, Effect, SelectUnit, Selecting, Side, Spot, State, TabBar, TabHit, Task,
    REACH, WHOLE_LINE,
};
use crate::tabs::{self, find_tab};
use crate::terminal::TerminalPanel;
use vstd::prelude::*;

verus! {

/// How much of the editor a tall terminal leaves.
pub const EDITOR_LEAST: i32 = 20_000;

/// The slowest a held drag scrolls, in thousandths of a line per second.
pub const CREEP: i64 = 8_000;

/// How much faster it gets with each hundredth of a point.
pub const HASTE: i64 = 15;

/// The fastest it gets.
pub const RUSH: i64 = 240_000;

/// The longest a frame may take, in microseconds.
pub const SECOND: u64 = 1_000_000;

/// How far the pointer is past the top or the bottom of the text: below zero
/// above it.
pub open spec fn past_edge(text: Rect, y: int) -> int {
    if y < text.y {
        y - text.y
    } else if y > text.y + text.height {
        y - (text.y + text.height)
    } else {
        0
    }
}

/// How fast a held drag scrolls, in thousandths of a line per second: a nudge
/// past the edge creeps, a long way out runs.
pub open spec fn drag_speed(past: int) -> int {
    let far = if past < 0 {
        -past
    } else {
        past
    };
    let speed = if CREEP + far * HASTE < RUSH {
        CREEP + far * HASTE
    } else {
        RUSH as int
    };
    if past < 0 {
        -speed
    } else {
        speed
    }
}

/// The whole lines in `carry`, towards zero.
pub open spec fn whole_lines(carry: int) -> int {
    if carry < 0 {
        -((-carry) / (WHOLE_LINE as int))
    } else {
        carry / (WHOLE_LINE as int)
    }
}

/// `value`, no less than `low` and no more than `high`.
pub open spec fn between(value: int, low: int, high: int) -> int {
    if value < low {
        low
    } else if value > high {
        high
    } else {
        value
    }
}

/// The pointer, pulled inside the text: dragging above the window selects up
/// to the first visible line.
pub open spec fn pulled_inside(text: Rect, at: Spot) -> Spot {
    Spot {
        x: between(at.x as int, text.x as int, text.x + text.width - 100) as i32,
        y: between(
            at.y as int,
            text.y as int,
            text.y + (if text.height < 100 {
                0
            } else {
                text.height - 100
            }),
        ) as i32,
    }
}

/// See [`between`].
fn clamp(value: i32, low: i32, high: i32) -> (r: i32)
    ensures
        r == between(value as int, low as int, high as int),
{
    if value < low {
        low
    } else if value > high {
        high
    } else {
        value
    }
}

/// See [`whole_lines`].
fn lines_in(carry: i64) -> (lines: i64)
    requires
        carry > i64::MIN,
    ensures
        lines == whole_lines(carry as int),
{
    if carry < 0 {
        let n = (-carry) / WHOLE_LINE;
        -n
    } else {
        carry / WHOLE_LINE
    }
}

/// Whether the text can be dragged in: near, and at least a point wide.
pub open spec fn drag_area(text: Rect) -> bool {
    text.near() && text.width >= 100
}

impl EditorView {
    /// What a held drag leaves to scroll.
    pub open spec fn carried(&self, text: Rect, at: Spot, interval: u64) -> int {
        let past = past_edge(text, at.y as int);
        if past == 0 {
            0
        } else {
            self.state.drag.carry + drag_speed(past) * interval
        }
    }

    /// This is `before` with the selection on its way to the drag point.
    pub open spec fn drags(&self, before: EditorView, text: Rect, interval: u64, more: bool) -> bool {
        if before.state.drag.selecting is None || before.state.drag.point is None {
            !more && *self == before
        } else {
            let at = before.state.drag.point->0;
            let carry = before.carried(text, at, interval);
            let lines = whole_lines(carry);
            let past = past_edge(text, at.y as int);
            &&& more == (past != 0)
            &&& self.becomes(
                before,
                before.state.with_drag(
                    Drag { carry: (carry - lines * WHOLE_LINE) as i64, ..before.state.drag },
                ),
                (if past != 0 {
                    seq![Effect::ScrollLines(lines as i64)]
                } else {
                    Seq::empty()
                }) + seq![Effect::ReachTo(pulled_inside(text, at))],
            )
        }
    }

    /// Extends the selection to the last known drag point, scrolling first if
    /// that point is past the top or bottom of the text. Returns whether it
    /// is, which is to say whether this needs calling again next frame.
    ///
    /// How far past the edge sets the speed. `interval` is how long the frame
    /// takes, in microseconds.
    pub fn drag_select(&mut self, text: Rect, interval: u64) -> (more: bool)
        requires
            old(self).state.wf(),
            drag_area(text),
            interval <= SECOND,
        ensures
            final(self).state.wf(),
            final(self).drags(*old(self), text, interval, more),
    {
        if self.state.drag.selecting.is_none() {
            return false;
        }
        let at = match self.state.drag.point {
            Some(at) => at,
            None => {
                return false;
            },
        };
        let past = if at.y < text.y {
            at.y - text.y
        } else if at.y > text.y + text.height {
            at.y - (text.y + text.height)
        } else {
            0
        };
        assert(past == past_edge(text, at.y as int));
        let mut carry: i64 = 0;
        if past != 0 {
            let far: i64 = if past < 0 {
                -(past as i64)
            } else {
                past as i64
            };
            let speed = if CREEP + far * HASTE < RUSH {
                CREEP + far * HASTE
            } else {
                RUSH
            };
            let speed = if past < 0 {
                -speed
            } else {
                speed
            };
            assert(speed == drag_speed(past as int));
            assert(-240_000_000_000 <= speed * interval <= 240_000_000_000) by (nonlinear_arith)
                requires
                    -240_000 <= speed <= 240_000,
                    0 <= interval <= 1_000_000,
            ;
            carry = self.state.drag.carry + speed * (interval as i64);
        }
        assert(carry == self.carried(text, at, interval));
        let lines = lines_in(carry);
        self.state.drag.carry = carry - lines * WHOLE_LINE;
        if past != 0 {
            self.effects.push(Effect::ScrollLines(lines));
        }
        let inside = Spot {
            x: clamp(at.x, text.x, text.x + text.width - 100),
            y: clamp(
                at.y,
                text.y,
                text.y + (if text.height < 100 {
                    0
                } else {
                    text.height - 100
                }),
            ),
        };
        self.effects.push(Effect::ReachTo(inside));
        assert(self.effects@ =~= old(self).effects@ + ((if past != 0 {
            seq![Effect::ScrollLines(lines)]
        } else {
            Seq::empty()
        }) + seq![Effect::ReachTo(inside)]));
        past != 0
    }
}

/// What a drag that has reached `start` to `end` selects: what the press took
/// stays selected, and the drag grows it towards the pointer on whichever side
/// the pointer is.
pub open spec fn dragged_to(
    held: Selecting,
    anchor: usize,
    offset: usize,
    reached: (usize, usize),
) -> (usize, usize) {
    let (start, end) = match held.unit {
        SelectUnit::Character => (offset, offset),
        _ => reached,
    };
    if start < held.start {
        (held.end, start)
    } else if held.unit is Character {
        (anchor, offset)
    } else {
        (
            held.start,
            if end > held.end {
                end
            } else {
                held.end
            },
        )
    }
}

impl EditorView {
    /// The drag has reached `offset`, and the word or line around it is
    /// `reached`.
    pub fn drag_reached(&mut self, offset: usize, reached: (usize, usize))
        requires
            old(self).state.wf(),
        ensures
            final(self).state.wf(),
            final(self).ivars == old(self).ivars,
            final(self).effects == old(self).effects,
            match old(self).state.drag.selecting {
                None => final(self).state == old(self).state,
                Some(held) => {
                    let to = dragged_to(
                        held,
                        old(self).state.pane.docs.front().anchor,
                        offset,
                        reached,
                    );
                    mouse::places(final(self).state, old(self).state, to.0, to.1)
                },
            },
            old(self).state.drag.selecting matches Some(held) ==> held.unit is Character
                && held.start == held.end && held.start == old(self).state.pane.docs.front().anchor
                && offset <= old(self).state.pane.docs.front().text@.len() ==> {
                &&& final(self).state.pane.docs.front().anchor == held.start
                &&& final(self).state.pane.docs.front().cursor == offset
            },
    {
        let held = match self.state.drag.selecting {
            Some(held) => held,
            None => {
                return;
            },
        };
        let (start, end) = match held.unit {
            SelectUnit::Character => (offset, offset),
            _ => reached,
        };
        if start < held.start {
            self.state.pane.docs.select_in_front(held.end, start);
        } else if held.unit == SelectUnit::Character {
            let anchor = self.state.pane.docs.active().anchor;
            self.state.pane.docs.select_in_front(anchor, offset);
        } else {
            let end = if end > held.end {
                end
            } else {
                held.end
            };
            self.state.pane.docs.select_in_front(held.start, end);
        }
    }
}

/// A drag by characters selects from where the press was to where the pointer
/// is, on either side of it, with the caret where the pointer is. The text
/// stays.
pub proof fn a_drag_selects_from_the_press_to_the_pointer(
    after: State,
    before: State,
    held: Selecting,
    press: usize,
    offset: usize,
    reached: (usize, usize),
)
    requires
        before.wf(),
        held.unit is Character,
        held.start == press,
        held.end == press,
        before.pane.docs.front().anchor == press,
        offset <= before.pane.docs.front().text@.len(),
        ({
            let to = dragged_to(held, before.pane.docs.front().anchor, offset, reached);
            mouse::places(after, before, to.0, to.1)
        }),
    ensures
        after.pane.docs.active == before.pane.docs.active,
        ({
            let was = before.pane.docs.list@[before.pane.docs.active as int];
            let is = after.pane.docs.list@[before.pane.docs.active as int];
            &&& is.cursor == offset
            &&& is.anchor == press
            &&& is.text == was.text
            &&& is.dirty == was.dirty
        }),
{
}

/// A drag by words or lines selects what the press took and what the pointer
/// is in, and all that lies between: from the start of the earlier to the end
/// of the later, with the caret at the pointer's side.
pub proof fn a_drag_selects_whole_units(
    after: State,
    before: State,
    held: Selecting,
    offset: usize,
    reached: (usize, usize),
)
    requires
        before.wf(),
        !(held.unit is Character),
        held.start <= held.end <= before.pane.docs.front().text@.len(),
        reached.0 <= reached.1 <= before.pane.docs.front().text@.len(),
        reached.0 < held.start ==> reached.1 <= held.end,
        ({
            let to = dragged_to(held, before.pane.docs.front().anchor, offset, reached);
            mouse::places(after, before, to.0, to.1)
        }),
    ensures
        ({
            let is = after.pane.docs.list@[before.pane.docs.active as int];
            if reached.0 < held.start {
                is.cursor == reached.0 && is.anchor == held.end
            } else if reached.1 > held.end {
                is.anchor == held.start && is.cursor == reached.1
            } else {
                is.anchor == held.start && is.cursor == held.end
            }
        }),
{
}

/// What the press took stays selected however the drag goes, as long as it
/// selects in words or lines.
pub proof fn a_drag_never_shrinks_the_press(
    held: Selecting,
    anchor: usize,
    offset: usize,
    reached: (usize, usize),
)
    requires
        !(held.unit is Character),
        held.start <= held.end,
        reached.0 <= reached.1,
    ensures
        ({
            let to = dragged_to(held, anchor, offset, reached);
            let low = if to.0 < to.1 {
                to.0
            } else {
                to.1
            };
            let high = if to.0 < to.1 {
                to.1
            } else {
                to.0
            };
            low <= held.start && held.end <= high
        }),
{
}

/// Nothing of a held drag is lost to rounding: what is scrolled and what is
/// carried on make up what was due, and what is carried on is less than a line.
pub proof fn scrolling_loses_nothing(
    after: EditorView,
    before: EditorView,
    text: Rect,
    interval: u64,
    more: bool,
)
    requires
        before.state.wf(),
        drag_area(text),
        interval <= SECOND,
        before.state.drag.selecting is Some,
        before.state.drag.point is Some,
        after.drags(before, text, interval, more),
    ensures
        ({
            let due = before.carried(text, before.state.drag.point->0, interval);
            whole_lines(due) * WHOLE_LINE + after.state.drag.carry == due
        }),
        -WHOLE_LINE < after.state.drag.carry < WHOLE_LINE,
{
    let at = before.state.drag.point->0;
    let speed = drag_speed(past_edge(text, at.y as int));
    assert(-240_000_000_000 <= speed * interval <= 240_000_000_000) by (nonlinear_arith)
        requires
            -240_000 <= speed <= 240_000,
            0 <= interval <= 1_000_000,
    ;
}

/// How tall the terminal panel is when its edge is at `y`: from there down to
/// the status line, and never so tall that the editor loses its tabs and a few
/// lines.
pub open spec fn panel_height(chrome: Chrome, least: i32, y: i32) -> int {
    let room = chrome.status.y - (chrome.toolbar.y + chrome.toolbar.height) - EDITOR_LEAST;
    let most = if room > least {
        room
    } else {
        least as int
    };
    between(chrome.status.y - y, least as int, most)
}

impl EditorView {
    /// This is `before` with the tab that is dragged moved under the pointer.
    pub open spec fn drags_tab(&self, before: EditorView, x: i32, now: u64) -> bool {
        let s = before.state;
        let from = s.tab_bar.drag->0;
        match tabs::tab_under(s.pane.tab_hits@, x) {
            None => *self == before,
            Some(i) => {
                let to = s.pane.tab_hits@[i].index;
                let count = s.pane.docs.list@.len();
                if from != to && from < count && to < count {
                    let docs = self.state.pane.docs;
                    &&& docs.list@ == s.pane.docs.list@.remove(from as int).insert(
                        to as int,
                        s.pane.docs.list@[from as int],
                    )
                    &&& docs.front() == s.pane.docs.front()
                    &&& self.shows(
                        before,
                        s.with_docs(docs).with_tab_bar(TabBar { drag: Some(to), ..s.tab_bar }),
                        Seq::empty(),
                        now,
                    )
                } else {
                    *self == before
                }
            },
        }
    }

    /// Moves the tab that is dragged.
    fn drag_tab(&mut self, from: usize, x: i32, now: u64)
        requires
            old(self).state.wf(),
            old(self).state.tab_bar.drag == Some(from),
        ensures
            final(self).state.wf(),
            final(self).drags_tab(*old(self), x, now),
    {
        let to = match find_tab(&self.state.pane.tab_hits, x) {
            Some(i) => self.state.pane.tab_hits[i].index,
            None => {
                return;
            },
        };
        if !self.state.pane.docs.move_tab(from, to) {
            return;
        }
        self.state.tab_bar.drag = Some(to);
        self.show(now);
        assert(self.effects@ =~= old(self).effects@ + (Seq::<Effect>::empty() + old(self).pumping(
            now,
        )));
    }

    /// This is `before` with the selection dragged on to the pointer.
    pub open spec fn drags_text(
        &self,
        before: EditorView,
        at: Spot,
        text: Rect,
        interval: u64,
        now: u64,
    ) -> bool {
        exists|pointed: EditorView, selected: EditorView, more: bool|
            {
                &&& #[trigger] pointed.becomes(
                    before,
                    before.state.with_drag(Drag { point: Some(at), ..before.state.drag }),
                    Seq::empty(),
                )
                &&& #[trigger] selected.drags(pointed, text, interval, more)
                &&& self.shows(selected, selected.state, Seq::empty(), now)
            }
    }

    /// The pointer moves with the button down. `least` is how small the
    /// terminal panel gets and `interval` how long a frame takes, in
    /// microseconds.
    ///
    /// Only a drag that began in the text selects.
    pub fn mouse_dragged(
        &mut self,
        at: Spot,
        pressed: bool,
        chrome: &Chrome,
        least: i32,
        interval: u64,
        now: u64,
    )
        requires
            old(self).state.wf(),
            mouse::in_reach(at.x, at.y),
            drag_area(chrome.text),
            chrome.status.near(),
            chrome.toolbar.near(),
            0 <= least <= REACH,
            interval <= SECOND,
        ensures
            final(self).state.wf(),
            final(self).moves_drag(*old(self), at, pressed, *chrome, least, interval, now),
    {
        if self.ivars.testing && pressed {
            return;
        }
        if let Some(from) = self.state.tab_bar.drag {
            self.drag_tab(from, at.x, now);
            return;
        }
        if let Some(grab) = self.state.drag.scrollbar {
            self.ask(Effect::ScrollToThumb(at.y - grab));
            self.show(now);
            assert(self.effects@ =~= old(self).effects@ + (seq![
                Effect::ScrollToThumb((at.y - grab) as i32),
            ] + old(self).pumping(now)));
            return;
        }
        if self.state.side.drag.is_some() {
            self.ask(Effect::Run(Task::TreeDragMoved));
            return;
        }
        if self.state.terminal.selecting {
            self.ask(Effect::Run(Task::TerminalDrag));
            return;
        }
        if self.state.drag.terminal {
            let bottom = chrome.status.y;
            let top = chrome.toolbar.y + chrome.toolbar.height;
            let room = bottom - top - EDITOR_LEAST;
            let most = if room > least {
                room
            } else {
                least
            };
            self.state.terminal.height = clamp(bottom - at.y, least, most);
            self.after_terminal_layout(now);
            assert(self.effects@ =~= old(self).effects@ + (Seq::<Effect>::empty() + seq![
                Effect::InvalidateCursorRects,
            ] + old(self).pumping(now)));
            return;
        }
        if self.state.drag.divider {
            self.state.side.width = clamp_sidebar(at.x);
            self.show(now);
            assert(self.effects@ =~= old(self).effects@ + (Seq::<Effect>::empty() + old(
                self,
            ).pumping(now)));
            return;
        }
        if self.state.drag.selecting.is_none() {
            return;
        }
        self.drag_text(at, chrome.text, interval, now);
    }

    /// Drags the selection on to the pointer.
    fn drag_text(&mut self, at: Spot, text: Rect, interval: u64, now: u64)
        requires
            old(self).state.wf(),
            mouse::in_reach(at.x, at.y),
            drag_area(text),
            interval <= SECOND,
        ensures
            final(self).state.wf(),
            final(self).drags_text(*old(self), at, text, interval, now),
    {
        self.state.drag.point = Some(at);
        let ghost pointed = *self;
        assert(pointed.effects@ =~= old(self).effects@ + Seq::<Effect>::empty());
        assert(pointed.becomes(
            *old(self),
            old(self).state.with_drag(Drag { point: Some(at), ..old(self).state.drag }),
            Seq::empty(),
        ));
        let more = self.drag_select(text, interval);
        let ghost selected = *self;
        assert(selected.drags(pointed, text, interval, more));
        self.show(now);
    }

    /// This is `before` with what is held down moved along.
    pub open spec fn moves_drag(
        &self,
        before: EditorView,
        at: Spot,
        pressed: bool,
        chrome: Chrome,
        least: i32,
        interval: u64,
        now: u64,
    ) -> bool {
        let s = before.state;
        if before.ivars.testing && pressed {
            *self == before
        } else if s.tab_bar.drag is Some {
            self.drags_tab(before, at.x, now)
        } else if s.drag.scrollbar is Some {
            self.shows(
                before,
                s,
                seq![Effect::ScrollToThumb((at.y - s.drag.scrollbar->0) as i32)],
                now,
            )
        } else if s.side.drag is Some {
            self.becomes(before, s, seq![Effect::Run(Task::TreeDragMoved)])
        } else if s.terminal.selecting {
            self.becomes(before, s, seq![Effect::Run(Task::TerminalDrag)])
        } else if s.drag.terminal {
            self.relays(
                before,
                s.with_terminal(
                    TerminalPanel {
                        height: panel_height(chrome, least, at.y) as i32,
                        ..s.terminal
                    },
                ),
                Seq::empty(),
                now,
            )
        } else if s.drag.divider {
            self.shows(
                before,
                State {
                    side: Side { width: frame::sidebar_width(at.x as int) as i32, ..s.side },
                    ..s
                },
                Seq::empty(),
                now,
            )
        } else if s.drag.selecting is None {
            *self == before
        } else {
            self.drags_text(before, at, chrome.text, interval, now)
        }
    }

    /// The button comes up. Returns the drag to finish, when something was
    /// dragged to where it may be dropped. A press in the terminal that never
    /// moved selects nothing.
    pub fn mouse_up(&mut self, pressed: bool) -> (drop: Option<TreeDrag>)
        requires
            old(self).state.wf(),
        ensures
            final(self).state.wf(),
            if old(self).ivars.testing && pressed {
                drop is None && *final(self) == *old(self)
            } else {
                &&& final(self).becomes(*old(self), old(self).state.released(), Seq::empty())
                &&& drop == (match old(self).state.side.drag {
                    Some(drag) => if drag.active && drag.valid {
                        Some(drag)
                    } else {
                        None
                    },
                    None => None,
                })
            },
    {
        if self.ivars.testing && pressed {
            return None;
        }
        self.state.drag.divider = false;
        self.state.drag.terminal = false;
        self.state.drag.scrollbar = None;
        if self.state.terminal.selecting {
            if let Some(range) = self.state.terminal.selection {
                if range.from == range.to {
                    self.state.terminal.selection = None;
                }
            }
        }
        self.state.terminal.selecting = false;
        self.state.tab_bar.drag = None;
        self.state.drag.selecting = None;
        self.state.drag.point = None;
        self.state.drag.carry = 0;
        let drag = self.state.side.drag.take();
        assert(self.effects@ =~= old(self).effects@ + Seq::<Effect>::empty());
        match drag {
            Some(drag) => if drag.active && drag.valid {
                Some(drag)
            } else {
                None
            },
            None => None,
        }
    }
}

impl State {
    /// The state with nothing held down.
    pub open spec fn released(self) -> State {
        State {
            drag: Drag {
                divider: false,
                terminal: false,
                scrollbar: None,
                selecting: None,
                point: None,
                carry: 0,
            },
            terminal: TerminalPanel {
                selecting: false,
                selection: if self.terminal.selecting && (self.terminal.selection matches Some(range)
                    && range.from == range.to) {
                    None
                } else {
                    self.terminal.selection
                },
                ..self.terminal
            },
            tab_bar: TabBar { drag: None, ..self.tab_bar },
            side: Side { drag: None, ..self.side },
            ..self
        }
    }
}

/// Letting go twice is letting go once.
pub proof fn letting_go_is_final(s: State)
    ensures
        s.released().released() == s.released(),
{
}

/// The tab under the pointer.
pub open spec fn hovered(hits: Seq<TabHit>, tabs: Rect, at: Option<Spot>) -> Option<usize> {
    match at {
        Some(at) => if tabs.has(at.x, at.y) {
            match tabs::tab_under(hits, at.x) {
                Some(i) => Some(hits[i].index),
                None => None,
            }
        } else {
            None
        },
        None => None,
    }
}

impl EditorView {
    /// Records which tab the pointer is over, redrawing only when it changes.
    /// `at` is `None` when the pointer has left the window.
    pub fn note_hover(&mut self, at: Option<Spot>, tabs: Rect, now: u64)
        requires
            old(self).state.wf(),
        ensures
            final(self).state.wf(),
            ({
                let over = hovered(old(self).state.pane.tab_hits@, tabs, at);
                let s = old(self).state;
                if s.tab_bar.hovered == over {
                    *final(self) == *old(self)
                } else {
                    final(self).shows(
                        *old(self),
                        s.with_tab_bar(TabBar { hovered: over, ..s.tab_bar }),
                        seq![Effect::InvalidateCursorRects],
                        now,
                    )
                }
            }),
    {
        let over = match at {
            Some(at) => if tabs.contains(at.x, at.y) {
                match find_tab(&self.state.pane.tab_hits, at.x) {
                    Some(i) => Some(self.state.pane.tab_hits[i].index),
                    None => None,
                }
            } else {
                None
            },
            None => None,
        };
        if self.state.tab_bar.hovered == over {
            return;
        }
        self.state.tab_bar.hovered = over;
        self.invalidate_tab_cursors();
        self.show(now);
        assert(self.effects@ =~= old(self).effects@ + (seq![Effect::InvalidateCursorRects] + old(
            self,
        ).pumping(now)));
    }

    /// The tab a right-click is on.
    pub open spec fn clicked_tab(&self, at: Spot) -> Option<usize> {
        match tabs::tab_under(self.state.pane.tab_hits@, at.x) {
            Some(i) => Some(self.state.pane.tab_hits@[i].index),
            None => None,
        }
    }

    /// The right-click menu for wherever the click landed. `project` is where
    /// the toolbar's title is and `row` the row of the tree under the pointer.
    ///
    /// A right-click in a panel also selects what is under the pointer, so the
    /// action applies to what was clicked. The empty part of the tab strip
    /// still belongs to the bar: its menu is empty.
    pub fn menu_for_event(
        &mut self,
        at: Spot,
        chrome: &Chrome,
        project: Rect,
        row: Option<usize>,
        now: u64,
    ) -> (menu: Menu)
        requires
            old(self).state.wf(),
            row matches Some(index) ==> index < old(self).state.side.tree.rows@.len(),
        ensures
            final(self).state.wf(),
            ({
                let s = old(self).state;
                let hit = old(self).clicked_tab(at);
                if chrome.toolbar.has(at.x, at.y) && project.has(at.x, at.y) {
                    &&& menu::rows(menu.entries@) == menu::project_rows()
                    &&& *final(self) == *old(self)
                } else if chrome.tabs.has(at.x, at.y) {
                    &&& menu::rows(menu.entries@) == (if hit is Some {
                        menu::tab_rows()
                    } else {
                        Seq::empty()
                    })
                    &&& final(self).becomes(
                        *old(self),
                        s.with_tab_bar(TabBar { context: hit, ..s.tab_bar }),
                        Seq::empty(),
                    )
                } else if frame::lands_in(chrome.sidebar, at.x, at.y) {
                    if row is Some {
                        &&& menu::rows(menu.entries@) == menu::sidebar_rows()
                        &&& final(self).shows(
                            *old(self),
                            State {
                                side: Side {
                                    tree: Tree { selected: row, ..s.side.tree },
                                    keys: true,
                                    ..s.side
                                },
                                ..s
                            },
                            Seq::empty(),
                            now,
                        )
                    } else {
                        &&& menu::rows(menu.entries@) == menu::project_rows()
                        &&& *final(self) == *old(self)
                    }
                } else {
                    &&& menu::rows(menu.entries@) == menu::editor_rows()
                    &&& *final(self) == *old(self)
                }
            }),
    {
        if chrome.toolbar.contains(at.x, at.y) && project.contains(at.x, at.y) {
            return project_menu();
        }
        if chrome.tabs.contains(at.x, at.y) {
            let hit = match find_tab(&self.state.pane.tab_hits, at.x) {
                Some(i) => Some(self.state.pane.tab_hits[i].index),
                None => None,
            };
            self.state.tab_bar.context = hit;
            assert(self.effects@ =~= old(self).effects@ + Seq::<Effect>::empty());
            return match hit {
                Some(_) => tab_menu(),
                None => {
                    let menu = Menu {
                        title: "".to_owned(),
                        entries: Vec::new(),
                        services: true,
                    };
                    assert(menu::rows(menu.entries@) =~= Seq::empty());
                    menu
                },
            };
        }
        if lands(&chrome.sidebar, at.x, at.y) {
            if row.is_some() {
                self.state.side.tree.selected = row;
                self.state.side.keys = true;
                self.show(now);
                assert(self.effects@ =~= old(self).effects@ + (Seq::<Effect>::empty() + old(
                    self,
                ).pumping(now)));
                return sidebar_item_menu();
            }
            return project_menu();
        }
        editor_context_menu()
    }

    /// Closes session `index` of the terminal panel.
    pub fn close_session(&mut self, index: usize, now: u64)
        requires
            old(self).state.wf(),
        ensures
            final(self).state.wf(),
            ({
                let panel = final(self).state.terminal;
                let before = old(self).state.terminal;
                &&& if index < before.tabs@.len() {
                    panel.keeps(
                        before,
                        before.tabs@.remove(index as int),
                        before.active_without(index as int),
                    )
                } else {
                    panel == before
                }
                &&& final(self).relays(
                    *old(self),
                    old(self).state.with_terminal(panel),
                    Seq::empty(),
                    now,
                )
            }),
    {
        self.state.terminal.close_tab(index);
        self.after_terminal_layout(now);
        assert(self.effects@ =~= old(self).effects@ + (Seq::<Effect>::empty() + seq![
            Effect::InvalidateCursorRects,
        ] + old(self).pumping(now)));
    }
}

} // verus!
